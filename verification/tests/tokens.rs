use peroxide::keyring::Keys;
use peroxide::token::{decode, UserToken, TOKEN_LIFETIME_SECS};
use peroxide::user::{Rank, User};

fn sample_user() -> User {
    User {
        name: "Ann".to_string(),
        username: "ann".to_string(),
        profile_pic: None,
        salt: vec![7u8; 64],
        sh_pass: vec![9u8; 64],
        email: "a@x.com".to_string(),
        rank: Rank::User,
    }
}

#[test]
fn encode_decode_round_trip() {
    let keys = Keys::new(b"a process secret");
    let now = 1_700_000_000u64;
    let token = UserToken::derive(&sample_user(), now);
    assert_eq!(token.username, "ann");
    assert_eq!(token.exp, now + TOKEN_LIFETIME_SECS);
    let bytes = token.encode(&keys);
    let back = decode(&bytes, &keys, now).expect("a fresh token decodes");
    assert_eq!(back.username, token.username);
    assert_eq!(back.sh_pass, token.sh_pass);
    assert_eq!(back.exp, token.exp);
}

#[test]
fn confirmation_is_second_order() {
    // The token never carries the stored hash itself: its confirmation
    // field is the base64 of a digest of it, so the raw hash bytes are
    // absent from the claims.
    let token = UserToken::derive(&sample_user(), 0);
    assert_ne!(token.sh_pass.as_bytes(), &[9u8; 64][..]);
    // Recomputing for the same stored hash gives the same confirmation.
    let again = UserToken::derive(&sample_user(), 0);
    assert_eq!(token.sh_pass, again.sh_pass);
}

#[test]
fn keyring_rejects_other_secret() {
    let keys = Keys::new(b"a process secret");
    let other = Keys::new(b"another secret");
    let now = 10u64;
    let bytes = UserToken::derive(&sample_user(), now).encode(&keys);
    assert!(decode(&bytes, &keys, now).is_some());
    assert!(decode(&bytes, &other, now).is_none());
}

#[test]
fn every_bit_flip_is_rejected() {
    // Tamper detection: flipping any single bit of an encoded token makes
    // decode fail.
    let keys = Keys::new(b"a process secret");
    let now = 1_700_000_000u64;
    let bytes = UserToken::derive(&sample_user(), now).encode(&keys);
    for i in 0..bytes.len() {
        for bit in 0..8 {
            let mut tampered = bytes.clone();
            tampered[i] ^= 1u8 << bit;
            assert!(
                decode(&tampered, &keys, now).is_none(),
                "flipping bit {bit} of byte {i} was accepted"
            );
        }
    }
}

#[test]
fn truncation_and_garbage_are_rejected() {
    let keys = Keys::new(b"a process secret");
    let now = 5u64;
    let bytes = UserToken::derive(&sample_user(), now).encode(&keys);
    assert!(decode(&bytes[..bytes.len() - 1], &keys, now).is_none());
    assert!(decode(&bytes[1..], &keys, now).is_none());
    assert!(decode(&[], &keys, now).is_none());
    assert!(decode(b"not a token at all", &keys, now).is_none());
}

#[test]
fn empty_claims_round_trip() {
    // The framing copes with empty strings: zero-length fields are framed
    // and read back exactly.
    let keys = Keys::new(b"s");
    let token = UserToken { username: String::new(), sh_pass: String::new(), exp: 1 };
    let bytes = token.encode(&keys);
    let back = decode(&bytes, &keys, 0).expect("empty claims decode");
    assert_eq!(back.username, "");
    assert_eq!(back.sh_pass, "");
    assert_eq!(back.exp, 1);
}

#[test]
fn expiry_is_strict() {
    // A token lives strictly before its expiry instant; at and after it,
    // even a well-signed token is rejected.
    let keys = Keys::new(b"a process secret");
    let now = 1_000u64;
    let token = UserToken::derive(&sample_user(), now);
    let exp = token.exp;
    let bytes = token.encode(&keys);
    assert!(decode(&bytes, &keys, exp - 1).is_some());
    assert!(decode(&bytes, &keys, exp).is_none());
    assert!(decode(&bytes, &keys, exp + 1).is_none());
}
