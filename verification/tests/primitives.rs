use peroxide::ct_eq;
use peroxide::encoding::str_eq;
use peroxide::hashing::{generate_salt, hash_password, verify_password};

fn hex_to_bytes(hex: &str) -> Vec<u8> {
    let digits: Vec<u8> = hex
        .bytes()
        .map(|b| match b {
            b'0'..=b'9' => b - b'0',
            b'a'..=b'f' => b - b'a' + 10,
            _ => panic!("not a hex digit"),
        })
        .collect();
    digits.chunks(2).map(|p| (p[0] << 4) | p[1]).collect()
}

#[test]
fn ct_eq_basics() {
    assert!(ct_eq(b"", b""));
    assert!(ct_eq(b"abc", b"abc"));
    assert!(!ct_eq(b"abc", b"abd"));
    assert!(!ct_eq(b"abc", b"ab"));
    assert!(!ct_eq(b"", b"x"));
}

#[test]
fn str_eq_basics() {
    assert!(str_eq("", ""));
    assert!(str_eq("jwt-token", "jwt-token"));
    assert!(!str_eq("jwt-token", "jwt-Token"));
    assert!(str_eq("héllo", "héllo"));
    assert!(!str_eq("héllo", "hello"));
}

#[test]
fn salt_is_64_bytes() {
    let salt = generate_salt();
    assert_eq!(salt.len(), 64);
}

#[test]
fn two_salts_differ() {
    // The random source repeating a 64-byte salt has negligible probability.
    let a = generate_salt();
    let b = generate_salt();
    assert_ne!(a, b);
}

#[test]
fn hash_of_empty_input_is_the_known_sha3_512_digest() {
    // SHA3-512 of the empty string: empty salt and empty password feed
    // exactly zero bytes to the digest.
    let expected = hex_to_bytes(
        "a69f73cca23a9ac5c8b567dc185a756e97c982164fe25859e0d1dcc1475c80a6\
         15b2123af1f5f94c11e3e9402c3ac558f500199d95b6d3e301758586281dcd26",
    );
    assert_eq!(hash_password(&[], ""), expected);
}

#[test]
fn hash_is_not_the_concatenation() {
    // The digest call must transform its input; handing the bytes back
    // unchanged would be caught here.
    let salt = vec![1u8; 64];
    let h = hash_password(&salt, "pw");
    assert_eq!(h.len(), 64);
    let mut concat = salt.clone();
    concat.extend_from_slice(b"pw");
    assert_ne!(h, concat[..64].to_vec());
    let again = hash_password(&salt, "pw");
    assert_eq!(h, again);
}

#[test]
fn verify_round_trip() {
    // For all passwords and salts: verify(S, hash(S, P), P).
    for pass in ["", "a", "correct horse", "pässwörd"] {
        let salt = generate_salt();
        let h = hash_password(&salt, pass);
        assert!(verify_password(&salt, &h, pass));
    }
}

#[test]
fn verify_rejects_other_password() {
    let salt = generate_salt();
    let h = hash_password(&salt, "correct horse");
    assert!(!verify_password(&salt, &h, "wrong horse"));
    assert!(!verify_password(&salt, &h, ""));
}

#[test]
fn same_password_different_salt_different_hash() {
    // Salt uniqueness: two credentials for one plaintext must differ in
    // salt and therefore in stored hash.
    let s1 = generate_salt();
    let s2 = generate_salt();
    assert_ne!(s1, s2);
    let h1 = hash_password(&s1, "correct horse");
    let h2 = hash_password(&s2, "correct horse");
    assert_ne!(h1, h2);
}
