use peroxide::authenticate::confirmation_hash;
use peroxide::keyring::Keys;

#[test]
fn confirmation_of_empty_input_is_the_known_text() {
    // base64 of the SHA3-512 digest of zero bytes.
    let expected = "pp9zzKI6msXItWfcGFp1bpfJghZP4lhZ4NHcwUdcgKYVshI68fX5TBHj6UAsOsVY\
                    9QAZnZW20+MBdYWGKB3NJg==";
    assert_eq!(confirmation_hash(&[]), expected);
}

#[test]
fn confirmation_depends_on_the_stored_hash() {
    let a = confirmation_hash(&[0u8; 64]);
    let b = confirmation_hash(&[1u8; 64]);
    assert_ne!(a, b);
    // 64 digest bytes encode to 88 base64 characters.
    assert_eq!(a.len(), 88);
}

#[test]
fn keyring_signing_round_trip() {
    let keys = Keys::new(b"k");
    let signed = keys.sign(b"payload");
    assert_eq!(keys.verify(&signed).as_deref(), Some(&b"payload"[..]));
    let mut tampered = signed.clone();
    let last = tampered.len() - 1;
    tampered[last] ^= 1;
    assert!(keys.verify(&tampered).is_none());
    assert!(keys.verify(b"").is_none());
}
