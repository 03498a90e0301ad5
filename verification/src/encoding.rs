//! Base64 and UTF-8 bridging used by the token layer: confirmation hashes and
//! signed tokens travel as text, while the hashing layer works on bytes.
use vstd::prelude::*;
use vstd::utf8::{encode_utf8, valid_utf8, decode_utf8};

verus! {

/// The standard base64 encoding (with padding) of a byte sequence, as the
/// `base64` crate's `STANDARD` engine computes it: a pure function of the
/// input bytes.
pub uninterp spec fn base64_of(bytes: Seq<u8>) -> Seq<char>;

/// Relies on `base64::engine::general_purpose::STANDARD.encode`: standard
/// alphabet, padded, and a function of the input bytes alone.
#[verifier::external_body]
pub fn b64_encode(data: &[u8]) -> (r: String)
    ensures
        r@ == base64_of(data@),
{
    base64::Engine::encode(&base64::engine::general_purpose::STANDARD, data)
}

/// Relies on `base64::engine::general_purpose::STANDARD.decode`: the engine
/// requires canonical padding and rejects non-zero trailing bits, so it
/// accepts exactly the strings that `encode` produces, and inverts it; in
/// particular the bytes it returns are the one preimage of the input.
#[verifier::external_body]
pub fn b64_decode(data: &str) -> (r: Option<Vec<u8>>)
    ensures
        match r {
            Some(d) => base64_of(d@) == data@ && forall|b: Seq<u8>|
                base64_of(b) == data@ ==> b == d@,
            None => forall|b: Seq<u8>| base64_of(b) != data@,
        },
{
    base64::Engine::decode(&base64::engine::general_purpose::STANDARD, data).ok()
}

/// Relies on `String::from_utf8`: it succeeds exactly on valid UTF-8 input
/// and returns the string whose UTF-8 encoding is that input.
#[verifier::external_body]
pub fn bytes_to_string(data: Vec<u8>) -> (r: Option<String>)
    ensures
        match r {
            Some(s) => encode_utf8(s@) == data@ && valid_utf8(data@),
            None => !valid_utf8(data@),
        },
{
    String::from_utf8(data).ok()
}

/// UTF-8 encoding is injective: two strings with the same byte encoding are
/// the same string.
pub proof fn lemma_encode_utf8_injective(a: Seq<char>, b: Seq<char>)
    requires
        encode_utf8(a) == encode_utf8(b),
    ensures
        a == b,
{
    broadcast use vstd::utf8::encode_utf8_decode_utf8;

    assert(decode_utf8(encode_utf8(a)) == a);
    assert(decode_utf8(encode_utf8(b)) == b);
}

/// Compare two string slices by their UTF-8 bytes; equality of the bytes is
/// equality of the strings.
pub fn str_eq(a: &str, b: &str) -> (r: bool)
    ensures
        r == (a@ == b@),
{
    let r = crate::ct_eq(a.as_bytes(), b.as_bytes());
    proof {
        if encode_utf8(a@) == encode_utf8(b@) {
            lemma_encode_utf8_injective(a@, b@);
        }
    }
    r
}

} // verus!
