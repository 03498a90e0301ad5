//! Password credential primitives: salt generation, salted hashing, and
//! constant-time password verification.
//!
//! A credential never stores the plaintext password: it stores a 64-byte
//! random salt and the SHA3-512 digest of `salt ‖ password`.
use vstd::prelude::*;
use vstd::utf8::encode_utf8;
use crate::ct_eq;

verus! {

/// The SHA3-512 digest of a byte sequence, as the `sha3` crate computes it.
/// The digest is a pure function of the input bytes; nothing further is
/// assumed of its value.
pub uninterp spec fn sha3_512_of(bytes: Seq<u8>) -> Seq<u8>;

/// Relies on `sha3::Sha3_512::digest` (through the `Digest` trait): a single
/// pass of SHA3-512 over the input, producing a 512-bit (64-byte) digest that
/// depends on the input bytes alone.
#[verifier::external_body]
pub fn sha3_512(data: &[u8]) -> (r: Vec<u8>)
    ensures
        r@ == sha3_512_of(data@),
        r@.len() == 64,
{
    <sha3::Sha3_512 as sha3::Digest>::digest(data).to_vec()
}

/// Relies on `rand::random::<u8>()`: one byte from the thread-local
/// cryptographically secure generator. Nothing can be promised of its value.
#[verifier::external_body]
fn random_byte() -> u8 {
    rand::random::<u8>()
}

/// Number of random bytes in a credential's salt.
pub const SALT_LEN: usize = 64;

/// Draw a fresh 64-byte salt from the random source.
///
/// Only the length is promised: the bytes come from a secure random source,
/// so no two calls are related by any contract.
pub fn generate_salt() -> (r: Vec<u8>)
    ensures
        r@.len() == SALT_LEN,
{
    let mut salt: Vec<u8> = Vec::new();
    let mut i: usize = 0;
    while i < SALT_LEN
        invariant
            salt@.len() == i,
            0 <= i <= SALT_LEN,
        decreases SALT_LEN - i,
    {
        salt.push(random_byte());
        i = i + 1;
    }
    salt
}

/// The stored form of a password: SHA3-512 over the salt followed by the
/// UTF-8 bytes of the plaintext. The plaintext is never hashed alone.
pub open spec fn spec_password_hash(salt: Seq<u8>, pass: Seq<char>) -> Seq<u8> {
    sha3_512_of(salt + encode_utf8(pass))
}

/// Hash a plaintext password under the given salt.
pub fn hash_password(salt: &[u8], pass: &str) -> (r: Vec<u8>)
    ensures
        r@ == spec_password_hash(salt@, pass@),
        r@.len() == 64,
{
    let mut buf: Vec<u8> = Vec::new();
    buf.extend_from_slice(salt);
    buf.extend_from_slice(pass.as_bytes());
    proof {
        assert(buf@ == salt@ + encode_utf8(pass@));
    }
    sha3_512(buf.as_slice())
}

/// Recompute the salted hash of a candidate password and compare it with the
/// stored hash in constant time.
pub fn verify_password(salt: &[u8], stored_hash: &[u8], candidate: &str) -> (r: bool)
    ensures
        r == (stored_hash@ == spec_password_hash(salt@, candidate@)),
{
    let candidate_hash = hash_password(salt, candidate);
    ct_eq(stored_hash, candidate_hash.as_slice())
}

} // verus!
