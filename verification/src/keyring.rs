//! The process-wide signing keys for session tokens.
//!
//! A signed blob is `length ‖ payload ‖ tag`: the payload's length as eight
//! little-endian bytes, the payload itself, and the HMAC-SHA256 tag of the
//! payload under the secret. `verify` accepts exactly the blobs that `sign`
//! produces under the same secret.
use vstd::prelude::*;
use vstd::bytes::{spec_u64_to_le_bytes, u64_to_le_bytes, u64_from_le_bytes};
use vstd::bytes::lemma_auto_spec_u64_to_from_le_bytes;
use vstd::slice::{slice_subrange, slice_to_vec};
use crate::ct_eq;

verus! {

/// The base64url text of the HMAC-SHA256 tag of `message` under `secret`,
/// as UTF-8 bytes, exactly as `jsonwebtoken::crypto::sign` returns it: a
/// pure function of the secret and the message.
pub uninterp spec fn hmac_tag_of(secret: Seq<u8>, message: Seq<u8>) -> Seq<u8>;

/// Relies on `jsonwebtoken::crypto::sign` with `Algorithm::HS256` and a key
/// built by `EncodingKey::from_secret`: the built-in provider computes the
/// HMAC-SHA256 of the message under the secret and returns its base64url
/// text, a function of secret and message alone. For an HMAC key this
/// signing path has no failure case. The crate routes the call through a
/// process-global crypto provider; only its built-in `rust_crypto` provider
/// is compiled in here, and nothing in this process installs another, so
/// the call stays the pure function described.
#[verifier::external_body]
fn hmac_tag(secret: &[u8], message: &[u8]) -> (r: Vec<u8>)
    ensures
        r@ == hmac_tag_of(secret@, message@),
{
    let key = jsonwebtoken::EncodingKey::from_secret(secret);
    jsonwebtoken::crypto::sign(message, &key, jsonwebtoken::Algorithm::HS256)
        .expect("HMAC signing has no failure case")
        .into_bytes()
}

/// The signed form of a payload under a secret.
pub open spec fn spec_signed(secret: Seq<u8>, payload: Seq<u8>) -> Seq<u8> {
    spec_u64_to_le_bytes(payload.len() as u64) + payload + hmac_tag_of(secret, payload)
}

/// The keys for signing and verifying session tokens, created once at
/// process start from an externally supplied secret. The process must never
/// run with an empty key, so constructing `Keys` demands a non-empty secret.
pub struct Keys {
    secret: Vec<u8>,
}

impl View for Keys {
    type V = Seq<u8>;

    closed spec fn view(&self) -> Seq<u8> {
        self.secret@
    }
}

impl Keys {
    /// A keyring is well formed when its secret is non-empty.
    pub open spec fn wf(&self) -> bool {
        self@.len() > 0
    }

    pub fn new(secret: &[u8]) -> (r: Keys)
        requires
            secret@.len() > 0,
        ensures
            r@ == secret@,
            r.wf(),
    {
        Keys { secret: slice_to_vec(secret) }
    }

    /// Sign a payload: prepend its length and append its tag.
    pub fn sign(&self, payload: &[u8]) -> (r: Vec<u8>)
        ensures
            r@ == spec_signed(self@, payload@),
    {
        let tag = hmac_tag(self.secret.as_slice(), payload);
        let plen: u64 = payload.len() as u64;
        let mut out = u64_to_le_bytes(plen);
        out.extend_from_slice(payload);
        out.extend_from_slice(tag.as_slice());
        proof {
            lemma_auto_spec_u64_to_from_le_bytes();
            assert(out@ =~= spec_signed(self@, payload@));
        }
        out
    }

    /// Check a signed blob and recover its payload. Fails closed: the result
    /// is `Some(payload)` exactly when the blob is `spec_signed` of that
    /// payload under this keyring's secret, and `None` when the blob is not
    /// the signed form of any payload.
    pub fn verify(&self, token: &[u8]) -> (r: Option<Vec<u8>>)
        ensures
            match r {
                Some(p) => token@ == spec_signed(self@, p@),
                None => forall|p: Seq<u8>| token@ != spec_signed(self@, p),
            },
    {
        proof {
            lemma_auto_spec_u64_to_from_le_bytes();
        }
        if token.len() < 8 {
            proof {
                assert forall|p: Seq<u8>| token@ != spec_signed(self@, p) by {
                    assert(spec_signed(self@, p).len() >= 8);
                }
            }
            return None;
        }
        let len_bytes = slice_subrange(token, 0, 8);
        let plen_u64 = u64_from_le_bytes(len_bytes);
        let rest_len: usize = token.len() - 8;
        if plen_u64 > rest_len as u64 {
            proof {
                assert forall|p: Seq<u8>| token@ != spec_signed(self@, p) by {
                    if token@ == spec_signed(self@, p) {
                        assert(p.len() <= rest_len);
                        assert(token@.subrange(0, 8) =~= spec_u64_to_le_bytes(
                            p.len() as u64,
                        ));
                        assert(plen_u64 == p.len() as u64);
                    }
                }
            }
            return None;
        }
        let plen: usize = plen_u64 as usize;
        let payload = slice_subrange(token, 8, 8 + plen);
        let tag = slice_subrange(token, 8 + plen, token.len());
        let expected = hmac_tag(self.secret.as_slice(), payload);
        if ct_eq(tag, expected.as_slice()) {
            proof {
                assert(token@ =~= token@.subrange(0, 8) + token@.subrange(8, 8 + plen as int)
                    + token@.subrange(8 + plen as int, token@.len() as int));
                assert(token@.subrange(0, 8) =~= spec_u64_to_le_bytes(plen_u64));
            }
            Some(slice_to_vec(payload))
        } else {
            proof {
                assert forall|p: Seq<u8>| token@ != spec_signed(self@, p) by {
                    if token@ == spec_signed(self@, p) {
                        assert(p.len() <= rest_len);
                        assert(token@.subrange(0, 8) =~= spec_u64_to_le_bytes(
                            p.len() as u64,
                        ));
                        assert(plen_u64 == p.len() as u64);
                        assert(plen == p.len());
                        assert(payload@ =~= p);
                        assert(tag@ =~= hmac_tag_of(self@, p));
                    }
                }
            }
            None
        }
    }
}

} // verus!
