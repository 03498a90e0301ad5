//! The library's standing guarantees, each proved from the contracts the
//! modules state. The probabilistic halves of these properties — that the
//! random source repeats no salt and that SHA3-512 digests of distinct
//! inputs differ — no proof can give; each law takes exactly that much as a
//! hypothesis and proves the rest.
use vstd::prelude::*;
use vstd::utf8::encode_utf8;
use crate::authenticate::spec_confirmation;
use crate::encoding::lemma_encode_utf8_injective;
use crate::token::{spec_token_bytes, lemma_signed_injective, lemma_claims_bytes_injective,
    lemma_claims_bytes_fields};
use crate::keyring::hmac_tag_of;

verus! {

/// Distinct passwords hash over distinct inputs: under one salt, the bytes
/// fed to the digest for two different passwords always differ, so the
/// stored hashes differ whenever the digest does not collide. Together with
/// `verify_password`'s contract — it returns true exactly when the stored
/// hash is the salted hash of the candidate — this is the round-trip
/// property of hashing and verification.
pub proof fn lemma_distinct_passwords_distinct_preimages(
    salt: Seq<u8>,
    p1: Seq<char>,
    p2: Seq<char>,
)
    requires
        p1 != p2,
    ensures
        salt + encode_utf8(p1) != salt + encode_utf8(p2),
{
    if salt + encode_utf8(p1) == salt + encode_utf8(p2) {
        assert(encode_utf8(p1) =~= (salt + encode_utf8(p1)).skip(salt.len() as int));
        assert(encode_utf8(p2) =~= (salt + encode_utf8(p2)).skip(salt.len() as int));
        lemma_encode_utf8_injective(p1, p2);
    }
}

/// Distinct salts hash over distinct inputs: two credentials for one and
/// the same password still feed different bytes to the digest when their
/// salts differ, so their stored hashes differ whenever the digest does not
/// collide. Salt distinctness itself comes from the random source and is
/// checked by tests, not proved.
pub proof fn lemma_distinct_salts_distinct_preimages(s1: Seq<u8>, s2: Seq<u8>, pass: Seq<char>)
    requires
        s1 != s2,
        s1.len() == s2.len(),
    ensures
        s1 + encode_utf8(pass) != s2 + encode_utf8(pass),
{
    if s1 + encode_utf8(pass) == s2 + encode_utf8(pass) {
        assert(s1 =~= (s1 + encode_utf8(pass)).take(s1.len() as int));
        assert(s2 =~= (s2 + encode_utf8(pass)).take(s2.len() as int));
    }
}

/// An encoded token determines its claims: one blob cannot be the signed
/// encoding of two different claim sets. With `decode`'s contract — a blob
/// is accepted only as its own claims — any change to a blob that still
/// passes signature checking must change the claims it is read as; a change
/// that forges the same claims would need a second valid encoding, which
/// this law rules out.
pub proof fn lemma_token_bytes_determine_claims(
    secret: Seq<u8>,
    b: Seq<u8>,
    u1: Seq<char>,
    c1: Seq<char>,
    e1: u64,
    u2: Seq<char>,
    c2: Seq<char>,
    e2: u64,
)
    requires
        b == spec_token_bytes(secret, u1, c1, e1),
        b == spec_token_bytes(secret, u2, c2, e2),
        b.len() <= u64::MAX,
    ensures
        u1 == u2,
        c1 == c2,
        e1 == e2,
{
    vstd::bytes::lemma_auto_spec_u64_to_from_le_bytes();
    let claims1 = crate::token::spec_claims_bytes(u1, c1, e1);
    let claims2 = crate::token::spec_claims_bytes(u2, c2, e2);
    assert(b.len() == 8 + claims1.len() + hmac_tag_of(secret, claims1).len());
    assert(b.len() == 8 + claims2.len() + hmac_tag_of(secret, claims2).len());
    lemma_signed_injective(secret, claims1, claims2);
    lemma_claims_bytes_fields(u1, c1, e1);
    lemma_claims_bytes_fields(u2, c2, e2);
    lemma_claims_bytes_injective(u1, c1, e1, u2, c2, e2);
}

/// Hash invalidation: a token minted for a credential carries the
/// confirmation hash of the stored password hash as it then was. Once the
/// stored hash is rotated to one whose confirmation differs, that blob is
/// the encoding of no token for the new row — at any expiry — so the
/// authenticator's comparison step rejects it.
pub proof fn lemma_hash_rotation_invalidates(
    secret: Seq<u8>,
    b: Seq<u8>,
    username: Seq<char>,
    old_hash: Seq<u8>,
    new_hash: Seq<u8>,
    e: u64,
)
    requires
        b == spec_token_bytes(secret, username, spec_confirmation(old_hash), e),
        spec_confirmation(new_hash) != spec_confirmation(old_hash),
        b.len() <= u64::MAX,
    ensures
        forall|e2: u64| b != spec_token_bytes(
            secret,
            username,
            spec_confirmation(new_hash),
            e2,
        ),
{
    assert forall|e2: u64|
        b != spec_token_bytes(secret, username, spec_confirmation(new_hash), e2) by {
        if b == spec_token_bytes(secret, username, spec_confirmation(new_hash), e2) {
            lemma_token_bytes_determine_claims(
                secret,
                b,
                username,
                spec_confirmation(old_hash),
                e,
                username,
                spec_confirmation(new_hash),
                e2,
            );
        }
    }
}

} // verus!
