//! The bearer session token: its claims, their byte framing, and signed
//! encoding and decoding.
//!
//! A token carries a username, a confirmation hash (the base64 text of the
//! SHA3-512 digest of the stored password hash — never the stored hash
//! itself), and an absolute expiry time. The framed claims are signed by the
//! keyring; `decode` accepts exactly the blobs `encode` produces under the
//! same secret, and among those only the ones that have not expired.
use vstd::prelude::*;
use vstd::bytes::{spec_u64_to_le_bytes, u64_to_le_bytes, u64_from_le_bytes};
use vstd::bytes::lemma_auto_spec_u64_to_from_le_bytes;
use vstd::slice::{slice_subrange, slice_to_vec};
use vstd::utf8::encode_utf8;
use crate::encoding::{b64_encode, bytes_to_string, base64_of, lemma_encode_utf8_injective};
use crate::hashing::sha3_512;
use crate::keyring::{Keys, spec_signed, hmac_tag_of};
use crate::user::User;

verus! {

/// Seconds a freshly issued token remains valid: 24 hours.
pub const TOKEN_LIFETIME_SECS: u64 = 86400;

/// The claims of a session token.
pub struct UserToken {
    pub username: String,
    /// Confirmation hash: base64 of the SHA3-512 digest of the stored
    /// password hash.
    pub sh_pass: String,
    /// Expiry as seconds since the Unix epoch; the token is valid strictly
    /// before this instant.
    pub exp: u64,
}

/// The framed claims: each string as its UTF-8 bytes behind an eight-byte
/// little-endian length, then the expiry as eight little-endian bytes.
pub open spec fn spec_claims_bytes(username: Seq<char>, sh_pass: Seq<char>, exp: u64) -> Seq<u8> {
    let ub = encode_utf8(username);
    let cb = encode_utf8(sh_pass);
    spec_u64_to_le_bytes(ub.len() as u64) + ub + spec_u64_to_le_bytes(cb.len() as u64) + cb
        + spec_u64_to_le_bytes(exp)
}

/// A complete encoded token: the framed claims, signed under the secret.
pub open spec fn spec_token_bytes(
    secret: Seq<u8>,
    username: Seq<char>,
    sh_pass: Seq<char>,
    exp: u64,
) -> Seq<u8> {
    spec_signed(secret, spec_claims_bytes(username, sh_pass, exp))
}

/// Where each field of the framed claims lies.
pub proof fn lemma_claims_bytes_fields(username: Seq<char>, sh_pass: Seq<char>, exp: u64)
    ensures
        ({
            let ub = encode_utf8(username);
            let cb = encode_utf8(sh_pass);
            let p = spec_claims_bytes(username, sh_pass, exp);
            &&& p.len() == 24 + ub.len() + cb.len()
            &&& p.subrange(0, 8) == spec_u64_to_le_bytes(ub.len() as u64)
            &&& p.subrange(8, 8 + ub.len() as int) == ub
            &&& p.subrange(8 + ub.len() as int, 16 + ub.len() as int) == spec_u64_to_le_bytes(
                cb.len() as u64,
            )
            &&& p.subrange(16 + ub.len() as int, 16 + ub.len() + cb.len() as int) == cb
            &&& p.subrange(
                16 + ub.len() + cb.len() as int,
                24 + ub.len() + cb.len() as int,
            ) == spec_u64_to_le_bytes(exp)
        }),
{
    lemma_auto_spec_u64_to_from_le_bytes();
    let ub = encode_utf8(username);
    let cb = encode_utf8(sh_pass);
    let p = spec_claims_bytes(username, sh_pass, exp);
    assert(p.subrange(0, 8) =~= spec_u64_to_le_bytes(ub.len() as u64));
    assert(p.subrange(8, 8 + ub.len() as int) =~= ub);
    assert(p.subrange(8 + ub.len() as int, 16 + ub.len() as int) =~= spec_u64_to_le_bytes(
        cb.len() as u64,
    ));
    assert(p.subrange(16 + ub.len() as int, 16 + ub.len() + cb.len() as int) =~= cb);
    assert(p.subrange(16 + ub.len() + cb.len() as int, 24 + ub.len() + cb.len() as int)
        =~= spec_u64_to_le_bytes(exp));
}

/// Framing is injective: equal framed claims are equal claims.
pub proof fn lemma_claims_bytes_injective(
    u1: Seq<char>,
    c1: Seq<char>,
    e1: u64,
    u2: Seq<char>,
    c2: Seq<char>,
    e2: u64,
)
    requires
        spec_claims_bytes(u1, c1, e1) == spec_claims_bytes(u2, c2, e2),
        encode_utf8(u1).len() <= u64::MAX,
        encode_utf8(u2).len() <= u64::MAX,
    ensures
        u1 == u2,
        c1 == c2,
        e1 == e2,
{
    lemma_auto_spec_u64_to_from_le_bytes();
    lemma_claims_bytes_fields(u1, c1, e1);
    lemma_claims_bytes_fields(u2, c2, e2);
    let ub1 = encode_utf8(u1);
    let ub2 = encode_utf8(u2);
    let cb1 = encode_utf8(c1);
    let cb2 = encode_utf8(c2);
    let p = spec_claims_bytes(u1, c1, e1);
    assert(spec_u64_from_le_bytes_of(ub1.len() as u64) == spec_u64_from_le_bytes_of(
        ub2.len() as u64,
    )) by {
        assert(p.subrange(0, 8) == spec_u64_to_le_bytes(ub1.len() as u64));
        assert(p.subrange(0, 8) == spec_u64_to_le_bytes(ub2.len() as u64));
    }
    assert(ub1.len() == ub2.len());
    assert(ub1 == ub2);
    lemma_encode_utf8_injective(u1, u2);
    assert(cb1.len() == cb2.len());
    assert(cb1 == cb2);
    lemma_encode_utf8_injective(c1, c2);
    assert(spec_u64_to_le_bytes(e1) == spec_u64_to_le_bytes(e2));
    assert(e1 == e2);
}

/// The value a length field round-trips to; a helper for stating equalities
/// between length fields.
spec fn spec_u64_from_le_bytes_of(x: u64) -> u64 {
    vstd::bytes::spec_u64_from_le_bytes(spec_u64_to_le_bytes(x))
}

impl UserToken {
    /// Frame this token's claims as bytes.
    pub fn claims_bytes(&self) -> (r: Vec<u8>)
        ensures
            r@ == spec_claims_bytes(self.username@, self.sh_pass@, self.exp),
    {
        let ub = self.username.as_str().as_bytes();
        let cb = self.sh_pass.as_str().as_bytes();
        let mut out = u64_to_le_bytes(ub.len() as u64);
        out.extend_from_slice(ub);
        let clen = u64_to_le_bytes(cb.len() as u64);
        out.extend_from_slice(clen.as_slice());
        out.extend_from_slice(cb);
        let eb = u64_to_le_bytes(self.exp);
        out.extend_from_slice(eb.as_slice());
        proof {
            assert(out@ =~= spec_claims_bytes(self.username@, self.sh_pass@, self.exp));
        }
        out
    }

    /// Derive a fresh token for a credential: the confirmation hash is the
    /// base64 text of the SHA3-512 digest of the stored password hash, and
    /// the expiry lies one token lifetime past `now`.
    pub fn derive(user: &User, now: u64) -> (r: UserToken)
        requires
            now + TOKEN_LIFETIME_SECS <= u64::MAX,
        ensures
            r.username@ == user.username@,
            r.sh_pass@ == base64_of(crate::hashing::sha3_512_of(user.sh_pass@)),
            r.exp == now + TOKEN_LIFETIME_SECS,
    {
        let digest = sha3_512(user.sh_pass.as_slice());
        UserToken {
            username: user.username.clone(),
            sh_pass: b64_encode(digest.as_slice()),
            exp: now + TOKEN_LIFETIME_SECS,
        }
    }

    /// Sign this token's framed claims under the keyring.
    pub fn encode(&self, keys: &Keys) -> (r: Vec<u8>)
        ensures
            r@ == spec_token_bytes(keys@, self.username@, self.sh_pass@, self.exp),
    {
        let payload = self.claims_bytes();
        keys.sign(payload.as_slice())
    }
}

/// Read framed claims back. The result is `Some(t)` exactly when the input
/// is `spec_claims_bytes` of `t`'s claims, and `None` when it is the framing
/// of no claims at all.
#[verifier::rlimit(60)]
fn parse_claims(payload: &[u8]) -> (r: Option<UserToken>)
    ensures
        match r {
            Some(t) => payload@ == spec_claims_bytes(t.username@, t.sh_pass@, t.exp),
            None => forall|u: Seq<char>, c: Seq<char>, e: u64|
                payload@ != spec_claims_bytes(u, c, e),
        },
{
    proof {
        lemma_auto_spec_u64_to_from_le_bytes();
    }
    broadcast use vstd::utf8::encode_utf8_valid_utf8;

    if payload.len() < 24 {
        proof {
            assert forall|u: Seq<char>, c: Seq<char>, e: u64|
                payload@ != spec_claims_bytes(u, c, e) by {
                lemma_claims_bytes_fields(u, c, e);
            }
        }
        return None;
    }
    let ulen = u64_from_le_bytes(slice_subrange(payload, 0, 8));
    if ulen > (payload.len() - 24) as u64 {
        proof {
            assert forall|u: Seq<char>, c: Seq<char>, e: u64|
                payload@ != spec_claims_bytes(u, c, e) by {
                if payload@ == spec_claims_bytes(u, c, e) {
                    lemma_claims_bytes_fields(u, c, e);
                    assert(encode_utf8(u).len() <= payload@.len() - 24);
                    assert(ulen == encode_utf8(u).len() as u64);
                }
            }
        }
        return None;
    }
    let ul: usize = ulen as usize;
    let ub = slice_subrange(payload, 8, 8 + ul);
    let clen = u64_from_le_bytes(slice_subrange(payload, 8 + ul, 16 + ul));
    if clen != (payload.len() - 24 - ul) as u64 {
        proof {
            assert forall|u: Seq<char>, c: Seq<char>, e: u64|
                payload@ != spec_claims_bytes(u, c, e) by {
                if payload@ == spec_claims_bytes(u, c, e) {
                    lemma_claims_bytes_fields(u, c, e);
                    assert(ulen == encode_utf8(u).len() as u64);
                    assert(ul == encode_utf8(u).len());
                    assert(clen == encode_utf8(c).len() as u64);
                    assert(encode_utf8(c).len() == payload@.len() - 24 - ul);
                }
            }
        }
        return None;
    }
    let cl: usize = clen as usize;
    let cb = slice_subrange(payload, 16 + ul, 16 + ul + cl);
    let exp = u64_from_le_bytes(slice_subrange(payload, 16 + ul + cl, 24 + ul + cl));
    let username = match bytes_to_string(slice_to_vec(ub)) {
        Some(s) => s,
        None => {
            proof {
                assert forall|u: Seq<char>, c: Seq<char>, e: u64|
                    payload@ != spec_claims_bytes(u, c, e) by {
                    if payload@ == spec_claims_bytes(u, c, e) {
                        lemma_claims_bytes_fields(u, c, e);
                        assert(ul == encode_utf8(u).len());
                        assert(ub@ =~= encode_utf8(u));
                    }
                }
            }
            return None;
        },
    };
    let sh_pass = match bytes_to_string(slice_to_vec(cb)) {
        Some(s) => s,
        None => {
            proof {
                assert forall|u: Seq<char>, c: Seq<char>, e: u64|
                    payload@ != spec_claims_bytes(u, c, e) by {
                    if payload@ == spec_claims_bytes(u, c, e) {
                        lemma_claims_bytes_fields(u, c, e);
                        assert(ul == encode_utf8(u).len());
                        assert(cl == encode_utf8(c).len());
                        assert(cb@ =~= encode_utf8(c));
                    }
                }
            }
            return None;
        },
    };
    let t = UserToken { username, sh_pass, exp };
    proof {
        lemma_claims_bytes_fields(t.username@, t.sh_pass@, t.exp);
        assert(encode_utf8(t.username@) == ub@);
        assert(encode_utf8(t.sh_pass@) == cb@);
        assert(payload@ =~= spec_claims_bytes(t.username@, t.sh_pass@, t.exp));
    }
    Some(t)
}

/// Decode and validate an encoded token against the keyring and the current
/// time. Fails closed: the result is the token's claims exactly when the
/// bytes are a well-signed encoding whose expiry lies strictly after `now`;
/// a blob that is the encoding of no claims, carries a wrong tag, or has
/// expired yields `None`.
#[verifier::rlimit(30)]
pub fn decode(token: &[u8], keys: &Keys, now: u64) -> (r: Option<UserToken>)
    ensures
        match r {
            Some(t) => {
                &&& token@ == spec_token_bytes(keys@, t.username@, t.sh_pass@, t.exp)
                &&& t.exp > now
            },
            None => forall|u: Seq<char>, c: Seq<char>, e: u64|
                token@ == spec_token_bytes(keys@, u, c, e) ==> e <= now,
        },
{
    let tlen = token.len();
    let payload = match keys.verify(token) {
        Some(p) => p,
        None => {
            return None;
        },
    };
    let plen = payload.len();
    let t = match parse_claims(payload.as_slice()) {
        Some(t) => t,
        None => {
            proof {
                assert forall|u: Seq<char>, c: Seq<char>, e: u64|
                    token@ == spec_token_bytes(keys@, u, c, e) implies false by {
                    lemma_decode_unique(keys@, payload@, u, c, e, token@);
                }
            }
            return None;
        },
    };
    if t.exp > now {
        Some(t)
    } else {
        proof {
            assert forall|u: Seq<char>, c: Seq<char>, e: u64|
                token@ == spec_token_bytes(keys@, u, c, e) implies e <= now by {
                lemma_decode_unique(keys@, payload@, u, c, e, token@);
                lemma_claims_bytes_fields(u, c, e);
                lemma_claims_bytes_fields(t.username@, t.sh_pass@, t.exp);
                lemma_claims_bytes_injective(t.username@, t.sh_pass@, t.exp, u, c, e);
            }
        }
        None
    }
}

/// A signed blob determines its framed claims: if one byte string is both
/// the signed form of `payload` and the encoding of the claims
/// `(u, c, e)`, then `payload` is exactly those framed claims.
proof fn lemma_decode_unique(
    secret: Seq<u8>,
    payload: Seq<u8>,
    u: Seq<char>,
    c: Seq<char>,
    e: u64,
    total: Seq<u8>,
)
    requires
        total == spec_signed(secret, payload),
        total == spec_token_bytes(secret, u, c, e),
        payload.len() <= u64::MAX,
        total.len() <= u64::MAX,
    ensures
        payload == spec_claims_bytes(u, c, e),
{
    lemma_auto_spec_u64_to_from_le_bytes();
    let claims = spec_claims_bytes(u, c, e);
    assert(total.len() == 8 + claims.len() + hmac_tag_of(secret, claims).len());
    assert(total.len() == 8 + payload.len() + hmac_tag_of(secret, payload).len());
    assert(claims.len() <= total.len());
    lemma_signed_injective(secret, payload, claims);
}

/// Signing is injective in the payload: two payloads with the same signed
/// form are the same payload.
pub proof fn lemma_signed_injective(secret: Seq<u8>, p1: Seq<u8>, p2: Seq<u8>)
    requires
        spec_signed(secret, p1) == spec_signed(secret, p2),
        p1.len() <= u64::MAX,
        p2.len() <= u64::MAX,
    ensures
        p1 == p2,
{
    lemma_auto_spec_u64_to_from_le_bytes();
    let s1 = spec_signed(secret, p1);
    let s2 = spec_signed(secret, p2);
    assert(s1.subrange(0, 8) =~= spec_u64_to_le_bytes(p1.len() as u64));
    assert(s2.subrange(0, 8) =~= spec_u64_to_le_bytes(p2.len() as u64));
    assert(p1.len() == p2.len());
    assert(s1.subrange(8, 8 + p1.len() as int) =~= p1);
    assert(s2.subrange(8, 8 + p2.len() as int) =~= p2);
}

} // verus!
