//! The per-request guard: read the session cookie, validate the token's
//! signature and expiry, reload the credential, recompute the confirmation
//! hash from the row as it now stands, and compare, yielding the
//! authenticated principal. Rank-gated operations go through `require_admin`
//! on top of it.
use vstd::prelude::*;
use vstd::utf8::{encode_utf8, decode_utf8, valid_utf8, is_ascii_chars};
use crate::cookies::{header_bytes_ok, spec_find_cookie, header_ok, find_cookie};
use crate::cookies::{is_cookie_byte, lemma_cookie_round_trip, EQUALS, SEMICOLON, SPACE};
use crate::encoding::{b64_decode, b64_encode, bytes_to_string, base64_of};
use crate::hashing::{sha3_512, sha3_512_of};
use crate::keyring::Keys;
use crate::token::{UserToken, decode, spec_token_bytes};
use crate::user::{User, Rank};
use crate::store::UserStore;
use vstd::string::StringExecFns;

verus! {

/// Why a request was rejected. The variants are distinct for the server's
/// own use; the boundary collapses them (see `boundary_message`).
#[derive(Clone, Copy, Debug, PartialEq, Eq, Structural)]
pub enum AuthError {
    /// No cookie header, or no session cookie among the cookies.
    NoSessionCookie,
    /// The cookie header is not cookie syntax.
    MalformedCookies,
    /// The token failed signature, framing, or expiry checks.
    InvalidToken,
    /// The row was not found or the store could not be reached; the two are
    /// deliberately indistinguishable to the caller.
    UnknownUserOrStoreError,
    /// The token's confirmation hash no longer matches the stored row.
    HashMismatch,
    /// The principal's rank does not admit the operation.
    InsufficientRank,
}

impl AuthError {
    /// The one message the boundary shows for a failed authentication, and
    /// the one it shows for a failed authorization: no message leaks which
    /// step failed or what rank would have sufficed.
    pub fn boundary_message(&self) -> (r: String)
        ensures
            *self == AuthError::InsufficientRank ==> r@ == "unauthorized"@,
            *self != AuthError::InsufficientRank ==> r@ == "unauthenticated"@,
    {
        match self {
            AuthError::InsufficientRank => "unauthorized".to_owned(),
            _ => "unauthenticated".to_owned(),
        }
    }
}

/// The reserved name of the session cookie, as header bytes.
pub open spec fn spec_cookie_name() -> Seq<u8> {
    encode_utf8("jwt-token"@)
}

/// The reserved cookie name is nine visible-ASCII bytes, none of them a
/// space, a segment separator, or `=`.
pub proof fn lemma_cookie_name_bytes()
    ensures
        spec_cookie_name().len() == 9,
        forall|i: int|
            0 <= i < spec_cookie_name().len() ==> (is_cookie_byte(#[trigger] spec_cookie_name()[i])
                && spec_cookie_name()[i] != SEMICOLON && spec_cookie_name()[i] != EQUALS
                && spec_cookie_name()[i] != SPACE),
{
    reveal_strlit("jwt-token");
    let chars = "jwt-token"@;
    assert(chars.len() == 9);
    assert(is_ascii_chars(chars)) by {
        assert forall|i: int| 0 <= i < chars.len() implies '\0' <= #[trigger] chars[i]
            <= '\u{7f}' by {
            assert(chars[0] == 'j' && chars[1] == 'w' && chars[2] == 't' && chars[3] == '-'
                && chars[4] == 't' && chars[5] == 'o' && chars[6] == 'k' && chars[7] == 'e'
                && chars[8] == 'n');
        }
    }
    vstd::utf8::is_ascii_chars_encode_utf8(chars);
    assert forall|i: int|
        0 <= i < spec_cookie_name().len() implies (is_cookie_byte(
        #[trigger] spec_cookie_name()[i],
    ) && spec_cookie_name()[i] != SEMICOLON && spec_cookie_name()[i] != EQUALS
        && spec_cookie_name()[i] != SPACE) by {
        assert(spec_cookie_name()[i] == chars[i] as u8);
        assert(chars[0] == 'j' && chars[1] == 'w' && chars[2] == 't' && chars[3] == '-'
            && chars[4] == 't' && chars[5] == 'o' && chars[6] == 'k' && chars[7] == 'e'
            && chars[8] == 'n');
    }
}

/// Bytes a cookie value may carry: visible ASCII, but neither the segment
/// separator nor a space. The base64 alphabet, padding included, lies
/// within this set; the scan below checks rather than assumes it.
pub open spec fn spec_cookie_value_ok(v: Seq<u8>) -> bool {
    forall|i: int|
        0 <= i < v.len() ==> (is_cookie_byte(#[trigger] v[i]) && v[i] != SEMICOLON && v[i]
            != SPACE)
}

/// Build the `Cookie` header that presents a session cookie back to the
/// server: exactly the reserved name, `=`, and the value. The value is
/// scanned first, and a byte no cookie value may carry refuses the whole
/// header. On success the header is well formed and the parser finds the
/// value again under the reserved name — the link that chains a cookie
/// issued by sign-up or sign-in to the request guard's contract.
pub fn session_cookie_header(value: &str) -> (r: Option<Vec<u8>>)
    ensures
        match r {
            Some(h) => {
                &&& header_bytes_ok(h@)
                &&& spec_find_cookie(h@, spec_cookie_name()) == Some(encode_utf8(value@))
            },
            None => !spec_cookie_value_ok(encode_utf8(value@)),
        },
{
    let vb = value.as_bytes();
    let n = vb.len();
    let mut i: usize = 0;
    while i < n
        invariant
            vb@ == encode_utf8(value@),
            n == vb@.len(),
            0 <= i <= n,
            forall|j: int|
                0 <= j < i ==> (is_cookie_byte(#[trigger] vb@[j]) && vb@[j] != SEMICOLON
                    && vb@[j] != SPACE),
        decreases n - i,
    {
        let b = vb[i];
        if b < 33 || b > 126 || b == SEMICOLON {
            proof {
                let bad = vb@[i as int];
                assert(!(is_cookie_byte(bad) && bad != SEMICOLON && bad != SPACE));
            }
            return None;
        }
        i = i + 1;
    }
    let name = "jwt-token".as_bytes();
    let mut h: Vec<u8> = Vec::new();
    h.extend_from_slice(name);
    h.push(EQUALS);
    h.extend_from_slice(vb);
    proof {
        lemma_cookie_name_bytes();
        assert(h@ =~= spec_cookie_name() + seq![EQUALS] + vb@);
        lemma_cookie_round_trip(spec_cookie_name(), vb@);
        assert forall|k: int| 0 <= k < h@.len() implies is_cookie_byte(#[trigger] h@[k]) by {
            if k < 9 {
                assert(h@[k] == spec_cookie_name()[k]);
            } else if k == 9 {
                assert(h@[k] == EQUALS);
            } else {
                assert(h@[k] == vb@[k - 10]);
            }
        }
    }
    Some(h)
}

/// The `Set-Cookie` line that hands a session cookie to a browser: the
/// reserved name, the encoded token, and the transport attributes —
/// `HttpOnly`, `Secure`, one consistent `SameSite=Lax` policy, the whole
/// site as path, and twelve hours of browser retention. The token's own
/// expiry remains the authoritative bound.
pub fn session_set_cookie(value: &str) -> (r: String)
    ensures
        r@ == "jwt-token="@ + value@
            + "; HttpOnly; Secure; SameSite=Lax; Path=/; Max-Age=43200"@,
{
    let mut out: String = "jwt-token=".to_owned();
    out.append(value);
    out.append("; HttpOnly; Secure; SameSite=Lax; Path=/; Max-Age=43200");
    out
}

/// The confirmation hash a token must carry for a row: the base64 text of
/// the SHA3-512 digest of the stored password hash. A second-order digest:
/// the stored hash itself never travels.
pub open spec fn spec_confirmation(sh_pass: Seq<u8>) -> Seq<char> {
    base64_of(sha3_512_of(sh_pass))
}

/// Compute the confirmation hash of a stored password hash.
pub fn confirmation_hash(sh_pass: &[u8]) -> (r: String)
    ensures
        r@ == spec_confirmation(sh_pass@),
{
    let digest = sha3_512(sh_pass);
    b64_encode(digest.as_slice())
}

/// A cookie value carries the given claims when it is UTF-8 text and that
/// text is the base64 encoding of the claims' signed token bytes.
pub open spec fn value_carries_claims(
    secret: Seq<u8>,
    v: Seq<u8>,
    username: Seq<char>,
    conf: Seq<char>,
    exp: u64,
) -> bool {
    valid_utf8(v) && base64_of(spec_token_bytes(secret, username, conf, exp)) == decode_utf8(v)
}

/// Steps one to three of the guard: find the session cookie in the header
/// and decode its token. Each rejection names its step; a missing header and
/// a missing session cookie are the same absence.
pub fn extract_token(header: Option<&[u8]>, keys: &Keys, now: u64) -> (r: Result<
    UserToken,
    AuthError,
>)
    ensures
        match header {
            None => r == Err::<UserToken, AuthError>(AuthError::NoSessionCookie),
            Some(h) => if !header_bytes_ok(h@) {
                r == Err::<UserToken, AuthError>(AuthError::MalformedCookies)
            } else {
                match spec_find_cookie(h@, spec_cookie_name()) {
                    None => r == Err::<UserToken, AuthError>(AuthError::NoSessionCookie),
                    Some(v) => match r {
                        Ok(t) => value_carries_claims(keys@, v, t.username@, t.sh_pass@, t.exp)
                            && t.exp > now,
                        Err(e) => e == AuthError::InvalidToken && forall|
                            u: Seq<char>,
                            c: Seq<char>,
                            x: u64,
                        |
                            value_carries_claims(keys@, v, u, c, x) ==> x <= now,
                    },
                }
            },
        },
{
    broadcast use vstd::utf8::encode_utf8_decode_utf8;

    let h = match header {
        None => {
            return Err(AuthError::NoSessionCookie);
        },
        Some(h) => h,
    };
    if !header_ok(h) {
        return Err(AuthError::MalformedCookies);
    }
    let v = match find_cookie(h, "jwt-token".as_bytes()) {
        None => {
            return Err(AuthError::NoSessionCookie);
        },
        Some(v) => v,
    };
    let ghost vg: Seq<u8> = v@;
    let s = match bytes_to_string(v) {
        None => {
            return Err(AuthError::InvalidToken);
        },
        Some(s) => s,
    };
    let b = match b64_decode(s.as_str()) {
        None => {
            proof {
                assert forall|u: Seq<char>, c: Seq<char>, x: u64|
                    value_carries_claims(keys@, vg, u, c, x) implies x <= now by {
                    assert(decode_utf8(vg) == s@);
                }
            }
            return Err(AuthError::InvalidToken);
        },
        Some(b) => b,
    };
    match decode(b.as_slice(), keys, now) {
        None => {
            proof {
                assert forall|u: Seq<char>, c: Seq<char>, x: u64|
                    value_carries_claims(keys@, vg, u, c, x) implies x <= now by {
                    assert(decode_utf8(vg) == s@);
                    assert(base64_of(spec_token_bytes(keys@, u, c, x)) == s@);
                    assert(spec_token_bytes(keys@, u, c, x) == b@);
                }
            }
            Err(AuthError::InvalidToken)
        },
        Some(t) => {
            proof {
                assert(decode_utf8(vg) == s@);
            }
            Ok(t)
        },
    }
}

/// Steps five and six of the guard: recompute the confirmation hash from
/// the row as loaded now and compare it with the token's. A missing row and
/// an unreachable store were already collapsed by the caller.
pub fn confirm_user<'a>(token: &UserToken, loaded: Option<&'a User>) -> (r: Result<
    &'a User,
    AuthError,
>)
    ensures
        match loaded {
            None => r == Err::<&'a User, AuthError>(AuthError::UnknownUserOrStoreError),
            Some(u) => if token.sh_pass@ == spec_confirmation(u.sh_pass@) {
                r == Ok::<&'a User, AuthError>(u)
            } else {
                r == Err::<&'a User, AuthError>(AuthError::HashMismatch)
            },
        },
{
    let u = match loaded {
        None => {
            return Err(AuthError::UnknownUserOrStoreError);
        },
        Some(u) => u,
    };
    let conf = confirmation_hash(u.sh_pass.as_slice());
    if token.sh_pass.eq(&conf) {
        Ok(u)
    } else {
        Err(AuthError::HashMismatch)
    }
}

/// The whole guard: cookie extraction, token validation, credential reload,
/// confirmation-hash comparison. The result is the authenticated principal,
/// or the first rejection on the way; each error clause below says exactly
/// when its rejection arises.
pub fn authenticate<'a>(
    store: &'a UserStore,
    header: Option<&[u8]>,
    keys: &Keys,
    now: u64,
) -> (r: Result<&'a User, AuthError>)
    ensures
        match header {
            None => r == Err::<&'a User, AuthError>(AuthError::NoSessionCookie),
            Some(h) => if !header_bytes_ok(h@) {
                r == Err::<&'a User, AuthError>(AuthError::MalformedCookies)
            } else {
                match spec_find_cookie(h@, spec_cookie_name()) {
                    None => r == Err::<&'a User, AuthError>(AuthError::NoSessionCookie),
                    Some(v) => match r {
                        Ok(u) => {
                            &&& store.spec_available()
                            &&& exists|i: int|
                                0 <= i < store.spec_users().len() && #[trigger] store.spec_users()[i]
                                    == *u
                            &&& exists|x: u64|
                                x > now && #[trigger] value_carries_claims(
                                    keys@,
                                    v,
                                    u.username@,
                                    spec_confirmation(u.sh_pass@),
                                    x,
                                )
                        },
                        Err(e) => {
                            ||| (e == AuthError::InvalidToken && forall|
                                u2: Seq<char>,
                                c: Seq<char>,
                                x: u64,
                            |
                                value_carries_claims(keys@, v, u2, c, x) ==> x <= now)
                            ||| (e == AuthError::UnknownUserOrStoreError && (
                            !store.spec_available() || exists|u2: Seq<char>, c: Seq<char>, x: u64|
                                x > now && #[trigger] value_carries_claims(keys@, v, u2, c, x)
                                    && !store.spec_contains_username(u2)))
                            ||| (e == AuthError::HashMismatch && exists|
                                i: int,
                                c: Seq<char>,
                                x: u64,
                            |
                                0 <= i < store.spec_users().len() && x > now
                                    && #[trigger] value_carries_claims(
                                    keys@,
                                    v,
                                    store.spec_users()[i].username@,
                                    c,
                                    x,
                                ) && c != spec_confirmation(store.spec_users()[i].sh_pass@))
                        },
                    },
                }
            },
        },
{
    let token = match extract_token(header, keys, now) {
        Err(e) => {
            return Err(e);
        },
        Ok(t) => t,
    };
    let loaded = match store.lookup(token.username.as_str()) {
        Err(_) => {
            return Err(AuthError::UnknownUserOrStoreError);
        },
        Ok(l) => l,
    };
    match confirm_user(&token, loaded) {
        Ok(u) => {
            proof {
                let i = choose|i: int|
                    0 <= i < store.spec_users().len() && #[trigger] store.spec_users()[i] == *u;
                assert(value_carries_claims(
                    keys@,
                    spec_find_cookie(header->0@, spec_cookie_name())->0,
                    u.username@,
                    spec_confirmation(u.sh_pass@),
                    token.exp,
                ));
            }
            Ok(u)
        },
        Err(e) => {
            proof {
                match loaded {
                    None => {},
                    Some(u) => {
                        let i = choose|i: int|
                            0 <= i < store.spec_users().len() && #[trigger] store.spec_users()[i]
                                == *u;
                    },
                }
            }
            Err(e)
        },
    }
}

/// An authenticated principal whose rank admits administrative operations.
pub struct Admin(pub User);

/// The authorization gate: an admin-gated operation takes any authenticated
/// principal and passes exactly those of `Admin` rank.
pub fn require_admin(user: User) -> (r: Result<Admin, AuthError>)
    ensures
        match r {
            Ok(a) => a.0 == user && user.rank == Rank::Admin,
            Err(e) => e == AuthError::InsufficientRank && user.rank != Rank::Admin,
        },
{
    if user.rank == Rank::Admin {
        Ok(Admin(user))
    } else {
        Err(AuthError::InsufficientRank)
    }
}

} // verus!
