//! Account provisioning: self-service sign-up, privileged account creation,
//! and sign-in. Every path draws a fresh salt, hashes the plaintext under
//! it, and persists only the salted hash; sign-up and sign-in mint a session
//! cookie for immediate use.
use vstd::prelude::*;
use crate::authenticate::spec_confirmation;
use crate::encoding::b64_encode;
use crate::encoding::base64_of;
use crate::hashing::{generate_salt, hash_password, verify_password, spec_password_hash};
use crate::keyring::Keys;
use crate::token::{UserToken, spec_token_bytes, TOKEN_LIFETIME_SECS};
use crate::store::{UserStore, StoreError};
use crate::user::{User, Rank, UserInfo, user_info};

verus! {

/// The failure a sign-up conversion may report. Hashing a password has no
/// failure case in this library, so no operation here produces the variant;
/// the type remains for callers that match on it.
#[derive(Clone, Copy, Debug, PartialEq, Eq, Structural)]
pub enum UserSignUpError {
    FailedHashing,
}

/// A sign-up request: the only moment the plaintext password exists.
#[derive(Debug)]
pub struct UserSignUp {
    pub name: String,
    pub username: String,
    pub pass: String,
    pub email: String,
}

/// A sign-in request.
#[derive(Debug)]
pub struct UserSignIn {
    pub username: String,
    pub pass: String,
}

/// Why provisioning failed.
#[derive(Clone, Copy, Debug, PartialEq, Eq, Structural)]
pub enum ProvisionError {
    /// The username or email is already taken; safe to reveal, it is the
    /// caller's own input conflicting.
    DuplicateUsername,
    /// The acting principal's rank does not admit privileged creation.
    Unauthorized,
    /// The store could not be reached.
    StoreUnavailable,
}

impl ProvisionError {
    /// What the boundary reports of a provisioning failure. The duplicate
    /// is safe to name — it is the caller's own input conflicting — while
    /// the other two collapse to generic words: no message hints at which
    /// rank would have sufficed, nor at the store's internals.
    pub fn boundary_message(&self) -> (r: String)
        ensures
            *self == ProvisionError::DuplicateUsername ==> r@ == "username or email already taken"@,
            *self == ProvisionError::Unauthorized ==> r@ == "unauthorized"@,
            *self == ProvisionError::StoreUnavailable ==> r@ == "service unavailable"@,
    {
        match self {
            ProvisionError::DuplicateUsername => "username or email already taken".to_owned(),
            ProvisionError::Unauthorized => "unauthorized".to_owned(),
            ProvisionError::StoreUnavailable => "service unavailable".to_owned(),
        }
    }
}

/// Why sign-in failed. An unknown username, a wrong password, and an
/// unreachable store all surface as the same variant, so that a caller can
/// not probe which usernames exist.
#[derive(Clone, Copy, Debug, PartialEq, Eq, Structural)]
pub enum SignInError {
    InvalidCredentials,
}

/// Two credential values that hold the same data, field for field.
pub open spec fn spec_same_credential(a: User, b: User) -> bool {
    &&& a.name@ == b.name@
    &&& a.username@ == b.username@
    &&& a.profile_pic == b.profile_pic
    &&& a.salt@ == b.salt@
    &&& a.sh_pass@ == b.sh_pass@
    &&& a.email@ == b.email@
    &&& a.rank == b.rank
}

/// Build a credential from a sign-up request and a salt: the stored hash is
/// the salted hash of the plaintext, the rank the given one, and nothing of
/// the plaintext itself is kept.
pub fn make_user(value: UserSignUp, salt: Vec<u8>, rank: Rank) -> (r: User)
    requires
        salt@.len() == 64,
    ensures
        r.name == value.name,
        r.username == value.username,
        r.profile_pic is None,
        r.salt@ == salt@,
        r.sh_pass@ == spec_password_hash(salt@, value.pass@),
        r.email == value.email,
        r.rank == rank,
        r.wf(),
        r.holds_password(value.pass@),
{
    let sh_pass = hash_password(salt.as_slice(), value.pass.as_str());
    User {
        name: value.name,
        username: value.username,
        profile_pic: None,
        salt,
        sh_pass,
        email: value.email,
        rank,
    }
}

/// Build a credential with a freshly drawn 64-byte salt. Only the salt's
/// length can be promised: its bytes come from the secure random source.
pub fn new_user(value: UserSignUp, rank: Rank) -> (r: User)
    ensures
        r.name == value.name,
        r.username == value.username,
        r.profile_pic is None,
        r.salt@.len() == 64,
        r.sh_pass@ == spec_password_hash(r.salt@, value.pass@),
        r.email == value.email,
        r.rank == rank,
        r.wf(),
        r.holds_password(value.pass@),
{
    let salt = generate_salt();
    make_user(value, salt, rank)
}

/// Self-service sign-up: the new credential always has `User` rank, the row
/// is written only when username and email are free, and on success a
/// session cookie is minted for immediate login.
pub fn sign_up(store: &mut UserStore, req: UserSignUp, keys: &Keys, now: u64) -> (r: Result<
    (User, String),
    ProvisionError,
>)
    requires
        old(store).wf(),
        now + TOKEN_LIFETIME_SECS <= u64::MAX,
    ensures
        final (store).wf(),
        final (store).spec_available() == old(store).spec_available(),
        match r {
            Ok((u, cookie)) => {
                &&& old(store).spec_available()
                &&& !old(store).spec_contains_username(req.username@)
                &&& !old(store).spec_contains_email(req.email@)
                &&& u.name@ == req.name@ && u.username@ == req.username@ && u.email@ == req.email@
                &&& u.profile_pic is None
                &&& u.rank == Rank::User
                &&& u.wf() && u.holds_password(req.pass@)
                &&& final (store).spec_users().len() == old(store).spec_users().len() + 1
                &&& final (store).spec_users() == old(store).spec_users().push(
                    final (store).spec_users().last(),
                )
                &&& spec_same_credential(final (store).spec_users().last(), u)
                &&& cookie@ == base64_of(
                    spec_token_bytes(
                        keys@,
                        u.username@,
                        spec_confirmation(u.sh_pass@),
                        (now + TOKEN_LIFETIME_SECS) as u64,
                    ),
                )
            },
            Err(ProvisionError::DuplicateUsername) => {
                &&& old(store).spec_available()
                &&& (old(store).spec_contains_username(req.username@) || old(
                    store,
                ).spec_contains_email(req.email@))
                &&& final (store).spec_users() == old(store).spec_users()
            },
            Err(ProvisionError::StoreUnavailable) => {
                &&& !old(store).spec_available()
                &&& final (store).spec_users() == old(store).spec_users()
            },
            Err(ProvisionError::Unauthorized) => false,
        },
{
    let user = new_user(req, Rank::User);
    let keep = user.clone();
    match store.insert(user) {
        Ok(()) => {
            let token = UserToken::derive(&keep, now);
            let bytes = token.encode(keys);
            let cookie = b64_encode(bytes.as_slice());
            Ok((keep, cookie))
        },
        Err(StoreError::Duplicate) => Err(ProvisionError::DuplicateUsername),
        Err(StoreError::Unavailable) => Err(ProvisionError::StoreUnavailable),
    }
}

/// Privileged account creation: only an `Admin` principal may reach the
/// store, and the new credential carries the rank the actor chose.
pub fn create_privileged(req: UserSignUp, rank: Rank, actor: &User, store: &mut UserStore) -> (r:
    Result<User, ProvisionError>)
    requires
        old(store).wf(),
    ensures
        final (store).wf(),
        final (store).spec_available() == old(store).spec_available(),
        match r {
            Ok(u) => {
                &&& actor.rank == Rank::Admin
                &&& old(store).spec_available()
                &&& !old(store).spec_contains_username(req.username@)
                &&& !old(store).spec_contains_email(req.email@)
                &&& u.name@ == req.name@ && u.username@ == req.username@ && u.email@ == req.email@
                &&& u.rank == rank
                &&& u.wf() && u.holds_password(req.pass@)
                &&& final (store).spec_users().len() == old(store).spec_users().len() + 1
                &&& final (store).spec_users() == old(store).spec_users().push(
                    final (store).spec_users().last(),
                )
                &&& spec_same_credential(final (store).spec_users().last(), u)
            },
            Err(ProvisionError::Unauthorized) => {
                &&& actor.rank != Rank::Admin
                &&& final (store).spec_users() == old(store).spec_users()
            },
            Err(ProvisionError::DuplicateUsername) => {
                &&& actor.rank == Rank::Admin
                &&& old(store).spec_available()
                &&& (old(store).spec_contains_username(req.username@) || old(
                    store,
                ).spec_contains_email(req.email@))
                &&& final (store).spec_users() == old(store).spec_users()
            },
            Err(ProvisionError::StoreUnavailable) => {
                &&& actor.rank == Rank::Admin
                &&& !old(store).spec_available()
                &&& final (store).spec_users() == old(store).spec_users()
            },
        },
{
    if !matches!(actor.rank, Rank::Admin) {
        return Err(ProvisionError::Unauthorized);
    }
    let user = new_user(req, rank);
    let keep = user.clone();
    match store.insert(user) {
        Ok(()) => Ok(keep),
        Err(StoreError::Duplicate) => Err(ProvisionError::DuplicateUsername),
        Err(StoreError::Unavailable) => Err(ProvisionError::StoreUnavailable),
    }
}

/// The administrative handler over privileged creation: any authenticated
/// principal may call it, but only an `Admin` principal creates anything,
/// and the created account has the ordinary `User` rank.
pub fn create_user(admin: &User, store: &mut UserStore, req: UserSignUp) -> (r: Result<
    UserInfo,
    ProvisionError,
>)
    requires
        old(store).wf(),
    ensures
        final (store).wf(),
        final (store).spec_available() == old(store).spec_available(),
        match r {
            Ok(info) => {
                &&& admin.rank == Rank::Admin
                &&& old(store).spec_available()
                &&& !old(store).spec_contains_username(req.username@)
                &&& !old(store).spec_contains_email(req.email@)
                &&& info.name@ == req.name@ && info.username@ == req.username@ && info.email@
                    == req.email@
                &&& info.profile_pic is None
                &&& info.rank == Rank::User
                &&& final (store).spec_users().len() == old(store).spec_users().len() + 1
                &&& final (store).spec_users() == old(store).spec_users().push(
                    final (store).spec_users().last(),
                )
                &&& final (store).spec_users().last().name@ == req.name@
                &&& final (store).spec_users().last().username@ == req.username@
                &&& final (store).spec_users().last().email@ == req.email@
                &&& final (store).spec_users().last().profile_pic is None
                &&& final (store).spec_users().last().rank == Rank::User
                &&& final (store).spec_users().last().wf()
                &&& final (store).spec_users().last().holds_password(req.pass@)
            },
            Err(ProvisionError::Unauthorized) => {
                &&& admin.rank != Rank::Admin
                &&& final (store).spec_users() == old(store).spec_users()
            },
            Err(ProvisionError::DuplicateUsername) => {
                &&& admin.rank == Rank::Admin
                &&& old(store).spec_available()
                &&& (old(store).spec_contains_username(req.username@) || old(
                    store,
                ).spec_contains_email(req.email@))
                &&& final (store).spec_users() == old(store).spec_users()
            },
            Err(ProvisionError::StoreUnavailable) => {
                &&& admin.rank == Rank::Admin
                &&& !old(store).spec_available()
                &&& final (store).spec_users() == old(store).spec_users()
            },
        },
{
    if !matches!(admin.rank, Rank::Admin) {
        return Err(ProvisionError::Unauthorized);
    }
    let user = new_user(req, Rank::User);
    let info = user_info(&user);
    match store.insert(user) {
        Ok(()) => Ok(info),
        Err(StoreError::Duplicate) => Err(ProvisionError::DuplicateUsername),
        Err(StoreError::Unavailable) => Err(ProvisionError::StoreUnavailable),
    }
}

/// Sign-in: load the credential, verify the password against the stored
/// salted hash, and on success mint a session cookie. A missing user, a
/// wrong password, and an unreachable store yield one and the same error.
pub fn sign_in(store: &UserStore, req: &UserSignIn, keys: &Keys, now: u64) -> (r: Result<
    String,
    SignInError,
>)
    requires
        store.wf(),
        now + TOKEN_LIFETIME_SECS <= u64::MAX,
    ensures
        match r {
            Ok(cookie) => {
                &&& store.spec_available()
                &&& exists|i: int|
                    0 <= i < store.spec_users().len() && (#[trigger] store.spec_users()[i]).username@
                        == req.username@ && store.spec_users()[i].holds_password(req.pass@)
                        && cookie@ == base64_of(
                        spec_token_bytes(
                            keys@,
                            store.spec_users()[i].username@,
                            spec_confirmation(store.spec_users()[i].sh_pass@),
                            (now + TOKEN_LIFETIME_SECS) as u64,
                        ),
                    )
            },
            Err(e) => {
                &&& e == SignInError::InvalidCredentials
                &&& (!store.spec_available() || forall|i: int|
                    0 <= i < store.spec_users().len() ==> ((#[trigger] store.spec_users()[i]).username@
                        != req.username@ || !store.spec_users()[i].holds_password(req.pass@)))
            },
        },
{
    let loaded = match store.lookup(req.username.as_str()) {
        Err(_) => {
            return Err(SignInError::InvalidCredentials);
        },
        Ok(None) => {
            return Err(SignInError::InvalidCredentials);
        },
        Ok(Some(u)) => u,
    };
    if verify_password(loaded.salt.as_slice(), loaded.sh_pass.as_slice(), req.pass.as_str()) {
        let token = UserToken::derive(loaded, now);
        let bytes = token.encode(keys);
        let cookie = b64_encode(bytes.as_slice());
        proof {
            let i = choose|i: int|
                0 <= i < store.spec_users().len() && #[trigger] store.spec_users()[i] == *loaded;
        }
        Ok(cookie)
    } else {
        proof {
            let i = choose|i: int|
                0 <= i < store.spec_users().len() && #[trigger] store.spec_users()[i] == *loaded;
            assert forall|j: int|
                0 <= j < store.spec_users().len() implies ((#[trigger] store.spec_users()[j]).username@
                != req.username@ || !store.spec_users()[j].holds_password(req.pass@)) by {
                if store.spec_users()[j].username@ == req.username@ {
                    assert(j == i);
                }
            }
        }
        Err(SignInError::InvalidCredentials)
    }
}

} // verus!
