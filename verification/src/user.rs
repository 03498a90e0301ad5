//! The durable credential record and its authorization rank.
use vstd::prelude::*;
use crate::hashing::spec_password_hash;

verus! {

/// Coarse authorization level of a credential. `User` is the default; only
/// privileged provisioning may assign `Admin`.
#[derive(Clone, Copy, Debug, PartialEq, Eq, Structural)]
pub enum Rank {
    User,
    Admin,
}

impl Default for Rank {
    fn default() -> (r: Self)
        ensures
            r == Rank::User,
    {
        Rank::User
    }
}

impl Rank {
    /// The stored text of a rank, exactly the two literal values the storage
    /// schema admits.
    pub fn to_text(&self) -> (r: String)
        ensures
            *self == Rank::User ==> r@ == "User"@,
            *self == Rank::Admin ==> r@ == "Admin"@,
    {
        match self {
            Rank::User => "User".to_owned(),
            Rank::Admin => "Admin".to_owned(),
        }
    }

    /// Read a rank back from its stored text. Anything but the literal
    /// `"Admin"` is the ordinary `User` rank.
    pub fn from_text(value: &str) -> (r: Rank)
        ensures
            r == (if value@ == "Admin"@ {
                Rank::Admin
            } else {
                Rank::User
            }),
    {
        if crate::encoding::str_eq(value, "Admin") {
            Rank::Admin
        } else {
            Rank::User
        }
    }
}

/// A stored credential: the only persisted form of a password is the salted
/// hash `sh_pass`, computed over `salt ‖ plaintext` at provisioning time.
#[derive(Debug)]
pub struct User {
    pub name: String,
    pub username: String,
    pub profile_pic: Option<String>,
    pub salt: Vec<u8>,
    pub sh_pass: Vec<u8>,
    pub email: String,
    pub rank: Rank,
}

impl Clone for User {
    fn clone(&self) -> (r: Self)
        ensures
            r.name == self.name,
            r.username == self.username,
            r.profile_pic == self.profile_pic,
            r.salt@ == self.salt@,
            r.sh_pass@ == self.sh_pass@,
            r.email == self.email,
            r.rank == self.rank,
    {
        let r = User {
            name: self.name.clone(),
            username: self.username.clone(),
            profile_pic: match &self.profile_pic {
                Some(p) => Some(p.clone()),
                None => None,
            },
            salt: self.salt.clone(),
            sh_pass: self.sh_pass.clone(),
            email: self.email.clone(),
            rank: self.rank,
        };
        proof {
            assert(r.salt@ =~= self.salt@);
            assert(r.sh_pass@ =~= self.sh_pass@);
        }
        r
    }
}

impl User {
    /// A credential is well formed when its salt and stored hash have the
    /// fixed lengths provisioning produces.
    pub open spec fn wf(&self) -> bool {
        &&& self.salt@.len() == 64
        &&& self.sh_pass@.len() == 64
    }

    /// The stored hash is the salted hash of the given plaintext.
    pub open spec fn holds_password(&self, pass: Seq<char>) -> bool {
        self.sh_pass@ == spec_password_hash(self.salt@, pass)
    }
}

/// The descriptive fields of a credential: everything except the secret
/// material, safe to hand back to a caller.
#[derive(Debug)]
pub struct UserInfo {
    pub name: String,
    pub username: String,
    pub profile_pic: Option<String>,
    pub email: String,
    pub rank: Rank,
}

/// A lookup request for one credential's descriptive fields.
#[derive(Debug)]
pub struct UserGetRequest {
    pub username: String,
}

/// Look up a credential by username and hand back its descriptive fields,
/// never the salt or the stored hash. An unknown username and an
/// unreachable store look the same from outside.
pub fn get_user(req: &UserGetRequest, store: &crate::store::UserStore) -> (r: Option<UserInfo>)
    ensures
        match r {
            Some(info) => {
                &&& store.spec_available()
                &&& exists|i: int|
                    0 <= i < store.spec_users().len() && {
                        let u = #[trigger] store.spec_users()[i];
                        &&& u.username@ == req.username@
                        &&& info.name@ == u.name@
                        &&& info.username@ == u.username@
                        &&& info.profile_pic == u.profile_pic
                        &&& info.email@ == u.email@
                        &&& info.rank == u.rank
                    }
            },
            None => !store.spec_available() || !store.spec_contains_username(req.username@),
        },
{
    match store.lookup(req.username.as_str()) {
        Err(_) => None,
        Ok(None) => None,
        Ok(Some(u)) => {
            let info = user_info(u);
            proof {
                let i = choose|i: int|
                    0 <= i < store.spec_users().len() && #[trigger] store.spec_users()[i] == *u;
            }
            Some(info)
        },
    }
}

/// Project a credential onto its descriptive fields, leaving the salt and
/// the stored hash behind.
pub fn user_info(user: &User) -> (r: UserInfo)
    ensures
        r.name == user.name,
        r.username == user.username,
        r.profile_pic == user.profile_pic,
        r.email == user.email,
        r.rank == user.rank,
{
    UserInfo {
        name: user.name.clone(),
        username: user.username.clone(),
        profile_pic: match &user.profile_pic {
            Some(p) => Some(p.clone()),
            None => None,
        },
        email: user.email.clone(),
        rank: user.rank,
    }
}

} // verus!
