//! An in-memory model of the storage collaborator: point reads by username
//! and inserts that enforce the uniqueness of usernames and emails. The
//! `available` flag stands for the connection that a real store may lose;
//! every operation surfaces that state rather than swallowing it.
use vstd::prelude::*;
use crate::encoding::str_eq;
use crate::user::User;

verus! {

/// A storage operation's failure.
#[derive(Clone, Copy, Debug, PartialEq, Eq, Structural)]
pub enum StoreError {
    /// The store cannot be reached.
    Unavailable,
    /// An insert would violate the uniqueness of usernames or emails.
    Duplicate,
}

/// The credential rows, keyed by unique username.
pub struct UserStore {
    available: bool,
    users: Vec<User>,
}

impl UserStore {
    /// The stored credentials, in insertion order.
    pub closed spec fn spec_users(&self) -> Seq<User> {
        self.users@
    }

    /// Whether the store can currently be reached.
    pub closed spec fn spec_available(&self) -> bool {
        self.available
    }

    /// No two rows share a username or an email.
    pub open spec fn wf(&self) -> bool {
        forall|i: int, j: int|
            0 <= i < j < self.spec_users().len() ==> (#[trigger] self.spec_users()[i].username@
                != #[trigger] self.spec_users()[j].username@ && self.spec_users()[i].email@
                != self.spec_users()[j].email@)
    }

    /// Some row holds this username.
    pub open spec fn spec_contains_username(&self, username: Seq<char>) -> bool {
        exists|i: int|
            0 <= i < self.spec_users().len() && (#[trigger] self.spec_users()[i]).username@
                == username
    }

    /// Some row holds this email.
    pub open spec fn spec_contains_email(&self, email: Seq<char>) -> bool {
        exists|i: int|
            0 <= i < self.spec_users().len() && (#[trigger] self.spec_users()[i]).email@ == email
    }

    /// An empty, reachable store.
    pub fn new() -> (r: UserStore)
        ensures
            r.wf(),
            r.spec_users() == Seq::<User>::empty(),
            r.spec_available(),
    {
        let r = UserStore { available: true, users: Vec::new() };
        proof {
            assert(r.spec_users() =~= Seq::<User>::empty());
        }
        r
    }

    /// Make the store reachable or unreachable; the rows stay as they are.
    pub fn set_available(&mut self, available: bool)
        ensures
            final (self).spec_users() == old(self).spec_users(),
            final (self).spec_available() == available,
    {
        self.available = available;
    }

    /// Point read by username.
    pub fn lookup<'a>(&'a self, username: &str) -> (r: Result<Option<&'a User>, StoreError>)
        ensures
            match r {
                Ok(Some(u)) => {
                    &&& self.spec_available()
                    &&& u.username@ == username@
                    &&& exists|i: int|
                        0 <= i < self.spec_users().len() && #[trigger] self.spec_users()[i] == *u
                },
                Ok(None) => self.spec_available() && !self.spec_contains_username(username@),
                Err(e) => !self.spec_available() && e == StoreError::Unavailable,
            },
    {
        if !self.available {
            return Err(StoreError::Unavailable);
        }
        let n = self.users.len();
        let mut i: usize = 0;
        while i < n
            invariant
                self.spec_available(),
                n == self.spec_users().len(),
                0 <= i <= n,
                forall|j: int| 0 <= j < i ==> (#[trigger] self.spec_users()[j]).username@ != username@,
            decreases n - i,
        {
            if str_eq(self.users[i].username.as_str(), username) {
                return Ok(Some(&self.users[i]));
            }
            i = i + 1;
        }
        Ok(None)
    }

    /// Insert a new row, enforcing the uniqueness of usernames and emails.
    /// Either the row is fully written or the store is unchanged.
    pub fn insert(&mut self, user: User) -> (r: Result<(), StoreError>)
        requires
            old(self).wf(),
        ensures
            final (self).wf(),
            final (self).spec_available() == old(self).spec_available(),
            match r {
                Ok(()) => {
                    &&& old(self).spec_available()
                    &&& !old(self).spec_contains_username(user.username@)
                    &&& !old(self).spec_contains_email(user.email@)
                    &&& final (self).spec_users() == old(self).spec_users().push(user)
                },
                Err(StoreError::Duplicate) => {
                    &&& old(self).spec_available()
                    &&& (old(self).spec_contains_username(user.username@) || old(
                        self,
                    ).spec_contains_email(user.email@))
                    &&& final (self).spec_users() == old(self).spec_users()
                },
                Err(StoreError::Unavailable) => {
                    &&& !old(self).spec_available()
                    &&& final (self).spec_users() == old(self).spec_users()
                },
            },
    {
        if !self.available {
            return Err(StoreError::Unavailable);
        }
        let n = self.users.len();
        let mut i: usize = 0;
        while i < n
            invariant
                *self == *old(self),
                old(self).wf(),
                old(self).spec_available(),
                n == self.spec_users().len(),
                0 <= i <= n,
                forall|j: int|
                    0 <= j < i ==> (#[trigger] self.spec_users()[j]).username@ != user.username@
                        && self.spec_users()[j].email@ != user.email@,
            decreases n - i,
        {
            if str_eq(self.users[i].username.as_str(), user.username.as_str()) || str_eq(
                self.users[i].email.as_str(),
                user.email.as_str(),
            ) {
                return Err(StoreError::Duplicate);
            }
            i = i + 1;
        }
        self.users.push(user);
        Ok(())
    }
}

} // verus!
