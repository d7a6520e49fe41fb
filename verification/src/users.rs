//! User records and the in-memory user table.
//!
//! A user is a numeric id, a unique email, the PHC-encoded password
//! hash — never the password itself — and one admin bit. Emails are
//! compared byte for byte; no normalisation is applied before the
//! uniqueness check.

use vstd::prelude::*;

use crate::crypto::password_verifies;

verus! {

/// One user record. `password` holds the self-describing hash string,
/// never the plaintext.
pub struct User {
    pub id: i32,
    pub email: String,
    pub password: String,
    pub is_admin: bool,
}

/// The data a sign-up contributes: email and password hash.
pub struct NewUser<'a> {
    pub email: &'a str,
    pub password: &'a str,
}

/// Some record carries this email.
pub open spec fn has_email(users: Seq<User>, email: Seq<char>) -> bool {
    exists|i: int| 0 <= i < users.len() && users[i].email@ == email
}

/// Some record carries this id.
pub open spec fn has_user_id(users: Seq<User>, user_id: i32) -> bool {
    exists|i: int| 0 <= i < users.len() && users[i].id == user_id
}

/// Some record carries this email and its stored hash verifies the
/// password: the exact condition under which a sign-in succeeds.
pub open spec fn credentials_ok(users: Seq<User>, email: Seq<char>, password: Seq<char>) -> bool {
    exists|i: int|
        0 <= i < users.len() && users[i].email@ == email && password_verifies(
            password,
            users[i].password@,
        )
}

/// The record with this id has the admin bit set.
pub open spec fn is_admin_user(users: Seq<User>, user_id: i32) -> bool {
    exists|i: int| 0 <= i < users.len() && users[i].id == user_id && users[i].is_admin
}

/// Failures of user insertion: the email is already taken, or the
/// table cannot hold another id.
#[derive(Clone, Copy, Debug, PartialEq, Eq, Structural)]
pub enum UserStoreError {
    EmailInUse,
    StoreFull,
}

/// In-memory user table with unique emails and unique ids.
pub struct UserStore {
    users: Vec<User>,
}

impl View for UserStore {
    type V = Seq<User>;

    closed spec fn view(&self) -> Seq<User> {
        self.users@
    }
}

impl UserStore {
    /// Well-formedness: emails are unique and ids are the positions in
    /// the table, hence unique as well.
    pub closed spec fn wf(self) -> bool {
        &&& forall|i: int, j: int|
            0 <= i < j < self.users@.len() ==> self.users@[i].email@ != self.users@[j].email@
        &&& forall|i: int| 0 <= i < self.users@.len() ==> self.users@[i].id == i as i32
        &&& self.users@.len() <= i32::MAX
    }

    /// No two records share an email.
    pub proof fn lemma_emails_unique(self)
        requires
            self.wf(),
        ensures
            forall|i: int, j: int|
                0 <= i < self@.len() && 0 <= j < self@.len() && self@[i].email@ == self@[j].email@
                    ==> i == j,
    {
    }

    /// No two records share an id.
    pub proof fn lemma_ids_unique(self)
        requires
            self.wf(),
        ensures
            forall|i: int, j: int|
                0 <= i < self@.len() && 0 <= j < self@.len() && self@[i].id == self@[j].id ==> i
                    == j,
    {
    }

    /// An empty table.
    pub fn new() -> (store: UserStore)
        ensures
            store.wf(),
            store@ == Seq::<User>::empty(),
    {
        UserStore { users: Vec::new() }
    }

    /// How many users the table holds.
    pub fn len(&self) -> (n: usize)
        ensures
            n == self@.len(),
    {
        self.users.len()
    }

    /// The record at a position.
    pub fn get(&self, i: usize) -> (u: &User)
        requires
            i < self@.len(),
        ensures
            *u == self@[i as int],
    {
        &self.users[i]
    }

    /// The position of the record carrying `email`, if any.
    pub fn find_by_email(&self, email: &str) -> (r: Option<usize>)
        ensures
            r matches Some(i) ==> i < self@.len() && self@[i as int].email@ == email@,
            r is Some <==> has_email(self@, email@),
    {
        let wanted = email.to_owned();
        let n = self.users.len();
        for i in 0..n
            invariant
                n == self.users@.len(),
                wanted@ == email@,
                forall|j: int| 0 <= j < i ==> self.users@[j].email@ != email@,
        {
            if self.users[i].email.eq(&wanted) {
                return Some(i);
            }
        }
        None
    }

    /// The position of the record carrying `user_id`, if any.
    pub fn find_by_id(&self, user_id: i32) -> (r: Option<usize>)
        ensures
            r matches Some(i) ==> i < self@.len() && self@[i as int].id == user_id,
            r is Some <==> has_user_id(self@, user_id),
    {
        let n = self.users.len();
        for i in 0..n
            invariant
                n == self.users@.len(),
                forall|j: int| 0 <= j < i ==> self.users@[j].id != user_id,
        {
            if self.users[i].id == user_id {
                return Some(i);
            }
        }
        None
    }

    /// Insert a new user. The email must be free; the admin bit is
    /// whatever the caller decided — sign-up always passes false.
    pub fn insert(&mut self, new_user: NewUser<'_>, is_admin: bool) -> (r: Result<
        i32,
        UserStoreError,
    >)
        requires
            old(self).wf(),
        ensures
            final(self).wf(),
            r is Ok <==> !has_email(old(self)@, new_user.email@) && old(self)@.len() < i32::MAX,
            r == Err::<i32, UserStoreError>(UserStoreError::EmailInUse) <==> has_email(
                old(self)@,
                new_user.email@,
            ),
            r matches Ok(id) ==> ({
                &&& final(self)@.len() == old(self)@.len() + 1
                &&& final(self)@.last().id == id
                &&& final(self)@.last().email@ == new_user.email@
                &&& final(self)@.last().password@ == new_user.password@
                &&& final(self)@.last().is_admin == is_admin
                &&& final(self)@.drop_last() == old(self)@
                &&& !old(self)@.contains(final(self)@.last())
            }),
            r is Err ==> final(self)@ == old(self)@,
    {
        if self.find_by_email(new_user.email).is_some() {
            return Err(UserStoreError::EmailInUse);
        }
        let n = self.users.len();
        if n >= 0x7fff_ffff {
            return Err(UserStoreError::StoreFull);
        }
        let user = User {
            id: n as i32,
            email: new_user.email.to_owned(),
            password: new_user.password.to_owned(),
            is_admin,
        };
        self.users.push(user);
        proof {
            assert(self.users@.drop_last() =~= old(self).users@);
            assert forall|i: int| 0 <= i < old(self)@.len() implies old(self)@[i]
                != self.users@.last() by {
                assert(old(self)@[i].email@ != new_user.email@);
            }
        }
        Ok(n as i32)
    }
}

} // verus!
