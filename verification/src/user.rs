//! Operator accounts: the user table, with passwords stored only as
//! argon2 hashes.

use vstd::prelude::*;

use crate::auth::hash;
use crate::status::UserRole;

verus! {

/// One operator account. `password` holds the argon2 PHC string, never
/// the password itself.
pub struct User {
    pub id: u32,
    pub username: String,
    pub password: String,
    pub role: UserRole,
    pub active: bool,
    pub timezone: Option<String>,
}

impl Clone for User {
    fn clone(&self) -> (r: Self)
        ensures
            r == *self,
    {
        User {
            id: self.id,
            username: self.username.clone(),
            password: self.password.clone(),
            role: self.role,
            active: self.active,
            timezone: self.timezone.clone(),
        }
    }
}

/// Payload for registering an account; a missing role means `Viewer`.
pub struct UserForRegister {
    pub username: String,
    pub role: Option<UserRole>,
    pub password: String,
    pub timezone: Option<String>,
}

/// Payload for a login attempt.
pub struct UserForLogin {
    pub username: String,
    pub password: String,
}

/// Why a user lookup failed.
#[derive(Debug, Clone, Copy, PartialEq, Eq, Structural)]
pub enum UserError {
    NotFound,
}

/// The user table, with dense store-assigned ids.
pub struct UserStore {
    users: Vec<User>,
}

impl UserStore {
    /// The accounts, in insertion order.
    pub closed spec fn view(&self) -> Seq<User> {
        self.users@
    }

    /// Dense ids.
    pub open spec fn wf(&self) -> bool {
        forall|i: int| 0 <= i < self@.len() ==> (#[trigger] self@[i]).id == i + 1
    }

    /// An empty user table.
    pub fn new() -> (r: Self)
        ensures
            r.wf(),
            r@.len() == 0,
    {
        UserStore { users: Vec::new() }
    }

    /// Registers an account: the password is hashed with argon2 and the
    /// account appended with the next dense id, role defaulting to
    /// `Viewer` and `active` set. Returns the number of rows inserted —
    /// one — or nothing when hashing failed, in which case the table
    /// stands unchanged.
    pub fn insert(&mut self, user: UserForRegister) -> (r: Option<u64>)
        requires
            old(self).wf(),
            old(self)@.len() + 1 < u32::MAX,
        ensures
            final(self).wf(),
            match r {
                Some(c) => {
                    &&& c == 1
                    &&& final(self)@.len() == old(self)@.len() + 1
                    &&& final(self)@.subrange(0, old(self)@.len() as int) == old(self)@
                    &&& ({
                        let u = final(self)@.last();
                        &&& u.id == old(self)@.len() + 1
                        &&& u.username == user.username
                        &&& u.role == (match user.role {
                            Some(ro) => ro,
                            None => UserRole::Viewer,
                        })
                        &&& u.active
                        &&& u.timezone == user.timezone
                        &&& u.password@.len() > 9
                        &&& u.password@.subrange(0, 9) == "$argon2id"@
                    })
                },
                None => final(self)@ == old(self)@,
            },
    {
        let hashed = match hash(user.password) {
            Some(h) => h,
            None => {
                return None;
            },
        };
        let role = match user.role {
            Some(ro) => ro,
            None => UserRole::Viewer,
        };
        let id = (self.users.len() + 1) as u32;
        self.users.push(
            User {
                id,
                username: user.username,
                password: hashed,
                role,
                active: true,
                timezone: user.timezone,
            },
        );
        proof {
            assert(self@.subrange(0, old(self)@.len() as int) =~= old(self)@);
        }
        Some(1)
    }

    /// The account with the given id, or `NotFound`.
    pub fn get(&self, user_id: u32) -> (r: Result<User, UserError>)
        requires
            self.wf(),
        ensures
            match r {
                Ok(u) => 1 <= user_id <= self@.len() && u == self@[user_id - 1],
                Err(e) => e == UserError::NotFound && (user_id == 0 || user_id > self@.len()),
            },
    {
        if user_id == 0 || user_id as usize > self.users.len() {
            Err(UserError::NotFound)
        } else {
            Ok(self.users[user_id as usize - 1].clone())
        }
    }

    /// All accounts, in insertion order.
    pub fn list(&self) -> (r: Vec<User>)
        ensures
            r@ == self@,
    {
        let mut out: Vec<User> = Vec::new();
        let n = self.users.len();
        for i in 0..n
            invariant
                n == self@.len(),
                out@ == self@.take(i as int),
        {
            out.push(self.users[i].clone());
            proof {
                assert(out@ =~= self@.take(i + 1));
            }
        }
        proof {
            assert(self@.take(n as int) == self@);
        }
        out
    }
}

} // verus!
