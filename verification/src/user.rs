//! The durable user record and its mathematical model.

use vstd::prelude::*;

verus! {

/// A durable user record: numeric identifier assigned by the store, unique
/// email, password hash (never the plaintext), and the two account flags.
pub struct User {
    pub id: i32,
    pub email: String,
    pub password: String,
    pub is_admin: bool,
    pub is_confirmed: bool,
}

/// The mathematical model of a user record.
pub ghost struct UserV {
    pub id: i32,
    pub email: Seq<char>,
    pub password: Seq<char>,
    pub is_admin: bool,
    pub is_confirmed: bool,
}

impl View for User {
    type V = UserV;

    open spec fn view(&self) -> UserV {
        UserV {
            id: self.id,
            email: self.email@,
            password: self.password@,
            is_admin: self.is_admin,
            is_confirmed: self.is_confirmed,
        }
    }
}

impl User {
    /// Returns a copy of this record.
    pub fn duplicate(&self) -> (r: User)
        ensures
            r@ == self@,
    {
        User {
            id: self.id,
            email: self.email.clone(),
            password: self.password.clone(),
            is_admin: self.is_admin,
            is_confirmed: self.is_confirmed,
        }
    }
}

} // verus!
