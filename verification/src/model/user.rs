//! A user that may log in to the gateway.

use vstd::prelude::*;

verus! {

/// Whether a user account may log in.
#[derive(Clone, Copy, Debug, PartialEq, Eq, Structural)]
pub enum Status {
    Active,
    Inactive,
}

impl Default for Status {
    fn default() -> (status: Status)
        ensures
            status == Status::Active,
    {
        Status::Active
    }
}

/// A user record, identified by `user_id`.
#[derive(Debug, PartialEq)]
pub struct User {
    pub user_id: u64,
    pub name: String,
    pub status: Status,
}

/// What a `User` holds, as mathematical values.
pub struct UserView {
    pub user_id: u64,
    pub name: Seq<char>,
    pub status: Status,
}

impl View for User {
    type V = UserView;

    open spec fn view(&self) -> UserView {
        UserView { user_id: self.user_id, name: self.name@, status: self.status }
    }
}

impl Clone for User {
    fn clone(&self) -> (copy: User)
        ensures
            copy == *self,
    {
        User { user_id: self.user_id, name: self.name.clone(), status: self.status }
    }
}

impl User {
    /// Builds a user record from its three fields.
    pub fn new(user_id: u64, name: &str, status: Status) -> (user: User)
        ensures
            user@ == (UserView { user_id, name: name@, status }),
    {
        User { user_id, name: String::from_str(name), status }
    }
}

} // verus!
