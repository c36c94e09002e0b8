//! The record type, the confirmation of a delete and the one error of the
//! store.

use vstd::prelude::*;
use crate::model::UserView;
use crate::text::{decimal, deleted_text, not_found_text};

verus! {

/// One user: the identifier that the store assigned, and the name.
#[derive(Debug)]
pub struct User {
    pub id: u32,
    pub name: String,
}

impl View for User {
    type V = UserView;

    open spec fn view(&self) -> UserView {
        UserView { id: self.id, name: self.name@ }
    }
}

impl Clone for User {
    fn clone(&self) -> (r: Self)
        ensures
            r@ == self@,
    {
        User { id: self.id, name: self.name.clone() }
    }
}

/// The records of `users` as plain values, in the same order.
pub open spec fn views(users: Seq<User>) -> Seq<UserView> {
    users.map_values(|u: User| u@)
}

/// What a delete answers: the identifier of the record that it removed.
#[derive(Debug, Clone, Copy, PartialEq, Eq, Structural)]
pub struct Deleted {
    pub id: u32,
}

impl Deleted {
    /// The text shown to a caller: `Deleted user` and the identifier in decimal.
    pub fn message(&self) -> (s: String)
        ensures
            s@ == deleted_text(self.id),
    {
        let mut s = String::from_str("Deleted user ");
        let digits = decimal(self.id);
        s.append(digits.as_str());
        s
    }
}

/// Why an operation of the store failed.
#[derive(Debug, Clone, Copy, PartialEq, Eq, Structural)]
pub enum StoreError {
    /// The store holds no record under the identifier asked for.
    NotFound,
}

impl StoreError {
    /// The text shown to a caller for this error.
    pub fn message(&self) -> (s: String)
        ensures
            s@ == not_found_text(),
    {
        match self {
            StoreError::NotFound => String::from_str("User not found"),
        }
    }
}

} // verus!
