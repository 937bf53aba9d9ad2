//! The two record types: a persisted `Friend` (id, name, email) and the
//! creation payload `NewFriend` (name, email), each with a mathematical view.

use vstd::prelude::*;

verus! {

/// Mathematical view of a persisted record.
pub ghost struct FriendView {
    pub id: int,
    pub name: Seq<char>,
    pub email: Seq<char>,
}

/// Mathematical view of a creation payload.
pub ghost struct NewFriendView {
    pub name: Seq<char>,
    pub email: Seq<char>,
}

/// A persisted record. The id is store-assigned and immutable once created,
/// so the fields stay private: a `Friend` is only built by the store (or by
/// `new`, which fixes all three fields at once) and never mutated.
#[derive(Debug)]
pub struct Friend {
    id: i32,
    name: String,
    email: String,
}

impl View for Friend {
    type V = FriendView;

    closed spec fn view(&self) -> FriendView {
        FriendView { id: self.id as int, name: self.name@, email: self.email@ }
    }
}

impl Friend {
    pub fn new(id: i32, name: String, email: String) -> (r: Friend)
        ensures
            r@ == (FriendView { id: id as int, name: name@, email: email@ }),
    {
        Friend { id, name, email }
    }

    pub fn id(&self) -> (r: i32)
        ensures
            r as int == self@.id,
    {
        self.id
    }

    pub fn name(&self) -> (r: &String)
        ensures
            r@ == self@.name,
    {
        &self.name
    }

    pub fn email(&self) -> (r: &String)
        ensures
            r@ == self@.email,
    {
        &self.email
    }

    /// A field-for-field copy of the record.
    pub fn duplicate(&self) -> (r: Friend)
        ensures
            r@ == self@,
    {
        Friend { id: self.id, name: self.name.clone(), email: self.email.clone() }
    }
}

/// A creation payload: the fields of a record minus the store-assigned id.
#[derive(Debug)]
pub struct NewFriend {
    pub name: String,
    pub email: String,
}

impl View for NewFriend {
    type V = NewFriendView;

    open spec fn view(&self) -> NewFriendView {
        NewFriendView { name: self.name@, email: self.email@ }
    }
}

} // verus!
