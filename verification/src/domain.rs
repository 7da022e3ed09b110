//! A minimal player identity record, kept by its own repository
//! (see [`crate::repository`]).

use vstd::prelude::*;

verus! {

/// A player identity: a stable id and the username it was registered with.
#[derive(Debug, PartialEq)]
pub struct Player {
    id: String,
    username: String,
}

/// Mathematical image of a [`Player`].
#[verifier::ext_equal]
pub struct PlayerView {
    pub id: Seq<char>,
    pub username: Seq<char>,
}

impl View for Player {
    type V = PlayerView;

    closed spec fn view(&self) -> PlayerView {
        PlayerView { id: self.id@, username: self.username@ }
    }
}

impl Clone for Player {
    fn clone(&self) -> (r: Self)
        ensures
            r@ == self@,
    {
        Player { id: self.id.clone(), username: self.username.clone() }
    }
}

impl Player {
    /// A record with the given id and username.
    pub fn new(id: &str, username: &str) -> (r: Self)
        ensures
            r@ == (PlayerView { id: id@, username: username@ }),
    {
        Player { id: id.to_owned(), username: username.to_owned() }
    }

    /// The record's stable id.
    pub fn id(&self) -> (r: String)
        ensures
            r@ == self@.id,
    {
        self.id.clone()
    }
}

} // verus!
