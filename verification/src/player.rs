//! The player record and its onboarding lifecycle.
//!
//! A player is created on first contact with status [`PlayerStatus::New`],
//! moves to `Introducing` on first contact, reaches `InLobby` once a display
//! name is supplied, and carries `InGame` with the active game's code while
//! playing.  Exactly one status holds at a time.

use vstd::prelude::*;

verus! {

/// Where a player stands in the onboarding flow.  `InGame` carries the code
/// of the game the player is in.
#[derive(Debug)]
pub enum PlayerStatus {
    New,
    Introducing,
    InLobby,
    InGame { game_id: String },
}

/// Mathematical image of a [`PlayerStatus`].
pub enum StatusView {
    New,
    Introducing,
    InLobby,
    InGame(Seq<char>),
}

impl View for PlayerStatus {
    type V = StatusView;

    open spec fn view(&self) -> StatusView {
        match self {
            PlayerStatus::New => StatusView::New,
            PlayerStatus::Introducing => StatusView::Introducing,
            PlayerStatus::InLobby => StatusView::InLobby,
            PlayerStatus::InGame { game_id } => StatusView::InGame(game_id@),
        }
    }
}

/// A player record: the stable username supplied by the transport, the
/// display name picked during introduction, and the lifecycle status.
#[derive(Debug)]
pub struct Player {
    pub username: String,
    pub display_name: Option<String>,
    pub status: PlayerStatus,
}

/// Mathematical image of a [`Player`].
#[verifier::ext_equal]
pub struct PlayerView {
    pub username: Seq<char>,
    pub display_name: Option<Seq<char>>,
    pub status: StatusView,
}

impl View for Player {
    type V = PlayerView;

    open spec fn view(&self) -> PlayerView {
        PlayerView {
            username: self.username@,
            display_name: match &self.display_name {
                Some(n) => Some(n@),
                None => None,
            },
            status: self.status@,
        }
    }
}

impl PlayerStatus {
    /// A short label naming the status, for diagnostics; the game code an
    /// `InGame` status carries is not part of it.
    pub fn label(&self) -> (r: &'static str)
        ensures
            match self {
                PlayerStatus::New => r@ == "NEW"@,
                PlayerStatus::Introducing => r@ == "INTRODUCING"@,
                PlayerStatus::InLobby => r@ == "IN_LOBBY"@,
                PlayerStatus::InGame { .. } => r@ == "IN_GAME"@,
            },
    {
        match self {
            PlayerStatus::New => "NEW",
            PlayerStatus::Introducing => "INTRODUCING",
            PlayerStatus::InLobby => "IN_LOBBY",
            PlayerStatus::InGame { .. } => "IN_GAME",
        }
    }
}

/// The record a brand-new player starts with: no display name, status `New`.
pub open spec fn new_player_view(username: Seq<char>) -> PlayerView {
    PlayerView { username, display_name: None, status: StatusView::New }
}

impl Clone for PlayerStatus {
    fn clone(&self) -> (r: Self)
        ensures
            r@ == self@,
    {
        match self {
            PlayerStatus::New => PlayerStatus::New,
            PlayerStatus::Introducing => PlayerStatus::Introducing,
            PlayerStatus::InLobby => PlayerStatus::InLobby,
            PlayerStatus::InGame { game_id } => PlayerStatus::InGame { game_id: game_id.clone() },
        }
    }
}

impl Clone for Player {
    fn clone(&self) -> (r: Self)
        ensures
            r@ == self@,
    {
        Player {
            username: self.username.clone(),
            display_name: match &self.display_name {
                Some(n) => Some(n.clone()),
                None => None,
            },
            status: self.status.clone(),
        }
    }
}

impl Player {
    /// A fresh record for `username`: no display name yet, status `New`.
    pub fn new(username: &str) -> (r: Self)
        ensures
            r@ == new_player_view(username@),
    {
        Player { username: username.to_owned(), display_name: None, status: PlayerStatus::New }
    }

    /// Records the display name picked during introduction.
    pub fn set_display_name(&mut self, display_name: &str)
        ensures
            final(self)@ == (PlayerView { display_name: Some(display_name@), ..old(self)@ }),
    {
        self.display_name = Some(display_name.to_owned());
    }

    /// Moves the player to the given lifecycle status.
    pub fn set_status(&mut self, status: PlayerStatus)
        ensures
            final(self)@ == (PlayerView { status: status@, ..old(self)@ }),
    {
        self.status = status;
    }

    /// The name shown to other players: the display name once introduced,
    /// the username before.
    pub fn shown_name(&self) -> (r: String)
        ensures
            match self@.display_name {
                Some(n) => r@ == n,
                None => r@ == self@.username,
            },
    {
        match &self.display_name {
            Some(n) => n.clone(),
            None => self.username.clone(),
        }
    }
}

} // verus!
