//! A two-player word-guessing game engine.
//!
//! Two remote players synchronize on guessing the same secret word: each
//! round both players submit a guess, and if the guesses agree (ignoring
//! ASCII case and outer whitespace) the game ends in a win, otherwise a new
//! round opens.  Players progress through an onboarding state machine
//! (new, introducing themselves, idle in a lobby, actively in a game)
//! before and after play.
//!
//! The library is organised around a session orchestrator ([`word_game::WordGame`])
//! that coordinates the player lifecycle ([`player::Player`]) and the game
//! round engine ([`game::Game`]) against a store ([`database::Database`]).
//! Transports (a console loop, a chat connection) live outside the library;
//! they hand the orchestrator a username and free text per inbound event and
//! render the returned outcome or error.

use vstd::prelude::*;

pub mod database;
pub mod domain;
pub mod duration;
pub mod error;
pub mod game;
pub mod in_memory;
pub mod player;
pub mod repository;
pub mod session;
pub mod text;
pub mod word_game;

verus! {

/// Result type used by every fallible operation of the library.
pub type AppResult<T> = Result<T, error::AppError>;

} // verus!
