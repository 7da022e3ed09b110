//! The error taxonomy shared by every operation of the library.

use vstd::prelude::*;

verus! {

/// Everything that can go wrong in a library operation.
///
/// Every failure is reported as an explicit value of this type; no operation
/// panics on bad input.
#[derive(Debug, Clone, Copy, PartialEq, Eq, Structural)]
pub enum AppError {
    /// The named player is not in the store.
    PlayerNotFound,
    /// No game with the given code is in the store.
    GameNotFound,
    /// A join was attempted on a game that already holds two players.
    GameFull,
    /// A guess was submitted by a username that is not in the target game.
    PlayerNotInGame,
    /// The submitting player has already guessed in the open round and must
    /// wait for the opponent.
    DuplicateGuess,
    /// The game has already been won; no further guesses are accepted.
    GameComplete,
    /// The store failed to read or write a record.
    IoError,
}

impl AppError {
    /// A short description of the failure, fit for showing to a player.
    pub fn message(&self) -> (r: &'static str)
        ensures
            match self {
                AppError::PlayerNotFound => r@ == "Could not find player"@,
                AppError::GameNotFound => r@ == "Could not find game"@,
                AppError::GameFull => r@ == "Game is full"@,
                AppError::PlayerNotInGame => r@ == "You are not in this game"@,
                AppError::DuplicateGuess => r@
                    == "You have already guessed this round. Please wait until the other player has guessed!"@,
                AppError::GameComplete => r@ == "This game is already over"@,
                AppError::IoError => r@ == "Could not reach the store"@,
            },
    {
        match self {
            AppError::PlayerNotFound => "Could not find player",
            AppError::GameNotFound => "Could not find game",
            AppError::GameFull => "Game is full",
            AppError::PlayerNotInGame => "You are not in this game",
            AppError::DuplicateGuess => "You have already guessed this round. Please wait until the other player has guessed!",
            AppError::GameComplete => "This game is already over",
            AppError::IoError => "Could not reach the store",
        }
    }
}

} // verus!
