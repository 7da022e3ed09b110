//! The storage contract and the backend selector.
//!
//! A store is a durable mapping from username to player record and from game
//! code to game record: point lookups and upserts, no query language.  The
//! orchestrator owns the store, checks records out for the duration of one
//! operation and writes them back before returning.

use vstd::prelude::*;

use crate::error::AppError;
use crate::game::Game;
use crate::game::GameView;
use crate::game::game_wf;
use crate::in_memory::InMemoryDatabase;
use crate::player::Player;
use crate::player::PlayerView;

verus! {

/// Mathematical image of a store: the player records keyed by username and
/// the game records keyed by game code.
pub struct StoreView {
    pub players: Map<Seq<char>, PlayerView>,
    pub games: Map<Seq<char>, GameView>,
}

/// The storage contract.
///
/// Every stored game is well-formed: `save_game` only accepts well-formed
/// records and `get_game` hands them back out.  A backend reports a failure
/// to read or write as `AppError::IoError`; the backends of this crate never
/// fail, which their contracts state as `r is Ok`.
pub trait Database: Sized {
    /// The stored records.
    spec fn store(&self) -> StoreView;

    /// The backend's internal well-formedness.
    spec fn inv(&self) -> bool;

    /// Upserts the player record under its username.
    fn save_player(&mut self, player: Player) -> (r: Result<(), AppError>)
        requires
            old(self).inv(),
        ensures
            final(self).inv(),
            r is Ok,
            final(self).store().players == old(self).store().players.insert(
                player@.username,
                player@,
            ),
            final(self).store().games == old(self).store().games,
    ;

    /// All player records, one per stored username.  Diagnostics only.
    fn get_players(&self) -> (r: Result<Vec<Player>, AppError>)
        requires
            self.inv(),
        ensures
            match r {
                Ok(v) => {
                    &&& v@.len() == self.store().players.dom().len()
                    &&& forall|i: int|
                        0 <= i < v@.len() ==> self.store().players.contains_key(
                            #[trigger] v@[i]@.username,
                        ) && v@[i]@ == self.store().players[v@[i]@.username]
                },
                Err(_) => false,
            },
    ;

    /// The player stored under `username`, if any.
    fn get_player_by_username(&self, username: &str) -> (r: Result<Option<Player>, AppError>)
        requires
            self.inv(),
        ensures
            match r {
                Ok(Some(p)) => self.store().players.contains_key(username@) && p@
                    == self.store().players[username@] && p@.username == username@,
                Ok(None) => !self.store().players.contains_key(username@),
                Err(_) => false,
            },
    ;

    /// Upserts the game record under its code.
    fn save_game(&mut self, game: Game) -> (r: Result<(), AppError>)
        requires
            old(self).inv(),
            game_wf(game@),
        ensures
            final(self).inv(),
            r is Ok,
            final(self).store().games == old(self).store().games.insert(game@.code, game@),
            final(self).store().players == old(self).store().players,
    ;

    /// All game records, one per stored code.  Diagnostics only.
    fn get_games(&self) -> (r: Result<Vec<Game>, AppError>)
        requires
            self.inv(),
        ensures
            match r {
                Ok(v) => {
                    &&& v@.len() == self.store().games.dom().len()
                    &&& forall|i: int|
                        0 <= i < v@.len() ==> self.store().games.contains_key(
                            #[trigger] v@[i]@.code,
                        ) && v@[i]@ == self.store().games[v@[i]@.code]
                },
                Err(_) => false,
            },
    ;

    /// The game stored under `game_id`, if any.  A stored game is always
    /// well-formed.
    fn get_game(&self, game_id: &str) -> (r: Result<Option<Game>, AppError>)
        requires
            self.inv(),
        ensures
            match r {
                Ok(Some(g)) => self.store().games.contains_key(game_id@) && g@
                    == self.store().games[game_id@] && g@.code == game_id@ && game_wf(g@),
                Ok(None) => !self.store().games.contains_key(game_id@),
                Err(_) => false,
            },
    ;
}

/// The available storage backends.
pub enum DatabaseType {
    InMemory,
}

/// A store of any supported backend, dispatching the storage contract to the
/// chosen one.  (The hand-written equivalent of dispatching through a boxed
/// trait object, which keeps the store a plain value.)
pub enum DatabaseEnum {
    InMemoryDatabase(InMemoryDatabase),
}

impl Database for DatabaseEnum {
    open spec fn store(&self) -> StoreView {
        match self {
            DatabaseEnum::InMemoryDatabase(db) => db.store(),
        }
    }

    open spec fn inv(&self) -> bool {
        match self {
            DatabaseEnum::InMemoryDatabase(db) => db.inv(),
        }
    }

    fn save_player(&mut self, player: Player) -> (r: Result<(), AppError>) {
        match self {
            DatabaseEnum::InMemoryDatabase(db) => db.save_player(player),
        }
    }

    fn get_players(&self) -> (r: Result<Vec<Player>, AppError>) {
        match self {
            DatabaseEnum::InMemoryDatabase(db) => db.get_players(),
        }
    }

    fn get_player_by_username(&self, username: &str) -> (r: Result<Option<Player>, AppError>) {
        match self {
            DatabaseEnum::InMemoryDatabase(db) => db.get_player_by_username(username),
        }
    }

    fn save_game(&mut self, game: Game) -> (r: Result<(), AppError>) {
        match self {
            DatabaseEnum::InMemoryDatabase(db) => db.save_game(game),
        }
    }

    fn get_games(&self) -> (r: Result<Vec<Game>, AppError>) {
        match self {
            DatabaseEnum::InMemoryDatabase(db) => db.get_games(),
        }
    }

    fn get_game(&self, game_id: &str) -> (r: Result<Option<Game>, AppError>) {
        match self {
            DatabaseEnum::InMemoryDatabase(db) => db.get_game(game_id),
        }
    }
}

/// Builds the store for a chosen backend.
pub struct DatabaseFactory;

impl DatabaseFactory {
    /// A fresh, empty store of the requested backend.
    pub fn create(database_type: DatabaseType) -> (r: DatabaseEnum)
        ensures
            r.inv(),
            r.store().players == Map::<Seq<char>, PlayerView>::empty(),
            r.store().games == Map::<Seq<char>, GameView>::empty(),
    {
        match database_type {
            DatabaseType::InMemory => DatabaseEnum::InMemoryDatabase(InMemoryDatabase::new()),
        }
    }
}

} // verus!
