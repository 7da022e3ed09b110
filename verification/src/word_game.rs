//! The session orchestrator.
//!
//! The single entry point used by any transport.  Each public operation
//! checks the named records out of the store, applies the player-lifecycle
//! or round-engine logic, and writes the results back before returning, so
//! from the caller's point of view every operation is atomic: either all of
//! its record mutations are persisted, or none are.
//!
//! The orchestrator owns the store and takes `&mut self` for every mutating
//! operation: Rust's borrowing rules make the whole operation the critical
//! section.  A transport that serves several connections wraps the
//! orchestrator in its own mutual-exclusion primitive and must not hold it
//! across network or console waits.
//!
//! Policy for won games (the round engine reports `Won`): every member of
//! the finished game is returned to the lobby at once, and the game itself
//! becomes terminal — later guesses for it are refused with `GameComplete`.

use vstd::prelude::*;

use crate::database::Database;
use crate::database::DatabaseEnum;
use crate::database::StoreView;
use crate::error::AppError;
use crate::game::Game;
use crate::game::GameView;
use crate::game::Outcome;
use crate::game::duplicate_guess;
use crate::game::game_wf;
use crate::game::game_won;
use crate::game::names_of;
use crate::game::outcome_of;
use crate::game::player_slot;
use crate::game::rounds_after_guess;
use crate::player::Player;
use crate::player::PlayerStatus;
use crate::player::PlayerView;
use crate::player::StatusView;
use crate::player::new_player_view;

verus! {

/// The record stored under `u`, or the record a brand-new player would get.
pub open spec fn record_or_new(players: Map<Seq<char>, PlayerView>, u: Seq<char>) -> PlayerView {
    if players.contains_key(u) {
        players[u]
    } else {
        new_player_view(u)
    }
}

/// `p` back in the lobby, everything else unchanged.
pub open spec fn with_lobby_status(p: PlayerView) -> PlayerView {
    PlayerView { status: StatusView::InLobby, ..p }
}

/// The player map after every member of `members` has been returned to the
/// lobby, in order; a member not in the map is created on the way.
pub open spec fn sent_to_lobby(
    players: Map<Seq<char>, PlayerView>,
    members: Seq<Seq<char>>,
) -> Map<Seq<char>, PlayerView>
    decreases members.len(),
{
    if members.len() == 0 {
        players
    } else {
        let prev = sent_to_lobby(players, members.drop_last());
        prev.insert(members.last(), with_lobby_status(record_or_new(prev, members.last())))
    }
}

/// The session orchestrator: the store behind a single serialization point.
pub struct WordGame {
    database: DatabaseEnum,
}

impl WordGame {
    /// The stored records, as the store contract models them.
    pub closed spec fn store(&self) -> StoreView {
        self.database.store()
    }

    /// The orchestrator's invariant: the store's own.
    pub closed spec fn inv(&self) -> bool {
        self.database.inv()
    }

    /// Wraps a store as the single entry point for transports.
    pub fn new(database: DatabaseEnum) -> (r: Self)
        requires
            database.inv(),
        ensures
            r.inv(),
            r.store() == database.store(),
    {
        WordGame { database }
    }

    /// Persists the player record under its username.
    pub fn save_player(&mut self, player: &Player) -> (r: Result<(), AppError>)
        requires
            old(self).inv(),
        ensures
            final(self).inv(),
            r is Ok,
            final(self).store().players == old(self).store().players.insert(
                player@.username,
                player@,
            ),
            final(self).store().games == old(self).store().games,
    {
        self.database.save_player(player.clone())
    }

    /// Persists the game record under its code.
    fn save_game(&mut self, game: &Game) -> (r: Result<(), AppError>)
        requires
            old(self).inv(),
            game_wf(game@),
        ensures
            final(self).inv(),
            r is Ok,
            final(self).store().games == old(self).store().games.insert(game@.code, game@),
            final(self).store().players == old(self).store().players,
    {
        self.database.save_game(game.clone())
    }

    /// The record stored under `username`, or `PlayerNotFound`.
    fn find_player(&self, username: &str) -> (r: Result<Player, AppError>)
        requires
            self.inv(),
        ensures
            match r {
                Ok(p) => {
                    &&& self.store().players.contains_key(username@)
                    &&& p@ == self.store().players[username@]
                    &&& p@.username == username@
                },
                Err(e) => {
                    &&& e == AppError::PlayerNotFound
                    &&& !self.store().players.contains_key(username@)
                },
            },
    {
        match self.database.get_player_by_username(username) {
            Ok(Some(p)) => Ok(p),
            Ok(None) => Err(AppError::PlayerNotFound),
            Err(e) => Err(e),
        }
    }

    /// Whether a record for `username` is in the store: lets a transport
    /// tell "never seen before" from "known".
    pub fn has_player(&self, username: &str) -> (r: bool)
        requires
            self.inv(),
        ensures
            r == self.store().players.contains_key(username@),
    {
        match self.database.get_player_by_username(username) {
            Ok(Some(_)) => true,
            _ => false,
        }
    }

    /// Creates the record of a brand-new player and persists it.
    fn create_player(&mut self, username: &str) -> (r: Result<Player, AppError>)
        requires
            old(self).inv(),
        ensures
            final(self).inv(),
            final(self).store().games == old(self).store().games,
            r matches Ok(p) && p@ == new_player_view(username@),
            final(self).store().players == old(self).store().players.insert(
                username@,
                new_player_view(username@),
            ),
    {
        let player = Player::new(username);
        self.save_player(&player)?;
        Ok(player)
    }

    /// The record for `username`, created with status `New` on first
    /// reference.  Never fails: a brand-new username always starts `New`.
    pub fn get_player(&mut self, username: &str) -> (r: Result<Player, AppError>)
        requires
            old(self).inv(),
        ensures
            final(self).inv(),
            final(self).store().games == old(self).store().games,
            r matches Ok(p) && {
                &&& p@ == record_or_new(old(self).store().players, username@)
                &&& p@.username == username@
                &&& final(self).store().players == old(self).store().players.insert(username@, p@)
            },
    {
        if !self.has_player(username) {
            self.create_player(username)?;
        }
        let r = self.find_player(username);
        match r {
            Ok(p) => {
                proof {
                    assert(final(self).store().players =~= old(self).store().players.insert(
                        username@,
                        p@,
                    ));
                }
                Ok(p)
            },
            Err(_) => unreached(),
        }
    }

    /// Moves the player to `Introducing` (creating the record first if
    /// needed) and persists it.  Idempotent: a second call changes nothing
    /// further.
    pub fn change_player_to_introducing(&mut self, username: &str) -> (r: Result<Player, AppError>)
        requires
            old(self).inv(),
        ensures
            final(self).inv(),
            final(self).store().games == old(self).store().games,
            r matches Ok(p) && {
                &&& p@ == (PlayerView {
                    status: StatusView::Introducing,
                    ..record_or_new(old(self).store().players, username@)
                })
                &&& p@.username == username@
                &&& final(self).store().players == old(self).store().players.insert(username@, p@)
            },
    {
        let mut player = self.get_player(username)?;
        player.set_status(PlayerStatus::Introducing);
        self.save_player(&player)?;
        proof {
            assert(final(self).store().players =~= old(self).store().players.insert(
                username@,
                player@,
            ));
        }
        Ok(player)
    }

    /// Records the display name `display_name` for an existing player and
    /// moves them to the lobby; a player that was never seen is refused with
    /// `PlayerNotFound`.
    pub fn introduce_player(&mut self, username: &str, display_name: &str) -> (r: Result<
        Player,
        AppError,
    >)
        requires
            old(self).inv(),
        ensures
            final(self).inv(),
            final(self).store().games == old(self).store().games,
            match r {
                Ok(p) => {
                    &&& old(self).store().players.contains_key(username@)
                    &&& p@ == (PlayerView {
                        username: username@,
                        display_name: Some(display_name@),
                        status: StatusView::InLobby,
                    })
                    &&& final(self).store().players == old(self).store().players.insert(
                        username@,
                        p@,
                    )
                },
                Err(e) => {
                    &&& e == AppError::PlayerNotFound
                    &&& !old(self).store().players.contains_key(username@)
                    &&& final(self).store().players == old(self).store().players
                },
            },
    {
        let mut player = self.find_player(username)?;
        player.set_display_name(display_name);
        player.set_status(PlayerStatus::InLobby);
        self.save_player(&player)?;
        Ok(player)
    }

    /// Puts the player back in the lobby unconditionally (creating the
    /// record first if needed), as after a finished or abandoned game.
    pub fn return_to_lobby(&mut self, username: &str) -> (r: Result<Player, AppError>)
        requires
            old(self).inv(),
        ensures
            final(self).inv(),
            final(self).store().games == old(self).store().games,
            r matches Ok(p) && {
                &&& p@ == with_lobby_status(record_or_new(old(self).store().players, username@))
                &&& p@.username == username@
                &&& final(self).store().players == old(self).store().players.insert(username@, p@)
            },
    {
        let mut player = self.get_player(username)?;
        player.set_status(PlayerStatus::InLobby);
        self.save_player(&player)?;
        proof {
            assert(final(self).store().players =~= old(self).store().players.insert(
                username@,
                player@,
            ));
        }
        Ok(player)
    }

    /// Creates a game with the existing player `username` alone in slot 0,
    /// marks that player as in the new game, persists both, and returns the
    /// fresh game code.
    pub fn new_game(&mut self, username: &str) -> (r: Result<String, AppError>)
        requires
            old(self).inv(),
        ensures
            final(self).inv(),
            match r {
                Ok(code) => {
                    &&& old(self).store().players.contains_key(username@)
                    &&& code@.len() == 36
                    &&& final(self).store().games.contains_key(code@)
                    &&& ({
                        let g = final(self).store().games[code@];
                        &&& g.code == code@
                        &&& g.players == seq![username@]
                        &&& g.rounds.len() == 0
                    })
                    &&& final(self).store().games == old(self).store().games.insert(
                        code@,
                        final(self).store().games[code@],
                    )
                    &&& final(self).store().players == old(self).store().players.insert(
                        username@,
                        (PlayerView {
                            status: StatusView::InGame(code@),
                            ..old(self).store().players[username@]
                        }),
                    )
                },
                Err(e) => {
                    &&& e == AppError::PlayerNotFound
                    &&& !old(self).store().players.contains_key(username@)
                    &&& final(self).store().players == old(self).store().players
                    &&& final(self).store().games == old(self).store().games
                },
            },
    {
        let game = Game::new(username);
        let code: String = game.code().clone();
        let mut player = self.find_player(username)?;
        player.set_status(PlayerStatus::InGame { game_id: code.clone() });
        self.save_player(&player)?;
        self.save_game(&game)?;
        Ok(code)
    }

    /// Adds the existing player `username` to the game joined by `game_id`,
    /// marks the player as in that game, and persists both.  Propagates
    /// `GameFull` from the round engine when the game already holds two
    /// players.
    pub fn join_game(&mut self, username: &str, game_id: &str) -> (r: Result<(), AppError>)
        requires
            old(self).inv(),
        ensures
            final(self).inv(),
            match r {
                Ok(_) => {
                    &&& old(self).store().players.contains_key(username@)
                    &&& old(self).store().games.contains_key(game_id@)
                    &&& old(self).store().games[game_id@].players.len() < 2
                    &&& final(self).store().games == old(self).store().games.insert(
                        game_id@,
                        (GameView {
                            players: old(self).store().games[game_id@].players.push(username@),
                            ..old(self).store().games[game_id@]
                        }),
                    )
                    &&& final(self).store().players == old(self).store().players.insert(
                        username@,
                        (PlayerView {
                            status: StatusView::InGame(game_id@),
                            ..old(self).store().players[username@]
                        }),
                    )
                },
                Err(e) => {
                    &&& final(self).store().players == old(self).store().players
                    &&& final(self).store().games == old(self).store().games
                    &&& (if !old(self).store().players.contains_key(username@) {
                        e == AppError::PlayerNotFound
                    } else if !old(self).store().games.contains_key(game_id@) {
                        e == AppError::GameNotFound
                    } else {
                        &&& e == AppError::GameFull
                        &&& old(self).store().games[game_id@].players.len() >= 2
                    })
                },
            },
    {
        let mut player = self.find_player(username)?;
        let mut game = self.find_game(game_id)?;

        match game.add_player(username) {
            Ok(_) => {},
            Err(e) => {
                return Err(e);
            },
        }
        player.set_status(PlayerStatus::InGame { game_id: game.code().clone() });
        self.save_player(&player)?;
        self.save_game(&game)?;
        proof {
            assert(game@ =~= (GameView {
                players: old(self).store().games[game_id@].players.push(username@),
                ..old(self).store().games[game_id@]
            }));
        }
        Ok(())
    }

    /// The ordered username list of the game joined by `game_id`.
    pub fn get_players_in_game(&self, game_id: &str) -> (r: Result<Vec<String>, AppError>)
        requires
            self.inv(),
        ensures
            match r {
                Ok(v) => {
                    &&& self.store().games.contains_key(game_id@)
                    &&& names_of(v@) == self.store().games[game_id@].players
                },
                Err(e) => {
                    &&& e == AppError::GameNotFound
                    &&& !self.store().games.contains_key(game_id@)
                },
            },
    {
        let game = self.find_game(game_id)?;
        Ok(game.players())
    }

    /// The game record stored under `game_id`, or `GameNotFound`.
    pub fn find_game(&self, game_id: &str) -> (r: Result<Game, AppError>)
        requires
            self.inv(),
        ensures
            match r {
                Ok(g) => {
                    &&& self.store().games.contains_key(game_id@)
                    &&& g@ == self.store().games[game_id@]
                    &&& g@.code == game_id@
                    &&& game_wf(g@)
                },
                Err(e) => {
                    &&& e == AppError::GameNotFound
                    &&& !self.store().games.contains_key(game_id@)
                },
            },
    {
        match self.database.get_game(game_id) {
            Ok(Some(g)) => Ok(g),
            Ok(None) => Err(AppError::GameNotFound),
            Err(e) => Err(e),
        }
    }

    /// Whether the game joined by `game_id` has been won.
    pub fn is_game_complete(&self, game_id: &str) -> (r: Result<bool, AppError>)
        requires
            self.inv(),
        ensures
            match r {
                Ok(b) => {
                    &&& self.store().games.contains_key(game_id@)
                    &&& b == game_won(self.store().games[game_id@])
                },
                Err(e) => {
                    &&& e == AppError::GameNotFound
                    &&& !self.store().games.contains_key(game_id@)
                },
            },
    {
        let game = self.find_game(game_id)?;
        Ok(game.is_won())
    }

    /// A diagnostic snapshot: every stored player record and every stored
    /// game record, for a transport to render.
    pub fn debug(&self) -> (r: (Vec<Player>, Vec<Game>))
        requires
            self.inv(),
        ensures
            r.0@.len() == self.store().players.dom().len(),
            forall|i: int|
                0 <= i < r.0@.len() ==> self.store().players.contains_key(
                    #[trigger] r.0@[i]@.username,
                ) && r.0@[i]@ == self.store().players[r.0@[i]@.username],
            r.1@.len() == self.store().games.dom().len(),
            forall|i: int|
                0 <= i < r.1@.len() ==> self.store().games.contains_key(#[trigger] r.1@[i]@.code)
                    && r.1@[i]@ == self.store().games[r.1@[i]@.code],
    {
        let players = match self.database.get_players() {
            Ok(v) => v,
            Err(_) => unreached(),
        };
        let games = match self.database.get_games() {
            Ok(v) => v,
            Err(_) => unreached(),
        };
        (players, games)
    }

    /// Submits a guess by `username` to the game joined by `game_id`.
    ///
    /// The guess is refused when the game is unknown (`GameNotFound`),
    /// already won (`GameComplete`), guessed by a non-member
    /// (`PlayerNotInGame`) or guessed twice in the open round
    /// (`DuplicateGuess`); nothing is persisted then.  Otherwise the round
    /// engine records the guess, the game is persisted, and the outcome is
    /// reported; on `Won` every member of the game is returned to the lobby.
    pub fn submit_guess(&mut self, username: &str, game_id: &str, guess: &str) -> (r: Result<
        Outcome,
        AppError,
    >)
        requires
            old(self).inv(),
        ensures
            final(self).inv(),
            match r {
                Ok(outcome) => {
                    let g0 = old(self).store().games[game_id@];
                    let slot = player_slot(g0.players, username@);
                    let g1 = GameView { rounds: rounds_after_guess(g0.rounds, slot, guess@), ..g0 };
                    &&& old(self).store().games.contains_key(game_id@)
                    &&& !game_won(g0)
                    &&& slot >= 0
                    &&& !duplicate_guess(g0.rounds, slot)
                    &&& final(self).store().games == old(self).store().games.insert(game_id@, g1)
                    &&& outcome == outcome_of(g1.rounds)
                    &&& (outcome == Outcome::Won) == game_won(g1)
                    &&& (outcome == Outcome::Won ==> final(self).store().players == sent_to_lobby(
                        old(self).store().players,
                        g1.players,
                    ))
                    &&& (outcome != Outcome::Won ==> final(self).store().players == old(
                        self,
                    ).store().players)
                },
                Err(e) => {
                    &&& final(self).store().players == old(self).store().players
                    &&& final(self).store().games == old(self).store().games
                    &&& (if !old(self).store().games.contains_key(game_id@) {
                        e == AppError::GameNotFound
                    } else {
                        let g0 = old(self).store().games[game_id@];
                        let slot = player_slot(g0.players, username@);
                        if game_won(g0) {
                            e == AppError::GameComplete
                        } else if slot == -1 {
                            e == AppError::PlayerNotInGame
                        } else {
                            &&& e == AppError::DuplicateGuess
                            &&& duplicate_guess(g0.rounds, slot)
                        }
                    })
                },
            },
    {
        let mut game = match self.find_game(game_id) {
            Ok(g) => g,
            Err(e) => {
                return Err(e);
            },
        };
        if game.is_won() {
            return Err(AppError::GameComplete);
        }
        let outcome = match game.add_guess(username, guess) {
            Ok(o) => o,
            Err(e) => {
                return Err(e);
            },
        };
        self.save_game(&game)?;
        let ghost g0 = old(self).store().games[game_id@];
        let ghost slot = player_slot(g0.players, username@);
        let ghost g1 = GameView { rounds: rounds_after_guess(g0.rounds, slot, guess@), ..g0 };
        proof {
            assert(game@ =~= g1);
        }
        if let Outcome::Won = outcome {
            let members = game.players();
            let ghost base_players = self.store().players;
            let ghost games_now = self.store().games;
            let mut i: usize = 0;
            while i < members.len()
                invariant
                    self.inv(),
                    i <= members@.len(),
                    self.store().games == games_now,
                    self.store().players == sent_to_lobby(
                        base_players,
                        names_of(members@).take(i as int),
                    ),
                decreases members@.len() - i,
            {
                let ghost before = self.store().players;
                match self.return_to_lobby(members[i].as_str()) {
                    Ok(_) => {},
                    Err(_) => unreached(),
                }
                proof {
                    assert(names_of(members@).take(i + 1).drop_last() =~= names_of(
                        members@,
                    ).take(i as int));
                    assert(names_of(members@).take(i + 1).last() == members@[i as int]@);
                }
                i = i + 1;
            }
            proof {
                assert(names_of(members@).take(members@.len() as int) =~= names_of(members@));
            }
        }
        Ok(outcome)
    }
}

} // verus!
