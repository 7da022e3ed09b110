//! The game round engine.
//!
//! A game holds up to two players and an append-only sequence of rounds.  A
//! round records one optional guess per player slot.  Each submitted guess
//! either opens a new round or fills the submitter's empty slot in the open
//! round; once both slots are filled the round is compared, and the game is
//! won when the guesses match (see [`crate::text`]).  Only the last round
//! may be incomplete; every earlier round is complete and did not match.
//!
//! A won game is terminal: no further guesses are accepted.  Callers check
//! [`Game::is_won`] before submitting.

use vstd::prelude::*;

use crate::error::AppError;
use crate::text::guess_texts_match;
use crate::text::guesses_match;

verus! {

/// One round's pair of guesses: slot 0's guess and slot 1's guess, each
/// absent until the respective player has submitted.
#[derive(Debug)]
pub struct Guess(pub Option<String>, pub Option<String>);

/// Mathematical image of a [`Guess`].
#[verifier::ext_equal]
pub struct GuessView {
    pub first: Option<Seq<char>>,
    pub second: Option<Seq<char>>,
}

impl View for Guess {
    type V = GuessView;

    open spec fn view(&self) -> GuessView {
        GuessView {
            first: match &self.0 {
                Some(g) => Some(g@),
                None => None,
            },
            second: match &self.1 {
                Some(g) => Some(g@),
                None => None,
            },
        }
    }
}

/// The tri-state outcome of a guess submission: the round is still waiting
/// on the other player, or it completed without a match and the game goes
/// on, or it completed with a match and the game is won.
#[derive(Debug, Clone, Copy, PartialEq, Eq, Structural)]
pub enum Outcome {
    Pending,
    Continue,
    Won,
}

/// Both slots of the round are filled.
pub open spec fn round_complete(r: GuessView) -> bool {
    r.first is Some && r.second is Some
}

/// At least one slot of the round is filled.  No persisted round is ever
/// empty: a round is created together with its first guess.
pub open spec fn round_has_guess(r: GuessView) -> bool {
    r.first is Some || r.second is Some
}

/// The round is complete and its two guesses name the same word.
pub open spec fn round_matched(r: GuessView) -> bool {
    &&& r.first is Some
    &&& r.second is Some
    &&& guesses_match(r.first->0, r.second->0)
}

/// The guess in the given slot of the round.
pub open spec fn slot_guess(r: GuessView, slot: int) -> Option<Seq<char>> {
    if slot == 0 {
        r.first
    } else {
        r.second
    }
}

/// The round with the given slot filled by `g`.
pub open spec fn set_slot(r: GuessView, slot: int, g: Seq<char>) -> GuessView {
    if slot == 0 {
        GuessView { first: Some(g), ..r }
    } else {
        GuessView { second: Some(g), ..r }
    }
}

/// A new round holding only the given slot's guess.
pub open spec fn fresh_round(slot: int, g: Seq<char>) -> GuessView {
    GuessView {
        first: if slot == 0 {
            Some(g)
        } else {
            None
        },
        second: if slot == 1 {
            Some(g)
        } else {
            None
        },
    }
}

/// The slot index of username `u` in the player list: 0 or 1 for a member
/// (the first occurrence, as players are looked up in arrival order), -1 for
/// a non-member.
pub open spec fn player_slot(players: Seq<Seq<char>>, u: Seq<char>) -> int {
    if players.len() > 0 && players[0] == u {
        0
    } else if players.len() > 1 && players[1] == u {
        1
    } else {
        -1
    }
}

/// The submitter has already guessed in the open round: the last round is
/// incomplete and their slot is filled.
pub open spec fn duplicate_guess(rounds: Seq<GuessView>, slot: int) -> bool {
    rounds.len() > 0 && !round_complete(rounds.last()) && slot_guess(rounds.last(), slot) is Some
}

/// The round sequence after the player in `slot` submits `g`: a new round is
/// appended when there is no open round, otherwise the open round's slot is
/// filled.  (Meaningful only when `!duplicate_guess(rounds, slot)`.)
pub open spec fn rounds_after_guess(rounds: Seq<GuessView>, slot: int, g: Seq<char>) -> Seq<
    GuessView,
> {
    if rounds.len() == 0 || round_complete(rounds.last()) {
        rounds.push(fresh_round(slot, g))
    } else {
        rounds.update(rounds.len() - 1, set_slot(rounds.last(), slot, g))
    }
}

/// The outcome reported for the last round of `rounds`: pending while a slot
/// is empty, won when complete and matched, continue otherwise.
pub open spec fn outcome_of(rounds: Seq<GuessView>) -> Outcome {
    if rounds.len() == 0 || !round_complete(rounds.last()) {
        Outcome::Pending
    } else if round_matched(rounds.last()) {
        Outcome::Won
    } else {
        Outcome::Continue
    }
}

/// Well-formedness of a game: at most two players; every round before the
/// last is complete and did not match (else the game would already have
/// ended); no round is empty.
pub open spec fn game_wf(g: GameView) -> bool {
    &&& g.players.len() <= 2
    &&& forall|i: int|
        0 <= i < g.rounds.len() - 1 ==> round_complete(#[trigger] g.rounds[i]) && !round_matched(
            g.rounds[i],
        )
    &&& forall|i: int| 0 <= i < g.rounds.len() ==> round_has_guess(#[trigger] g.rounds[i])
}

/// The game has been won: its last round is complete and matched.  This is
/// the terminal state; a won game accepts no further guesses.
pub open spec fn game_won(g: GameView) -> bool {
    g.rounds.len() > 0 && round_matched(g.rounds.last())
}

/// In a well-formed game, at most one round is incomplete at a time, and it
/// can only be the last one.
pub proof fn lemma_at_most_one_open_round(g: GameView)
    requires
        game_wf(g),
    ensures
        forall|i: int| 0 <= i < g.rounds.len() - 1 ==> round_complete(#[trigger] g.rounds[i]),
        forall|i: int, j: int|
            0 <= i < g.rounds.len() && 0 <= j < g.rounds.len() && !round_complete(
                #[trigger] g.rounds[i],
            ) && !round_complete(#[trigger] g.rounds[j]) ==> i == j,
{
}

/// In a well-formed game, the player list never exceeds two entries.
pub proof fn lemma_player_capacity(g: GameView)
    requires
        game_wf(g),
    ensures
        g.players.len() <= 2,
{
}

/// The usernames of `v`, as character sequences.
pub open spec fn names_of(v: Seq<String>) -> Seq<Seq<char>> {
    v.map_values(|s: String| s@)
}

/// A game record: the code players join by, the creation timestamp, the
/// player list (slot 0 first) and the round history.
#[derive(Debug)]
pub struct Game {
    pub id: String,
    pub start_time: i64,
    players: Vec<String>,
    guesses: Vec<Guess>,
}

/// Mathematical image of a [`Game`].
#[verifier::ext_equal]
pub struct GameView {
    pub code: Seq<char>,
    pub start_time: i64,
    pub players: Seq<Seq<char>>,
    pub rounds: Seq<GuessView>,
}

impl View for Game {
    type V = GameView;

    closed spec fn view(&self) -> GameView {
        GameView {
            code: self.id@,
            start_time: self.start_time,
            players: names_of(self.players@),
            rounds: self.guesses@.map_values(|g: Guess| g@),
        }
    }
}

/// Relies on `uuid::Uuid::new_v4` and the `Display` form of `uuid::Uuid`:
/// a freshly generated random version-4 UUID, rendered in the hyphenated
/// format of 36 characters.  The value is random, so nothing beyond its
/// length is promised.
#[verifier::external_body]
fn fresh_game_code() -> (r: String)
    ensures
        r@.len() == 36,
{
    uuid::Uuid::new_v4().to_string()
}

/// Relies on `chrono::Utc::now` and `chrono::DateTime::timestamp`: the
/// current time as whole seconds since the Unix epoch.  The value depends
/// on the clock, so nothing is promised of it.
#[verifier::external_body]
fn now_timestamp() -> i64 {
    chrono::Utc::now().timestamp()
}

impl Clone for Guess {
    fn clone(&self) -> (r: Self)
        ensures
            r@ == self@,
    {
        Guess(
            match &self.0 {
                Some(g) => Some(g.clone()),
                None => None,
            },
            match &self.1 {
                Some(g) => Some(g.clone()),
                None => None,
            },
        )
    }
}

impl Guess {
    /// The round is complete and its two guesses name the same word.
    pub fn is_match(&self) -> (r: bool)
        ensures
            r == round_matched(self@),
    {
        match (&self.0, &self.1) {
            (Some(a), Some(b)) => guess_texts_match(a.as_str(), b.as_str()),
            _ => false,
        }
    }
}

impl Clone for Game {
    fn clone(&self) -> (r: Self)
        ensures
            r@ == self@,
    {
        let mut players: Vec<String> = Vec::new();
        let mut i: usize = 0;
        while i < self.players.len()
            invariant
                i <= self.players@.len(),
                players@.len() == i,
                forall|j: int| 0 <= j < i ==> players@[j]@ == self.players@[j]@,
            decreases self.players@.len() - i,
        {
            players.push(self.players[i].clone());
            i = i + 1;
        }
        let mut guesses: Vec<Guess> = Vec::new();
        let mut k: usize = 0;
        while k < self.guesses.len()
            invariant
                k <= self.guesses@.len(),
                guesses@.len() == k,
                forall|j: int| 0 <= j < k ==> guesses@[j]@ == self.guesses@[j]@,
            decreases self.guesses@.len() - k,
        {
            guesses.push(self.guesses[k].clone());
            k = k + 1;
        }
        let r = Game { id: self.id.clone(), start_time: self.start_time, players, guesses };
        proof {
            assert(names_of(r.players@) =~= names_of(self.players@));
            assert(r.guesses@.map_values(|g: Guess| g@) =~= self.guesses@.map_values(
                |g: Guess| g@,
            ));
        }
        r
    }
}

impl Game {
    /// A new game: a fresh random code, the creation time, the creator alone
    /// in slot 0, and no rounds yet.
    pub fn new(p1_username: &str) -> (r: Self)
        ensures
            r@.code.len() == 36,
            r@.players == seq![p1_username@],
            r@.rounds.len() == 0,
            game_wf(r@),
            !game_won(r@),
    {
        let mut players: Vec<String> = Vec::new();
        players.push(p1_username.to_owned());
        let r = Game {
            id: fresh_game_code(),
            start_time: now_timestamp(),
            players,
            guesses: Vec::new(),
        };
        proof {
            assert(r@.players =~= seq![p1_username@]);
        }
        r
    }

    /// Appends `username` to the player list and reports the assigned slot,
    /// unless the game already holds two players.
    pub fn add_player(&mut self, username: &str) -> (r: Result<usize, AppError>)
        requires
            game_wf(old(self)@),
        ensures
            game_wf(final(self)@),
            match r {
                Ok(slot) => {
                    &&& old(self)@.players.len() < 2
                    &&& slot == old(self)@.players.len()
                    &&& final(self)@ == (GameView {
                        players: old(self)@.players.push(username@),
                        ..old(self)@
                    })
                },
                Err(e) => {
                    &&& e == AppError::GameFull
                    &&& old(self)@.players.len() >= 2
                    &&& final(self)@ == old(self)@
                },
            },
    {
        if self.players.len() >= 2 {
            return Err(AppError::GameFull);
        }
        let slot = self.players.len();
        self.players.push(username.to_owned());
        proof {
            assert(self@.players =~= old(self)@.players.push(username@));
        }
        Ok(slot)
    }

    /// The code players join this game by.
    pub fn code(&self) -> (r: &String)
        ensures
            r@ == self@.code,
    {
        &self.id
    }

    /// The ordered username list: slot 0 first.
    pub fn players(&self) -> (r: Vec<String>)
        ensures
            names_of(r@) == self@.players,
    {
        let mut r: Vec<String> = Vec::new();
        let mut i: usize = 0;
        while i < self.players.len()
            invariant
                i <= self.players@.len(),
                r@.len() == i,
                forall|j: int| 0 <= j < i ==> r@[j]@ == self.players@[j]@,
            decreases self.players@.len() - i,
        {
            r.push(self.players[i].clone());
            i = i + 1;
        }
        proof {
            assert(names_of(r@) =~= self@.players);
        }
        r
    }

    /// The game has been won; no further guesses are accepted.
    pub fn is_won(&self) -> (r: bool)
        ensures
            r == game_won(self@),
    {
        let n = self.guesses.len();
        if n == 0 {
            false
        } else {
            self.guesses[n - 1].is_match()
        }
    }

    /// Records a guess by `username`.
    ///
    /// The submitter's slot is resolved from the player list
    /// (`PlayerNotInGame` for a non-member).  The guess opens a new round
    /// when no round is open, or fills the submitter's empty slot in the
    /// open round; a second guess in the same open round is refused
    /// (`DuplicateGuess`).  The returned outcome reports the open round as
    /// pending, or the completed round as won (guesses match) or continuing.
    /// Completed rounds are never modified.
    pub fn add_guess(&mut self, username: &str, guess: &str) -> (r: Result<Outcome, AppError>)
        requires
            game_wf(old(self)@),
            !game_won(old(self)@),
        ensures
            game_wf(final(self)@),
            final(self)@.code == old(self)@.code,
            final(self)@.start_time == old(self)@.start_time,
            final(self)@.players == old(self)@.players,
            forall|i: int|
                0 <= i < old(self)@.rounds.len() && round_complete(#[trigger] old(self)@.rounds[i])
                    ==> final(self)@.rounds[i] == old(self)@.rounds[i],
            match r {
                Ok(outcome) => {
                    let slot = player_slot(old(self)@.players, username@);
                    &&& slot >= 0
                    &&& !duplicate_guess(old(self)@.rounds, slot)
                    &&& final(self)@.rounds == rounds_after_guess(old(self)@.rounds, slot, guess@)
                    &&& outcome == outcome_of(final(self)@.rounds)
                    &&& (outcome == Outcome::Won) == game_won(final(self)@)
                },
                Err(e) => {
                    &&& final(self)@ == old(self)@
                    &&& ({
                        let slot = player_slot(old(self)@.players, username@);
                        if slot == -1 {
                            e == AppError::PlayerNotInGame
                        } else {
                            e == AppError::DuplicateGuess && duplicate_guess(
                                old(self)@.rounds,
                                slot,
                            )
                        }
                    })
                },
            },
    {
        let uname: String = username.to_owned();
        let slot: usize;
        if self.players.len() > 0 && self.players[0] == uname {
            slot = 0;
        } else if self.players.len() > 1 && self.players[1] == uname {
            slot = 1;
        } else {
            return Err(AppError::PlayerNotInGame);
        }
        proof {
            assert(names_of(self.players@)[0] == self.players@[0]@);
            assert(player_slot(old(self)@.players, username@) == slot as int);
        }

        let n = self.guesses.len();
        let needs_new = n == 0 || (self.guesses[n - 1].0.is_some() && self.guesses[n
            - 1].1.is_some());
        if needs_new {
            let fresh = if slot == 0 {
                Guess(Some(guess.to_owned()), None)
            } else {
                Guess(None, Some(guess.to_owned()))
            };
            self.guesses.push(fresh);
            proof {
                assert(self@.rounds =~= rounds_after_guess(
                    old(self)@.rounds,
                    slot as int,
                    guess@,
                ));
            }
        } else {
            let filled = if slot == 0 {
                self.guesses[n - 1].0.is_some()
            } else {
                self.guesses[n - 1].1.is_some()
            };
            if filled {
                return Err(AppError::DuplicateGuess);
            }
            let mut last = match self.guesses.pop() {
                Some(g) => g,
                None => unreached(),
            };
            if slot == 0 {
                last.0 = Some(guess.to_owned());
            } else {
                last.1 = Some(guess.to_owned());
            }
            self.guesses.push(last);
            proof {
                assert(self@.rounds =~= rounds_after_guess(
                    old(self)@.rounds,
                    slot as int,
                    guess@,
                ));
            }
        }

        let m = self.guesses.len();
        let last_complete = self.guesses[m - 1].0.is_some() && self.guesses[m - 1].1.is_some();
        let outcome = if !last_complete {
            Outcome::Pending
        } else if self.guesses[m - 1].is_match() {
            Outcome::Won
        } else {
            Outcome::Continue
        };
        proof {
            assert(self@.players =~= old(self)@.players);
        }
        Ok(outcome)
    }
}

} // verus!
