//! The in-memory storage backend.
//!
//! Records are held in plain vectors, one entry per username or game code;
//! the storage contract's maps are the vectors read as key-value maps.  The
//! backend never fails: every operation returns `Ok`.

use vstd::prelude::*;

use crate::database::Database;
use crate::database::StoreView;
use crate::error::AppError;
use crate::game::Game;
use crate::game::GameView;
use crate::game::game_wf;
use crate::player::Player;
use crate::player::PlayerView;

verus! {

/// The views of a stored player sequence.
pub open spec fn player_views(s: Seq<Player>) -> Seq<PlayerView> {
    s.map_values(|p: Player| p@)
}

/// The views of a stored game sequence.
pub open spec fn game_views(s: Seq<Game>) -> Seq<GameView> {
    s.map_values(|g: Game| g@)
}

/// The player records of `s`, read as a map keyed by username.
pub open spec fn players_as_map(s: Seq<PlayerView>) -> Map<Seq<char>, PlayerView>
    decreases s.len(),
{
    if s.len() == 0 {
        Map::empty()
    } else {
        players_as_map(s.drop_last()).insert(s.last().username, s.last())
    }
}

/// The game records of `s`, read as a map keyed by game code.
pub open spec fn games_as_map(s: Seq<GameView>) -> Map<Seq<char>, GameView>
    decreases s.len(),
{
    if s.len() == 0 {
        Map::empty()
    } else {
        games_as_map(s.drop_last()).insert(s.last().code, s.last())
    }
}

/// Pairwise distinct usernames: each record keys itself in the map.
pub open spec fn distinct_usernames(s: Seq<PlayerView>) -> bool {
    forall|i: int, j: int|
        0 <= i < j < s.len() ==> (#[trigger] s[i].username) != (#[trigger] s[j].username)
}

/// Pairwise distinct game codes.
pub open spec fn distinct_codes(s: Seq<GameView>) -> bool {
    forall|i: int, j: int| 0 <= i < j < s.len() ==> (#[trigger] s[i].code) != (#[trigger] s[j].code)
}

/// With distinct usernames, the map of `s` holds exactly the records of `s`,
/// each under its own username.
proof fn lemma_players_as_map_props(s: Seq<PlayerView>)
    requires
        distinct_usernames(s),
    ensures
        players_as_map(s).dom().finite(),
        players_as_map(s).dom().len() == s.len(),
        forall|i: int|
            0 <= i < s.len() ==> players_as_map(s).contains_key(#[trigger] s[i].username)
                && players_as_map(s)[s[i].username] == s[i],
        forall|k: Seq<char>|
            players_as_map(s).contains_key(k) ==> exists|i: int|
                0 <= i < s.len() && (#[trigger] s[i].username) == k,
    decreases s.len(),
{
    if s.len() > 0 {
        let d = s.drop_last();
        assert forall|i: int, j: int| 0 <= i < j < d.len() implies (#[trigger] d[i].username) != (
        #[trigger] d[j].username) by {
            assert(d[i] == s[i]);
            assert(d[j] == s[j]);
        }
        lemma_players_as_map_props(d);
        let m = players_as_map(s);
        assert(!players_as_map(d).contains_key(s.last().username)) by {
            if players_as_map(d).contains_key(s.last().username) {
                let i = choose|i: int| 0 <= i < d.len() && (#[trigger] d[i].username)
                    == s.last().username;
                assert(s[i].username == s[s.len() - 1].username);
            }
        }
        assert forall|i: int| 0 <= i < s.len() implies m.contains_key(#[trigger] s[i].username)
            && m[s[i].username] == s[i] by {
            if i < s.len() - 1 {
                assert(d[i] == s[i]);
                assert(s[i].username != s.last().username);
            }
        }
        assert forall|k: Seq<char>| m.contains_key(k) implies exists|i: int|
            0 <= i < s.len() && (#[trigger] s[i].username) == k by {
            if k == s.last().username {
                assert(s[s.len() - 1].username == k);
            } else {
                let i = choose|i: int| 0 <= i < d.len() && (#[trigger] d[i].username) == k;
                assert(s[i].username == k);
            }
        }
    }
}

/// With distinct codes, the map of `s` holds exactly the records of `s`,
/// each under its own code.
proof fn lemma_games_as_map_props(s: Seq<GameView>)
    requires
        distinct_codes(s),
    ensures
        games_as_map(s).dom().finite(),
        games_as_map(s).dom().len() == s.len(),
        forall|i: int|
            0 <= i < s.len() ==> games_as_map(s).contains_key(#[trigger] s[i].code)
                && games_as_map(s)[s[i].code] == s[i],
        forall|k: Seq<char>|
            games_as_map(s).contains_key(k) ==> exists|i: int|
                0 <= i < s.len() && (#[trigger] s[i].code) == k,
    decreases s.len(),
{
    if s.len() > 0 {
        let d = s.drop_last();
        assert forall|i: int, j: int| 0 <= i < j < d.len() implies (#[trigger] d[i].code) != (
        #[trigger] d[j].code) by {
            assert(d[i] == s[i]);
            assert(d[j] == s[j]);
        }
        lemma_games_as_map_props(d);
        let m = games_as_map(s);
        assert(!games_as_map(d).contains_key(s.last().code)) by {
            if games_as_map(d).contains_key(s.last().code) {
                let i = choose|i: int| 0 <= i < d.len() && (#[trigger] d[i].code) == s.last().code;
                assert(s[i].code == s[s.len() - 1].code);
            }
        }
        assert forall|i: int| 0 <= i < s.len() implies m.contains_key(#[trigger] s[i].code)
            && m[s[i].code] == s[i] by {
            if i < s.len() - 1 {
                assert(d[i] == s[i]);
                assert(s[i].code != s.last().code);
            }
        }
        assert forall|k: Seq<char>| m.contains_key(k) implies exists|i: int|
            0 <= i < s.len() && (#[trigger] s[i].code) == k by {
            if k == s.last().code {
                assert(s[s.len() - 1].code == k);
            } else {
                let i = choose|i: int| 0 <= i < d.len() && (#[trigger] d[i].code) == k;
                assert(s[i].code == k);
            }
        }
    }
}

/// Replacing the record at `i` by one with the same username updates the map
/// at that username and keeps the usernames distinct.
proof fn lemma_players_as_map_update(s: Seq<PlayerView>, i: int, p: PlayerView)
    requires
        distinct_usernames(s),
        0 <= i < s.len(),
        p.username == s[i].username,
    ensures
        distinct_usernames(s.update(i, p)),
        players_as_map(s.update(i, p)) == players_as_map(s).insert(p.username, p),
    decreases s.len(),
{
    let t = s.update(i, p);
    assert forall|x: int, y: int| 0 <= x < y < t.len() implies (#[trigger] t[x].username) != (
    #[trigger] t[y].username) by {
        assert(t[x].username == s[x].username);
        assert(t[y].username == s[y].username);
    }
    if i == s.len() - 1 {
        assert(t.drop_last() =~= s.drop_last());
        assert(players_as_map(t) =~= players_as_map(s).insert(p.username, p));
    } else {
        let d = s.drop_last();
        assert forall|x: int, y: int| 0 <= x < y < d.len() implies (#[trigger] d[x].username) != (
        #[trigger] d[y].username) by {
            assert(d[x] == s[x]);
            assert(d[y] == s[y]);
        }
        lemma_players_as_map_update(d, i, p);
        assert(t.drop_last() =~= d.update(i, p));
        assert(t.last() == s.last());
        assert(p.username != s.last().username) by {
            assert(s[i].username != s[s.len() - 1].username);
        }
        assert(players_as_map(t) =~= players_as_map(s).insert(p.username, p));
    }
}

/// Replacing the record at `i` by one with the same code updates the map at
/// that code and keeps the codes distinct.
proof fn lemma_games_as_map_update(s: Seq<GameView>, i: int, g: GameView)
    requires
        distinct_codes(s),
        0 <= i < s.len(),
        g.code == s[i].code,
    ensures
        distinct_codes(s.update(i, g)),
        games_as_map(s.update(i, g)) == games_as_map(s).insert(g.code, g),
    decreases s.len(),
{
    let t = s.update(i, g);
    assert forall|x: int, y: int| 0 <= x < y < t.len() implies (#[trigger] t[x].code) != (
    #[trigger] t[y].code) by {
        assert(t[x].code == s[x].code);
        assert(t[y].code == s[y].code);
    }
    if i == s.len() - 1 {
        assert(t.drop_last() =~= s.drop_last());
        assert(games_as_map(t) =~= games_as_map(s).insert(g.code, g));
    } else {
        let d = s.drop_last();
        assert forall|x: int, y: int| 0 <= x < y < d.len() implies (#[trigger] d[x].code) != (
        #[trigger] d[y].code) by {
            assert(d[x] == s[x]);
            assert(d[y] == s[y]);
        }
        lemma_games_as_map_update(d, i, g);
        assert(t.drop_last() =~= d.update(i, g));
        assert(t.last() == s.last());
        assert(g.code != s.last().code) by {
            assert(s[i].code != s[s.len() - 1].code);
        }
        assert(games_as_map(t) =~= games_as_map(s).insert(g.code, g));
    }
}

/// The in-memory backend: one vector of player records, one of game records,
/// each with pairwise distinct keys.
pub struct InMemoryDatabase {
    players: Vec<Player>,
    games: Vec<Game>,
}

impl InMemoryDatabase {
    /// A fresh, empty store.
    pub fn new() -> (r: Self)
        ensures
            r.inv(),
            r.store().players == Map::<Seq<char>, PlayerView>::empty(),
            r.store().games == Map::<Seq<char>, GameView>::empty(),
    {
        let r = InMemoryDatabase { players: Vec::new(), games: Vec::new() };
        proof {
            assert(player_views(r.players@) =~= Seq::<PlayerView>::empty());
            assert(game_views(r.games@) =~= Seq::<GameView>::empty());
        }
        r
    }

    /// The index of the record stored under `username`, if any.
    fn find_player_index(&self, username: &str) -> (r: Option<usize>)
        ensures
            match r {
                Some(i) => i < self.players@.len() && player_views(self.players@)[i as int].username
                    == username@,
                None => forall|j: int|
                    0 <= j < self.players@.len() ==> player_views(self.players@)[j].username
                        != username@,
            },
    {
        let uname: String = username.to_owned();
        let mut i: usize = 0;
        while i < self.players.len()
            invariant
                i <= self.players@.len(),
                uname@ == username@,
                forall|j: int|
                    0 <= j < i ==> player_views(self.players@)[j].username != username@,
            decreases self.players@.len() - i,
        {
            if self.players[i].username == uname {
                return Some(i);
            }
            i = i + 1;
        }
        None
    }

    /// The index of the record stored under `game_id`, if any.
    fn find_game_index(&self, game_id: &str) -> (r: Option<usize>)
        ensures
            match r {
                Some(i) => i < self.games@.len() && game_views(self.games@)[i as int].code
                    == game_id@,
                None => forall|j: int|
                    0 <= j < self.games@.len() ==> game_views(self.games@)[j].code != game_id@,
            },
    {
        let code: String = game_id.to_owned();
        let mut i: usize = 0;
        while i < self.games.len()
            invariant
                i <= self.games@.len(),
                code@ == game_id@,
                forall|j: int| 0 <= j < i ==> game_views(self.games@)[j].code != game_id@,
            decreases self.games@.len() - i,
        {
            if *self.games[i].code() == code {
                return Some(i);
            }
            i = i + 1;
        }
        None
    }
}

impl Default for InMemoryDatabase {
    /// Same as [`InMemoryDatabase::new`]: a fresh, empty store.
    fn default() -> (r: Self)
        ensures
            r.inv(),
            r.store().players == Map::<Seq<char>, PlayerView>::empty(),
            r.store().games == Map::<Seq<char>, GameView>::empty(),
    {
        Self::new()
    }
}

impl Database for InMemoryDatabase {
    closed spec fn store(&self) -> StoreView {
        StoreView {
            players: players_as_map(player_views(self.players@)),
            games: games_as_map(game_views(self.games@)),
        }
    }

    closed spec fn inv(&self) -> bool {
        &&& distinct_usernames(player_views(self.players@))
        &&& distinct_codes(game_views(self.games@))
        &&& forall|i: int| 0 <= i < self.games@.len() ==> game_wf(#[trigger] self.games@[i]@)
    }

    fn save_player(&mut self, player: Player) -> (r: Result<(), AppError>) {
        let ghost olds = player_views(old(self).players@);
        match self.find_player_index(player.username.as_str()) {
            Some(i) => {
                let ghost pv = player@;
                self.players.set(i, player);
                proof {
                    assert(player_views(self.players@) =~= olds.update(i as int, pv));
                    lemma_players_as_map_update(olds, i as int, pv);
                }
            },
            None => {
                let ghost pv = player@;
                self.players.push(player);
                proof {
                    assert(player_views(self.players@).drop_last() =~= olds);
                    assert(player_views(self.players@).last() == pv);
                    assert forall|x: int, y: int|
                        0 <= x < y < player_views(self.players@).len() implies (
                    #[trigger] player_views(self.players@)[x].username) != (#[trigger] player_views(
                        self.players@,
                    )[y].username) by {
                        if y == player_views(self.players@).len() - 1 {
                            assert(player_views(self.players@)[x] == olds[x]);
                        } else {
                            assert(player_views(self.players@)[x] == olds[x]);
                            assert(player_views(self.players@)[y] == olds[y]);
                        }
                    }
                }
            },
        }
        Ok(())
    }

    fn get_players(&self) -> (r: Result<Vec<Player>, AppError>) {
        proof {
            lemma_players_as_map_props(player_views(self.players@));
        }
        let mut v: Vec<Player> = Vec::new();
        let mut i: usize = 0;
        while i < self.players.len()
            invariant
                i <= self.players@.len(),
                v@.len() == i,
                forall|j: int| 0 <= j < i ==> v@[j]@ == player_views(self.players@)[j],
            decreases self.players@.len() - i,
        {
            v.push(self.players[i].clone());
            i = i + 1;
        }
        proof {
            lemma_players_as_map_props(player_views(self.players@));
            assert forall|j: int| 0 <= j < v@.len() implies self.store().players.contains_key(
                #[trigger] v@[j]@.username,
            ) && v@[j]@ == self.store().players[v@[j]@.username] by {
                assert(player_views(self.players@)[j].username == v@[j]@.username);
            }
        }
        Ok(v)
    }

    fn get_player_by_username(&self, username: &str) -> (r: Result<Option<Player>, AppError>) {
        proof {
            lemma_players_as_map_props(player_views(self.players@));
        }
        match self.find_player_index(username) {
            Some(i) => Ok(Some(self.players[i].clone())),
            None => {
                proof {
                    if self.store().players.contains_key(username@) {
                        let j = choose|j: int|
                            0 <= j < player_views(self.players@).len() && (#[trigger] player_views(
                                self.players@,
                            )[j].username) == username@;
                    }
                }
                Ok(None)
            },
        }
    }

    fn save_game(&mut self, game: Game) -> (r: Result<(), AppError>) {
        let ghost olds = game_views(old(self).games@);
        match self.find_game_index(game.code().as_str()) {
            Some(i) => {
                let ghost gv = game@;
                self.games.set(i, game);
                proof {
                    assert(game_views(self.games@) =~= olds.update(i as int, gv));
                    lemma_games_as_map_update(olds, i as int, gv);
                    assert forall|k: int| 0 <= k < self.games@.len() implies game_wf(
                        #[trigger] self.games@[k]@,
                    ) by {
                        if k != i {
                            assert(self.games@[k] == old(self).games@[k]);
                        }
                    }
                }
            },
            None => {
                let ghost gv = game@;
                self.games.push(game);
                proof {
                    assert(game_views(self.games@).drop_last() =~= olds);
                    assert(game_views(self.games@).last() == gv);
                    assert forall|x: int, y: int|
                        0 <= x < y < game_views(self.games@).len() implies (#[trigger] game_views(
                        self.games@,
                    )[x].code) != (#[trigger] game_views(self.games@)[y].code) by {
                        if y == game_views(self.games@).len() - 1 {
                            assert(game_views(self.games@)[x] == olds[x]);
                        } else {
                            assert(game_views(self.games@)[x] == olds[x]);
                            assert(game_views(self.games@)[y] == olds[y]);
                        }
                    }
                    assert forall|k: int| 0 <= k < self.games@.len() implies game_wf(
                        #[trigger] self.games@[k]@,
                    ) by {
                        if k < old(self).games@.len() {
                            assert(self.games@[k] == old(self).games@[k]);
                        }
                    }
                }
            },
        }
        Ok(())
    }

    fn get_games(&self) -> (r: Result<Vec<Game>, AppError>) {
        proof {
            lemma_games_as_map_props(game_views(self.games@));
        }
        let mut v: Vec<Game> = Vec::new();
        let mut i: usize = 0;
        while i < self.games.len()
            invariant
                i <= self.games@.len(),
                v@.len() == i,
                forall|j: int| 0 <= j < i ==> v@[j]@ == game_views(self.games@)[j],
            decreases self.games@.len() - i,
        {
            v.push(self.games[i].clone());
            i = i + 1;
        }
        proof {
            lemma_games_as_map_props(game_views(self.games@));
            assert forall|j: int| 0 <= j < v@.len() implies self.store().games.contains_key(
                #[trigger] v@[j]@.code,
            ) && v@[j]@ == self.store().games[v@[j]@.code] by {
                assert(game_views(self.games@)[j].code == v@[j]@.code);
            }
        }
        Ok(v)
    }

    fn get_game(&self, game_id: &str) -> (r: Result<Option<Game>, AppError>) {
        proof {
            lemma_games_as_map_props(game_views(self.games@));
        }
        match self.find_game_index(game_id) {
            Some(i) => Ok(Some(self.games[i].clone())),
            None => {
                proof {
                    if self.store().games.contains_key(game_id@) {
                        let j = choose|j: int|
                            0 <= j < game_views(self.games@).len() && (#[trigger] game_views(
                                self.games@,
                            )[j].code) == game_id@;
                    }
                }
                Ok(None)
            },
        }
    }
}

} // verus!
