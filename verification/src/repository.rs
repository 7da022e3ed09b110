//! A keyed repository of player identities.
//!
//! The repository is a mapping from id to [`Player`] record: upsert, point
//! lookup, removal, and a full listing.  The in-memory implementation holds
//! the records in a vector with pairwise distinct ids.

use vstd::prelude::*;

use crate::domain::Player;
use crate::domain::PlayerView;

verus! {

/// The records of `s`, read as a map keyed by id.
pub open spec fn ids_as_map(s: Seq<PlayerView>) -> Map<Seq<char>, PlayerView>
    decreases s.len(),
{
    if s.len() == 0 {
        Map::empty()
    } else {
        ids_as_map(s.drop_last()).insert(s.last().id, s.last())
    }
}

/// Pairwise distinct ids: each record keys itself in the map.
pub open spec fn distinct_ids(s: Seq<PlayerView>) -> bool {
    forall|i: int, j: int| 0 <= i < j < s.len() ==> (#[trigger] s[i].id) != (#[trigger] s[j].id)
}

/// The record views of a stored sequence.
pub open spec fn record_views(s: Seq<Player>) -> Seq<PlayerView> {
    s.map_values(|p: Player| p@)
}

/// With distinct ids, the map of `s` holds exactly the records of `s`, each
/// under its own id.
proof fn lemma_ids_as_map_props(s: Seq<PlayerView>)
    requires
        distinct_ids(s),
    ensures
        ids_as_map(s).dom().finite(),
        ids_as_map(s).dom().len() == s.len(),
        forall|i: int|
            0 <= i < s.len() ==> ids_as_map(s).contains_key(#[trigger] s[i].id) && ids_as_map(
                s,
            )[s[i].id] == s[i],
        forall|k: Seq<char>|
            ids_as_map(s).contains_key(k) ==> exists|i: int|
                0 <= i < s.len() && (#[trigger] s[i].id) == k,
    decreases s.len(),
{
    if s.len() > 0 {
        let d = s.drop_last();
        assert forall|i: int, j: int| 0 <= i < j < d.len() implies (#[trigger] d[i].id) != (
        #[trigger] d[j].id) by {
            assert(d[i] == s[i]);
            assert(d[j] == s[j]);
        }
        lemma_ids_as_map_props(d);
        let m = ids_as_map(s);
        assert(!ids_as_map(d).contains_key(s.last().id)) by {
            if ids_as_map(d).contains_key(s.last().id) {
                let i = choose|i: int| 0 <= i < d.len() && (#[trigger] d[i].id) == s.last().id;
                assert(s[i].id == s[s.len() - 1].id);
            }
        }
        assert forall|i: int| 0 <= i < s.len() implies m.contains_key(#[trigger] s[i].id)
            && m[s[i].id] == s[i] by {
            if i < s.len() - 1 {
                assert(d[i] == s[i]);
                assert(s[i].id != s.last().id);
            }
        }
        assert forall|k: Seq<char>| m.contains_key(k) implies exists|i: int|
            0 <= i < s.len() && (#[trigger] s[i].id) == k by {
            if k == s.last().id {
                assert(s[s.len() - 1].id == k);
            } else {
                let i = choose|i: int| 0 <= i < d.len() && (#[trigger] d[i].id) == k;
                assert(s[i].id == k);
            }
        }
    }
}

/// Replacing the record at `i` by one with the same id updates the map at
/// that id and keeps the ids distinct.
proof fn lemma_ids_as_map_update(s: Seq<PlayerView>, i: int, p: PlayerView)
    requires
        distinct_ids(s),
        0 <= i < s.len(),
        p.id == s[i].id,
    ensures
        distinct_ids(s.update(i, p)),
        ids_as_map(s.update(i, p)) == ids_as_map(s).insert(p.id, p),
    decreases s.len(),
{
    let t = s.update(i, p);
    assert forall|x: int, y: int| 0 <= x < y < t.len() implies (#[trigger] t[x].id) != (
    #[trigger] t[y].id) by {
        assert(t[x].id == s[x].id);
        assert(t[y].id == s[y].id);
    }
    if i == s.len() - 1 {
        assert(t.drop_last() =~= s.drop_last());
        assert(ids_as_map(t) =~= ids_as_map(s).insert(p.id, p));
    } else {
        let d = s.drop_last();
        assert forall|x: int, y: int| 0 <= x < y < d.len() implies (#[trigger] d[x].id) != (
        #[trigger] d[y].id) by {
            assert(d[x] == s[x]);
            assert(d[y] == s[y]);
        }
        lemma_ids_as_map_update(d, i, p);
        assert(t.drop_last() =~= d.update(i, p));
        assert(t.last() == s.last());
        assert(p.id != s.last().id) by {
            assert(s[i].id != s[s.len() - 1].id);
        }
        assert(ids_as_map(t) =~= ids_as_map(s).insert(p.id, p));
    }
}

/// Removing the record at `i` removes its id from the map and keeps the ids
/// distinct.
proof fn lemma_ids_as_map_remove(s: Seq<PlayerView>, i: int)
    requires
        distinct_ids(s),
        0 <= i < s.len(),
    ensures
        distinct_ids(s.remove(i)),
        ids_as_map(s.remove(i)) == ids_as_map(s).remove(s[i].id),
    decreases s.len(),
{
    let t = s.remove(i);
    assert forall|x: int, y: int| 0 <= x < y < t.len() implies (#[trigger] t[x].id) != (
    #[trigger] t[y].id) by {
        assert(t[x] == (if x < i {
            s[x]
        } else {
            s[x + 1]
        }));
        assert(t[y] == (if y < i {
            s[y]
        } else {
            s[y + 1]
        }));
    }
    let d = s.drop_last();
    assert forall|x: int, y: int| 0 <= x < y < d.len() implies (#[trigger] d[x].id) != (
    #[trigger] d[y].id) by {
        assert(d[x] == s[x]);
        assert(d[y] == s[y]);
    }
    lemma_ids_as_map_props(s);
    lemma_ids_as_map_props(d);
    if i == s.len() - 1 {
        assert(t =~= d);
        assert(ids_as_map(t) =~= ids_as_map(s).remove(s[i].id));
    } else {
        lemma_ids_as_map_remove(d, i);
        assert(t.drop_last() =~= d.remove(i));
        assert(t.last() == s.last());
        assert(s[i].id != s.last().id);
        assert(ids_as_map(t) =~= ids_as_map(s).remove(s[i].id));
    }
}

/// The repository contract: a durable mapping from id to record.
pub trait PlayerRepository: Sized {
    /// The stored records, keyed by id.
    spec fn repo(&self) -> Map<Seq<char>, PlayerView>;

    /// The implementation's internal well-formedness.
    spec fn inv(&self) -> bool;

    /// Upserts the record under its id and hands it back.
    fn save(&mut self, player: Player) -> (r: Player)
        requires
            old(self).inv(),
        ensures
            final(self).inv(),
            r@ == player@,
            final(self).repo() == old(self).repo().insert(player@.id, player@),
    ;

    /// All records, one per stored id.
    fn get_all(&self) -> (r: Vec<Player>)
        requires
            self.inv(),
        ensures
            r@.len() == self.repo().dom().len(),
            forall|i: int|
                0 <= i < r@.len() ==> self.repo().contains_key(#[trigger] r@[i]@.id) && r@[i]@
                    == self.repo()[r@[i]@.id],
    ;

    /// The record stored under `id`, if any.
    fn get(&self, id: &str) -> (r: Option<Player>)
        requires
            self.inv(),
        ensures
            match r {
                Some(p) => self.repo().contains_key(id@) && p@ == self.repo()[id@] && p@.id == id@,
                None => !self.repo().contains_key(id@),
            },
    ;

    /// Removes and returns the record stored under `id`, if any.
    fn delete(&mut self, id: &str) -> (r: Option<Player>)
        requires
            old(self).inv(),
        ensures
            final(self).inv(),
            match r {
                Some(p) => {
                    &&& old(self).repo().contains_key(id@)
                    &&& p@ == old(self).repo()[id@]
                    &&& final(self).repo() == old(self).repo().remove(id@)
                },
                None => {
                    &&& !old(self).repo().contains_key(id@)
                    &&& final(self).repo() == old(self).repo()
                },
            },
    ;
}

/// The in-memory repository: records in a vector with pairwise distinct ids.
pub struct InMemoryPlayerRepository {
    data: Vec<Player>,
}

impl InMemoryPlayerRepository {
    /// A fresh, empty repository.
    pub fn new() -> (r: Self)
        ensures
            r.inv(),
            r.repo() == Map::<Seq<char>, PlayerView>::empty(),
    {
        let r = InMemoryPlayerRepository { data: Vec::new() };
        proof {
            assert(record_views(r.data@) =~= Seq::<PlayerView>::empty());
        }
        r
    }

    /// The index of the record stored under `id`, if any.
    fn find_index(&self, id: &str) -> (r: Option<usize>)
        ensures
            match r {
                Some(i) => i < self.data@.len() && record_views(self.data@)[i as int].id == id@,
                None => forall|j: int|
                    0 <= j < self.data@.len() ==> record_views(self.data@)[j].id != id@,
            },
    {
        let key: String = id.to_owned();
        let mut i: usize = 0;
        while i < self.data.len()
            invariant
                i <= self.data@.len(),
                key@ == id@,
                forall|j: int| 0 <= j < i ==> record_views(self.data@)[j].id != id@,
            decreases self.data@.len() - i,
        {
            if self.data[i].id() == key {
                return Some(i);
            }
            i = i + 1;
        }
        None
    }
}

impl PlayerRepository for InMemoryPlayerRepository {
    closed spec fn repo(&self) -> Map<Seq<char>, PlayerView> {
        ids_as_map(record_views(self.data@))
    }

    closed spec fn inv(&self) -> bool {
        distinct_ids(record_views(self.data@))
    }

    fn save(&mut self, player: Player) -> (r: Player) {
        let ghost olds = record_views(old(self).data@);
        let r = player.clone();
        match self.find_index(r.id().as_str()) {
            Some(i) => {
                let ghost pv = player@;
                self.data.set(i, player);
                proof {
                    assert(record_views(self.data@) =~= olds.update(i as int, pv));
                    lemma_ids_as_map_update(olds, i as int, pv);
                }
            },
            None => {
                let ghost pv = player@;
                self.data.push(player);
                proof {
                    assert(record_views(self.data@).drop_last() =~= olds);
                    assert(record_views(self.data@).last() == pv);
                    assert forall|x: int, y: int|
                        0 <= x < y < record_views(self.data@).len() implies (
                    #[trigger] record_views(self.data@)[x].id) != (#[trigger] record_views(
                        self.data@,
                    )[y].id) by {
                        if y == record_views(self.data@).len() - 1 {
                            assert(record_views(self.data@)[x] == olds[x]);
                        } else {
                            assert(record_views(self.data@)[x] == olds[x]);
                            assert(record_views(self.data@)[y] == olds[y]);
                        }
                    }
                }
            },
        }
        r
    }

    fn get_all(&self) -> (r: Vec<Player>) {
        let mut v: Vec<Player> = Vec::new();
        let mut i: usize = 0;
        while i < self.data.len()
            invariant
                i <= self.data@.len(),
                v@.len() == i,
                forall|j: int| 0 <= j < i ==> v@[j]@ == record_views(self.data@)[j],
            decreases self.data@.len() - i,
        {
            v.push(self.data[i].clone());
            i = i + 1;
        }
        proof {
            lemma_ids_as_map_props(record_views(self.data@));
            assert forall|j: int| 0 <= j < v@.len() implies self.repo().contains_key(
                #[trigger] v@[j]@.id,
            ) && v@[j]@ == self.repo()[v@[j]@.id] by {
                assert(record_views(self.data@)[j].id == v@[j]@.id);
            }
        }
        v
    }

    fn get(&self, id: &str) -> (r: Option<Player>) {
        proof {
            lemma_ids_as_map_props(record_views(self.data@));
        }
        match self.find_index(id) {
            Some(i) => Some(self.data[i].clone()),
            None => {
                proof {
                    if self.repo().contains_key(id@) {
                        let j = choose|j: int|
                            0 <= j < record_views(self.data@).len() && (#[trigger] record_views(
                                self.data@,
                            )[j].id) == id@;
                        assert(record_views(self.data@)[j].id != id@);
                    }
                }
                None
            },
        }
    }

    fn delete(&mut self, id: &str) -> (r: Option<Player>) {
        proof {
            lemma_ids_as_map_props(record_views(old(self).data@));
        }
        let ghost olds = record_views(old(self).data@);
        match self.find_index(id) {
            Some(i) => {
                let p = self.data.remove(i);
                proof {
                    assert(record_views(self.data@) =~= olds.remove(i as int));
                    lemma_ids_as_map_remove(olds, i as int);
                }
                Some(p)
            },
            None => {
                proof {
                    if old(self).repo().contains_key(id@) {
                        let j = choose|j: int|
                            0 <= j < olds.len() && (#[trigger] olds[j].id) == id@;
                        assert(olds[j].id != id@);
                    }
                }
                None
            },
        }
    }
}

} // verus!
