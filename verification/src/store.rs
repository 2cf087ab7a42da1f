use vstd::prelude::*;

use crate::state::Game;

verus! {

/// The keys of a stored sequence of games, in storage order.
pub open spec fn seq_keys(s: Seq<(u128, Game)>) -> Seq<u128> {
    s.map_values(|p: (u128, Game)| p.0)
}

/// Keys strictly increase along the sequence: ascending order, no
/// duplicates.
pub open spec fn sorted_keys(s: Seq<(u128, Game)>) -> bool {
    forall|i: int, j: int| 0 <= i < j < s.len() ==> (#[trigger] s[i]).0 < (#[trigger] s[j]).0
}

/// Some entry carries the key `id`.
pub open spec fn seq_has(s: Seq<(u128, Game)>, id: u128) -> bool {
    exists|i: int| 0 <= i < s.len() && (#[trigger] s[i]).0 == id
}

/// The position of the entry carrying `id`.
pub open spec fn seq_index_of(s: Seq<(u128, Game)>, id: u128) -> int {
    choose|i: int| 0 <= i < s.len() && (#[trigger] s[i]).0 == id
}

/// The game stored under `id`.
pub open spec fn seq_get(s: Seq<(u128, Game)>, id: u128) -> Game {
    s[seq_index_of(s, id)].1
}

/// Every stored game satisfies the game invariant.
pub open spec fn games_wf(s: Seq<(u128, Game)>) -> bool {
    forall|i: int| 0 <= i < s.len() ==> (#[trigger] s[i]).1.wf()
}

/// With strictly sorted keys, an entry whose key is `id` sits exactly at
/// `seq_index_of(s, id)`.
pub proof fn lemma_index_of_unique(s: Seq<(u128, Game)>, id: u128, i: int)
    requires
        sorted_keys(s),
        0 <= i < s.len(),
        s[i].0 == id,
    ensures
        seq_index_of(s, id) == i,
        seq_get(s, id) == s[i].1,
{
    assert(seq_has(s, id));
    let k = seq_index_of(s, id);
    assert(0 <= k < s.len() && s[k].0 == id);
    if k < i {
        assert(s[k].0 < s[i].0);
    }
    if i < k {
        assert(s[i].0 < s[k].0);
    }
}

/// The game catalog: one record per game id, kept in ascending id order.
/// This is the storage capability the lifecycle owns; all reads and writes
/// of a game record go through it, atomically per command.
pub struct GameStore {
    games: Vec<(u128, Game)>,
}

impl View for GameStore {
    type V = Seq<(u128, Game)>;

    closed spec fn view(&self) -> Seq<(u128, Game)> {
        self.games@
    }
}

impl GameStore {
    /// The store invariant: ascending unique ids, every record well formed.
    pub open spec fn wf(&self) -> bool {
        sorted_keys(self@) && games_wf(self@)
    }

    /// An empty catalog.
    pub fn new() -> (s: GameStore)
        ensures
            s@ == Seq::<(u128, Game)>::empty(),
            s.wf(),
    {
        GameStore { games: Vec::new() }
    }

    /// How many games the catalog holds.
    pub fn len(&self) -> (n: usize)
        ensures
            n == self@.len(),
    {
        self.games.len()
    }

    /// The id stored at position `k`.
    pub fn id_at(&self, k: usize) -> (id: u128)
        requires
            k < self@.len(),
        ensures
            id == self@[k as int].0,
    {
        self.games[k].0
    }

    /// Borrow the game stored at position `k`.
    pub fn game_at<'a>(&'a self, k: usize) -> (g: &'a Game)
        requires
            k < self@.len(),
        ensures
            *g == self@[k as int].1,
    {
        &self.games[k].1
    }

    /// The position of `id` in the catalog, if present.
    fn find(&self, id: u128) -> (r: Option<usize>)
        ensures
            r matches Some(i) ==> i < self@.len() && self@[i as int].0 == id,
            r is None ==> !seq_has(self@, id),
    {
        let n = self.games.len();
        let mut idx: usize = 0;
        while idx < n
            invariant
                n == self@.len(),
                idx <= n,
                forall|k: int| 0 <= k < idx ==> (#[trigger] self@[k]).0 != id,
            decreases n - idx,
        {
            if self.games[idx].0 == id {
                return Some(idx);
            }
            idx = idx + 1;
        }
        None
    }

    /// Whether a game with this id exists.
    pub fn has(&self, id: u128) -> (r: bool)
        ensures
            r == seq_has(self@, id),
    {
        match self.find(id) {
            Some(_) => true,
            None => false,
        }
    }

    /// Borrow the game stored under `id`.
    pub fn get<'a>(&'a self, id: u128) -> (r: Option<&'a Game>)
        requires
            self.wf(),
        ensures
            r is Some <==> seq_has(self@, id),
            r matches Some(g) ==> *g == seq_get(self@, id),
    {
        match self.find(id) {
            Some(i) => {
                proof {
                    lemma_index_of_unique(self@, id, i as int);
                }
                Some(&self.games[i].1)
            },
            None => None,
        }
    }

    /// The first position whose key is not below `id`.
    fn lower_bound(&self, id: u128) -> (idx: usize)
        requires
            sorted_keys(self@),
        ensures
            idx <= self@.len(),
            forall|k: int| 0 <= k < idx ==> (#[trigger] self@[k]).0 < id,
            forall|k: int| idx <= k < self@.len() ==> (#[trigger] self@[k]).0 >= id,
    {
        let n = self.games.len();
        let mut idx: usize = 0;
        while idx < n && self.games[idx].0 < id
            invariant
                n == self@.len(),
                idx <= n,
                sorted_keys(self@),
                forall|k: int| 0 <= k < idx ==> (#[trigger] self@[k]).0 < id,
            decreases n - idx,
        {
            idx = idx + 1;
        }
        proof {
            assert forall|k: int| idx <= k < self@.len() implies (#[trigger] self@[k]).0 >= id by {
                if k > idx {
                    assert(self@[idx as int].0 < self@[k].0);
                }
            }
        }
        idx
    }

    /// File a new game under a fresh id, keeping the catalog sorted.
    pub fn insert_new(&mut self, id: u128, g: Game)
        requires
            old(self).wf(),
            !seq_has(old(self)@, id),
            g.wf(),
        ensures
            final(self).wf(),
            final(self)@.len() == old(self)@.len() + 1,
            forall|x: u128| seq_has(final(self)@, x) <==> (seq_has(old(self)@, x) || x == id),
            seq_get(final(self)@, id) == g,
            forall|x: u128|
                x != id && seq_has(old(self)@, x) ==> seq_get(final(self)@, x) == seq_get(
                    old(self)@,
                    x,
                ) && seq_has(final(self)@, x),
    {
        let idx = self.lower_bound(id);
        let ghost s0 = self@;
        let ghost pos = idx as int;
        self.games.insert(idx, (id, g));
        proof {
            s0.insert_ensures(pos, (id, g));
            let s1 = self@;
            // Entries at or above the insertion point held keys >= id; as id
            // is absent, they are strictly above it.
            assert forall|k: int| pos <= k < s0.len() implies s0[k].0 > id by {
                assert(s0[k].0 >= id);
                if s0[k].0 == id {
                    assert(seq_has(s0, id));
                }
            }
            assert forall|i: int, j: int| 0 <= i < j < s1.len() implies s1[i].0 < s1[j].0 by {
                if j < pos {
                    assert(s1[i] == s0[i] && s1[j] == s0[j]);
                } else if i < pos && j == pos {
                    assert(s1[i] == s0[i] && s1[j] == (id, g));
                } else if i < pos && j > pos {
                    assert(s1[i] == s0[i] && s1[j] == s0[j - 1]);
                    assert(s0[j - 1].0 >= id);
                } else if i == pos {
                    assert(s1[i] == (id, g) && s1[j] == s0[j - 1]);
                } else {
                    assert(s1[i] == s0[i - 1] && s1[j] == s0[j - 1]);
                }
            }
            assert(sorted_keys(s1));
            assert forall|i: int| 0 <= i < s1.len() implies (#[trigger] s1[i]).1.wf() by {
                if i < pos {
                    assert(s1[i] == s0[i]);
                } else if i == pos {
                    assert(s1[i] == (id, g));
                } else {
                    assert(s1[i] == s0[i - 1]);
                }
            }
            assert(s1[pos].0 == id);
            lemma_index_of_unique(s1, id, pos);
            assert forall|x: u128| seq_has(s1, x) implies (seq_has(s0, x) || x == id) by {
                let i = choose|i: int| 0 <= i < s1.len() && (#[trigger] s1[i]).0 == x;
                if i < pos {
                    assert(s0[i].0 == x);
                } else if i > pos {
                    assert(s0[i - 1].0 == x);
                }
            }
            assert forall|x: u128| seq_has(s0, x) implies seq_has(s1, x) by {
                let i = choose|i: int| 0 <= i < s0.len() && (#[trigger] s0[i]).0 == x;
                if i < pos {
                    assert(s1[i].0 == x);
                } else {
                    assert(s1[i + 1].0 == x);
                }
            }
            assert forall|x: u128| x != id && seq_has(s0, x) implies seq_get(s1, x) == seq_get(
                s0,
                x,
            ) by {
                let i = seq_index_of(s0, x);
                assert(0 <= i < s0.len() && s0[i].0 == x);
                if i < pos {
                    assert(s1[i] == s0[i]);
                    lemma_index_of_unique(s1, x, i);
                } else {
                    assert(s1[i + 1] == s0[i]);
                    lemma_index_of_unique(s1, x, i + 1);
                }
            }
        }
    }

    /// Overwrite the game stored under an existing id.
    pub fn replace(&mut self, id: u128, g: Game)
        requires
            old(self).wf(),
            seq_has(old(self)@, id),
            g.wf(),
        ensures
            final(self).wf(),
            final(self)@.len() == old(self)@.len(),
            seq_keys(final(self)@) == seq_keys(old(self)@),
            forall|x: u128| seq_has(final(self)@, x) <==> seq_has(old(self)@, x),
            seq_get(final(self)@, id) == g,
            forall|x: u128|
                x != id && seq_has(old(self)@, x) ==> seq_get(final(self)@, x) == seq_get(
                    old(self)@,
                    x,
                ),
    {
        let r = self.find(id);
        match r {
            Some(i) => {
                let ghost s0 = self@;
                let ghost pos = i as int;
                self.games[i] = (id, g);
                proof {
                    let s1 = self@;
                    assert(s1 == s0.update(pos, (id, g)));
                    assert(s0[pos].0 == id);
                    assert forall|i2: int, j2: int| 0 <= i2 < j2 < s1.len() implies s1[i2].0
                        < s1[j2].0 by {
                        assert(s0[i2].0 < s0[j2].0);
                    }
                    assert forall|i2: int| 0 <= i2 < s1.len() implies (#[trigger] s1[i2]).1.wf() by {
                        if i2 != pos {
                            assert(s1[i2] == s0[i2]);
                        }
                    }
                    assert(seq_keys(s1) =~= seq_keys(s0));
                    lemma_index_of_unique(s1, id, pos);
                    assert forall|x: u128| seq_has(s1, x) implies seq_has(s0, x) by {
                        let k = choose|k: int| 0 <= k < s1.len() && (#[trigger] s1[k]).0 == x;
                        assert(s0[k].0 == x);
                    }
                    assert forall|x: u128| seq_has(s0, x) implies seq_has(s1, x) by {
                        let k = choose|k: int| 0 <= k < s0.len() && (#[trigger] s0[k]).0 == x;
                        assert(s1[k].0 == x);
                    }
                    assert forall|x: u128| x != id && seq_has(s0, x) implies seq_get(s1, x)
                        == seq_get(s0, x) by {
                        let k = seq_index_of(s0, x);
                        assert(0 <= k < s0.len() && s0[k].0 == x);
                        assert(k != pos);
                        assert(s1[k] == s0[k]);
                        lemma_index_of_unique(s1, x, k);
                        lemma_index_of_unique(s0, x, k);
                    }
                }
            },
            None => {
                proof {
                    assert(false);
                }
            },
        }
    }
}

} // verus!
