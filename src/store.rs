use vstd::prelude::*;
use crate::player::{Player, Position, moved};

verus! {

/// Whether some player in `s` has identity `id`.
pub open spec fn has_player(s: Seq<Player>, id: Seq<char>) -> bool {
    exists|i: int| 0 <= i < s.len() && (#[trigger] s[i]).id@ == id
}

/// No identity occurs twice in `s`.
pub open spec fn unique_players(s: Seq<Player>) -> bool {
    forall|i: int, j: int|
        0 <= i < s.len() && 0 <= j < s.len() && (#[trigger] s[i]).id@ == (#[trigger] s[j]).id@
            ==> i == j
}

/// The position of the player with identity `id` in `s`.
pub open spec fn player_index(s: Seq<Player>, id: Seq<char>) -> int
    recommends
        has_player(s, id),
{
    choose|i: int| 0 <= i < s.len() && (#[trigger] s[i]).id@ == id
}

/// The player with identity `id`, if `s` holds one.
pub open spec fn player_of(s: Seq<Player>, id: Seq<char>) -> Option<Player> {
    if has_player(s, id) {
        Some(s[player_index(s, id)])
    } else {
        None
    }
}

/// The store's contents after `p` is inserted, replacing a player of the same identity.
pub open spec fn upserted(s: Seq<Player>, p: Player) -> Seq<Player> {
    if has_player(s, p.id@) {
        s.update(player_index(s, p.id@), p)
    } else {
        s.push(p)
    }
}

/// The store's contents after the player with identity `id` is taken out.
pub open spec fn without_player(s: Seq<Player>, id: Seq<char>) -> Seq<Player> {
    if has_player(s, id) {
        s.remove(player_index(s, id))
    } else {
        s
    }
}

/// The store's contents after a position update for `id`; unchanged for an unknown `id`.
pub open spec fn with_position(s: Seq<Player>, id: Seq<char>, pos: Position) -> Seq<Player> {
    if has_player(s, id) {
        s.update(player_index(s, id), moved(s[player_index(s, id)], pos))
    } else {
        s
    }
}

pub proof fn lemma_index_unique(s: Seq<Player>, id: Seq<char>, i: int)
    requires
        unique_players(s),
        0 <= i < s.len(),
        s[i].id@ == id,
    ensures
        has_player(s, id),
        player_index(s, id) == i,
{
    let j = player_index(s, id);
    assert(0 <= j < s.len() && s[j].id@ == id);
}

pub proof fn lemma_upserted_members(s: Seq<Player>, p: Player, id: Seq<char>)
    requires
        unique_players(s),
    ensures
        has_player(upserted(s, p), id) == (has_player(s, id) || id == p.id@),
        upserted(s, p).len() == if has_player(s, p.id@) { s.len() } else { s.len() + 1 },
{
    let t = upserted(s, p);
    if has_player(s, p.id@) {
        let k = player_index(s, p.id@);
        if has_player(s, id) {
            let i = choose|i: int| 0 <= i < s.len() && (#[trigger] s[i]).id@ == id;
            if i == k {
                assert(t[k].id@ == id);
            } else {
                assert(t[i] == s[i]);
            }
        }
        if has_player(t, id) {
            let i = choose|i: int| 0 <= i < t.len() && (#[trigger] t[i]).id@ == id;
            if i != k {
                assert(t[i] == s[i]);
            }
        }
    } else {
        if has_player(s, id) {
            let i = choose|i: int| 0 <= i < s.len() && (#[trigger] s[i]).id@ == id;
            assert(t[i] == s[i]);
        }
        if id == p.id@ {
            assert(t[s.len() as int] == p);
        }
        if has_player(t, id) {
            let i = choose|i: int| 0 <= i < t.len() && (#[trigger] t[i]).id@ == id;
            if i < s.len() {
                assert(t[i] == s[i]);
            }
        }
    }
}

pub proof fn lemma_without_members(s: Seq<Player>, x: Seq<char>, id: Seq<char>)
    requires
        unique_players(s),
    ensures
        has_player(without_player(s, x), id) == (has_player(s, id) && id != x),
{
    let t = without_player(s, x);
    if has_player(s, x) {
        let k = player_index(s, x);
        if has_player(s, id) && id != x {
            let i = choose|i: int| 0 <= i < s.len() && (#[trigger] s[i]).id@ == id;
            if i < k {
                assert(t[i] == s[i]);
            } else {
                assert(i != k);
                assert(t[i - 1] == s[i]);
            }
        }
        if has_player(t, id) {
            let i = choose|i: int| 0 <= i < t.len() && (#[trigger] t[i]).id@ == id;
            if i < k {
                assert(t[i] == s[i]);
            } else {
                assert(t[i] == s[i + 1]);
                if id == x {
                    lemma_index_unique(s, x, i + 1);
                }
            }
        }
    }
}

pub proof fn lemma_moved_members(s: Seq<Player>, x: Seq<char>, pos: Position, id: Seq<char>)
    ensures
        has_player(with_position(s, x, pos), id) == has_player(s, id),
        with_position(s, x, pos).len() == s.len(),
{
    let t = with_position(s, x, pos);
    if has_player(s, x) {
        let k = player_index(s, x);
        if has_player(s, id) {
            let i = choose|i: int| 0 <= i < s.len() && (#[trigger] s[i]).id@ == id;
            assert(t[i].id@ == s[i].id@);
        }
        if has_player(t, id) {
            let i = choose|i: int| 0 <= i < t.len() && (#[trigger] t[i]).id@ == id;
            assert(t[i].id@ == s[i].id@);
        }
    }
}

pub proof fn lemma_upserted_unique(s: Seq<Player>, p: Player)
    requires
        unique_players(s),
    ensures
        unique_players(upserted(s, p)),
{
    let t = upserted(s, p);
    if has_player(s, p.id@) {
        let k = player_index(s, p.id@);
        assert forall|a: int, b: int|
            0 <= a < t.len() && 0 <= b < t.len() && (#[trigger] t[a]).id@ == (#[trigger] t[b]).id@
                implies a == b by {
            if a != k && b != k {
                assert(s[a] == t[a] && s[b] == t[b]);
            } else if a == k && b != k {
                assert(s[b] == t[b]);
            } else if b == k && a != k {
                assert(s[a] == t[a]);
            }
        }
    } else {
        assert forall|a: int, b: int|
            0 <= a < t.len() && 0 <= b < t.len() && (#[trigger] t[a]).id@ == (#[trigger] t[b]).id@
                implies a == b by {
            let n = s.len() as int;
            if a < n && b < n {
                assert(s[a] == t[a] && s[b] == t[b]);
            } else if a < n {
                assert(s[a] == t[a]);
            } else if b < n {
                assert(s[b] == t[b]);
            }
        }
    }
}

/// The store after each player of `ps` joins in turn, starting from `s`.
pub open spec fn upserted_all(s: Seq<Player>, ps: Seq<Player>) -> Seq<Player>
    decreases ps.len(),
{
    if ps.len() == 0 {
        s
    } else {
        upserted(upserted_all(s, ps.drop_last()), ps.last())
    }
}

/// After any sequence of joins with pairwise distinct identities into an empty
/// store, the store holds exactly one player per join, and each joined
/// identity is present.
pub proof fn lemma_distinct_joins_count(ps: Seq<Player>)
    requires
        unique_players(ps),
    ensures
        upserted_all(Seq::empty(), ps).len() == ps.len(),
        unique_players(upserted_all(Seq::empty(), ps)),
        forall|id: Seq<char>|
            #[trigger] has_player(upserted_all(Seq::empty(), ps), id) == has_player(ps, id),
    decreases ps.len(),
{
    if ps.len() > 0 {
        let init = ps.drop_last();
        assert(unique_players(init)) by {
            assert forall|a: int, b: int|
                0 <= a < init.len() && 0 <= b < init.len() && (#[trigger] init[a]).id@
                    == (#[trigger] init[b]).id@ implies a == b by {
                assert(init[a] == ps[a] && init[b] == ps[b]);
            }
        }
        lemma_distinct_joins_count(init);
        let before = upserted_all(Seq::empty(), init);
        let p = ps.last();
        assert(!has_player(init, p.id@)) by {
            if has_player(init, p.id@) {
                let i = choose|i: int| 0 <= i < init.len() && (#[trigger] init[i]).id@ == p.id@;
                assert(ps[i] == init[i]);
                assert(ps[ps.len() - 1] == p);
            }
        }
        lemma_upserted_members(before, p, p.id@);
        lemma_upserted_unique(before, p);
        assert forall|id: Seq<char>|
            #[trigger] has_player(upserted_all(Seq::empty(), ps), id) == has_player(ps, id) by {
            lemma_upserted_members(before, p, id);
            if has_player(init, id) {
                let i = choose|i: int| 0 <= i < init.len() && (#[trigger] init[i]).id@ == id;
                assert(ps[i] == init[i]);
            }
            if has_player(ps, id) && id != p.id@ {
                let i = choose|i: int| 0 <= i < ps.len() && (#[trigger] ps[i]).id@ == id;
                assert(ps[i] == init[i]);
            }
            if id == p.id@ {
                assert(ps[ps.len() - 1] == p);
            }
        }
    }
}

/// A join under an identity already present replaces that player's record:
/// the store keeps its size and holds the new record under that identity.
pub proof fn lemma_duplicate_join_overwrites(s: Seq<Player>, p: Player)
    requires
        unique_players(s),
        has_player(s, p.id@),
    ensures
        upserted(s, p).len() == s.len(),
        player_of(upserted(s, p), p.id@) == Some(p),
{
    let t = upserted(s, p);
    let k = player_index(s, p.id@);
    lemma_upserted_unique(s, p);
    lemma_index_unique(t, p.id@, k);
}

/// The session store: the authoritative collection of active players, at most
/// one per identity.
pub struct SessionStore {
    players: Vec<Player>,
}

impl View for SessionStore {
    type V = Seq<Player>;

    closed spec fn view(&self) -> Seq<Player> {
        self.players@
    }
}

impl SessionStore {
    pub open spec fn wf(&self) -> bool {
        unique_players(self@)
    }

    pub fn new() -> (r: SessionStore)
        ensures
            r.wf(),
            r@ == Seq::<Player>::empty(),
    {
        SessionStore { players: Vec::new() }
    }

    pub fn len(&self) -> (r: usize)
        ensures
            r == self@.len(),
    {
        self.players.len()
    }

    fn find(&self, id: &String) -> (r: Option<usize>)
        requires
            self.wf(),
        ensures
            match r {
                Some(i) => i < self@.len() && self@[i as int].id@ == id@ && player_index(self@, id@)
                    == i,
                None => !has_player(self@, id@),
            },
    {
        let mut i: usize = 0;
        while i < self.players.len()
            invariant
                self.wf(),
                i <= self.players@.len(),
                forall|k: int| 0 <= k < i ==> (#[trigger] self.players@[k]).id@ != id@,
            decreases self.players@.len() - i,
        {
            if self.players[i].id == *id {
                proof {
                    lemma_index_unique(self@, id@, i as int);
                }
                return Some(i);
            }
            i = i + 1;
        }
        None
    }

    pub fn contains(&self, id: &String) -> (r: bool)
        requires
            self.wf(),
        ensures
            r == has_player(self@, id@),
    {
        self.find(id).is_some()
    }

    /// A copy of the player with identity `id`, if there is one.
    pub fn get(&self, id: &String) -> (r: Option<Player>)
        requires
            self.wf(),
        ensures
            r == player_of(self@, id@),
    {
        match self.find(id) {
            Some(i) => Some(self.players[i].duplicate()),
            None => None,
        }
    }

    /// Inserts `player`, replacing the player of the same identity if one is present.
    pub fn upsert(&mut self, player: Player)
        requires
            old(self).wf(),
        ensures
            final(self).wf(),
            final(self)@ == upserted(old(self)@, player),
    {
        let ghost pid = player.id@;
        match self.find(&player.id) {
            Some(i) => {
                self.players.set(i, player);
                assert forall|a: int, b: int|
                    0 <= a < self@.len() && 0 <= b < self@.len() && (#[trigger] self@[a]).id@
                        == (#[trigger] self@[b]).id@ implies a == b by {
                    if a != i && b != i {
                        assert(old(self)@[a] == self@[a] && old(self)@[b] == self@[b]);
                    } else if a == i && b != i {
                        assert(old(self)@[b] == self@[b]);
                    } else if b == i && a != i {
                        assert(old(self)@[a] == self@[a]);
                    }
                }
            },
            None => {
                self.players.push(player);
                assert forall|a: int, b: int|
                    0 <= a < self@.len() && 0 <= b < self@.len() && (#[trigger] self@[a]).id@
                        == (#[trigger] self@[b]).id@ implies a == b by {
                    let n = old(self)@.len() as int;
                    if a < n && b < n {
                        assert(old(self)@[a] == self@[a] && old(self)@[b] == self@[b]);
                    } else if a < n {
                        assert(old(self)@[a] == self@[a]);
                        assert(has_player(old(self)@, pid));
                    } else if b < n {
                        assert(old(self)@[b] == self@[b]);
                        assert(has_player(old(self)@, pid));
                    }
                }
            },
        }
    }

    /// Removes the player with identity `id`; returns whether one was present.
    pub fn remove(&mut self, id: &String) -> (r: bool)
        requires
            old(self).wf(),
        ensures
            final(self).wf(),
            r == has_player(old(self)@, id@),
            final(self)@ == without_player(old(self)@, id@),
    {
        match self.find(id) {
            Some(i) => {
                self.players.remove(i);
                assert forall|a: int, b: int|
                    0 <= a < self@.len() && 0 <= b < self@.len() && (#[trigger] self@[a]).id@
                        == (#[trigger] self@[b]).id@ implies a == b by {
                    let a0 = if a < i { a } else { a + 1 };
                    let b0 = if b < i { b } else { b + 1 };
                    assert(old(self)@[a0] == self@[a] && old(self)@[b0] == self@[b]);
                }
                true
            },
            None => false,
        }
    }

    /// Applies a position update to the player with identity `id`. An unknown
    /// identity leaves the store as it was and yields `false`: no player is
    /// ever created here.
    pub fn update_position(&mut self, id: &String, pos: Position) -> (r: bool)
        requires
            old(self).wf(),
        ensures
            final(self).wf(),
            r == has_player(old(self)@, id@),
            final(self)@ == with_position(old(self)@, id@, pos),
    {
        match self.find(id) {
            Some(i) => {
                let old_player = self.players[i].duplicate();
                let facing = match pos.facing {
                    Some(f) => f,
                    None => old_player.facing,
                };
                let p = Player { x: pos.x, y: pos.y, facing, ..old_player };
                self.players.set(i, p);
                assert forall|a: int, b: int|
                    0 <= a < self@.len() && 0 <= b < self@.len() && (#[trigger] self@[a]).id@
                        == (#[trigger] self@[b]).id@ implies a == b by {
                    assert(old(self)@[a].id@ == self@[a].id@ && old(self)@[b].id@ == self@[b].id@);
                }
                true
            },
            None => false,
        }
    }

    /// A point-in-time copy of every player.
    pub fn snapshot(&self) -> (r: Vec<Player>)
        ensures
            r@ == self@,
    {
        let mut out: Vec<Player> = Vec::new();
        let mut i: usize = 0;
        while i < self.players.len()
            invariant
                i <= self.players@.len(),
                out@ == self.players@.subrange(0, i as int),
            decreases self.players@.len() - i,
        {
            out.push(self.players[i].duplicate());
            i = i + 1;
            assert(out@ =~= self.players@.subrange(0, i as int));
        }
        assert(out@ =~= self.players@);
        out
    }
}

} // verus!
