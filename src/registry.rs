use vstd::prelude::*;

verus! {

/// A live connection as the registry knows it: the player identity it joined
/// as, and the number by which the transport layer reaches its outbound queue.
#[derive(Clone, Debug)]
pub struct Route {
    pub player_id: String,
    pub conn: u64,
}

impl Route {
    pub fn duplicate(&self) -> (r: Route)
        ensures
            r == *self,
    {
        Route { player_id: self.player_id.clone(), conn: self.conn }
    }
}

/// Whether some route in `s` belongs to identity `id`.
pub open spec fn has_route(s: Seq<Route>, id: Seq<char>) -> bool {
    exists|i: int| 0 <= i < s.len() && (#[trigger] s[i]).player_id@ == id
}

/// No identity owns two routes in `s`.
pub open spec fn unique_routes(s: Seq<Route>) -> bool {
    forall|i: int, j: int|
        0 <= i < s.len() && 0 <= j < s.len() && (#[trigger] s[i]).player_id@ == (#[trigger] s[
            j]).player_id@ ==> i == j
}

/// The position of the route of identity `id` in `s`.
pub open spec fn route_index(s: Seq<Route>, id: Seq<char>) -> int
    recommends
        has_route(s, id),
{
    choose|i: int| 0 <= i < s.len() && (#[trigger] s[i]).player_id@ == id
}

/// The connection that identity `id` is reached through, if it has one.
pub open spec fn conn_of(s: Seq<Route>, id: Seq<char>) -> Option<u64> {
    if has_route(s, id) {
        Some(s[route_index(s, id)].conn)
    } else {
        None
    }
}

/// The routes after `r` is registered, replacing the route of the same identity.
pub open spec fn routed(s: Seq<Route>, r: Route) -> Seq<Route> {
    if has_route(s, r.player_id@) {
        s.update(route_index(s, r.player_id@), r)
    } else {
        s.push(r)
    }
}

/// The routes after the route of identity `id` is taken out.
pub open spec fn without_route(s: Seq<Route>, id: Seq<char>) -> Seq<Route> {
    if has_route(s, id) {
        s.remove(route_index(s, id))
    } else {
        s
    }
}

/// The routes of `s`, in order, but for those of identity `ex`.
pub open spec fn routes_except(s: Seq<Route>, ex: Seq<char>) -> Seq<Route>
    decreases s.len(),
{
    if s.len() == 0 {
        Seq::empty()
    } else if s.last().player_id@ == ex {
        routes_except(s.drop_last(), ex)
    } else {
        routes_except(s.drop_last(), ex).push(s.last())
    }
}

pub proof fn lemma_route_index_unique(s: Seq<Route>, id: Seq<char>, i: int)
    requires
        unique_routes(s),
        0 <= i < s.len(),
        s[i].player_id@ == id,
    ensures
        has_route(s, id),
        route_index(s, id) == i,
{
    let j = route_index(s, id);
    assert(0 <= j < s.len() && s[j].player_id@ == id);
}

pub proof fn lemma_routed_members(s: Seq<Route>, r: Route, id: Seq<char>)
    requires
        unique_routes(s),
    ensures
        has_route(routed(s, r), id) == (has_route(s, id) || id == r.player_id@),
{
    let t = routed(s, r);
    if has_route(s, r.player_id@) {
        let k = route_index(s, r.player_id@);
        if has_route(s, id) {
            let i = choose|i: int| 0 <= i < s.len() && (#[trigger] s[i]).player_id@ == id;
            if i == k {
                assert(t[k].player_id@ == id);
            } else {
                assert(t[i] == s[i]);
            }
        }
        if has_route(t, id) {
            let i = choose|i: int| 0 <= i < t.len() && (#[trigger] t[i]).player_id@ == id;
            if i != k {
                assert(t[i] == s[i]);
            }
        }
    } else {
        if has_route(s, id) {
            let i = choose|i: int| 0 <= i < s.len() && (#[trigger] s[i]).player_id@ == id;
            assert(t[i] == s[i]);
        }
        if id == r.player_id@ {
            assert(t[s.len() as int] == r);
        }
        if has_route(t, id) {
            let i = choose|i: int| 0 <= i < t.len() && (#[trigger] t[i]).player_id@ == id;
            if i < s.len() {
                assert(t[i] == s[i]);
            }
        }
    }
}

pub proof fn lemma_unrouted_members(s: Seq<Route>, x: Seq<char>, id: Seq<char>)
    requires
        unique_routes(s),
    ensures
        has_route(without_route(s, x), id) == (has_route(s, id) && id != x),
{
    let t = without_route(s, x);
    if has_route(s, x) {
        let k = route_index(s, x);
        if has_route(s, id) && id != x {
            let i = choose|i: int| 0 <= i < s.len() && (#[trigger] s[i]).player_id@ == id;
            if i < k {
                assert(t[i] == s[i]);
            } else {
                assert(i != k);
                assert(t[i - 1] == s[i]);
            }
        }
        if has_route(t, id) {
            let i = choose|i: int| 0 <= i < t.len() && (#[trigger] t[i]).player_id@ == id;
            if i < k {
                assert(t[i] == s[i]);
            } else {
                assert(t[i] == s[i + 1]);
                if id == x {
                    lemma_route_index_unique(s, x, i + 1);
                }
            }
        }
    }
}

/// The connection registry: which live connection each joined identity owns,
/// at most one per identity.
pub struct Registry {
    routes: Vec<Route>,
}

impl View for Registry {
    type V = Seq<Route>;

    closed spec fn view(&self) -> Seq<Route> {
        self.routes@
    }
}

impl Registry {
    pub open spec fn wf(&self) -> bool {
        unique_routes(self@)
    }

    pub fn new() -> (r: Registry)
        ensures
            r.wf(),
            r@ == Seq::<Route>::empty(),
    {
        Registry { routes: Vec::new() }
    }

    pub fn len(&self) -> (r: usize)
        ensures
            r == self@.len(),
    {
        self.routes.len()
    }

    fn find(&self, id: &String) -> (r: Option<usize>)
        requires
            self.wf(),
        ensures
            match r {
                Some(i) => i < self@.len() && self@[i as int].player_id@ == id@ && route_index(
                    self@,
                    id@,
                ) == i,
                None => !has_route(self@, id@),
            },
    {
        let mut i: usize = 0;
        while i < self.routes.len()
            invariant
                self.wf(),
                i <= self.routes@.len(),
                forall|k: int| 0 <= k < i ==> (#[trigger] self.routes@[k]).player_id@ != id@,
            decreases self.routes@.len() - i,
        {
            if self.routes[i].player_id == *id {
                proof {
                    lemma_route_index_unique(self@, id@, i as int);
                }
                return Some(i);
            }
            i = i + 1;
        }
        None
    }

    /// The connection that identity `id` is reached through, if any.
    pub fn handle_for(&self, id: &String) -> (r: Option<u64>)
        requires
            self.wf(),
        ensures
            r == conn_of(self@, id@),
    {
        match self.find(id) {
            Some(i) => Some(self.routes[i].conn),
            None => None,
        }
    }

    /// Registers `conn` as the connection of `player_id`, replacing any earlier one.
    pub fn register(&mut self, player_id: String, conn: u64)
        requires
            old(self).wf(),
        ensures
            final(self).wf(),
            final(self)@ == routed(old(self)@, Route { player_id, conn }),
    {
        let ghost pid = player_id@;
        let route = Route { player_id, conn };
        match self.find(&route.player_id) {
            Some(i) => {
                self.routes.set(i, route);
                assert forall|a: int, b: int|
                    0 <= a < self@.len() && 0 <= b < self@.len() && (#[trigger] self@[a]).player_id@
                        == (#[trigger] self@[b]).player_id@ implies a == b by {
                    if a != i && b != i {
                        assert(old(self)@[a] == self@[a] && old(self)@[b] == self@[b]);
                    } else if a == i && b != i {
                        assert(old(self)@[b] == self@[b]);
                    } else if b == i && a != i {
                        assert(old(self)@[a] == self@[a]);
                    }
                }
            },
            None => {
                self.routes.push(route);
                assert forall|a: int, b: int|
                    0 <= a < self@.len() && 0 <= b < self@.len() && (#[trigger] self@[a]).player_id@
                        == (#[trigger] self@[b]).player_id@ implies a == b by {
                    let n = old(self)@.len() as int;
                    if a < n && b < n {
                        assert(old(self)@[a] == self@[a] && old(self)@[b] == self@[b]);
                    } else if a < n {
                        assert(old(self)@[a] == self@[a]);
                        assert(has_route(old(self)@, pid));
                    } else if b < n {
                        assert(old(self)@[b] == self@[b]);
                        assert(has_route(old(self)@, pid));
                    }
                }
            },
        }
    }

    /// Drops the route of `id`; returns whether there was one.
    pub fn unregister(&mut self, id: &String) -> (r: bool)
        requires
            old(self).wf(),
        ensures
            final(self).wf(),
            r == has_route(old(self)@, id@),
            final(self)@ == without_route(old(self)@, id@),
    {
        match self.find(id) {
            Some(i) => {
                self.routes.remove(i);
                assert forall|a: int, b: int|
                    0 <= a < self@.len() && 0 <= b < self@.len() && (#[trigger] self@[a]).player_id@
                        == (#[trigger] self@[b]).player_id@ implies a == b by {
                    let a0 = if a < i { a } else { a + 1 };
                    let b0 = if b < i { b } else { b + 1 };
                    assert(old(self)@[a0] == self@[a] && old(self)@[b0] == self@[b]);
                }
                true
            },
            None => false,
        }
    }

    /// A snapshot of every route, for fan-out to all connections.
    pub fn all(&self) -> (r: Vec<Route>)
        ensures
            r@ == self@,
    {
        let mut out: Vec<Route> = Vec::new();
        let mut i: usize = 0;
        while i < self.routes.len()
            invariant
                i <= self.routes@.len(),
                out@ == self.routes@.subrange(0, i as int),
            decreases self.routes@.len() - i,
        {
            out.push(self.routes[i].duplicate());
            i = i + 1;
            assert(out@ =~= self.routes@.subrange(0, i as int));
        }
        assert(out@ =~= self.routes@);
        out
    }

    /// A snapshot of every route but that of `exclude`, for fan-out to the
    /// other connections.
    pub fn all_except(&self, exclude: &String) -> (r: Vec<Route>)
        ensures
            r@ == routes_except(self@, exclude@),
    {
        let mut out: Vec<Route> = Vec::new();
        let mut i: usize = 0;
        while i < self.routes.len()
            invariant
                i <= self.routes@.len(),
                out@ == routes_except(self.routes@.subrange(0, i as int), exclude@),
            decreases self.routes@.len() - i,
        {
            let ghost prefix = self.routes@.subrange(0, i as int);
            let ghost next = self.routes@.subrange(0, i as int + 1);
            assert(next.drop_last() =~= prefix);
            assert(next.last() == self.routes@[i as int]);
            if self.routes[i].player_id != *exclude {
                out.push(self.routes[i].duplicate());
            }
            i = i + 1;
        }
        assert(self.routes@.subrange(0, self.routes@.len() as int) =~= self.routes@);
        out
    }
}

/// Fan-out to the others never reaches the excluded identity, and reaches
/// every other registered identity.
pub proof fn lemma_others_never_excluded(s: Seq<Route>, ex: Seq<char>)
    ensures
        forall|i: int|
            0 <= i < routes_except(s, ex).len() ==> (#[trigger] routes_except(s, ex)[i]).player_id@
                != ex,
        forall|j: int|
            0 <= j < s.len() && (#[trigger] s[j]).player_id@ != ex ==> routes_except(
                s,
                ex,
            ).contains(s[j]),
        forall|i: int|
            0 <= i < routes_except(s, ex).len() ==> s.contains(#[trigger] routes_except(s, ex)[i]),
    decreases s.len(),
{
    if s.len() > 0 {
        lemma_others_never_excluded(s.drop_last(), ex);
        let rest = routes_except(s.drop_last(), ex);
        assert forall|j: int|
            0 <= j < s.len() && (#[trigger] s[j]).player_id@ != ex implies routes_except(
                s,
                ex,
            ).contains(s[j]) by {
            if j < s.len() - 1 {
                assert(s.drop_last()[j] == s[j]);
                let k = choose|k: int| 0 <= k < rest.len() && rest[k] == s[j];
                assert(routes_except(s, ex)[k] == s[j]);
            } else {
                assert(routes_except(s, ex)[rest.len() as int] == s[j]);
            }
        }
        assert forall|i: int|
            0 <= i < routes_except(s, ex).len() implies s.contains(
            #[trigger] routes_except(s, ex)[i]) by {
            if i < rest.len() {
                let k = choose|k: int| 0 <= k < s.drop_last().len() && s.drop_last()[k] == rest[i];
                assert(s[k] == rest[i]);
            } else {
                assert(s[s.len() - 1] == s.last());
            }
        }
    }
}

} // verus!
