use vstd::prelude::*;
use crate::player::{Player, Position};
use crate::registry::{
    Registry, Route, has_route, lemma_routed_members, lemma_unrouted_members, routed,
    routes_except, without_route,
};
use crate::store::{
    SessionStore, has_player, lemma_moved_members, lemma_upserted_members, lemma_without_members,
    upserted, with_position, without_player,
};

verus! {

/// The shared state of one session: its players and the routes to their connections.
pub struct LobbyView {
    pub players: Seq<Player>,
    pub routes: Seq<Route>,
}

/// Every identity with a player has a route, and the other way round.
pub open spec fn same_members(players: Seq<Player>, routes: Seq<Route>) -> bool {
    forall|id: Seq<char>| #[trigger] has_player(players, id) <==> #[trigger] has_route(routes, id)
}

/// The session after `player` joins through connection `conn`.
pub open spec fn joined(l: LobbyView, player: Player, conn: u64) -> LobbyView {
    LobbyView {
        players: upserted(l.players, player),
        routes: routed(l.routes, Route { player_id: player.id, conn }),
    }
}

/// The session after identity `id` leaves.
pub open spec fn departed(l: LobbyView, id: Seq<char>) -> LobbyView {
    LobbyView { players: without_player(l.players, id), routes: without_route(l.routes, id) }
}

/// The session after a position update for identity `id`.
pub open spec fn relocated(l: LobbyView, id: Seq<char>, pos: Position) -> LobbyView {
    LobbyView { players: with_position(l.players, id, pos), routes: l.routes }
}

/// A departed identity is in neither the store nor the registry, and leaving
/// again changes nothing.
pub proof fn lemma_leave_idempotent(l: LobbyView, id: Seq<char>)
    requires
        crate::store::unique_players(l.players),
        crate::registry::unique_routes(l.routes),
    ensures
        !has_player(departed(l, id).players, id),
        !has_route(departed(l, id).routes, id),
        departed(departed(l, id), id) == departed(l, id),
{
    lemma_without_members(l.players, id, id);
    lemma_unrouted_members(l.routes, id, id);
}

/// The session store and the connection registry, mutated together for every
/// join and leave so that neither is ever seen holding an identity the other lacks.
pub struct Lobby {
    store: SessionStore,
    registry: Registry,
}

impl View for Lobby {
    type V = LobbyView;

    closed spec fn view(&self) -> LobbyView {
        LobbyView { players: self.store@, routes: self.registry@ }
    }
}

impl Lobby {
    pub closed spec fn wf(&self) -> bool {
        &&& self.store.wf()
        &&& self.registry.wf()
        &&& same_members(self.store@, self.registry@)
    }

    pub proof fn lemma_wf(&self)
        requires
            self.wf(),
        ensures
            crate::store::unique_players(self@.players),
            crate::registry::unique_routes(self@.routes),
            same_members(self@.players, self@.routes),
    {
    }

    pub fn new() -> (r: Lobby)
        ensures
            r.wf(),
            r@.players == Seq::<Player>::empty(),
            r@.routes == Seq::<Route>::empty(),
    {
        Lobby { store: SessionStore::new(), registry: Registry::new() }
    }

    /// Number of players in the session.
    pub fn player_count(&self) -> (r: usize)
        ensures
            r == self@.players.len(),
    {
        self.store.len()
    }

    /// Adds `player`, reached through `conn`, to both the store and the registry;
    /// a player of the same identity is replaced in both.
    pub fn join(&mut self, player: Player, conn: u64)
        requires
            old(self).wf(),
        ensures
            final(self).wf(),
            final(self)@ == joined(old(self)@, player, conn),
    {
        let id = player.id.clone();
        let ghost p = player;
        self.store.upsert(player);
        self.registry.register(id, conn);
        proof {
            assert forall|x: Seq<char>| #[trigger]
                has_player(self.store@, x) <==> #[trigger] has_route(self.registry@, x) by {
                lemma_upserted_members(old(self).store@, p, x);
                lemma_routed_members(old(self).registry@, Route { player_id: id, conn }, x);
            }
        }
    }

    /// Takes identity `id` out of both the store and the registry; returns
    /// whether it was there. Leaving twice is harmless.
    pub fn leave(&mut self, id: &String) -> (r: bool)
        requires
            old(self).wf(),
        ensures
            final(self).wf(),
            r == has_player(old(self)@.players, id@),
            final(self)@ == departed(old(self)@, id@),
    {
        let r = self.store.remove(id);
        self.registry.unregister(id);
        proof {
            assert forall|x: Seq<char>| #[trigger]
                has_player(self.store@, x) <==> #[trigger] has_route(self.registry@, x) by {
                lemma_without_members(old(self).store@, id@, x);
                lemma_unrouted_members(old(self).registry@, id@, x);
            }
        }
        r
    }

    /// Moves the player of identity `id`; an unknown identity changes nothing
    /// and yields `false`.
    pub fn update_position(&mut self, id: &String, pos: Position) -> (r: bool)
        requires
            old(self).wf(),
        ensures
            final(self).wf(),
            r == has_player(old(self)@.players, id@),
            final(self)@ == relocated(old(self)@, id@, pos),
    {
        let ghost pos0 = pos;
        let r = self.store.update_position(id, pos);
        proof {
            assert forall|x: Seq<char>| #[trigger]
                has_player(self.store@, x) <==> #[trigger] has_route(self.registry@, x) by {
                lemma_moved_members(old(self).store@, id@, pos0, x);
            }
        }
        r
    }

    /// A point-in-time copy of the players.
    pub fn players(&self) -> (r: Vec<Player>)
        ensures
            r@ == self@.players,
    {
        self.store.snapshot()
    }

    /// A copy of the player of identity `id`, if any.
    pub fn player(&self, id: &String) -> (r: Option<Player>)
        requires
            self.wf(),
        ensures
            r == crate::store::player_of(self@.players, id@),
    {
        self.store.get(id)
    }

    /// The connection of identity `id`, if any.
    pub fn conn_for(&self, id: &String) -> (r: Option<u64>)
        requires
            self.wf(),
        ensures
            r == crate::registry::conn_of(self@.routes, id@),
    {
        self.registry.handle_for(id)
    }

    /// Every route, for fan-out to all connections.
    pub fn routes(&self) -> (r: Vec<Route>)
        ensures
            r@ == self@.routes,
    {
        self.registry.all()
    }

    /// Every route but that of `exclude`.
    pub fn routes_except(&self, exclude: &String) -> (r: Vec<Route>)
        ensures
            r@ == routes_except(self@.routes, exclude@),
    {
        self.registry.all_except(exclude)
    }
}

} // verus!
