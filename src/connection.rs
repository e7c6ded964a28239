use vstd::prelude::*;
use crate::envelope::{
    Delivery, GameMessage, Kind, Notice, Outbound, Payload, delivered, kind_of, notice_of,
    well_stamped,
};
use crate::lobby::{Lobby, LobbyView, departed, joined, relocated};
use crate::player::{Player, Position};
use crate::registry::{Route, routes_except};

verus! {

/// Consecutive undecodable frames after which a connection is dropped.
pub const MAX_DECODE_FAILURES: u64 = 3;

/// Lobby name announced to a joining player.
pub const LOBBY_NAME: &'static str = "Local Farm";

/// Lobby status announced to a joining player.
pub const LOBBY_STATUS: &'static str = "waiting";

/// Who a game start is announced as coming from.
pub const STARTED_BY: &'static str = "host";

/// Where a connection stands in its life.
#[derive(Clone, Debug)]
pub enum Phase {
    /// Transport accepted, protocol upgrade pending.
    Connecting,
    /// Upgraded; no player identity bound yet.
    AwaitingIdentity,
    /// Bound to a player identity, which is never reassigned.
    Active { player_id: String },
    /// Cleaned up; nothing happens any more.
    Closed,
}

/// An inbound envelope, decoded by the transport layer into plain values.
/// `player` is the payload read as a player record and `position` the payload
/// read as coordinates, each `None` where the payload does not have that shape.
#[derive(Clone, Debug)]
pub struct Frame {
    pub kind: String,
    pub player: Option<Player>,
    pub position: Option<Position>,
    /// The envelope's text exactly as it arrived.
    pub raw: String,
}

/// What the transport reports about a connection.
#[derive(Clone, Debug)]
pub enum Event {
    Upgraded,
    UpgradeFailed,
    Frame(Frame),
    /// A text frame that is no envelope at all.
    Undecodable,
    /// The transport closed or failed to read.
    TransportClosed,
}

/// One connection's state machine.
#[derive(Clone, Debug)]
pub struct Connection {
    /// The number by which the transport reaches this connection's outbound queue.
    pub conn: u64,
    pub phase: Phase,
    /// Undecodable frames since the last envelope that decoded.
    pub decode_failures: u64,
}

/// The outcome of one event: the new session, the connection's new phase and
/// failure count, and what is sent to whom.
pub struct Step {
    pub lobby: LobbyView,
    pub phase: Phase,
    pub decode_failures: u64,
    pub out: Seq<(Seq<Route>, Notice)>,
}

/// The identity a phase is bound to.
pub open spec fn bound_id(p: Phase) -> Option<Seq<char>> {
    match p {
        Phase::Active { player_id } => Some(player_id@),
        _ => None,
    }
}

/// The player list, announced to every registered connection.
pub open spec fn list_for_all(l: LobbyView) -> (Seq<Route>, Notice) {
    (l.routes, Notice::PlayerList(l.players))
}

/// The lobby information sent to a player who joined.
pub open spec fn lobby_info(count: nat) -> Notice {
    Notice::LobbyInfo(LOBBY_NAME@, LOBBY_STATUS@, count as u64)
}

pub open spec fn idle(l: LobbyView, c: Connection, failures: u64) -> Step {
    Step { lobby: l, phase: c.phase, decode_failures: failures, out: Seq::empty() }
}

/// Cleanup: a bound identity leaves the session and the others get the new list.
pub open spec fn closing(l: LobbyView, c: Connection, failures: u64) -> Step {
    match c.phase {
        Phase::Active { player_id } => {
            let l2 = departed(l, player_id@);
            Step { lobby: l2, phase: Phase::Closed, decode_failures: failures, out: seq![list_for_all(l2)] }
        },
        _ => Step { lobby: l, phase: Phase::Closed, decode_failures: failures, out: Seq::empty() },
    }
}

/// Whether a connection in phase `p` may join as `p_id`: once bound, only as itself.
pub open spec fn may_join(p: Phase, p_id: Seq<char>) -> bool {
    match p {
        Phase::Active { player_id } => player_id@ == p_id,
        _ => true,
    }
}

/// The reaction to a decoded envelope, for a connection that is upgraded and not closed.
pub open spec fn on_frame(l: LobbyView, c: Connection, f: Frame) -> Step {
    match kind_of(f.kind@) {
        Some(Kind::PlayerJoin) => match f.player {
            Some(p) => if may_join(c.phase, p.id@) {
                let l2 = joined(l, p, c.conn);
                Step {
                    lobby: l2,
                    phase: Phase::Active { player_id: p.id },
                    decode_failures: 0,
                    out: seq![
                        list_for_all(l2),
                        (seq![Route { player_id: p.id, conn: c.conn }], lobby_info(l2.players.len())),
                    ],
                }
            } else {
                idle(l, c, 0)
            },
            None => idle(l, c, 0),
        },
        Some(Kind::PlayerUpdate) => match c.phase {
            Phase::Active { player_id } => {
                let l2 = match f.position {
                    Some(pos) => relocated(l, player_id@, pos),
                    None => l,
                };
                Step {
                    lobby: l2,
                    phase: c.phase,
                    decode_failures: 0,
                    out: seq![(routes_except(l2.routes, player_id@), Notice::Forward(f.raw@))],
                }
            },
            _ => idle(l, c, 0),
        },
        Some(Kind::GameStart) => Step {
            lobby: l,
            phase: c.phase,
            decode_failures: 0,
            out: seq![(l.routes, Notice::GameStart(STARTED_BY@))],
        },
        Some(Kind::HostReady) => Step {
            lobby: l,
            phase: c.phase,
            decode_failures: 0,
            out: seq![
                (
                    match bound_id(c.phase) {
                        Some(id) => routes_except(l.routes, id),
                        None => l.routes,
                    },
                    Notice::Forward(f.raw@),
                ),
            ],
        },
        Some(Kind::PlayerLeave) => closing(l, c, 0),
        _ => idle(l, c, 0),
    }
}

/// The whole transition of a connection on one event.
pub open spec fn transition(l: LobbyView, c: Connection, e: Event) -> Step {
    match c.phase {
        Phase::Closed => idle(l, c, c.decode_failures),
        Phase::Connecting => match e {
            Event::Upgraded => Step {
                lobby: l,
                phase: Phase::AwaitingIdentity,
                decode_failures: c.decode_failures,
                out: Seq::empty(),
            },
            Event::UpgradeFailed | Event::TransportClosed => closing(l, c, c.decode_failures),
            _ => idle(l, c, c.decode_failures),
        },
        _ => match e {
            Event::TransportClosed => closing(l, c, c.decode_failures),
            Event::Undecodable => if c.decode_failures >= MAX_DECODE_FAILURES - 1 {
                closing(l, c, c.decode_failures)
            } else {
                idle(l, c, (c.decode_failures + 1) as u64)
            },
            Event::Frame(f) => on_frame(l, c, f),
            _ => idle(l, c, c.decode_failures),
        },
    }
}

/// A copy of a phase.
fn copy_phase(p: &Phase) -> (r: Phase)
    ensures
        r == *p,
{
    match p {
        Phase::Connecting => Phase::Connecting,
        Phase::AwaitingIdentity => Phase::AwaitingIdentity,
        Phase::Active { player_id } => Phase::Active { player_id: player_id.clone() },
        Phase::Closed => Phase::Closed,
    }
}

/// The player list, for every registered connection.
fn list_delivery(lobby: &Lobby, now: u64) -> (r: Delivery)
    ensures
        (r.recipients@, notice_of(r.message)) == list_for_all(lobby@),
        well_stamped(r.message, now),
{
    let env = GameMessage::stamped(Payload::PlayerList { players: lobby.players() }, now);
    Delivery { recipients: lobby.routes(), message: Outbound::Envelope(env) }
}

impl Connection {
    /// A connection just accepted, reached through `conn`.
    pub fn new(conn: u64) -> (r: Connection)
        ensures
            r.conn == conn,
            r.phase == Phase::Connecting,
            r.decode_failures == 0,
    {
        Connection { conn, phase: Phase::Connecting, decode_failures: 0 }
    }

    pub open spec fn is_closed(&self) -> bool {
        self.phase is Closed
    }

    pub fn closed(&self) -> (r: bool)
        ensures
            r == self.is_closed(),
    {
        match self.phase {
            Phase::Closed => true,
            _ => false,
        }
    }

    /// Cleanup: leave the session if bound, announce the new list, and close.
    fn close(&mut self, lobby: &mut Lobby, now: u64) -> (r: Vec<Delivery>)
        requires
            old(lobby).wf(),
        ensures
            final(lobby).wf(),
            final(self).conn == old(self).conn,
            final(self).decode_failures == old(self).decode_failures,
            ({
                let s = closing(old(lobby)@, *old(self), old(self).decode_failures);
                &&& final(lobby)@ == s.lobby
                &&& final(self).phase == s.phase
                &&& delivered(r@) == s.out
            }),
            forall|i: int| 0 <= i < r@.len() ==> well_stamped(#[trigger] r@[i].message, now),
    {
        let mut out: Vec<Delivery> = Vec::new();
        match &self.phase {
            Phase::Active { player_id } => {
                lobby.leave(player_id);
                let d = list_delivery(lobby, now);
                out.push(d);
                assert(delivered(out@) =~= seq![list_for_all(lobby@)]);
            },
            _ => {
                assert(delivered(out@) =~= Seq::empty());
            },
        }
        self.phase = Phase::Closed;
        out
    }

    /// Handles a decoded envelope, in a phase that is upgraded and not closed.
    fn on_frame(&mut self, lobby: &mut Lobby, f: Frame, now: u64) -> (r: Vec<Delivery>)
        requires
            old(lobby).wf(),
            !(old(self).phase is Closed),
            !(old(self).phase is Connecting),
        ensures
            final(lobby).wf(),
            final(self).conn == old(self).conn,
            ({
                let s = on_frame(old(lobby)@, *old(self), f);
                &&& final(lobby)@ == s.lobby
                &&& final(self).phase == s.phase
                &&& final(self).decode_failures == s.decode_failures
                &&& delivered(r@) == s.out
            }),
            forall|i: int| 0 <= i < r@.len() ==> well_stamped(#[trigger] r@[i].message, now),
    {
        self.decode_failures = 0;
        let mut out: Vec<Delivery> = Vec::new();
        let kind = Kind::from_tag(&f.kind);
        match kind {
            Some(Kind::PlayerJoin) => {
                match f.player {
                    Some(p) => {
                        let allowed = match &self.phase {
                            Phase::Active { player_id } => *player_id == p.id,
                            _ => true,
                        };
                        if allowed {
                            let id = p.id.clone();
                            let id2 = p.id.clone();
                            lobby.join(p, self.conn);
                            out.push(list_delivery(lobby, now));
                            let count = lobby.player_count() as u64;
                            let info = GameMessage::stamped(
                                Payload::LobbyInfo {
                                    farm_name: String::from_str(LOBBY_NAME),
                                    status: String::from_str(LOBBY_STATUS),
                                    player_count: count,
                                },
                                now,
                            );
                            let mut to_joiner: Vec<Route> = Vec::new();
                            to_joiner.push(Route { player_id: id, conn: self.conn });
                            out.push(Delivery { recipients: to_joiner, message: Outbound::Envelope(info) });
                            self.phase = Phase::Active { player_id: id2 };
                            assert(to_joiner@ =~= seq![Route { player_id: p.id, conn: self.conn }]);
                            assert(delivered(out@) =~= on_frame(old(lobby)@, *old(self), f).out);
                        } else {
                            assert(delivered(out@) =~= Seq::empty());
                        }
                    },
                    None => {
                        assert(delivered(out@) =~= Seq::empty());
                    },
                }
            },
            Some(Kind::PlayerUpdate) => {
                match &self.phase {
                    Phase::Active { player_id } => {
                        match f.position {
                            Some(pos) => {
                                lobby.update_position(player_id, pos);
                            },
                            None => {},
                        }
                        let to = lobby.routes_except(player_id);
                        out.push(Delivery { recipients: to, message: Outbound::Forward(f.raw) });
                        assert(delivered(out@) =~= on_frame(old(lobby)@, *old(self), f).out);
                    },
                    _ => {
                        assert(delivered(out@) =~= Seq::empty());
                    },
                }
            },
            Some(Kind::GameStart) => {
                let env = GameMessage::stamped(
                    Payload::GameStart { started_by: String::from_str(STARTED_BY), timestamp: now },
                    now,
                );
                out.push(Delivery { recipients: lobby.routes(), message: Outbound::Envelope(env) });
                assert(delivered(out@) =~= on_frame(old(lobby)@, *old(self), f).out);
            },
            Some(Kind::HostReady) => {
                let to = match &self.phase {
                    Phase::Active { player_id } => lobby.routes_except(player_id),
                    _ => lobby.routes(),
                };
                out.push(Delivery { recipients: to, message: Outbound::Forward(f.raw) });
                assert(delivered(out@) =~= on_frame(old(lobby)@, *old(self), f).out);
            },
            Some(Kind::PlayerLeave) => {
                out = self.close(lobby, now);
            },
            _ => {
                assert(delivered(out@) =~= Seq::empty());
            },
        }
        out
    }

    /// Advances this connection by one transport event, mutating the shared
    /// session under the caller's exclusive access, and returns the broadcasts
    /// to perform once that access is released. Envelopes composed here are
    /// stamped with `now`, in milliseconds since the epoch.
    pub fn handle(&mut self, lobby: &mut Lobby, event: Event, now: u64) -> (r: Vec<Delivery>)
        requires
            old(lobby).wf(),
        ensures
            final(lobby).wf(),
            final(self).conn == old(self).conn,
            ({
                let s = transition(old(lobby)@, *old(self), event);
                &&& final(lobby)@ == s.lobby
                &&& final(self).phase == s.phase
                &&& final(self).decode_failures == s.decode_failures
                &&& delivered(r@) == s.out
            }),
            forall|i: int| 0 <= i < r@.len() ==> well_stamped(#[trigger] r@[i].message, now),
    {
        let none: Vec<Delivery> = Vec::new();
        proof {
            assert(delivered(none@) =~= Seq::empty());
        }
        match self.phase {
            Phase::Closed => none,
            Phase::Connecting => match event {
                Event::Upgraded => {
                    self.phase = Phase::AwaitingIdentity;
                    none
                },
                Event::UpgradeFailed | Event::TransportClosed => self.close(lobby, now),
                _ => none,
            },
            _ => match event {
                Event::TransportClosed => self.close(lobby, now),
                Event::Undecodable => {
                    if self.decode_failures >= MAX_DECODE_FAILURES - 1 {
                        self.close(lobby, now)
                    } else {
                        self.decode_failures = self.decode_failures + 1;
                        none
                    }
                },
                Event::Frame(f) => self.on_frame(lobby, f, now),
                _ => none,
            },
        }
    }
}

/// Whether `n` is a player list.
pub open spec fn is_player_list(n: Notice) -> bool {
    n is PlayerList
}

/// Whether event `e` makes connection `c` join or leave the session.
pub open spec fn changes_membership(c: Connection, e: Event) -> bool {
    match c.phase {
        Phase::AwaitingIdentity | Phase::Active { .. } => match e {
            Event::Frame(f) => match kind_of(f.kind@) {
                Some(Kind::PlayerJoin) => match f.player {
                    Some(p) => may_join(c.phase, p.id@),
                    None => false,
                },
                Some(Kind::PlayerLeave) => c.phase is Active,
                _ => false,
            },
            Event::TransportClosed => c.phase is Active,
            Event::Undecodable => c.phase is Active && c.decode_failures >= MAX_DECODE_FAILURES - 1,
            _ => false,
        },
        _ => false,
    }
}

/// After any join or leave, exactly one player list goes out; it goes to every
/// connection registered at that instant and lists exactly the players then in
/// the store.
pub proof fn lemma_one_list_per_membership_change(l: LobbyView, c: Connection, e: Event)
    requires
        changes_membership(c, e),
    ensures
        ({
            let s = transition(l, c, e);
            exists|i: int|
                0 <= i < s.out.len() && s.out[i] == list_for_all(s.lobby) && forall|j: int|
                    0 <= j < s.out.len() && j != i ==> !is_player_list(#[trigger] s.out[j].1)
        }),
{
    let s = transition(l, c, e);
    assert(s.out[0] == list_for_all(s.lobby));
    assert(forall|j: int| 0 <= j < s.out.len() && j != 0 ==> !is_player_list(#[trigger] s.out[j].1));
}

/// A position update for an identity that is not in the store leaves the
/// session as it was; it is passed on to the others only when the connection
/// is bound, so an update before a join sends nothing at all.
pub proof fn lemma_update_unknown_is_noop(l: LobbyView, c: Connection, f: Frame)
    requires
        kind_of(f.kind@) == Some(Kind::PlayerUpdate),
        match bound_id(c.phase) {
            Some(id) => !crate::store::has_player(l.players, id),
            None => true,
        },
    ensures
        transition(l, c, Event::Frame(f)).lobby == l,
        transition(l, c, Event::Frame(f)).phase == c.phase,
        match bound_id(c.phase) {
            Some(id) => transition(l, c, Event::Frame(f)).out == seq![
                (routes_except(l.routes, id), Notice::Forward(f.raw@)),
            ],
            None => transition(l, c, Event::Frame(f)).out.len() == 0,
        },
{
    match f.position {
        Some(pos) => {
            if let Some(id) = bound_id(c.phase) {
                assert(crate::store::with_position(l.players, id, pos) == l.players);
            }
        },
        None => {},
    }
}

/// A leave takes the bound identity out of both the store and the registry,
/// and closes the connection; whatever comes after it (a second leave, the
/// transport closing) changes nothing and sends nothing.
pub proof fn lemma_leave_then_anything(l: LobbyView, c: Connection, f: Frame, next: Event)
    requires
        crate::store::unique_players(l.players),
        crate::registry::unique_routes(l.routes),
        c.phase is Active,
        kind_of(f.kind@) == Some(Kind::PlayerLeave),
    ensures
        ({
            let s1 = transition(l, c, Event::Frame(f));
            let c1 = Connection { conn: c.conn, phase: s1.phase, decode_failures: s1.decode_failures };
            let s2 = transition(s1.lobby, c1, next);
            &&& !crate::store::has_player(s1.lobby.players, bound_id(c.phase)->0)
            &&& !crate::registry::has_route(s1.lobby.routes, bound_id(c.phase)->0)
            &&& s1.phase is Closed
            &&& s2.lobby == s1.lobby
            &&& s2.phase is Closed
            &&& s2.out.len() == 0
        }),
{
    crate::lobby::lemma_leave_idempotent(l, bound_id(c.phase)->0);
}

/// A position update from a bound player who is in the store moves that
/// player, and the next player list, to whomever it goes, shows the new
/// position; the update itself goes to every other registered connection.
pub proof fn lemma_update_shows_in_next_list(l: LobbyView, c: Connection, f: Frame, pos: Position, next: Event)
    requires
        crate::store::unique_players(l.players),
        c.phase is Active,
        crate::store::has_player(l.players, bound_id(c.phase)->0),
        kind_of(f.kind@) == Some(Kind::PlayerUpdate),
        f.position == Some(pos),
    ensures
        ({
            let id = bound_id(c.phase)->0;
            let s = transition(l, c, Event::Frame(f));
            let before = crate::store::player_of(l.players, id)->0;
            &&& crate::store::player_of(s.lobby.players, id) == Some(crate::player::moved(before, pos))
            &&& s.out == seq![(routes_except(l.routes, id), Notice::Forward(f.raw@))]
            &&& list_for_all(s.lobby).1 == Notice::PlayerList(s.lobby.players)
        }),
{
    let id = bound_id(c.phase)->0;
    let t = crate::store::with_position(l.players, id, pos);
    let k = crate::store::player_index(l.players, id);
    assert(crate::store::unique_players(t)) by {
        assert forall|a: int, b: int|
            0 <= a < t.len() && 0 <= b < t.len() && (#[trigger] t[a]).id@ == (#[trigger] t[b]).id@
                implies a == b by {
            assert(t[a].id@ == l.players[a].id@ && t[b].id@ == l.players[b].id@);
        }
    }
    crate::store::lemma_index_unique(t, id, k);
}

} // verus!
