use game_server::connection::{Connection, Event, Frame, Phase, MAX_DECODE_FAILURES};
use game_server::envelope::{Delivery, Kind, Outbound, Payload};
use game_server::lobby::Lobby;
use game_server::player::{Coord, Player, Position};

const NOW: u64 = 1_700_000_000_123;

fn coord(v: f64) -> Coord {
    Coord::from_bits(v.to_bits())
}

fn player(id: &str, name: &str, x: f64, y: f64) -> Player {
    Player::new(id.to_string(), name.to_string(), coord(x), coord(y))
}

fn frame(kind: &str, player: Option<Player>, position: Option<Position>, raw: &str) -> Event {
    Event::Frame(Frame { kind: kind.to_string(), player, position, raw: raw.to_string() })
}

fn join_event(p: Player) -> Event {
    frame("PLAYER_JOIN", Some(p), None, "{}")
}

fn connected(lobby: &mut Lobby, conn: u64) -> Connection {
    let mut c = Connection::new(conn);
    assert!(c.handle(lobby, Event::Upgraded, NOW).is_empty());
    c
}

fn conns(d: &Delivery) -> Vec<u64> {
    d.recipients.iter().map(|r| r.conn).collect()
}

fn list_players(d: &Delivery) -> Vec<Player> {
    match &d.message {
        Outbound::Envelope(e) => match &e.data {
            Payload::PlayerList { players } => players.clone(),
            other => panic!("not a player list: {:?}", other),
        },
        other => panic!("not an envelope: {:?}", other),
    }
}

fn is_list(d: &Delivery) -> bool {
    matches!(&d.message, Outbound::Envelope(e) if e.kind() == Kind::PlayerList)
}

#[test]
fn join_announces_list_and_lobby_info() {
    let mut lobby = Lobby::new();
    let mut a = connected(&mut lobby, 1);
    let out = a.handle(&mut lobby, join_event(player("p1", "Alice", 400.0, 300.0)), NOW);
    assert_eq!(out.len(), 2);
    assert_eq!(conns(&out[0]), vec![1]);
    let listed = list_players(&out[0]);
    assert_eq!(listed.len(), 1);
    assert_eq!(listed[0].id, "p1");
    assert_eq!(listed[0].name, "Alice");
    assert_eq!(f64::from_bits(listed[0].x.to_bits()), 400.0);
    assert_eq!(f64::from_bits(listed[0].y.to_bits()), 300.0);
    assert_eq!(conns(&out[1]), vec![1]);
    match &out[1].message {
        Outbound::Envelope(e) => {
            assert_eq!(e.kind(), Kind::LobbyInfo);
            assert!(e.player_id.is_none());
            assert!(e.id.starts_with("msg_"));
            assert_eq!(e.timestamp, NOW);
            match &e.data {
                Payload::LobbyInfo { farm_name, status, player_count } => {
                    assert_eq!(farm_name, "Local Farm");
                    assert_eq!(status, "waiting");
                    assert_eq!(*player_count, 1);
                }
                other => panic!("unexpected payload {:?}", other),
            }
        }
        other => panic!("unexpected message {:?}", other),
    }
    assert!(matches!(&a.phase, Phase::Active { player_id } if player_id == "p1"));

    let mut b = connected(&mut lobby, 2);
    let out = b.handle(&mut lobby, join_event(player("p2", "Bob", 10.0, 20.0)), NOW);
    assert_eq!(out.len(), 2);
    assert_eq!(conns(&out[0]), vec![1, 2]);
    assert_eq!(list_players(&out[0]).len(), 2);
    // only the joiner gets lobby information
    assert_eq!(conns(&out[1]), vec![2]);
    match &out[1].message {
        Outbound::Envelope(e) => match &e.data {
            Payload::LobbyInfo { player_count, .. } => assert_eq!(*player_count, 2),
            other => panic!("unexpected payload {:?}", other),
        },
        other => panic!("unexpected message {:?}", other),
    }
}

#[test]
fn update_is_forwarded_verbatim_to_others() {
    let mut lobby = Lobby::new();
    let mut a = connected(&mut lobby, 1);
    a.handle(&mut lobby, join_event(player("p1", "Alice", 400.0, 300.0)), NOW);
    let mut b = connected(&mut lobby, 2);
    b.handle(&mut lobby, join_event(player("p2", "Bob", 0.0, 0.0)), NOW);

    let raw = r#"{"type":"PLAYER_UPDATE","data":{"x":410,"y":305},"player_id":"p1","timestamp":1700000000000,"id":"msg_abc"}"#;
    let pos = Position { x: coord(410.0), y: coord(305.0), facing: None };
    let out = a.handle(&mut lobby, frame("PLAYER_UPDATE", None, Some(pos), raw), NOW);
    assert_eq!(out.len(), 1);
    assert_eq!(conns(&out[0]), vec![2]);
    match &out[0].message {
        Outbound::Forward(text) => assert_eq!(text, raw),
        other => panic!("unexpected message {:?}", other),
    }
    let p1 = lobby.player(&"p1".to_string()).unwrap();
    assert_eq!(f64::from_bits(p1.x.to_bits()), 410.0);
    assert_eq!(f64::from_bits(p1.y.to_bits()), 305.0);
    // the next snapshot shows the new coordinates
    let snapshot = lobby.players();
    let listed = snapshot.iter().find(|p| p.id == "p1").unwrap();
    assert_eq!(f64::from_bits(listed.x.to_bits()), 410.0);
}

#[test]
fn transport_close_cleans_up() {
    let mut lobby = Lobby::new();
    let mut a = connected(&mut lobby, 1);
    a.handle(&mut lobby, join_event(player("p1", "Alice", 400.0, 300.0)), NOW);
    let mut b = connected(&mut lobby, 2);
    b.handle(&mut lobby, join_event(player("p2", "Bob", 0.0, 0.0)), NOW);

    let out = a.handle(&mut lobby, Event::TransportClosed, NOW);
    assert!(a.closed());
    assert!(lobby.player(&"p1".to_string()).is_none());
    assert!(lobby.conn_for(&"p1".to_string()).is_none());
    assert_eq!(out.len(), 1);
    assert_eq!(conns(&out[0]), vec![2]);
    let listed = list_players(&out[0]);
    assert_eq!(listed.len(), 1);
    assert_eq!(listed[0].id, "p2");
}

#[test]
fn update_before_join_sends_nothing() {
    let mut lobby = Lobby::new();
    let mut other = connected(&mut lobby, 7);
    other.handle(&mut lobby, join_event(player("p7", "Gus", 1.0, 2.0)), NOW);
    let mut a = connected(&mut lobby, 1);
    let pos = Position { x: coord(5.0), y: coord(6.0), facing: None };
    let out = a.handle(&mut lobby, frame("PLAYER_UPDATE", None, Some(pos), "{}"), NOW);
    assert!(out.is_empty());
    assert_eq!(lobby.player_count(), 1);
    let p7 = lobby.player(&"p7".to_string()).unwrap();
    assert_eq!(f64::from_bits(p7.x.to_bits()), 1.0);
    assert!(matches!(a.phase, Phase::AwaitingIdentity));
}

#[test]
fn update_for_player_gone_from_store_changes_nothing() {
    let mut lobby = Lobby::new();
    let mut a = connected(&mut lobby, 1);
    a.handle(&mut lobby, join_event(player("p1", "Alice", 0.0, 0.0)), NOW);
    let mut b = connected(&mut lobby, 2);
    b.handle(&mut lobby, join_event(player("p2", "Bob", 0.0, 0.0)), NOW);
    // a second connection takes over "p1" and then leaves, taking "p1" with it
    let mut c = connected(&mut lobby, 3);
    c.handle(&mut lobby, join_event(player("p1", "Alice", 0.0, 0.0)), NOW);
    c.handle(&mut lobby, frame("PLAYER_LEAVE", None, None, "{}"), NOW);
    assert!(lobby.player(&"p1".to_string()).is_none());
    let pos = Position { x: coord(9.0), y: coord(9.0), facing: None };
    let out = a.handle(&mut lobby, frame("PLAYER_UPDATE", None, Some(pos), "raw"), NOW);
    assert_eq!(lobby.player_count(), 1);
    assert!(lobby.player(&"p1".to_string()).is_none());
    assert_eq!(out.len(), 1);
    assert_eq!(conns(&out[0]), vec![2]);
}

#[test]
fn every_join_and_leave_sends_one_list_to_all() {
    let mut lobby = Lobby::new();
    let mut cs: Vec<Connection> = Vec::new();
    for i in 0..4u64 {
        let mut c = connected(&mut lobby, i);
        let out = c.handle(&mut lobby, join_event(player(&format!("p{}", i), "N", 0.0, 0.0)), NOW);
        let lists: Vec<&Delivery> = out.iter().filter(|d| is_list(d)).collect();
        assert_eq!(lists.len(), 1);
        assert_eq!(conns(lists[0]), (0..=i).collect::<Vec<u64>>());
        assert_eq!(list_players(lists[0]).len(), lobby.player_count());
        cs.push(c);
    }
    let out = cs[1].handle(&mut lobby, frame("PLAYER_LEAVE", None, None, "{}"), NOW);
    assert_eq!(out.len(), 1);
    assert!(is_list(&out[0]));
    assert_eq!(conns(&out[0]), vec![0, 2, 3]);
    assert_eq!(list_players(&out[0]).len(), 3);
    assert_eq!(lobby.player_count(), 3);
}

#[test]
fn leave_twice_is_harmless() {
    let mut lobby = Lobby::new();
    let mut a = connected(&mut lobby, 1);
    a.handle(&mut lobby, join_event(player("p1", "Alice", 0.0, 0.0)), NOW);
    let out = a.handle(&mut lobby, frame("PLAYER_LEAVE", None, None, "{}"), NOW);
    assert_eq!(out.len(), 1);
    assert!(a.closed());
    assert_eq!(lobby.player_count(), 0);
    assert!(lobby.conn_for(&"p1".to_string()).is_none());
    assert!(a.handle(&mut lobby, frame("PLAYER_LEAVE", None, None, "{}"), NOW).is_empty());
    assert!(a.handle(&mut lobby, Event::TransportClosed, NOW).is_empty());
    assert_eq!(lobby.player_count(), 0);
    assert!(!lobby.leave(&"p1".to_string()));
}

#[test]
fn leave_before_join_closes_quietly() {
    let mut lobby = Lobby::new();
    let mut a = connected(&mut lobby, 1);
    let out = a.handle(&mut lobby, frame("PLAYER_LEAVE", None, None, "{}"), NOW);
    assert!(out.is_empty());
    assert!(a.closed());
}

#[test]
fn malformed_join_keeps_waiting() {
    let mut lobby = Lobby::new();
    let mut a = connected(&mut lobby, 1);
    let out = a.handle(&mut lobby, frame("PLAYER_JOIN", None, None, "{}"), NOW);
    assert!(out.is_empty());
    assert!(matches!(a.phase, Phase::AwaitingIdentity));
    let out = a.handle(&mut lobby, join_event(player("p1", "Alice", 0.0, 0.0)), NOW);
    assert_eq!(out.len(), 2);
}

#[test]
fn bound_identity_is_never_reassigned() {
    let mut lobby = Lobby::new();
    let mut a = connected(&mut lobby, 1);
    a.handle(&mut lobby, join_event(player("p1", "Alice", 0.0, 0.0)), NOW);
    let out = a.handle(&mut lobby, join_event(player("p9", "Mallory", 0.0, 0.0)), NOW);
    assert!(out.is_empty());
    assert_eq!(lobby.player_count(), 1);
    assert!(matches!(&a.phase, Phase::Active { player_id } if player_id == "p1"));
    // re-joining as itself refreshes the record
    let out = a.handle(&mut lobby, join_event(player("p1", "Alicia", 3.0, 4.0)), NOW);
    assert_eq!(out.len(), 2);
    assert_eq!(lobby.player(&"p1".to_string()).unwrap().name, "Alicia");
}

#[test]
fn game_start_goes_to_everyone() {
    let mut lobby = Lobby::new();
    let mut a = connected(&mut lobby, 1);
    a.handle(&mut lobby, join_event(player("p1", "Alice", 0.0, 0.0)), NOW);
    let mut b = connected(&mut lobby, 2);
    b.handle(&mut lobby, join_event(player("p2", "Bob", 0.0, 0.0)), NOW);
    let out = a.handle(&mut lobby, frame("GAME_START", None, None, "{}"), NOW);
    assert_eq!(out.len(), 1);
    assert_eq!(conns(&out[0]), vec![1, 2]);
    match &out[0].message {
        Outbound::Envelope(e) => match &e.data {
            Payload::GameStart { started_by, timestamp } => {
                assert_eq!(started_by, "host");
                assert_eq!(*timestamp, NOW);
                assert_eq!(e.timestamp, NOW);
            }
            other => panic!("unexpected payload {:?}", other),
        },
        other => panic!("unexpected message {:?}", other),
    }
}

#[test]
fn host_ready_goes_to_the_others() {
    let mut lobby = Lobby::new();
    let mut a = connected(&mut lobby, 1);
    a.handle(&mut lobby, join_event(player("p1", "Alice", 0.0, 0.0)), NOW);
    let mut b = connected(&mut lobby, 2);
    b.handle(&mut lobby, join_event(player("p2", "Bob", 0.0, 0.0)), NOW);
    let out = a.handle(&mut lobby, frame("HOST_READY", None, None, "ready"), NOW);
    assert_eq!(out.len(), 1);
    assert_eq!(conns(&out[0]), vec![2]);
    assert!(matches!(&out[0].message, Outbound::Forward(t) if t == "ready"));
}

#[test]
fn unknown_kind_is_ignored() {
    let mut lobby = Lobby::new();
    let mut a = connected(&mut lobby, 1);
    a.handle(&mut lobby, join_event(player("p1", "Alice", 0.0, 0.0)), NOW);
    let out = a.handle(&mut lobby, frame("DANCE", None, None, "{}"), NOW);
    assert!(out.is_empty());
    assert_eq!(lobby.player_count(), 1);
    assert!(!a.closed());
}

#[test]
fn three_undecodable_frames_in_a_row_close() {
    let mut lobby = Lobby::new();
    let mut a = connected(&mut lobby, 1);
    a.handle(&mut lobby, join_event(player("p1", "Alice", 0.0, 0.0)), NOW);
    assert!(a.handle(&mut lobby, Event::Undecodable, NOW).is_empty());
    assert!(a.handle(&mut lobby, Event::Undecodable, NOW).is_empty());
    assert_eq!(a.decode_failures, 2);
    // a good envelope resets the count
    a.handle(&mut lobby, frame("DANCE", None, None, "{}"), NOW);
    assert_eq!(a.decode_failures, 0);
    for _ in 1..MAX_DECODE_FAILURES {
        assert!(a.handle(&mut lobby, Event::Undecodable, NOW).is_empty());
    }
    let out = a.handle(&mut lobby, Event::Undecodable, NOW);
    assert!(a.closed());
    assert_eq!(out.len(), 1);
    assert!(list_players(&out[0]).is_empty());
    assert_eq!(lobby.player_count(), 0);
}

#[test]
fn upgrade_failure_closes_without_effects() {
    let mut lobby = Lobby::new();
    let mut a = Connection::new(1);
    let out = a.handle(&mut lobby, Event::UpgradeFailed, NOW);
    assert!(out.is_empty());
    assert!(a.closed());
    assert_eq!(lobby.player_count(), 0);
}

#[test]
fn kinds_round_trip_through_tags() {
    let kinds = [
        Kind::PlayerJoin,
        Kind::PlayerUpdate,
        Kind::PlayerLeave,
        Kind::PlayerList,
        Kind::LobbyInfo,
        Kind::GameStart,
        Kind::HostReady,
    ];
    for k in kinds {
        assert_eq!(Kind::from_tag(&k.tag().to_string()), Some(k));
    }
    assert_eq!(Kind::GameStart.tag(), "GAME_START");
    assert_eq!(Kind::from_tag(&"player_join".to_string()), None);
}
