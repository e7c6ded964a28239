use vstd::prelude::*;
use crate::player::Player;
use crate::registry::Route;

verus! {

/// The kinds of envelope that the protocol knows.
#[derive(Clone, Copy, Debug, PartialEq, Eq, Structural)]
pub enum Kind {
    PlayerJoin,
    PlayerUpdate,
    PlayerLeave,
    PlayerList,
    LobbyInfo,
    GameStart,
    HostReady,
}

/// The kind that a wire tag names, if it names one.
pub open spec fn kind_of(tag: Seq<char>) -> Option<Kind> {
    if tag == "PLAYER_JOIN"@ {
        Some(Kind::PlayerJoin)
    } else if tag == "PLAYER_UPDATE"@ {
        Some(Kind::PlayerUpdate)
    } else if tag == "PLAYER_LEAVE"@ {
        Some(Kind::PlayerLeave)
    } else if tag == "PLAYER_LIST"@ {
        Some(Kind::PlayerList)
    } else if tag == "LOBBY_INFO"@ {
        Some(Kind::LobbyInfo)
    } else if tag == "GAME_START"@ {
        Some(Kind::GameStart)
    } else if tag == "HOST_READY"@ {
        Some(Kind::HostReady)
    } else {
        None
    }
}

/// The wire tag of a kind.
pub open spec fn tag_of(k: Kind) -> Seq<char> {
    match k {
        Kind::PlayerJoin => "PLAYER_JOIN"@,
        Kind::PlayerUpdate => "PLAYER_UPDATE"@,
        Kind::PlayerLeave => "PLAYER_LEAVE"@,
        Kind::PlayerList => "PLAYER_LIST"@,
        Kind::LobbyInfo => "LOBBY_INFO"@,
        Kind::GameStart => "GAME_START"@,
        Kind::HostReady => "HOST_READY"@,
    }
}

impl Kind {
    /// Reads a wire tag; `None` for a tag that names no kind.
    pub fn from_tag(tag: &String) -> (r: Option<Kind>)
        ensures
            r == kind_of(tag@),
    {
        if *tag == String::from_str("PLAYER_JOIN") {
            Some(Kind::PlayerJoin)
        } else if *tag == String::from_str("PLAYER_UPDATE") {
            Some(Kind::PlayerUpdate)
        } else if *tag == String::from_str("PLAYER_LEAVE") {
            Some(Kind::PlayerLeave)
        } else if *tag == String::from_str("PLAYER_LIST") {
            Some(Kind::PlayerList)
        } else if *tag == String::from_str("LOBBY_INFO") {
            Some(Kind::LobbyInfo)
        } else if *tag == String::from_str("GAME_START") {
            Some(Kind::GameStart)
        } else if *tag == String::from_str("HOST_READY") {
            Some(Kind::HostReady)
        } else {
            None
        }
    }

    /// The wire tag of this kind.
    pub fn tag(self) -> (r: &'static str)
        ensures
            r@ == tag_of(self),
    {
        match self {
            Kind::PlayerJoin => "PLAYER_JOIN",
            Kind::PlayerUpdate => "PLAYER_UPDATE",
            Kind::PlayerLeave => "PLAYER_LEAVE",
            Kind::PlayerList => "PLAYER_LIST",
            Kind::LobbyInfo => "LOBBY_INFO",
            Kind::GameStart => "GAME_START",
            Kind::HostReady => "HOST_READY",
        }
    }
}

/// The structured content of an envelope that the server itself composes.
#[derive(Clone, Debug)]
pub enum Payload {
    PlayerList { players: Vec<Player> },
    LobbyInfo { farm_name: String, status: String, player_count: u64 },
    GameStart { started_by: String, timestamp: u64 },
}

impl Payload {
    pub open spec fn spec_kind(&self) -> Kind {
        match self {
            Payload::PlayerList { .. } => Kind::PlayerList,
            Payload::LobbyInfo { .. } => Kind::LobbyInfo,
            Payload::GameStart { .. } => Kind::GameStart,
        }
    }

    pub fn kind(&self) -> (r: Kind)
        ensures
            r == self.spec_kind(),
    {
        match self {
            Payload::PlayerList { .. } => Kind::PlayerList,
            Payload::LobbyInfo { .. } => Kind::LobbyInfo,
            Payload::GameStart { .. } => Kind::GameStart,
        }
    }
}

/// An envelope composed by the server: a payload, the optional origin
/// identity, a millisecond timestamp and a message id.
#[derive(Clone, Debug)]
pub struct GameMessage {
    pub data: Payload,
    pub player_id: Option<String>,
    pub timestamp: u64,
    pub id: String,
}

/// The message id made from the text `uuid` of a UUID.
pub open spec fn message_id_of(uuid: Seq<char>) -> Seq<char> {
    "msg_"@ + uuid
}

/// A message id: `msg_` followed by some 36-character UUID text.
pub open spec fn is_message_id(s: Seq<char>) -> bool {
    exists|u: Seq<char>| u.len() == 36 && s == #[trigger] message_id_of(u)
}

/// Relies on `uuid::Uuid::new_v4` for a random UUID and on its `Display`,
/// which writes the 36-character hyphenated form.
#[verifier::external_body]
fn random_uuid_text() -> (r: String)
    ensures
        r@.len() == 36,
{
    uuid::Uuid::new_v4().to_string()
}

/// The message id made from the text `uuid` of a UUID: `msg_` followed by it.
pub fn message_id(uuid: &String) -> (r: String)
    ensures
        r@ == message_id_of(uuid@),
{
    let mut s = String::from_str("msg_");
    s.append(uuid.as_str());
    s
}

/// A fresh message id, made from a newly drawn random UUID.
pub fn fresh_message_id() -> (r: String)
    ensures
        is_message_id(r@),
{
    let u = random_uuid_text();
    let r = message_id(&u);
    assert(u@.len() == 36 && r@ == message_id_of(u@));
    r
}

impl GameMessage {
    /// An envelope of the server's own with time `now` and message id `id`.
    pub fn with_id(data: Payload, now: u64, id: String) -> (r: GameMessage)
        ensures
            r.data == data,
            r.player_id.is_none(),
            r.timestamp == now,
            r.id == id,
    {
        GameMessage { data, player_id: None, timestamp: now, id }
    }

    /// An envelope of the server's own, stamped with time `now` and a fresh id.
    pub fn stamped(data: Payload, now: u64) -> (r: GameMessage)
        ensures
            r.data == data,
            r.player_id.is_none(),
            r.timestamp == now,
            is_message_id(r.id@),
    {
        GameMessage::with_id(data, now, fresh_message_id())
    }

    pub fn kind(&self) -> (r: Kind)
        ensures
            r == self.data.spec_kind(),
    {
        self.data.kind()
    }
}

/// What goes out to connections: an envelope of the server's own, or the
/// text of an inbound envelope passed on verbatim.
#[derive(Clone, Debug)]
pub enum Outbound {
    Envelope(GameMessage),
    Forward(String),
}

/// What a message says, apart from its timestamps and message id.
pub enum Notice {
    PlayerList(Seq<Player>),
    LobbyInfo(Seq<char>, Seq<char>, u64),
    GameStart(Seq<char>),
    Forward(Seq<char>),
}

pub open spec fn notice_of(m: Outbound) -> Notice {
    match m {
        Outbound::Envelope(e) => match e.data {
            Payload::PlayerList { players } => Notice::PlayerList(players@),
            Payload::LobbyInfo { farm_name, status, player_count } => Notice::LobbyInfo(
                farm_name@,
                status@,
                player_count,
            ),
            Payload::GameStart { started_by, .. } => Notice::GameStart(started_by@),
        },
        Outbound::Forward(raw) => Notice::Forward(raw@),
    }
}

/// A server-composed envelope has no origin identity, a well-formed id, and
/// is stamped with time `now`, as is the start time a game start announces.
pub open spec fn well_stamped(m: Outbound, now: u64) -> bool {
    match m {
        Outbound::Envelope(e) => {
            &&& e.player_id.is_none()
            &&& is_message_id(e.id@)
            &&& e.timestamp == now
            &&& match e.data {
                Payload::GameStart { timestamp, .. } => timestamp == now,
                _ => true,
            }
        },
        Outbound::Forward(_) => true,
    }
}

/// One broadcast: a single message, encoded once, for every listed route.
#[derive(Clone, Debug)]
pub struct Delivery {
    pub recipients: Vec<Route>,
    pub message: Outbound,
}

/// The recipients and content of each delivery.
pub open spec fn delivered(ds: Seq<Delivery>) -> Seq<(Seq<Route>, Notice)> {
    ds.map_values(|d: Delivery| (d.recipients@, notice_of(d.message)))
}

} // verus!
