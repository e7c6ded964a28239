use vstd::prelude::*;

verus! {

/// A coordinate as the bit pattern of an IEEE-754 double.
///
/// The library stores and replaces coordinates but never computes on them,
/// so it keeps the exact bits that a client sent.
#[derive(Clone, Copy, Debug, PartialEq, Eq, Structural)]
pub struct Coord {
    pub bits: u64,
}

impl Coord {
    pub fn from_bits(bits: u64) -> (r: Coord)
        ensures
            r.bits == bits,
    {
        Coord { bits }
    }

    pub fn to_bits(self) -> (r: u64)
        ensures
            r == self.bits,
    {
        self.bits
    }
}

/// One participant of the session.
#[derive(Clone, Debug)]
pub struct Player {
    /// Client-assigned identity, the key of the session store and the registry.
    pub id: String,
    pub name: String,
    pub x: Coord,
    pub y: Coord,
    /// Facing / orientation tag; empty when the client never sent one.
    pub facing: String,
    pub connected: bool,
    pub role: Option<String>,
}

/// A field-for-field copy of an optional string.
pub fn copy_opt_string(s: &Option<String>) -> (r: Option<String>)
    ensures
        r == *s,
{
    match s {
        Some(v) => Some(v.clone()),
        None => None,
    }
}

impl Player {
    pub fn new(id: String, name: String, x: Coord, y: Coord) -> (r: Player)
        ensures
            r.id == id,
            r.name == name,
            r.x == x,
            r.y == y,
            r.facing@ == Seq::<char>::empty(),
            r.connected,
            r.role.is_none(),
    {
        Player { id, name, x, y, facing: String::new(), connected: true, role: None }
    }

    /// A copy equal to `self` in every field.
    pub fn duplicate(&self) -> (r: Player)
        ensures
            r == *self,
    {
        Player {
            id: self.id.clone(),
            name: self.name.clone(),
            x: self.x,
            y: self.y,
            facing: self.facing.clone(),
            connected: self.connected,
            role: copy_opt_string(&self.role),
        }
    }
}

/// What a position update carries: new coordinates and, optionally, a new facing.
#[derive(Clone, Debug)]
pub struct Position {
    pub x: Coord,
    pub y: Coord,
    pub facing: Option<String>,
}

/// The player after a position update has been applied to it.
pub open spec fn moved(p: Player, pos: Position) -> Player {
    Player {
        x: pos.x,
        y: pos.y,
        facing: match pos.facing {
            Some(f) => f,
            None => p.facing,
        },
        ..p
    }
}

} // verus!
