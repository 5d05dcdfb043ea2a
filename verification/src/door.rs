//! The door games the hub knows about, how a visit ends, and how a hosted
//! process stands.
use vstd::prelude::*;

verus! {

/// A door game the hub can launch.
#[derive(Clone, Copy, Debug, PartialEq, Eq, Hash, Structural)]
pub enum DoorGameId {
    Lateania,
    GreenDragon,
    Darkroom,
}

/// The stable name a game is stored and scored under.
pub open spec fn door_key(id: DoorGameId) -> Seq<char> {
    match id {
        DoorGameId::Lateania => "lateania"@,
        DoorGameId::GreenDragon => "greendragon"@,
        DoorGameId::Darkroom => "darkroom"@,
    }
}

impl DoorGameId {
    /// The stable name a game is stored and scored under.
    pub fn key(self) -> (r: &'static str)
        ensures
            r@ == door_key(self),
    {
        match self {
            DoorGameId::Lateania => "lateania",
            DoorGameId::GreenDragon => "greendragon",
            DoorGameId::Darkroom => "darkroom",
        }
    }
}

/// How a visit to a door ended.
#[derive(Clone, Copy, Debug, PartialEq, Eq, Structural)]
pub enum DoorGameOutcome {
    Won,
    Lost,
    Completed,
    Abandoned,
}

/// How a hosted game process stands.
#[derive(Clone, Copy, Debug, PartialEq, Eq, Structural)]
pub enum ProxyStatus {
    Starting,
    Running,
    Closed,
}

} // verus!
