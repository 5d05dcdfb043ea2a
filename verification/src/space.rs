//! The ascent's sky: what the ship costs, how a flight ends, and what each
//! band of altitude is called.
use vstd::prelude::*;

verus! {

/// Alien alloy a plate of hull costs.
pub const ALLOY_PER_HULL: i64 = 1;

/// Alien alloy an engine upgrade costs.
pub const ALLOY_PER_THRUSTER: i64 = 1;

/// The line the ship prints when it first stands ready.
pub const MSG_SEEN_SHIP: &'static str =
    "somewhere above the debris cloud, the wanderer fleet hovers. been on this rock too long.";

/// The warning before the one-way trip.
pub const MSG_READY_TO_LEAVE: &'static str = "time to get out of this place. won't be coming back.";

/// Seconds the engines cool after a crash before the next lift off.
pub const LIFTOFF_COOLDOWN: u32 = 120;

/// The last lines of a run that got away.
pub const ENDING: [&'static str; 3] = [
    "the ship rises through the debris cloud, and the dust of this world falls away.",
    "the fire in the room burns down to nothing. nobody is left to stoke it.",
    "the wanderer is gone.",
];

/// What a crash costs: nothing but the wait.
pub const MSG_CRASH: &'static str = "the ship is torn apart. the wanderer wakes in the dust, again.";

/// How the flight ended.
#[derive(Clone, Copy, Debug, PartialEq, Eq, Structural)]
pub enum Flight {
    Crashed,
    Won,
}

/// What the sky is called at an altitude, in kilometres.
pub open spec fn layer_name(altitude: i64) -> Seq<char> {
    if altitude < 10 {
        "Troposphere"@
    } else if altitude < 20 {
        "Stratosphere"@
    } else if altitude < 30 {
        "Mesosphere"@
    } else if altitude < 45 {
        "Thermosphere"@
    } else if altitude < 60 {
        "Exosphere"@
    } else {
        "Space"@
    }
}

/// What the sky is called at an altitude, in kilometres.
pub fn layer(altitude: i64) -> (r: &'static str)
    ensures
        r@ == layer_name(altitude),
{
    if altitude < 10 {
        "Troposphere"
    } else if altitude < 20 {
        "Stratosphere"
    } else if altitude < 30 {
        "Mesosphere"
    } else if altitude < 45 {
        "Thermosphere"
    } else if altitude < 60 {
        "Exosphere"
    } else {
        "Space"
    }
}

} // verus!
