//! The door's keyboard: what a key press asks of the session, given what
//! is on screen. The session carries the answer out.
use vstd::prelude::*;

use crate::world::Direction;

verus! {

/// The door itself, for the games hub to list and launch.
#[derive(Clone, Copy, Debug, PartialEq, Eq, Structural)]
pub struct DarkroomDoorGame;

/// The one instance of the door.
pub const GAME: DarkroomDoorGame = DarkroomDoorGame;

/// Where the ending stands when a key arrives.
#[derive(Clone, Copy, Debug, PartialEq, Eq, Structural)]
pub enum EndingStage {
    /// No ending is up.
    Absent,
    /// The ending is still revealing its lines.
    Revealing,
    /// Every line is out.
    Done,
}

/// What is on screen when a key arrives.
#[derive(Clone, Copy, Debug, PartialEq, Eq, Structural)]
pub struct KeyContext {
    /// A game is loaded (otherwise the launcher is showing).
    pub in_game: bool,
    pub ending: EndingStage,
    /// The ship is in the air.
    pub in_flight: bool,
    /// An event modal is up.
    pub event_open: bool,
    /// The wasteland is the panel on show.
    pub in_world: bool,
}

/// What a key asks of the session.
#[derive(Clone, Copy, Debug, PartialEq, Eq, Structural)]
pub enum KeyAction {
    /// Not the door's key: let the app's own keymap have it.
    Pass,
    /// Start or resume the game from the launcher.
    Start,
    /// Taken, and nothing more to do.
    Consume,
    /// Skip the ending's reveal to the end.
    RevealEnding,
    /// Settle, save and step out of the door.
    Leave,
    /// Bail out of the flight.
    AbortFlight,
    /// Park the trip where it stands, then step out of the door.
    ParkAndLeave,
    Walk(Direction),
    /// Push the ship one step by `(dx, dy)`.
    Steer(i8, i8),
    /// Move the cursor up (-1) or down (1).
    MoveCursor(i8),
    ToggleView,
    /// Put this many more villagers on the selected trade.
    Assign(u32),
    /// Take this many villagers off the selected trade.
    Unassign(u32),
    /// Act on the selected row; if that asks to leave, leave.
    Select,
}

/// The ending owns every key while it is up: the first press skips the
/// reveal, the next one steps out of the door.
pub open spec fn ending_action(ending: EndingStage) -> Option<KeyAction> {
    match ending {
        EndingStage::Absent => None,
        EndingStage::Revealing => Some(KeyAction::RevealEnding),
        EndingStage::Done => Some(KeyAction::Leave),
    }
}

/// Whether the ending takes the key, and what it does with it.
pub fn ending_took_key(ending: EndingStage) -> (r: Option<KeyAction>)
    ensures
        r == ending_action(ending),
{
    match ending {
        EndingStage::Absent => None,
        EndingStage::Revealing => Some(KeyAction::RevealEnding),
        EndingStage::Done => Some(KeyAction::Leave),
    }
}

/// The walking keys: wasd.
pub open spec fn wasd_direction(byte: u8) -> Option<Direction> {
    if byte == 0x77 || byte == 0x57 {
        Some(Direction::North)
    } else if byte == 0x73 || byte == 0x53 {
        Some(Direction::South)
    } else if byte == 0x61 || byte == 0x41 {
        Some(Direction::West)
    } else if byte == 0x64 || byte == 0x44 {
        Some(Direction::East)
    } else {
        None
    }
}

/// The step a direction is on screen, for steering the ship.
pub open spec fn steer_of(d: Direction) -> KeyAction {
    match d {
        Direction::North => KeyAction::Steer(0i8, -1i8),
        Direction::South => KeyAction::Steer(0i8, 1i8),
        Direction::West => KeyAction::Steer(-1i8, 0i8),
        Direction::East => KeyAction::Steer(1i8, 0i8),
    }
}

/// The keys of the village and the modal.
pub open spec fn panel_key(byte: u8) -> KeyAction {
    if byte == 0x6B || byte == 0x4B || byte == 0x77 || byte == 0x57 {
        KeyAction::MoveCursor(-1i8)
    } else if byte == 0x6A || byte == 0x4A || byte == 0x73 || byte == 0x53 {
        KeyAction::MoveCursor(1i8)
    } else if byte == 0x09 {
        KeyAction::ToggleView
    } else if byte == 0x2B || byte == 0x3D {
        KeyAction::Assign(1u32)
    } else if byte == 0x2D || byte == 0x5F {
        KeyAction::Unassign(1u32)
    } else if byte == 0x3E || byte == 0x2E {
        KeyAction::Assign(10u32)
    } else if byte == 0x3C || byte == 0x2C {
        KeyAction::Unassign(10u32)
    } else if byte == 0x0D || byte == 0x0A || byte == 0x20 {
        KeyAction::Select
    } else {
        KeyAction::Consume
    }
}

/// What a key byte asks of the session.
pub open spec fn key_action(ctx: KeyContext, byte: u8) -> KeyAction {
    if !ctx.in_game {
        if byte == 0x0D || byte == 0x0A {
            KeyAction::Start
        } else {
            KeyAction::Pass
        }
    } else if ending_action(ctx.ending) is Some {
        ending_action(ctx.ending)->Some_0
    } else if byte == 0x1B {
        if ctx.in_flight {
            KeyAction::AbortFlight
        } else if ctx.event_open {
            KeyAction::Consume
        } else if ctx.in_world {
            KeyAction::ParkAndLeave
        } else {
            KeyAction::Leave
        }
    } else if ctx.in_world && !ctx.event_open && wasd_direction(byte) is Some {
        KeyAction::Walk(wasd_direction(byte)->Some_0)
    } else if ctx.in_flight {
        match wasd_direction(byte) {
            Some(d) => steer_of(d),
            None => KeyAction::Consume,
        }
    } else {
        panel_key(byte)
    }
}

fn wasd(byte: u8) -> (r: Option<Direction>)
    ensures
        r == wasd_direction(byte),
{
    if byte == 0x77 || byte == 0x57 {
        Some(Direction::North)
    } else if byte == 0x73 || byte == 0x53 {
        Some(Direction::South)
    } else if byte == 0x61 || byte == 0x41 {
        Some(Direction::West)
    } else if byte == 0x64 || byte == 0x44 {
        Some(Direction::East)
    } else {
        None
    }
}

fn steer(d: Direction) -> (r: KeyAction)
    ensures
        r == steer_of(d),
{
    match d {
        Direction::North => KeyAction::Steer(0i8, -1i8),
        Direction::South => KeyAction::Steer(0i8, 1i8),
        Direction::West => KeyAction::Steer(-1i8, 0i8),
        Direction::East => KeyAction::Steer(1i8, 0i8),
    }
}

/// What a key byte asks of the session: Enter starts the launcher; the
/// ending owns every key while it is up; Esc aborts a flight, is swallowed
/// by an open modal, parks a trip and otherwise leaves; wasd walks the
/// wasteland and steers the ship (and nothing else reaches the rows under a
/// flight); the rest move the cursor, switch panels, move villagers and act.
pub fn handle_key(ctx: KeyContext, byte: u8) -> (r: KeyAction)
    ensures
        r == key_action(ctx, byte),
{
    if !ctx.in_game {
        if byte == 0x0d || byte == 0x0a {
            return KeyAction::Start;
        }
        return KeyAction::Pass;
    }
    match ending_took_key(ctx.ending) {
        Some(action) => {
            return action;
        },
        None => {},
    }
    if byte == 0x1B {
        if ctx.in_flight {
            return KeyAction::AbortFlight;
        }
        if ctx.event_open {
            return KeyAction::Consume;
        }
        if ctx.in_world {
            return KeyAction::ParkAndLeave;
        }
        return KeyAction::Leave;
    }
    if ctx.in_world && !ctx.event_open {
        match wasd(byte) {
            Some(d) => {
                return KeyAction::Walk(d);
            },
            None => {},
        }
    }
    if ctx.in_flight {
        return match wasd(byte) {
            Some(d) => steer(d),
            None => KeyAction::Consume,
        };
    }
    if byte == 0x6b || byte == 0x4b || byte == 0x77 || byte == 0x57 {
        KeyAction::MoveCursor(-1i8)
    } else if byte == 0x6a || byte == 0x4a || byte == 0x73 || byte == 0x53 {
        KeyAction::MoveCursor(1i8)
    } else if byte == 0x09 {
        KeyAction::ToggleView
    } else if byte == 0x2b || byte == 0x3d {
        KeyAction::Assign(1u32)
    } else if byte == 0x2d || byte == 0x5f {
        KeyAction::Unassign(1u32)
    } else if byte == 0x3e || byte == 0x2e {
        KeyAction::Assign(10u32)
    } else if byte == 0x3c || byte == 0x2c {
        KeyAction::Unassign(10u32)
    } else if byte == 0x0d || byte == 0x0a || byte == 0x20 {
        KeyAction::Select
    } else {
        KeyAction::Consume
    }
}

/// The arrow keys arrive as the final byte of their escape: A up, B down,
/// C right, D left.
pub open spec fn arrow_direction(key: u8) -> Option<Direction> {
    if key == 0x41 {
        Some(Direction::North)
    } else if key == 0x42 {
        Some(Direction::South)
    } else if key == 0x43 {
        Some(Direction::East)
    } else if key == 0x44 {
        Some(Direction::West)
    } else {
        None
    }
}

/// What an arrow key asks of the session.
pub open spec fn arrow_action(ctx: KeyContext, key: u8) -> KeyAction {
    if ctx.in_game && ending_action(ctx.ending) is Some {
        ending_action(ctx.ending)->Some_0
    } else if !ctx.in_game {
        KeyAction::Pass
    } else if ctx.in_flight {
        match arrow_direction(key) {
            Some(d) => steer_of(d),
            None => KeyAction::Consume,
        }
    } else if ctx.in_world && !ctx.event_open {
        match arrow_direction(key) {
            Some(d) => KeyAction::Walk(d),
            None => KeyAction::Consume,
        }
    } else {
        match arrow_direction(key) {
            Some(Direction::North) => KeyAction::MoveCursor(-1i8),
            Some(Direction::South) => KeyAction::MoveCursor(1i8),
            Some(Direction::West) => KeyAction::Unassign(1u32),
            Some(Direction::East) => KeyAction::Assign(1u32),
            None => KeyAction::Consume,
        }
    }
}

/// What an arrow key asks of the session: out in the wasteland an arrow is
/// a step, in the air a push of the ship, and in the village a cursor move
/// (up and down) or a villager moved (right on, left off).
pub fn handle_arrow(ctx: KeyContext, key: u8) -> (r: KeyAction)
    ensures
        r == arrow_action(ctx, key),
{
    if ctx.in_game {
        match ending_took_key(ctx.ending) {
            Some(action) => {
                return action;
            },
            None => {},
        }
    } else {
        return KeyAction::Pass;
    }
    let direction = if key == 0x41 {
        Some(Direction::North)
    } else if key == 0x42 {
        Some(Direction::South)
    } else if key == 0x43 {
        Some(Direction::East)
    } else if key == 0x44 {
        Some(Direction::West)
    } else {
        None
    };
    match direction {
        None => KeyAction::Consume,
        Some(d) => {
            if ctx.in_flight {
                steer(d)
            } else if ctx.in_world && !ctx.event_open {
                KeyAction::Walk(d)
            } else {
                match d {
                    Direction::North => KeyAction::MoveCursor(-1i8),
                    Direction::South => KeyAction::MoveCursor(1i8),
                    Direction::West => KeyAction::Unassign(1u32),
                    Direction::East => KeyAction::Assign(1u32),
                }
            }
        },
    }
}

} // verus!
