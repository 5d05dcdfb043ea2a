use late_ssh::dcss::{is_f1, strip_input_noise};
use late_ssh::door::DoorGameId;
use late_ssh::screen::{ending_took_key, handle_arrow, handle_key, EndingStage, KeyAction, KeyContext};
use late_ssh::space::layer;
use late_ssh::state::Section;
use late_ssh::world::Direction;

#[test]
fn strip_input_noise_drops_mouse_keeps_keys() {
    assert_eq!(strip_input_noise(b"\x1b[<35;10;5MJ"), b"J");
    assert_eq!(strip_input_noise(b"J\x1b[<35;10;5m"), b"J");
    assert_eq!(strip_input_noise(b"a\x1b[Mabcb"), b"ab");
    assert_eq!(strip_input_noise(b"\x1b[200~hi\x1b[201~"), b"hi");
}

#[test]
fn strip_input_noise_passes_keys_and_arrows() {
    assert_eq!(strip_input_noise(b"hjkl"), b"hjkl");
    assert_eq!(strip_input_noise(b"\x1b[A\x1b[B"), b"\x1b[A\x1b[B");
}

#[test]
fn a_report_cut_off_at_the_end_passes_through() {
    assert_eq!(strip_input_noise(b"\x1b[<35;10"), b"\x1b[<35;10");
    assert_eq!(strip_input_noise(b"\x1b[Mab"), b"\x1b[Mab");
    assert_eq!(strip_input_noise(b"\x1b[20"), b"\x1b[20");
    assert_eq!(strip_input_noise(b""), b"");
}

#[test]
fn f1_is_recognised_in_both_forms_and_nothing_else() {
    assert!(is_f1(b"\x1bOP"));
    assert!(is_f1(b"\x1b[11~"));
    assert!(!is_f1(b"\x1bOPx"));
    assert!(!is_f1(b"?"));
    assert!(!is_f1(b""));
}

fn village() -> KeyContext {
    KeyContext { in_game: true, ending: EndingStage::Absent, in_flight: false, event_open: false, in_world: false }
}

#[test]
fn the_launcher_starts_on_enter_and_passes_everything_else() {
    let launcher = KeyContext { in_game: false, ..village() };
    assert_eq!(handle_key(launcher, b'\r'), KeyAction::Start);
    assert_eq!(handle_key(launcher, b'\n'), KeyAction::Start);
    assert_eq!(handle_key(launcher, b'q'), KeyAction::Pass);
    assert_eq!(handle_arrow(launcher, b'A'), KeyAction::Pass);
}

#[test]
fn escape_means_something_different_on_each_screen() {
    let flight = KeyContext { in_flight: true, ..village() };
    let modal = KeyContext { event_open: true, ..village() };
    let world = KeyContext { in_world: true, ..village() };
    assert_eq!(handle_key(flight, 0x1b), KeyAction::AbortFlight);
    assert_eq!(handle_key(modal, 0x1b), KeyAction::Consume);
    assert_eq!(handle_key(world, 0x1b), KeyAction::ParkAndLeave);
    assert_eq!(handle_key(village(), 0x1b), KeyAction::Leave);
}

#[test]
fn wasd_walks_the_wasteland_steers_the_ship_and_moves_the_cursor() {
    let world = KeyContext { in_world: true, ..village() };
    assert_eq!(handle_key(world, b'w'), KeyAction::Walk(Direction::North));
    assert_eq!(handle_key(world, b'D'), KeyAction::Walk(Direction::East));
    let flight = KeyContext { in_flight: true, ..village() };
    assert_eq!(handle_key(flight, b'a'), KeyAction::Steer(-1, 0));
    assert_eq!(handle_key(flight, b'\r'), KeyAction::Consume, "enter must not restart the ascent");
    assert_eq!(handle_key(village(), b'w'), KeyAction::MoveCursor(-1));
    assert_eq!(handle_key(village(), b'j'), KeyAction::MoveCursor(1));
}

#[test]
fn the_village_keys_move_villagers_and_act() {
    assert_eq!(handle_key(village(), b'+'), KeyAction::Assign(1));
    assert_eq!(handle_key(village(), b'_'), KeyAction::Unassign(1));
    assert_eq!(handle_key(village(), b'>'), KeyAction::Assign(10));
    assert_eq!(handle_key(village(), b','), KeyAction::Unassign(10));
    assert_eq!(handle_key(village(), b'\t'), KeyAction::ToggleView);
    assert_eq!(handle_key(village(), b' '), KeyAction::Select);
    assert_eq!(handle_key(village(), b'z'), KeyAction::Consume);
}

#[test]
fn the_ending_owns_every_key() {
    let revealing = KeyContext { ending: EndingStage::Revealing, ..village() };
    let done = KeyContext { ending: EndingStage::Done, ..village() };
    assert_eq!(handle_key(revealing, b'x'), KeyAction::RevealEnding);
    assert_eq!(handle_key(done, 0x1b), KeyAction::Leave);
    assert_eq!(handle_arrow(revealing, b'A'), KeyAction::RevealEnding);
    assert_eq!(ending_took_key(EndingStage::Absent), None);
}

#[test]
fn arrows_step_steer_and_move_villagers() {
    let world = KeyContext { in_world: true, ..village() };
    let flight = KeyContext { in_flight: true, ..village() };
    assert_eq!(handle_arrow(world, b'C'), KeyAction::Walk(Direction::East));
    assert_eq!(handle_arrow(flight, b'B'), KeyAction::Steer(0, 1));
    assert_eq!(handle_arrow(village(), b'A'), KeyAction::MoveCursor(-1));
    assert_eq!(handle_arrow(village(), b'C'), KeyAction::Assign(1));
    assert_eq!(handle_arrow(village(), b'D'), KeyAction::Unassign(1));
    assert_eq!(handle_arrow(village(), b'Z'), KeyAction::Consume);
}

#[test]
fn the_layers_are_named_by_altitude() {
    let expect = [
        (0, "Troposphere"),
        (10, "Stratosphere"),
        (20, "Mesosphere"),
        (30, "Thermosphere"),
        (45, "Exosphere"),
        (60, "Space"),
    ];
    for (altitude, name) in expect {
        assert_eq!(layer(altitude), name, "at {altitude}km");
    }
}

#[test]
fn each_door_has_a_stable_key_and_each_group_a_legend() {
    assert_eq!(DoorGameId::Lateania.key(), "lateania");
    assert_eq!(DoorGameId::GreenDragon.key(), "greendragon");
    assert_eq!(DoorGameId::Darkroom.key(), "darkroom");
    assert_eq!(Section::Build.legend(), "build:");
    assert_eq!(Section::Craft.legend(), "craft:");
    assert_eq!(Section::Buy.legend(), "buy:");
}
