use late_ssh::data::{self, Building, Job, Resource};
use late_ssh::dcss::{Launcher, Mode, EXIT_GRACE_TICKS};
use late_ssh::model::{BuildOutcome, BuyOutcome, CraftOutcome, Game, ShipState, View};
use late_ssh::space;
use late_ssh::state::{
    assign_selected, build_message, buy_message, craft_message, flight_ended, lift_off, move_cursor, open_path_if_bought, pack, panel_rows,
    row_at_maximum, row_cooldown, row_cost, row_label, row_section, select, selected, ship_spend, toggle_view, traps_message, unassign_selected, Acted, Row,
    Section,
};
use late_ssh::ui::{body_height, wrapped_rows};
use rand::rngs::StdRng;
use rand::SeedableRng;

#[test]
fn a_fresh_room_offers_the_fire_and_the_door() {
    let game = Game::new(false);
    assert_eq!(panel_rows(&game, View::Room), vec![Row::LightFire, Row::Leave]);
    assert_eq!(panel_rows(&game, View::World), Vec::<Row>::new());
    assert_eq!(
        panel_rows(&game, View::Ship),
        vec![Row::ReinforceHull, Row::UpgradeEngine, Row::LiftOff, Row::Leave]
    );
}

#[test]
fn the_forest_lists_traps_and_the_opened_trades() {
    let mut game = Game::new(false);
    game.buildings.insert(Building::Trap, 1);
    game.seen_jobs.insert(Job::Trapper);
    game.seen_jobs.insert(Job::Hunter);
    assert_eq!(
        panel_rows(&game, View::Outside),
        vec![Row::GatherWood, Row::CheckTraps, Row::Worker(Job::Hunter), Row::Worker(Job::Trapper), Row::Leave]
    );
}

#[test]
fn the_room_lists_what_has_been_offered_in_table_order() {
    let mut game = Game::new(false);
    game.fire = data::Fire::Burning;
    game.seen_buildings.insert(Building::Hut);
    game.seen_buildings.insert(Building::Trap);
    game.seen_crafts.insert(Resource::Torch);
    game.seen_trades.insert(Resource::Compass);
    let rows = panel_rows(&game, View::Room);
    assert_eq!(rows[0], Row::StokeFire);
    assert_eq!(rows[1], Row::Build(Building::Trap));
    assert!(rows.contains(&Row::Build(Building::Hut)));
    assert!(rows.contains(&Row::Craft(Resource::Torch)));
    assert!(rows.contains(&Row::Buy(Resource::Compass)));
    assert_eq!(*rows.last().unwrap(), Row::Leave);
}

#[test]
fn the_path_lists_what_can_be_packed() {
    let mut game = Game::new(false);
    game.set_store(Resource::CuredMeat, 3);
    game.outfit.insert(Resource::Torch, 1);
    assert_eq!(
        panel_rows(&game, View::Path),
        vec![Row::Outfit(Resource::CuredMeat), Row::Outfit(Resource::Torch), Row::Embark, Row::Leave]
    );
}

#[test]
fn the_cursor_wraps_and_the_selection_is_clamped() {
    assert_eq!(move_cursor(0, 5, -1), 4);
    assert_eq!(move_cursor(4, 5, 1), 0);
    assert_eq!(move_cursor(2, 0, 1), 2);
    assert_eq!(move_cursor(1, 3, -7), 0);
    let rows = vec![Row::LightFire, Row::Leave];
    assert_eq!(selected(&rows, 0), Row::LightFire);
    assert_eq!(selected(&rows, 9), Row::Leave);
    assert_eq!(selected(&Vec::new(), 0), Row::Leave);
}

#[test]
fn tab_cycles_the_open_panels_and_says_the_first_visits() {
    let mut game = Game::new(false);
    let mut out = Vec::new();
    assert_eq!(toggle_view(&mut game, View::Room, &mut out), View::Room, "only the room is open");
    game.forest_unlocked = true;
    assert_eq!(toggle_view(&mut game, View::Room, &mut out), View::Outside);
    assert_eq!(out, vec![data::MSG_SEEN_FOREST.to_string()]);
    assert_eq!(toggle_view(&mut game, View::Outside, &mut out), View::Room);
    assert_eq!(toggle_view(&mut game, View::Room, &mut out), View::Outside);
    assert_eq!(out.len(), 1, "the forest line is said once");
    game.ship = Some(ShipState::new());
    assert_eq!(toggle_view(&mut game, View::Outside, &mut out), View::Ship);
    assert_eq!(out.last().unwrap(), space::MSG_SEEN_SHIP);
    assert!(game.ship.unwrap().seen_ship);
    assert_eq!(toggle_view(&mut game, View::World, &mut out), View::World, "the wasteland is not in the cycle");
}

#[test]
fn rows_show_their_cooldowns_costs_ceilings_and_groups() {
    let mut game = Game::new(false);
    game.gather_cooldown = 12;
    assert_eq!(row_cooldown(&game, Row::GatherWood), 12);
    assert_eq!(row_cooldown(&game, Row::Leave), 0);
    assert_eq!(row_cost(&game, Row::Build(Building::Trap)), vec![(Resource::Wood, 10)]);
    game.buildings.insert(Building::Trap, 2);
    assert_eq!(row_cost(&game, Row::Build(Building::Trap)), vec![(Resource::Wood, 30)]);
    assert_eq!(row_cost(&game, Row::ReinforceHull), vec![(Resource::AlienAlloy, 1)]);
    assert_eq!(row_cost(&game, Row::Buy(Resource::Scales)), vec![(Resource::Fur, 150)]);
    assert!(!row_at_maximum(&game, Row::Buy(Resource::Compass)));
    game.set_store(Resource::Compass, 1);
    assert!(row_at_maximum(&game, Row::Buy(Resource::Compass)));
    assert!(row_at_maximum(&game, Row::LiftOff), "no ship, no flight");
    assert!(row_at_maximum(&game, Row::Embark), "nothing packed");
    assert_eq!(row_section(Row::Craft(Resource::Torch)), Some(Section::Craft));
    assert_eq!(row_section(Row::GatherWood), None);
}

#[test]
fn the_log_lines_name_what_happened() {
    assert_eq!(build_message(BuildOutcome::Missing(Resource::Wood)), "not enough wood");
    assert_eq!(build_message(BuildOutcome::TooCold), data::MSG_BUILDER_SHIVERS);
    assert_eq!(buy_message(BuyOutcome::Bought(Resource::Compass)), "bought compass");
    assert_eq!(craft_message(CraftOutcome::AtMaximum(Resource::Waterskin), "x"), "there's no need for another waterskin");
    assert_eq!(craft_message(CraftOutcome::Crafted(Resource::Torch), "a torch to keep the dark away"), "a torch to keep the dark away");
    assert_eq!(traps_message(&[]), "the traps are empty");
    assert_eq!(traps_message(&[(Resource::Fur, 1)]), "the traps contain scraps of fur");
}

#[test]
fn packing_stops_at_the_pack_and_the_shelf() {
    let mut game = Game::new(false);
    game.set_store(Resource::CuredMeat, 20);
    pack(&mut game, Resource::CuredMeat, 15);
    assert_eq!(game.outfit.get(&Resource::CuredMeat).copied(), Some(10), "ten units of pack, one per strip");
    pack(&mut game, Resource::CuredMeat, -4);
    assert_eq!(game.outfit.get(&Resource::CuredMeat).copied(), Some(6));
    pack(&mut game, Resource::CuredMeat, -40);
    assert_eq!(game.outfit.get(&Resource::CuredMeat).copied(), Some(0));
    game.set_store(Resource::Torch, 1);
    pack(&mut game, Resource::Torch, 5);
    assert_eq!(game.outfit.get(&Resource::Torch).copied(), Some(1), "no more than the store room holds");
}

#[test]
fn the_ship_takes_alloy_and_warns_once_before_it_flies() {
    let mut game = Game::new(false);
    let mut out = Vec::new();
    ship_spend(&mut game, true, &mut out);
    assert_eq!(out, vec!["not enough alien alloy".to_string()]);
    assert!(game.ship.is_none());
    game.set_store(Resource::AlienAlloy, 2);
    ship_spend(&mut game, true, &mut out);
    ship_spend(&mut game, false, &mut out);
    let ship = game.ship.unwrap();
    assert_eq!((ship.hull, ship.thrusters), (1, 2));
    assert_eq!(game.store(Resource::AlienAlloy), 0);

    let mut ship = game.ship;
    assert_eq!(lift_off(&mut ship, &mut out), None);
    assert_eq!(out.last().unwrap(), space::MSG_READY_TO_LEAVE);
    assert_eq!(lift_off(&mut ship, &mut out), Some((1, 2)));
    let mut grounded = Some(ShipState::new());
    assert_eq!(lift_off(&mut grounded, &mut out), None, "no hull, no flight");
}

#[test]
fn the_compass_opens_the_path_once() {
    let mut game = Game::new(false);
    let mut rng = StdRng::seed_from_u64(5);
    assert!(!open_path_if_bought(&mut game, &mut rng));
    game.set_store(Resource::Compass, 1);
    assert!(open_path_if_bought(&mut game, &mut rng));
    assert!(game.path_unlocked);
    assert!(game.world.is_some());
    assert!(!open_path_if_bought(&mut game, &mut rng));
}

#[test]
fn words_wrap_at_the_card_width() {
    assert_eq!(wrapped_rows("hello world", 5), 2);
    assert_eq!(wrapped_rows("hello world", 11), 1);
    assert_eq!(wrapped_rows("", 10), 1);
    assert_eq!(wrapped_rows("abcdefghij", 4), 3, "a long word breaks across rows");
    assert_eq!(wrapped_rows("a  b", 3), 2);
    assert_eq!(wrapped_rows("anything", 0), 1);
}

#[test]
fn the_body_gets_the_rows_its_text_needs_within_bounds() {
    let lines = vec!["one two three four".to_string(), "five".to_string()];
    assert_eq!(body_height(&lines, 9, 40), 4);
    let long: Vec<String> = (0..40).map(|_| "x".to_string()).collect();
    assert_eq!(body_height(&long, 20, 20), 11, "never more than half the panel");
    assert_eq!(body_height(&Vec::new(), 20, 20), 3, "never fewer than three");
}

#[test]
fn exit_grace_opens_on_close_and_counts_down() {
    let mut launcher = Launcher::new(false);
    launcher.mode = Mode::Running;
    assert!(!launcher.in_exit_grace());
    assert!(launcher.tick(true));
    assert_eq!(launcher.mode, Mode::Launcher);
    assert!(launcher.in_exit_grace());
    for _ in 0..EXIT_GRACE_TICKS {
        assert!(launcher.in_exit_grace());
        launcher.tick(true);
    }
    assert!(!launcher.in_exit_grace());
}

#[test]
fn connect_is_a_no_op_when_disabled() {
    let launcher = Launcher::new(false);
    assert!(!launcher.may_connect(false));
    assert_eq!(launcher.mode, Mode::Launcher);
    assert!(Launcher::new(true).may_connect(false));
    assert!(!Launcher::new(true).may_connect(true));
}

#[test]
fn row_labels_carry_their_counts() {
    let mut game = Game::new(false);
    assert_eq!(row_label(&game, Row::LightFire).as_deref(), Some("light fire"));
    assert_eq!(row_label(&game, Row::Build(Building::Hut)).as_deref(), Some("hut"));
    assert_eq!(row_label(&game, Row::Worker(Job::Hunter)).as_deref(), Some("hunter 0"));
    game.population = 14;
    assert_eq!(game.assign_worker(Job::Hunter, 12), 12);
    assert_eq!(row_label(&game, Row::Worker(Job::Hunter)).as_deref(), Some("hunter 12"));
    game.set_store(Resource::CuredMeat, 1205);
    game.outfit.insert(Resource::CuredMeat, 30);
    assert_eq!(row_label(&game, Row::Outfit(Resource::CuredMeat)).as_deref(), Some("cured meat 30/1205"));
    assert_eq!(row_label(&game, Row::Event(late_ssh::event::Row::Eat)), None);
    assert_eq!(row_label(&game, Row::Leave).as_deref(), Some("leave"));
}

#[test]
fn enter_on_a_dark_room_lights_the_fire() {
    let mut game = Game::new(false);
    let mut view = View::Room;
    let mut cursor = 0;
    let mut rng = StdRng::seed_from_u64(3);
    let mut out = Vec::new();
    assert_eq!(panel_rows(&game, view)[0], Row::LightFire);
    let (acted, flight) = select(&mut game, &mut view, &mut cursor, &mut rng, &mut out);
    assert_eq!(acted, Acted::Stay);
    assert_eq!(flight, None);
    assert_eq!(game.fire, data::Fire::Burning);
    assert_eq!(out[0], "the fire is burning");
    // Pressing again while the fire cools down does nothing at all.
    let (fire, cooldown, lines) = (game.fire, game.stoke_cooldown, out.len());
    let (acted, _) = select(&mut game, &mut view, &mut cursor, &mut rng, &mut out);
    assert_eq!(acted, Acted::Stay);
    assert_eq!(game.fire, fire);
    assert_eq!(game.stoke_cooldown, cooldown);
    assert_eq!(out.len(), lines);
}

#[test]
fn enter_on_leave_asks_to_leave() {
    let mut game = Game::new(false);
    let mut view = View::Fabricator;
    let mut cursor = 0;
    let mut rng = StdRng::seed_from_u64(3);
    let mut out = Vec::new();
    let (acted, flight) = select(&mut game, &mut view, &mut cursor, &mut rng, &mut out);
    assert_eq!(acted, Acted::Leave);
    assert_eq!(flight, None);
    assert!(out.is_empty());
}

#[test]
fn plus_and_minus_move_the_pack() {
    let mut game = Game::new(false);
    game.path_unlocked = true;
    game.set_store(Resource::CuredMeat, 10);
    let rows = panel_rows(&game, View::Path);
    let at = rows.iter().position(|r| *r == Row::Outfit(Resource::CuredMeat)).expect("meat is packable");
    assign_selected(&mut game, View::Path, at, 4);
    assert_eq!(game.outfit.get(&Resource::CuredMeat).copied(), Some(4));
    // Never more than the store room holds.
    assign_selected(&mut game, View::Path, at, 40);
    assert_eq!(game.outfit.get(&Resource::CuredMeat).copied(), Some(10));
    unassign_selected(&mut game, View::Path, at, 3);
    assert_eq!(game.outfit.get(&Resource::CuredMeat).copied(), Some(7));
    unassign_selected(&mut game, View::Path, at, 30);
    assert_eq!(game.outfit.get(&Resource::CuredMeat).copied(), Some(0));
    // The way out is no supply: nothing moves.
    let leave = rows.len() - 1;
    assign_selected(&mut game, View::Path, leave, 5);
    assert_eq!(game.outfit.get(&Resource::CuredMeat).copied(), Some(0));
}

#[test]
fn a_crash_cools_the_engines_and_an_escape_ends_the_run() {
    let mut game = Game::new(false);
    game.ship = Some(ShipState { hull: 2, thrusters: 1, seen_ship: true, seen_warning: true, liftoff_cooldown: 0 });
    let mut out = Vec::new();
    assert_eq!(flight_ended(&mut game, space::Flight::Crashed, &mut out), View::Ship);
    assert_eq!(game.ship.unwrap().liftoff_cooldown, space::LIFTOFF_COOLDOWN);
    assert_eq!(out, vec![space::MSG_CRASH.to_string()]);
    let mut out = Vec::new();
    assert_eq!(flight_ended(&mut game, space::Flight::Won, &mut out), View::Ship);
    assert_eq!(out.len(), 3);
    assert_eq!(out[2], "the wanderer is gone.");
}
