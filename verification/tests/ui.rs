use late_ssh::data::{Blueprint, Building, Fire, Perk, Resource};
use late_ssh::model::{Builder, Expedition, Game, ShipState, View};
use late_ssh::landing::{landing_lines, LandingLine};
use late_ssh::pace;
use late_ssh::state::{panel_rows, Row};
use late_ssh::ui::{
    action_lines, action_scroll, cost_hint, credit_text, key_hints, map_cell, map_rows, panel_title, scroll_offset, sidebar_label,
    status_text, stores_lines, ActionLine, CellKind, SidebarLine, SIDEBAR_LABELS, SIDEBAR_LABEL_PAD, SIDEBAR_WIDTH,
};
use late_ssh::world;
use late_ssh::world_data::Tile;
use rand::rngs::StdRng;
use rand::SeedableRng;

/// Everything fits: no scrolling, regardless of where the cursor sits.
#[test]
fn no_scroll_when_everything_fits() {
    assert_eq!(scroll_offset(0, 5, 8), 0);
    assert_eq!(scroll_offset(4, 5, 8), 0);
}

/// The cursor is still inside the first page: no need to scroll yet.
#[test]
fn stays_put_while_cursor_is_on_screen() {
    assert_eq!(scroll_offset(0, 20, 6), 0);
    assert_eq!(scroll_offset(5, 20, 6), 0);
}

/// Moving past the visible window scrolls exactly far enough to keep the
/// cursor as the last visible row, not further.
#[test]
fn follows_the_cursor_past_the_first_page() {
    assert_eq!(scroll_offset(6, 20, 6), 1);
    assert_eq!(scroll_offset(10, 20, 6), 5);
}

/// The list never scrolls past its own end, even with the cursor on the
/// last row.
#[test]
fn clamps_to_the_end_of_the_list() {
    assert_eq!(scroll_offset(19, 20, 6), 14);
}

#[test]
fn a_cursor_past_the_end_scrolls_as_far_as_the_last_row() {
    assert_eq!(scroll_offset(500, 20, 6), 14);
    assert_eq!(scroll_offset(3, 20, 0), 0);
}

#[test]
fn the_room_list_keeps_the_cursor_mid_view() {
    assert_eq!(action_scroll(3, 5, 10), 0);
    assert_eq!(action_scroll(3, 30, 10), 0);
    assert_eq!(action_scroll(12, 30, 10), 7);
    assert_eq!(action_scroll(29, 30, 10), 20);
    assert_eq!(action_scroll(5, 30, 0), 0);
}

/// Every sidebar row is `"  " + {label:<PAD} + value`. A label as long as the
/// pad leaves no gutter.
#[test]
fn every_label_leaves_a_gutter_before_its_value() {
    let collides: Vec<&str> = Resource::ALL
        .iter()
        .map(|resource| sidebar_label(*resource))
        .chain(Building::ALL.iter().map(|building| building.label()))
        .chain(std::iter::once("baited trap"))
        .filter(|label| label.chars().count() >= SIDEBAR_LABEL_PAD)
        .collect();
    assert!(collides.is_empty(), "labels run into their value column: {collides:?}");
}

/// The widest row a long run produces is a five-figure store with an income
/// suffix.
#[test]
fn the_widest_stores_row_fits_the_sidebar() {
    let widest = 2 + SIDEBAR_LABEL_PAD + "10000 +100/5s".chars().count();
    assert!(
        widest <= SIDEBAR_WIDTH as usize,
        "widest stores row is {widest} cols but the sidebar is {SIDEBAR_WIDTH}"
    );
}

/// The abbreviation list is an exception list, so an entry that is no
/// shorter than the name it replaces is dead weight.
#[test]
fn every_sidebar_abbreviation_is_shorter_than_the_name_it_replaces() {
    let useless: Vec<&str> = SIDEBAR_LABELS
        .iter()
        .filter(|(resource, short)| short.chars().count() >= resource.label().chars().count())
        .map(|(_, short)| *short)
        .collect();
    assert!(useless.is_empty(), "these abbreviations buy nothing: {useless:?}");
}

#[test]
fn the_sidebar_uses_exactly_the_listed_abbreviations() {
    for resource in Resource::ALL {
        let listed = SIDEBAR_LABELS.iter().find(|(r, _)| *r == resource).map(|(_, s)| *s);
        assert_eq!(sidebar_label(resource), listed.unwrap_or_else(|| resource.label()));
    }
    assert_eq!(sidebar_label(Resource::KineticArmour), "k armour");
    assert_eq!(sidebar_label(Resource::Wood), "wood");
}

fn trip_on_fresh_map() -> Expedition {
    let mut rng = StdRng::seed_from_u64(7);
    let map = world::generate(false, &mut rng);
    Expedition::at_home(map, 10, 10)
}

#[test]
fn the_room_is_dark_until_the_fire_takes() {
    let mut game = Game::new(false);
    assert_eq!(panel_title(&game, View::Room), "A Dark Room");
    game.fire = Fire::Smoldering;
    assert_eq!(panel_title(&game, View::Room), "A Dark Room");
    game.fire = Fire::Flickering;
    assert_eq!(panel_title(&game, View::Room), "A Firelit Room");
}

#[test]
fn the_village_title_grows_with_its_huts() {
    let mut game = Game::new(false);
    assert_eq!(panel_title(&game, View::Outside), "A Silent Forest");
    game.buildings.insert(Building::Hut, 1);
    assert_eq!(panel_title(&game, View::Outside), "A Lonely Hut");
    game.buildings.insert(Building::Hut, 9);
    assert_eq!(panel_title(&game, View::Outside), "A Large Village");
    game.buildings.insert(Building::Hut, 20);
    assert_eq!(panel_title(&game, View::Outside), "A Raucous Village");
    assert_eq!(panel_title(&game, View::Path), "A Dusty Path");
    assert_eq!(panel_title(&game, View::World), "A Barren World");
    assert_eq!(panel_title(&game, View::Ship), "An Old Starship");
}

#[test]
fn hints_follow_the_panel() {
    let room = key_hints(View::Room, false);
    assert_eq!(room, vec![("Enter", " do   "), ("Esc", " leave")]);
    let path = key_hints(View::Path, true);
    assert_eq!(
        path,
        vec![
            ("Enter", " do   "),
            ("+/-", " pack   "),
            ("</>", " x10   "),
            ("Tab", " switch   "),
            ("Esc", " leave"),
        ]
    );
    assert_eq!(key_hints(View::Outside, true)[1], ("+/-", " worker   "));
    let world = key_hints(View::World, true);
    assert_eq!(
        world,
        vec![("Enter", " do   "), ("arrows", " walk   "), ("Esc", " park the trip")]
    );
}

#[test]
fn the_map_shows_the_wanderer_the_village_and_blanks() {
    let mut trip = trip_on_fresh_map();
    assert_eq!(map_cell(&trip, trip.x, trip.y), ('@', CellKind::Wanderer));
    trip.x += 1;
    assert_eq!(map_cell(&trip, 30, 30), ('A', CellKind::Home));
    // Far corners of the world are never lit at the start.
    assert_eq!(map_cell(&trip, 0, 0), (' ', CellKind::Dark));
    trip.map.set_tile(0, 0, Tile::Cave);
    trip.map.set_seen(0, 0);
    assert_eq!(map_cell(&trip, 0, 0), ('V', CellKind::Landmark));
    trip.map.set_visited(0, 0);
    assert_eq!(map_cell(&trip, 0, 0), ('V', CellKind::Spent));
}

#[test]
fn the_viewport_is_centred_on_the_wanderer() {
    let trip = trip_on_fresh_map();
    let rows = map_rows(&trip, 5, 3);
    assert_eq!(rows.len(), 3);
    assert!(rows.iter().all(|row| row.len() == 5));
    // The wanderer sits at column 5 / 2 of row 3 / 2.
    assert_eq!(rows[1][2], ('@', CellKind::Wanderer));
    for (r, row) in rows.iter().enumerate() {
        for (c, cell) in row.iter().enumerate() {
            let x = trip.x - 2 + c as i32;
            let y = trip.y - 1 + r as i32;
            assert_eq!(*cell, map_cell(&trip, x, y));
        }
    }
    assert!(map_rows(&trip, 0, 4).iter().all(|row| row.is_empty()));
}

#[test]
fn the_stores_column_lists_what_has_been_seen() {
    let mut game = Game::new(false);
    assert!(stores_lines(&game).is_empty());
    game.set_store(Resource::Wood, 10);
    game.set_store(Resource::Fur, 3);
    game.buildings.insert(Building::Trap, 2);
    assert_eq!(
        stores_lines(&game),
        vec![
            SidebarLine::Heading("stores"),
            SidebarLine::Stat("wood", "10".to_string()),
            SidebarLine::Stat("fur", "3".to_string()),
            SidebarLine::Blank,
            SidebarLine::Heading("buildings"),
            SidebarLine::Stat("trap", "2".to_string()),
        ]
    );
}

#[test]
fn the_stores_column_shows_income_and_perks() {
    let mut game = Game::new(false);
    game.set_store(Resource::Wood, 10);
    game.builder = Builder::Helping;
    game.population = 1;
    game.perks.insert(Perk::Boxer);
    assert_eq!(
        stores_lines(&game),
        vec![
            SidebarLine::Heading("perks"),
            SidebarLine::Indented("boxer"),
            // The perks close with a gap, and the stores open with one.
            SidebarLine::Blank,
            SidebarLine::Blank,
            SidebarLine::Heading("stores"),
            SidebarLine::Stat("wood", "10 +3/50s".to_string()),
        ]
    );
}

#[test]
fn status_lines_say_what_the_world_is_doing() {
    let mut game = Game::new(false);
    assert_eq!(status_text(&game, View::Room), "the fire is dead. the room is freezing.");
    game.population = 3;
    game.buildings.insert(Building::Hut, 1);
    assert_eq!(status_text(&game, View::Outside), "pop 3/4, 3 gathering");
    assert_eq!(status_text(&game, View::Path), "armour: none. water: 10. 10 to carry.");
    assert_eq!(status_text(&game, View::World), "");
    assert_eq!(status_text(&game, View::Fabricator), "blueprints: none yet");
    game.blueprints.insert(Blueprint::Hypo);
    game.blueprints.insert(Blueprint::Stim);
    assert_eq!(status_text(&game, View::Fabricator), "blueprints: hypo, stim");
    assert_eq!(status_text(&game, View::Ship), "");
    game.ship = Some(ShipState { hull: 3, thrusters: 2, seen_ship: true, seen_warning: false, liftoff_cooldown: 0 });
    assert_eq!(status_text(&game, View::Ship), "hull: 3. engine: 2.");
}

#[test]
fn the_action_column_carries_legends_cursor_and_hints() {
    let mut game = Game::new(false);
    assert_eq!(cost_hint(&game, Row::Build(Building::Trap)), Some("10 wood".to_string()));
    assert_eq!(cost_hint(&game, Row::Build(Building::Lodge)), Some("200 wood, 10 fur, 5 meat".to_string()));
    assert_eq!(cost_hint(&game, Row::Leave), None);
    game.fire = Fire::Burning;
    game.builder = Builder::Helping;
    game.set_store(Resource::Wood, 100);
    game.seen_buildings.insert(Building::Trap);
    game.stoke_cooldown = 7;
    let rows = panel_rows(&game, View::Room);
    let (lines, at) = action_lines(&game, View::Room, rows.len());
    assert_eq!(
        lines[0],
        ActionLine::Row { selected: false, spent: false, label: "stoke fire".to_string(), hint: Some("  7s".to_string()) }
    );
    assert!(lines.iter().any(|l| *l == ActionLine::Legend("build:")));
    // The cursor held to the list lands on the last row.
    assert_eq!(at, lines.len() - 1);
    assert!(matches!(lines[at], ActionLine::Row { selected: true, .. }));
}

#[test]
fn the_footer_counts_down_the_village_day() {
    assert_eq!(credit_text(7200 + 5 * 60 + 30, 0), "   2h05m of village time left today");
    assert_eq!(credit_text(3600 + 45 * 60, 12), "   1h45m of village time left today");
    // Nothing left, but nothing withheld yet either: the count still shows.
    assert_eq!(credit_text(0, 0), "   0h00m of village time left today");
    assert_eq!(credit_text(0, 3), "   the village rests until tomorrow");
    assert!(pace::credit_exhausted(3, 0));
    assert!(!pace::credit_exhausted(0, 0));
    assert!(!pace::credit_exhausted(3, 1));
}

/// The landing card's text, line by line, the way a player reads it.
fn landing_text(delete_confirm: bool) -> String {
    let mut text = String::new();
    for line in landing_lines(delete_confirm) {
        let shown = match line {
            LandingLine::Blank => String::new(),
            LandingLine::Art(t)
            | LandingLine::Prose(t)
            | LandingLine::Dim(t)
            | LandingLine::Fine(t)
            | LandingLine::Heading(t) => t.to_string(),
            LandingLine::Hint(k, t, w) => format!("  {k:<w$}{t}"),
            LandingLine::Stat(k, t, w) => format!("  {k:<w$}{t}"),
            LandingLine::Action(m, k, t) => format!("  {m} {k}  {t}"),
        };
        text.push_str(&shown);
        text.push('\n');
    }
    text
}

/// The landing has to tell a player what the two endings pay, which badge
/// each leaves, why a second run is worth walking (the battleship and the
/// beacon are not on a first map), and how the door is driven once inside.
#[test]
fn the_landing_names_both_endings_their_badges_and_the_second_pass() {
    let text = landing_text(false);
    for needle in [
        "15,000 chips, and the ADE badge the first time",
        "20,000 chips, and the ADB badge the first time",
        "Every run that gets out pays",
        "The second pass",
        "ravaged battleship",
        "fleet beacon",
        "Once Inside",
        "Tab",
        "light the fire",
        "start over",
    ] {
        assert!(text.contains(needle), "landing is missing {needle:?}:\n{text}");
    }
    assert!(!text.contains("once per account"), "the chips repeat; only the badge is once");

    let confirm = landing_text(true);
    assert!(confirm.contains("press again to burn it all down"));
    assert!(!confirm.contains("light the fire"));
}

#[test]
fn the_landing_gives_the_daily_allowance_and_the_floor() {
    let text = landing_text(false);
    assert!(text.contains("3h of village time a day, so it lasts weeks"));
    assert!(text.contains("even a short visit banks 45m once the village stands"));
}
