use late_ssh::data::{Perk, Resource};
use late_ssh::encounter;
use late_ssh::event::{self, LootRow, Outcome, Row, SpecialAction, Status};
use late_ssh::fight::{self, Bleed, Combat, Fight, Hit, Loot, Phase, Special};
use late_ssh::model::{Expedition, Game};
use late_ssh::world;
use late_ssh::world_data::Weapon;
use rand::rngs::StdRng;
use rand::SeedableRng;

fn game() -> Game {
    let mut game = Game::new(false);
    game.last_settled = 1_800_000_000;
    game
}

/// A trip standing at the village on a freshly drawn map.
fn trip(game: &mut Game, hp: i64) -> Expedition {
    let mut rng = StdRng::seed_from_u64(42);
    let map = world::generate(false, &mut rng);
    game.world = Some(map.clone());
    Expedition::at_home(map, hp, 10)
}

fn beast(health: i64, damage: i64, hit_pct: u32, attack_delay: u32) -> Combat {
    Combat {
        health,
        damage,
        hit_pct,
        attack_delay,
        specials: Vec::new(),
        at_health: Vec::new(),
        explosion: None,
        death_message: "the snarling beast is dead",
        loot: Vec::new(),
    }
}

fn fight_of(phase: &Phase) -> &Fight {
    match phase {
        Phase::Fighting(f) => f,
        other => panic!("not fighting: {other:?}"),
    }
}

fn hp(trip: &Option<Expedition>) -> i64 {
    trip.as_ref().expect("on a trip").hp
}

#[test]
fn punching_puts_the_fists_away_for_two_seconds_and_half_that_for_the_master() {
    let mut rng = StdRng::seed_from_u64(9);
    let mut cooldown = |game: &mut Game| {
        let t = trip(game, 10);
        let mut trip = Some(t);
        let mut phase = Phase::fight(beast(100, 1, 80, 200), 100);
        let mut loot: Vec<LootRow> = Vec::new();
        let mut out = Vec::new();
        phase.press(Row::Attack(Weapon::Fists), game, &mut trip, &mut loot, &mut rng, &mut out);
        fight_of(&phase).weapon_cooldown.get(&Weapon::Fists).copied()
    };
    let mut g = game();
    assert_eq!(cooldown(&mut g), Some(200));
    g.add_perk(Perk::UnarmedMaster);
    assert_eq!(cooldown(&mut g), Some(100));
}

#[test]
fn a_rifle_spends_a_bullet_and_will_not_fire_without_one() {
    let mut game = game();
    let mut t = trip(&mut game, 10);
    t.add(Resource::Rifle, 1);
    t.add(Resource::Bullets, 1);
    let mut trip = Some(t);
    let mut rng = StdRng::seed_from_u64(1);
    let mut phase = Phase::fight(beast(100, 1, 80, 200), 100);
    let mut loot: Vec<LootRow> = Vec::new();
    let mut out = Vec::new();
    assert!(fight_of(&phase).ready(Row::Attack(Weapon::Rifle), &game, &trip));
    phase.press(Row::Attack(Weapon::Rifle), &mut game, &mut trip, &mut loot, &mut rng, &mut out);
    assert_eq!(trip.as_ref().unwrap().carrying(Resource::Bullets), 0);
    phase.tick(100, &game, &mut trip, &mut loot, &mut rng, &mut out);
    assert!(!fight_of(&phase).ready(Row::Attack(Weapon::Rifle), &game, &trip));
    assert!(fight_of(&phase).ready(Row::Attack(Weapon::Fists), &game, &trip));
}

#[test]
fn the_beast_falls_with_its_line_and_the_way_out_opens_a_second_later() {
    let mut game = game();
    let mut trip = Some(trip(&mut game, 10));
    let mut rng = StdRng::seed_from_u64(3);
    let mut phase = Phase::fight(beast(2, 0, 0, 10_000), 2);
    let mut loot: Vec<LootRow> = Vec::new();
    let mut out = Vec::new();
    for _ in 0..40 {
        if !matches!(phase, Phase::Fighting(_)) {
            break;
        }
        phase.press(Row::Attack(Weapon::Fists), &mut game, &mut trip, &mut loot, &mut rng, &mut out);
        phase.tick(200, &game, &mut trip, &mut loot, &mut rng, &mut out);
    }
    assert!(out.iter().any(|line| line == "the snarling beast is dead"), "got {out:?}");
    assert!(matches!(phase, Phase::Spoils { .. }));
    assert!(trip.as_ref().unwrap().combat.is_none());
}

#[test]
fn the_spoils_stand_a_second_before_the_way_out_opens() {
    let mut game = game();
    let mut trip = Some(trip(&mut game, 10));
    let mut rng = StdRng::seed_from_u64(3);
    let mut phase = Phase::Spoils { leave_cooldown: fight::LEAVE_COOLDOWN };
    let mut loot: Vec<LootRow> = Vec::new();
    let mut out = Vec::new();
    assert!(!phase.can_leave());
    phase.tick(60, &game, &mut trip, &mut loot, &mut rng, &mut out);
    assert!(matches!(phase, Phase::Spoils { leave_cooldown: 40 }));
    phase.tick(60, &game, &mut trip, &mut loot, &mut rng, &mut out);
    assert!(phase.can_leave());
}

#[test]
fn an_automaton_goes_off_after_it_falls_and_then_gives_up_its_loot() {
    let mut game = game();
    let mut trip = Some(trip(&mut game, 200));
    let mut rng = StdRng::seed_from_u64(5);
    let mut combat = beast(1, 0, 0, 10_000);
    combat.explosion = Some(30);
    combat.death_message = "";
    combat.loot = vec![Loot { item: Resource::GlowstoneBlueprint, chance_pct: 100, min: 1, max: 1 }];
    let mut phase = Phase::fight(combat, 1);
    let mut loot: Vec<LootRow> = Vec::new();
    let mut out = Vec::new();
    for _ in 0..40 {
        phase.press(Row::Attack(Weapon::Fists), &mut game, &mut trip, &mut loot, &mut rng, &mut out);
        if !matches!(phase, Phase::Fighting(_)) {
            break;
        }
        phase.tick(200, &game, &mut trip, &mut loot, &mut rng, &mut out);
    }
    assert!(matches!(phase, Phase::Exploding { timer: 300, damage: 30, .. }), "{phase:?}");
    assert!(!phase.can_leave());
    phase.tick(fight::EXPLOSION_DELAY, &game, &mut trip, &mut loot, &mut rng, &mut out);
    assert!(matches!(phase, Phase::Spoils { .. }));
    assert_eq!(hp(&trip), 170);
    assert_eq!(loot, vec![LootRow { item: Resource::GlowstoneBlueprint, left: 1 }]);
    assert!(out.is_empty(), "a setpiece fight has no line of its own");
}

#[test]
fn a_blast_on_its_last_legs_kills() {
    let mut game = game();
    let mut trip = Some(trip(&mut game, 30));
    let mut rng = StdRng::seed_from_u64(5);
    let mut phase = Phase::Exploding { timer: 10, damage: 30, combat: beast(1, 0, 0, 100) };
    let mut loot: Vec<LootRow> = Vec::new();
    let mut out = Vec::new();
    assert_eq!(phase.tick(5, &game, &mut trip, &mut loot, &mut rng, &mut out), Outcome::Continue);
    assert_eq!(hp(&trip), 30);
    assert_eq!(phase.tick(5, &game, &mut trip, &mut loot, &mut rng, &mut out), Outcome::Died);
    assert_eq!(hp(&trip), 0);
}

#[test]
fn an_enemy_that_cannot_miss_hits_for_its_damage_on_its_clock() {
    let mut game = game();
    let mut trip = Some(trip(&mut game, 10));
    let mut rng = StdRng::seed_from_u64(7);
    let mut phase = Phase::fight(beast(10, 3, 100, 200), 10);
    let mut loot: Vec<LootRow> = Vec::new();
    let mut out = Vec::new();
    assert_eq!(phase.tick(199, &game, &mut trip, &mut loot, &mut rng, &mut out), Outcome::Continue);
    assert_eq!(hp(&trip), 10);
    assert_eq!(phase.tick(1, &game, &mut trip, &mut loot, &mut rng, &mut out), Outcome::Continue);
    assert_eq!(hp(&trip), 7);
    assert_eq!(fight_of(&phase).duel.last_hit, Some(Hit::Damage(3)));
    assert_eq!(fight_of(&phase).duel.enemy_timer, 200);
    phase.tick(200, &game, &mut trip, &mut loot, &mut rng, &mut out);
    phase.tick(200, &game, &mut trip, &mut loot, &mut rng, &mut out);
    assert_eq!(hp(&trip), 1);
    assert_eq!(phase.tick(200, &game, &mut trip, &mut loot, &mut rng, &mut out), Outcome::Died);
    assert_eq!(hp(&trip), 0);
}

#[test]
fn an_enemy_that_never_lands_only_misses() {
    let mut game = game();
    let mut trip = Some(trip(&mut game, 10));
    let mut rng = StdRng::seed_from_u64(7);
    let mut phase = Phase::fight(beast(10, 3, 0, 100), 10);
    let mut loot: Vec<LootRow> = Vec::new();
    let mut out = Vec::new();
    for _ in 0..10 {
        phase.tick(100, &game, &mut trip, &mut loot, &mut rng, &mut out);
    }
    assert_eq!(hp(&trip), 10);
    assert_eq!(fight_of(&phase).duel.last_hit, Some(Hit::Miss));
}

#[test]
fn a_raised_shield_turns_the_next_swing_into_healing() {
    let mut game = game();
    game.set_store(Resource::KineticArmour, 1);
    let mut trip = Some(trip(&mut game, 5));
    let mut rng = StdRng::seed_from_u64(7);
    let mut phase = Phase::fight(beast(10, 3, 100, 100), 10);
    let mut loot: Vec<LootRow> = Vec::new();
    let mut out = Vec::new();
    assert!(fight_of(&phase).ready(Row::Shield, &game, &trip));
    phase.press(Row::Shield, &mut game, &mut trip, &mut loot, &mut rng, &mut out);
    assert_eq!(fight_of(&phase).duel.shield_cooldown, fight::SHIELD_COOLDOWN);
    assert!(!fight_of(&phase).ready(Row::Shield, &game, &trip));
    phase.tick(100, &game, &mut trip, &mut loot, &mut rng, &mut out);
    assert_eq!(hp(&trip), 8);
    assert_eq!(fight_of(&phase).duel.player_status, None);
    assert_eq!(fight_of(&phase).duel.last_hit, Some(Hit::Healed(3)));
    phase.tick(100, &game, &mut trip, &mut loot, &mut rng, &mut out);
    assert_eq!(hp(&trip), 5, "the shield breaks on that one hit");
}

#[test]
fn the_shield_heals_no_higher_than_the_most_there_is() {
    let mut game = game();
    game.set_store(Resource::KineticArmour, 1);
    let mut trip = Some(trip(&mut game, 9));
    let mut rng = StdRng::seed_from_u64(7);
    let mut phase = Phase::fight(beast(10, 3, 100, 100), 10);
    let mut loot: Vec<LootRow> = Vec::new();
    let mut out = Vec::new();
    phase.press(Row::Shield, &mut game, &mut trip, &mut loot, &mut rng, &mut out);
    phase.tick(100, &game, &mut trip, &mut loot, &mut rng, &mut out);
    assert_eq!(hp(&trip), 10);
}

#[test]
fn the_stim_costs_ten_health_and_refuses_where_that_would_kill() {
    let mut game = game();
    let mut t = trip(&mut game, 11);
    t.add(Resource::Stim, 2);
    let mut trip = Some(t);
    let mut rng = StdRng::seed_from_u64(7);
    let mut phase = Phase::fight(beast(10, 3, 0, 10_000), 10);
    let mut loot: Vec<LootRow> = Vec::new();
    let mut out = Vec::new();
    assert!(fight_of(&phase).ready(Row::Stim, &game, &trip));
    assert_eq!(
        phase.press(Row::Stim, &mut game, &mut trip, &mut loot, &mut rng, &mut out),
        Outcome::Continue
    );
    assert_eq!(hp(&trip), 1);
    assert_eq!(trip.as_ref().unwrap().carrying(Resource::Stim), 1);
    let duel = fight_of(&phase).duel;
    assert_eq!(duel.stim_cooldown, fight::STIM_COOLDOWN);
    assert_eq!(duel.player_status.map(|a| a.status), Some(Status::Boost));
    phase.tick(fight::STIM_COOLDOWN, &game, &mut trip, &mut loot, &mut rng, &mut out);
    assert!(!fight_of(&phase).ready(Row::Stim, &game, &trip), "one health is not enough to pay");
}

#[test]
fn a_boosted_swing_comes_back_twice_as_fast() {
    let mut game = game();
    let mut t = trip(&mut game, 50);
    t.add(Resource::Stim, 1);
    t.add(Resource::IronSword, 1);
    let mut trip = Some(t);
    let mut rng = StdRng::seed_from_u64(7);
    let mut phase = Phase::fight(beast(100, 3, 0, 10_000), 100);
    let mut loot: Vec<LootRow> = Vec::new();
    let mut out = Vec::new();
    phase.press(Row::Stim, &mut game, &mut trip, &mut loot, &mut rng, &mut out);
    phase.press(Row::Attack(Weapon::IronSword), &mut game, &mut trip, &mut loot, &mut rng, &mut out);
    assert_eq!(fight_of(&phase).weapon_cooldown.get(&Weapon::IronSword).copied(), Some(100));
    phase.tick(fight::BOOST_DURATION, &game, &mut trip, &mut loot, &mut rng, &mut out);
    assert_eq!(fight_of(&phase).duel.player_status, None, "the boost wears off");
}

#[test]
fn eating_heals_to_the_cap_and_puts_the_meat_away_for_five_seconds() {
    let mut game = game();
    let mut t = trip(&mut game, 5);
    t.add(Resource::CuredMeat, 1);
    let mut trip = Some(t);
    let mut rng = StdRng::seed_from_u64(7);
    let mut phase = Phase::fight(beast(10, 3, 0, 10_000), 10);
    let mut loot: Vec<LootRow> = Vec::new();
    let mut out = Vec::new();
    phase.press(Row::Eat, &mut game, &mut trip, &mut loot, &mut rng, &mut out);
    assert_eq!(hp(&trip), 10);
    assert_eq!(trip.as_ref().unwrap().carrying(Resource::CuredMeat), 0);
    assert_eq!(fight_of(&phase).duel.eat_cooldown, fight::EAT_COOLDOWN);
    assert_eq!(fight_of(&phase).duel.last_hit, Some(Hit::Healed(8)));
    assert!(!fight_of(&phase).ready(Row::Eat, &game, &trip));
}

#[test]
fn a_full_wanderer_does_not_waste_medicine() {
    let mut game = game();
    let mut t = trip(&mut game, 10);
    t.add(Resource::Medicine, 1);
    let mut trip = Some(t);
    let mut rng = StdRng::seed_from_u64(7);
    let mut phase = Phase::fight(beast(10, 3, 0, 10_000), 10);
    let mut loot: Vec<LootRow> = Vec::new();
    let mut out = Vec::new();
    phase.press(Row::Meds, &mut game, &mut trip, &mut loot, &mut rng, &mut out);
    assert_eq!(trip.as_ref().unwrap().carrying(Resource::Medicine), 1);
    assert_eq!(fight_of(&phase).duel.meds_cooldown, 0);
}

#[test]
fn crossing_forty_makes_the_enemy_venomous_once() {
    let mut combat = beast(80, 4, 100, 10_000);
    combat.at_health = vec![(40, Status::Venomous)];
    let mut f = Fight::start(combat, 44);
    f.strike(2);
    assert_eq!(f.duel.enemy_hp, 42);
    assert_eq!(f.duel.enemy_status, None);
    f.strike(5);
    assert_eq!(f.duel.enemy_hp, 37);
    assert_eq!(f.duel.enemy_status.map(|a| a.status), Some(Status::Venomous));
    assert_eq!(f.triggered, vec![40]);
    f.duel.enemy_status = None;
    f.duel.enemy_hp = 45;
    f.strike(10);
    assert_eq!(f.duel.enemy_status, None, "each threshold fires once");
}

#[test]
fn a_venomous_bite_keeps_bleeding_on_its_own_clock() {
    let mut game = game();
    let mut trip = Some(trip(&mut game, 20));
    let mut rng = StdRng::seed_from_u64(2);
    let mut combat = beast(80, 4, 100, 100);
    combat.at_health = vec![(40, Status::Venomous)];
    let mut f = Fight::start(combat, 41);
    f.strike(2);
    f.duel.enemy_timer = 100;
    assert_eq!(f.tick(100, &game, &mut trip, &mut rng), Outcome::Continue);
    assert_eq!(hp(&trip), 16);
    assert_eq!(f.duel.bleed, Some(Bleed { damage: 2, timer: 100 }));
    f.duel.enemy_timer = 10_000;
    f.tick(fight::DOT_TICK, &game, &mut trip, &mut rng);
    assert_eq!(hp(&trip), 14);
    assert_eq!(f.duel.last_hit, Some(Hit::Damage(2)));
}

#[test]
fn a_meditating_enemy_banks_what_it_takes_and_throws_it_all_back() {
    let mut game = game();
    let mut trip = Some(trip(&mut game, 50));
    let mut rng = StdRng::seed_from_u64(2);
    let mut combat = beast(100, 1, 0, 10_000);
    combat.specials = vec![Special { delay: 100, action: SpecialAction::Take(Status::Meditation) }];
    let mut f = Fight::start(combat, 100);
    f.tick(100, &game, &mut trip, &mut rng);
    assert_eq!(f.duel.enemy_status.map(|a| a.status), Some(Status::Meditation));
    assert_eq!(f.special_timers, vec![100]);
    f.strike(6);
    f.strike(6);
    assert_eq!(f.duel.enemy_hp, 100);
    assert_eq!(f.duel.banked, 12);
    assert_eq!(f.duel.last_hit, Some(Hit::Banked(6)));
    // The meditation keeps renewing; take the special away and let it lapse.
    f.special_timers = vec![1_000_000];
    f.tick(fight::MEDITATE_DURATION, &game, &mut trip, &mut rng);
    assert_eq!(f.duel.enemy_status, None);
    f.duel.enemy_timer = 1;
    f.tick(1, &game, &mut trip, &mut rng);
    assert_eq!(hp(&trip), 38, "the whole pile comes back, and it never misses");
    assert_eq!(f.duel.banked, 0);
}

#[test]
fn an_enraged_enemy_swings_on_the_short_clock() {
    let mut combat = beast(100, 1, 0, 10_000);
    combat.at_health = vec![(50, Status::Enraged)];
    let mut f = Fight::start(combat, 60);
    f.strike(20);
    assert_eq!(f.duel.enemy_status.map(|a| a.status), Some(Status::Enraged));
    assert_eq!(f.duel.enemy_timer, i64::from(fight::ENRAGE_ATTACK_DELAY));
}

#[test]
fn the_command_rotation_never_picks_the_same_status_twice_running() {
    let mut game = game();
    let mut trip = Some(trip(&mut game, 1000));
    let mut rng = StdRng::seed_from_u64(11);
    let mut combat = beast(100, 0, 0, 1_000_000);
    combat.specials = vec![Special { delay: 100, action: SpecialAction::RotateCommand }];
    let mut f = Fight::start(combat, 100);
    let mut last = None;
    for _ in 0..30 {
        f.tick(100, &game, &mut trip, &mut rng);
        let now = f.duel.last_special;
        assert!(matches!(now, Some(Status::Shield | Status::Enraged | Status::Meditation)));
        assert_ne!(now, last);
        last = now;
    }
}

#[test]
fn a_bolas_tangle_stops_the_swing() {
    let mut game = game();
    let mut trip = Some(trip(&mut game, 10));
    let mut rng = StdRng::seed_from_u64(2);
    let mut f = Fight::start(beast(100, 3, 100, 100), 100);
    f.duel.stun = fight::STUN_DURATION;
    f.tick(100, &game, &mut trip, &mut rng);
    assert_eq!(hp(&trip), 10);
    assert_eq!(f.duel.stun, fight::STUN_DURATION - 100);
    assert_eq!(f.duel.enemy_timer, 100);
}

#[test]
fn loot_with_certain_odds_gives_its_count_and_none_gives_nothing() {
    let mut rng = StdRng::seed_from_u64(4);
    let table = vec![
        Loot { item: Resource::Fur, chance_pct: 100, min: 3, max: 3 },
        Loot { item: Resource::Teeth, chance_pct: 0, min: 1, max: 5 },
        Loot { item: Resource::Meat, chance_pct: 100, min: 0, max: 0 },
    ];
    let (rows, _) = fight::roll_loot(&table, &mut rng);
    assert_eq!(rows, vec![LootRow { item: Resource::Fur, left: 3 }]);
}

#[test]
fn rolled_loot_stays_in_its_range() {
    let table = vec![Loot { item: Resource::Scales, chance_pct: 100, min: 2, max: 6 }];
    for seed in 0..50 {
        let mut rng = StdRng::seed_from_u64(seed);
        let (rows, _) = fight::roll_loot(&table, &mut rng);
        assert_eq!(rows.len(), 1);
        assert!((2..6).contains(&rows[0].left), "{:?}", rows);
    }
}

#[test]
fn the_next_event_comes_three_to_five_minutes_on() {
    for seed in 0..50 {
        let mut rng = StdRng::seed_from_u64(seed);
        let delay = event::next_event_delay(&mut rng);
        assert!([180, 240, 300].contains(&delay), "{delay}");
    }
}

#[test]
fn leaving_a_fight_ends_the_modal() {
    let mut game = game();
    let mut trip = Some(trip(&mut game, 10));
    let mut rng = StdRng::seed_from_u64(2);
    let mut phase = Phase::fight(beast(100, 3, 100, 100), 100);
    let mut loot: Vec<LootRow> = Vec::new();
    let mut out = Vec::new();
    assert_eq!(
        phase.press(Row::Leave, &mut game, &mut trip, &mut loot, &mut rng, &mut out),
        Outcome::Done
    );
}

fn trip_at(game: &mut Game, near: i32, far: i32, tile: late_ssh::world_data::Tile) -> Expedition {
    let mut t = trip(game, 10);
    for x in 0..61i32 {
        for y in 0..61i32 {
            let d = (x - 30).abs() + (y - 30).abs();
            if d > near && d <= far && t.map.tile(x, y) == tile {
                t.x = x;
                t.y = y;
                return t;
            }
        }
    }
    panic!("no such square on this map");
}

#[test]
fn the_wandering_fights_are_the_eleven_of_the_table_in_order() {
    let keys = [
        "snarling beast",
        "gaunt man",
        "strange bird",
        "two-headed creature",
        "shivering man",
        "man-eater",
        "scavenger",
        "lizard",
        "feral terror",
        "soldier",
        "sniper",
    ];
    for (i, key) in keys.iter().enumerate() {
        assert_eq!(encounter::encounter(i).key, *key);
    }
    let beast = encounter::encounter(0);
    assert_eq!(beast.combat.health, 5);
    assert_eq!(beast.combat.damage, 1);
    assert_eq!(beast.combat.hit_pct, 80);
    assert_eq!(beast.combat.attack_delay, 100);
    assert_eq!(beast.combat.death_message, "the snarling beast is dead");
    let sniper = encounter::encounter(10);
    assert_eq!((sniper.combat.damage, sniper.combat.attack_delay, sniper.ranged), (15, 400, true));
}

#[test]
fn near_home_in_the_forest_only_the_snarling_beast_is_met() {
    let mut game = game();
    let t = trip_at(&mut game, 0, 10, late_ssh::world_data::Tile::Forest);
    let trip = Some(t);
    for seed in 0..10 {
        let mut rng = StdRng::seed_from_u64(seed);
        assert_eq!(encounter::pick(&game, &trip, late_ssh::model::View::World, &mut rng), Some(0));
    }
}

#[test]
fn out_on_the_middle_fields_a_lizard_is_met() {
    let mut game = game();
    let t = trip_at(&mut game, 10, 20, late_ssh::world_data::Tile::Field);
    let trip = Some(t);
    let mut rng = StdRng::seed_from_u64(1);
    assert_eq!(encounter::pick(&game, &trip, late_ssh::model::View::World, &mut rng), Some(7));
}

#[test]
fn near_home_on_the_fields_either_field_creature_is_met() {
    let mut game = game();
    let t = trip_at(&mut game, 0, 10, late_ssh::world_data::Tile::Field);
    let trip = Some(t);
    let mut seen = Vec::new();
    for seed in 0..40 {
        let mut rng = StdRng::seed_from_u64(seed);
        let got = encounter::pick(&game, &trip, late_ssh::model::View::World, &mut rng).unwrap();
        assert!(got == 2 || got == 3, "{got}");
        if !seen.contains(&got) {
            seen.push(got);
        }
    }
    assert_eq!(seen.len(), 2);
}

#[test]
fn nothing_wanders_up_at_home() {
    let game = game();
    let mut rng = StdRng::seed_from_u64(1);
    assert_eq!(encounter::pick(&game, &None, late_ssh::model::View::Room, &mut rng), None);
}

#[test]
fn taking_loot_at_home_goes_to_the_store_room() {
    let mut game = game();
    let mut trip: Option<Expedition> = None;
    let mut phase = Phase::Spoils { leave_cooldown: 0 };
    let mut loot = vec![LootRow { item: Resource::Fur, left: 2 }];
    phase.press_spoils(Row::Take(0), &mut game, &mut trip, &mut loot);
    assert_eq!(game.store(Resource::Fur), 1);
    assert_eq!(loot[0].left, 1);
    assert_eq!(phase.rows(&loot, &game, &trip), vec![Row::Take(0), Row::TakeAll, Row::Leave]);
    assert_eq!(phase.press_spoils(Row::Leave, &mut game, &mut trip, &mut loot), Outcome::Done);
}

#[test]
fn taking_loot_out_there_goes_in_the_pack() {
    let mut game = game();
    let mut trip = Some(trip(&mut game, 10));
    let mut phase = Phase::Spoils { leave_cooldown: 50 };
    let mut loot = vec![LootRow { item: Resource::Teeth, left: 1 }];
    phase.press_spoils(Row::Take(0), &mut game, &mut trip, &mut loot);
    assert_eq!(trip.as_ref().unwrap().carrying(Resource::Teeth), 1);
    assert_eq!(loot[0].left, 0);
    phase.press_spoils(Row::Take(0), &mut game, &mut trip, &mut loot);
    assert_eq!(trip.as_ref().unwrap().carrying(Resource::Teeth), 1, "nothing is left of it");
    assert_eq!(
        phase.press_spoils(Row::Leave, &mut game, &mut trip, &mut loot),
        Outcome::Continue,
        "not until the spoils have stood their moment"
    );
}

#[test]
fn loot_too_heavy_for_a_full_pack_asks_what_to_drop() {
    let mut game = game();
    let mut t = trip(&mut game, 10);
    t.add(Resource::CuredMeat, 10);
    let mut trip = Some(t);
    let mut phase = Phase::Spoils { leave_cooldown: 0 };
    let mut loot = vec![LootRow { item: Resource::IronSword, left: 1 }];
    phase.press_spoils(Row::Take(0), &mut game, &mut trip, &mut loot);
    assert!(matches!(phase, Phase::DropFor { loot_index: 0 }));
    assert_eq!(trip.as_ref().unwrap().carrying(Resource::IronSword), 0);
    assert_eq!(phase.rows(&loot, &game, &trip), vec![Row::DropCancel]);
    phase.press_spoils(Row::DropCancel, &mut game, &mut trip, &mut loot);
    assert!(matches!(phase, Phase::Spoils { leave_cooldown: 0 }));
    assert_eq!(trip.as_ref().unwrap().carrying(Resource::CuredMeat), 10);
    assert_eq!(loot[0].left, 1);
}

#[test]
fn an_empty_pack_has_only_its_fists_and_a_blast_leaves_no_rows() {
    let mut game = game();
    let trip = Some(trip(&mut game, 10));
    let phase = Phase::fight(beast(5, 1, 80, 100), 5);
    assert_eq!(phase.rows(&Vec::new(), &game, &trip), vec![Row::Attack(Weapon::Fists)]);
    let blast = Phase::Exploding { timer: 10, damage: 5, combat: beast(1, 0, 0, 100) };
    assert!(blast.rows(&Vec::new(), &game, &trip).is_empty());
}

#[test]
fn taking_everything_at_home_takes_every_row_whole() {
    let mut game = game();
    let mut trip: Option<Expedition> = None;
    let mut phase = Phase::Spoils { leave_cooldown: 0 };
    let mut loot = vec![LootRow { item: Resource::Fur, left: 2 }, LootRow { item: Resource::Teeth, left: 3 }];
    phase.press_spoils(Row::TakeAll, &mut game, &mut trip, &mut loot);
    assert_eq!(game.store(Resource::Fur), 2);
    assert_eq!(game.store(Resource::Teeth), 3);
    assert!(loot.iter().all(|row| row.left == 0));
}

#[test]
fn taking_everything_out_there_stops_where_the_pack_is_full() {
    let mut game = game();
    let mut t = trip(&mut game, 10);
    t.add(Resource::CuredMeat, 7);
    let mut trip = Some(t);
    let mut phase = Phase::Spoils { leave_cooldown: 0 };
    let mut loot = vec![LootRow { item: Resource::IronSword, left: 2 }, LootRow { item: Resource::Teeth, left: 5 }];
    phase.press_spoils(Row::TakeAll, &mut game, &mut trip, &mut loot);
    let t = trip.as_ref().unwrap();
    assert_eq!(t.carrying(Resource::IronSword), 1, "three tenths of room is one sword");
    assert_eq!(t.carrying(Resource::Teeth), 0);
    assert_eq!(loot, vec![LootRow { item: Resource::IronSword, left: 1 }, LootRow { item: Resource::Teeth, left: 5 }]);
}
