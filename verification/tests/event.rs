use late_ssh::data::{Building, Job, Perk, Resource};
use late_ssh::event::{self, Condition, Cost, Effect, Kill};
use late_ssh::model::{Expedition, Game, Thieves, View};
use late_ssh::world;
use late_ssh::world_data::{Tile, Weapon};
use rand::rngs::StdRng;
use rand::SeedableRng;

const NOW: i64 = 1_800_000_000;

fn game() -> Game {
    let mut game = Game::new(false);
    game.last_settled = NOW;
    game
}

fn apply(effect: Effect, game: &mut Game, trip: &mut Option<Expedition>, seed: u64) -> Vec<String> {
    let mut rng = StdRng::seed_from_u64(seed);
    let mut out = Vec::new();
    event::apply(effect, game, trip, NOW, &mut rng, &mut out);
    out
}

/// A trip standing at the village on a freshly drawn map.
fn trip(game: &mut Game) -> Expedition {
    let mut rng = StdRng::seed_from_u64(42);
    let map = world::generate(false, &mut rng);
    game.world = Some(map.clone());
    Expedition::at_home(map, 10, 10)
}

#[test]
fn hanging_the_thief_returns_what_was_taken() {
    let mut game = game();
    game.thieves = Thieves::Active;
    game.stolen.insert(Resource::Wood, 120);
    game.set_store(Resource::Wood, 10);
    apply(Effect::SettleThieves { pay_back: true, perk: None }, &mut game, &mut None, 11);
    assert_eq!(game.thieves, Thieves::Dealt, "the skim has to stop");
    assert_eq!(game.store(Resource::Wood), 130);
    assert!(game.stolen.is_empty());
}

#[test]
fn sparing_the_thief_teaches_sneaking_and_hands_nothing_back() {
    let mut game = game();
    game.thieves = Thieves::Active;
    game.stolen.insert(Resource::Wood, 120);
    game.set_store(Resource::Wood, 10);
    let out = apply(Effect::SettleThieves { pay_back: false, perk: Some(Perk::Stealthy) }, &mut game, &mut None, 11);
    assert!(game.has_perk(Perk::Stealthy));
    assert_eq!(game.store(Resource::Wood), 10);
    assert!(game.stolen.is_empty());
    assert_eq!(out, vec![Perk::Stealthy.notify().to_string()]);
}

#[test]
fn a_button_refuses_until_its_cost_is_covered() {
    let mut game = game();
    game.set_store(Resource::Fur, 99);
    let buy_scales = Cost::Store(Resource::Fur, 100);
    assert!(!event::affordable(buy_scales, &game, &None));
    game.set_store(Resource::Fur, 100);
    assert!(event::affordable(buy_scales, &game, &None));
    let mut trip = None;
    event::spend(buy_scales, &mut game, &mut trip);
    assert_eq!(game.store(Resource::Fur), 0);
}

#[test]
fn a_delayed_reward_is_scheduled_and_not_paid_early() {
    let mut scheduled = false;
    for seed in 0..32u64 {
        let mut game = game();
        let effect = Effect::ScheduleReward {
            chance_pct: 50,
            resource: Resource::Wood,
            amount: 300,
            delay_secs: 60,
            message: "the wanderer returns",
        };
        apply(effect, &mut game, &mut None, seed);
        assert_eq!(game.store(Resource::Wood), 0, "nothing is paid up front");
        if let Some(reward) = game.pending_rewards.first() {
            assert_eq!(reward.amount, 300);
            assert_eq!(reward.due, NOW + 60);
            assert_eq!(reward.message, "the wanderer returns");
            scheduled = true;
            break;
        }
    }
    assert!(scheduled, "the wanderer never once promised to come back");
}

#[test]
fn a_sure_reward_always_comes_and_a_hopeless_one_never_does() {
    for seed in 0..8u64 {
        let mut game = game();
        let sure = Effect::ScheduleReward {
            chance_pct: 100,
            resource: Resource::Fur,
            amount: 5,
            delay_secs: 10,
            message: "x",
        };
        apply(sure, &mut game, &mut None, seed);
        assert_eq!(game.pending_rewards.len(), 1);
        let never = Effect::ScheduleReward { chance_pct: 0, resource: Resource::Fur, amount: 5, delay_secs: 10, message: "x" };
        apply(never, &mut game, &mut None, seed);
        assert_eq!(game.pending_rewards.len(), 1);
    }
}

#[test]
fn unusable_ranged_weapon_without_ammo_falls_back_to_fists() {
    let mut game = game();
    let mut t = trip(&mut game);
    t.add(Resource::Rifle, 1);
    assert_eq!(t.carrying(Resource::Bullets), 0);
    let weapons = event::available_weapons(&game, &Some(t));
    assert!(weapons.contains(&Weapon::Rifle));
    assert!(weapons.contains(&Weapon::Fists));
}

#[test]
fn a_spear_in_the_pack_leaves_the_fists_out() {
    let mut game = game();
    let mut t = trip(&mut game);
    t.add(Resource::BoneSpear, 1);
    assert_eq!(event::available_weapons(&game, &Some(t)), vec![Weapon::BoneSpear]);
}

#[test]
fn the_perks_multiply_a_punch() {
    let mut game = game();
    assert_eq!(event::perk_damage(1, world_data_kind(Weapon::Fists), &game), 1);
    game.add_perk(Perk::Boxer);
    game.add_perk(Perk::MartialArtist);
    game.add_perk(Perk::UnarmedMaster);
    assert_eq!(event::perk_damage(1, world_data_kind(Weapon::Fists), &game), 12);
    game.add_perk(Perk::Barbarian);
    assert_eq!(event::perk_damage(5, world_data_kind(Weapon::IronSword), &game), 7);
}

#[test]
fn the_barbarian_rounds_down_and_large_hits_do_not_overflow() {
    let mut game = game();
    game.add_perk(Perk::Barbarian);
    // Half again, rounded down: -5 becomes -8, as the floor of -7.5.
    assert_eq!(event::perk_damage(-5, world_data_kind(Weapon::IronSword), &game), -8);
    assert_eq!(event::perk_damage(1 << 40, world_data_kind(Weapon::IronSword), &game), 3 << 39);
    assert_eq!(event::perk_damage(1 << 40, world_data_kind(Weapon::Rifle), &game), 1 << 40);
}

fn world_data_kind(w: Weapon) -> late_ssh::world_data::WeaponKind {
    w.kind()
}

#[test]
fn the_fiftieth_punch_teaches_the_boxer() {
    let mut game = game();
    game.punches = 49;
    let mut out = Vec::new();
    event::train_fists(&mut game, &mut out);
    assert_eq!(game.punches, 50);
    assert!(game.has_perk(Perk::Boxer));
    assert_eq!(out, vec![Perk::Boxer.notify().to_string()]);
    event::train_fists(&mut game, &mut out);
    assert_eq!(out.len(), 1);
}

#[test]
fn killing_villagers_trims_the_trades_to_the_living() {
    let mut game = game();
    game.population = 10;
    game.workers.insert(Job::Hunter, 4);
    game.workers.insert(Job::Trapper, 3);
    event::kill_villagers(&mut game, 6);
    assert_eq!(game.population, 4);
    // Seven on trades, four alive: the first trade in order gives up three.
    assert_eq!(game.worker_count(Job::Hunter), 1);
    assert_eq!(game.worker_count(Job::Trapper), 3);
    event::kill_villagers(&mut game, 100);
    assert_eq!(game.population, 0);
    assert_eq!(game.worker_count(Job::Hunter), 0);
    assert_eq!(game.worker_count(Job::Trapper), 0);
}

#[test]
fn a_plague_never_leaves_more_workers_than_villagers() {
    for seed in 0..16u64 {
        let mut game = game();
        game.population = 20;
        game.workers.insert(Job::Hunter, 10);
        game.workers.insert(Job::Tanner, 5);
        apply(Effect::KillVillagers(Kill::Range(2, 12)), &mut game, &mut None, seed);
        assert!(game.population >= 8 && game.population <= 18, "{}", game.population);
        assert!(game.assigned_count() <= game.population);
    }
}

#[test]
fn a_fire_takes_huts_and_whoever_slept_in_them() {
    for seed in 0..16u64 {
        let mut game = game();
        game.buildings.insert(Building::Hut, 5);
        game.population = 18;
        game.workers.insert(Job::Hunter, 18);
        apply(Effect::DestroyHuts(2), &mut game, &mut None, seed);
        assert_eq!(game.building_count(Building::Hut), 3);
        assert!(game.population >= 18 - 8 && game.population <= 18, "{}", game.population);
        assert!(game.assigned_count() <= game.population);
    }
    // No huts, no fire.
    let mut game = game();
    game.population = 4;
    apply(Effect::DestroyHuts(3), &mut game, &mut None, 1);
    assert_eq!(game.population, 4);
}

#[test]
fn the_raid_takes_a_tenth_of_the_wood() {
    let mut game = game();
    game.set_store(Resource::Wood, 1000);
    apply(Effect::TradeWoodFor(Resource::Scales), &mut game, &mut None, 1);
    assert_eq!(game.store(Resource::Wood), 900);
    assert_eq!(game.store(Resource::Scales), 20);
    // With next to no wood it still takes one and gives one.
    let mut game = self::game();
    game.set_store(Resource::Wood, 3);
    apply(Effect::TradeWoodFor(Resource::Fur), &mut game, &mut None, 1);
    assert_eq!(game.store(Resource::Wood), 2);
    assert_eq!(game.store(Resource::Fur), 1);
}

#[test]
fn huts_go_up_one_at_a_time_to_twenty() {
    let mut game = game();
    game.buildings.insert(Building::Hut, 19);
    apply(Effect::BuildHut, &mut game, &mut None, 1);
    assert_eq!(game.building_count(Building::Hut), 20);
    apply(Effect::BuildHut, &mut game, &mut None, 1);
    assert_eq!(game.building_count(Building::Hut), 20);
}

#[test]
fn wrecking_the_traps_leaves_fewer_but_never_less_than_none() {
    for seed in 0..8u64 {
        let mut game = game();
        game.buildings.insert(Building::Trap, 4);
        apply(Effect::WreckTraps, &mut game, &mut None, seed);
        let left = game.building_count(Building::Trap);
        assert!(left < 4);
    }
}

#[test]
fn the_scout_map_lights_some_of_the_dark() {
    let mut game = game();
    let mut rng = StdRng::seed_from_u64(42);
    game.world = Some(world::generate(false, &mut rng));
    let dark_before = dark_squares(&game);
    apply(Effect::UncoverMap, &mut game, &mut None, 5);
    assert!(dark_squares(&game) < dark_before);
    assert!(!game.seen_all_map);
}

fn dark_squares(game: &Game) -> usize {
    let map = game.world.as_ref().unwrap();
    let mut n = 0;
    for y in 0..61 {
        for x in 0..61 {
            if !map.seen(x, y) {
                n += 1;
            }
        }
    }
    n
}

#[test]
fn a_well_fills_the_waterskin_and_says_so() {
    let mut game = game();
    let t = trip(&mut game);
    let mut trip = Some(Expedition { water: 1, ..t });
    let out = apply(Effect::RefillWater, &mut game, &mut trip, 1);
    assert_eq!(trip.as_ref().unwrap().water, game.max_water());
    assert_eq!(out, vec!["water replenished".to_string()]);
    // At home there is nothing to fill, and nothing to say.
    let out = apply(Effect::RefillWater, &mut game, &mut None, 1);
    assert!(out.is_empty());
}

#[test]
fn an_outpost_is_drunk_dry_once() {
    let mut game = game();
    let t = trip(&mut game);
    let mut trip = Some(t);
    apply(Effect::UseOutpost, &mut game, &mut trip, 1);
    apply(Effect::UseOutpost, &mut game, &mut trip, 1);
    assert_eq!(trip.as_ref().unwrap().used_outposts.len(), 1);
}

#[test]
fn the_wasteland_effects_land_on_the_trip() {
    let mut game = game();
    let t = trip(&mut game);
    let mut trip = Some(t);
    apply(Effect::GrantBuilding(Building::CoalMine), &mut game, &mut trip, 1);
    apply(Effect::FoundShip, &mut game, &mut trip, 1);
    apply(Effect::EnterBattleship, &mut game, &mut trip, 1);
    apply(Effect::ClearDeck(late_ssh::model::Deck::Engineering), &mut game, &mut trip, 1);
    apply(Effect::HealFull, &mut game, &mut trip, 1);
    apply(Effect::MarkVisited, &mut game, &mut trip, 1);
    let t = trip.unwrap();
    assert!(t.cleared.contains(&Building::CoalMine));
    assert!(t.found_ship);
    assert!(t.battleship.entered);
    assert!(t.battleship.decks.contains(&late_ssh::model::Deck::Engineering));
    assert_eq!(t.hp, game.max_health());
    assert!(t.map.visited(t.x, t.y));
    apply(Effect::ClearCity, &mut game, &mut None, 1);
    assert!(game.city_cleared);
}

#[test]
fn a_cleared_dungeon_becomes_an_outpost() {
    let mut game = game();
    let mut t = trip(&mut game);
    t.x += 3;
    t.map.set_tile(t.x, t.y, Tile::Cave);
    let mut trip = Some(t);
    apply(Effect::ClearDungeon, &mut game, &mut trip, 1);
    let t = trip.unwrap();
    assert_eq!(t.map.tile(t.x, t.y), Tile::Outpost);
}

#[test]
fn conditions_read_the_panel_and_the_stores() {
    let mut game = game();
    game.set_store(Resource::Fur, 5);
    assert!(event::holds(Condition::InRoom, &game, &None, View::Room));
    assert!(!event::holds(Condition::InOutside, &game, &None, View::Room));
    assert!(event::holds(Condition::StoreAtLeast(Resource::Fur, 5), &game, &None, View::Room));
    assert!(!event::holds(Condition::StoreBelow(Resource::Fur, 5), &game, &None, View::Room));
    assert!(event::holds(Condition::LacksPerk(Perk::Boxer), &game, &None, View::Room));
}
