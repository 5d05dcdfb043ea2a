use late_ssh::data::{self, Building, Fire, Resource};
use late_ssh::model::{Builder, Game, Thieves, View};
use late_ssh::pace::{self, DAILY_CREDIT_FLOOR_SECS, DAILY_CREDIT_SECS};
use late_ssh::sim;
use rand::rngs::StdRng;
use rand::SeedableRng;

fn clock() -> i64 {
    1_800_000_000
}

/// A game whose clock has already been primed, as the load path does.
fn started(now: i64) -> Game {
    let mut game = Game::new(false);
    game.last_settled = now;
    game
}

/// Push the world forward by `secs` and hand back what it announced.
fn advance(game: &mut Game, view: View, now: &mut i64, session_start: i64, secs: i64) -> Vec<String> {
    *now += secs;
    let mut rng = StdRng::seed_from_u64(7);
    sim::settle(game, view, *now, session_start, &mut rng).messages
}

#[test]
fn lighting_the_fire_brings_the_stranger_and_opens_the_forest() {
    let session_start = clock();
    let mut now = session_start;
    let mut game = started(now);

    game.light_fire();
    assert_eq!(game.fire, Fire::Burning);
    assert_eq!(game.builder, Builder::Approaching);

    // She takes one builder-state step to arrive.
    let arrival = advance(&mut game, View::Room, &mut now, session_start, i64::from(data::BUILDER_STATE_DELAY));
    assert_eq!(game.builder, Builder::Collapsed);
    assert!(
        arrival.iter().any(|m| m.contains("a ragged stranger stumbles through the door")),
        "expected the arrival line, got {arrival:?}"
    );

    // Then the wood runs out, and with it the forest opens up.
    let out_of_wood = advance(&mut game, View::Room, &mut now, session_start, i64::from(data::NEED_WOOD_DELAY));
    assert!(game.forest_unlocked);
    assert_eq!(game.store(Resource::Wood), data::UNLOCK_FOREST_WOOD);
    assert!(
        out_of_wood.iter().any(|m| m == "the wood is running out"),
        "expected the wood warning, got {out_of_wood:?}"
    );
}

#[test]
fn a_warm_room_walks_the_stranger_to_her_feet() {
    let session_start = clock();
    let mut now = session_start;
    let mut game = started(now);
    game.light_fire();

    advance(&mut game, View::Outside, &mut now, session_start, 200);
    assert_eq!(game.builder, Builder::Sleeping);

    // She only gets up when somebody is in the room to see it.
    advance(&mut game, View::Outside, &mut now, session_start, 1);
    assert_eq!(game.builder, Builder::Sleeping);
    advance(&mut game, View::Room, &mut now, session_start, 1);
    assert_eq!(game.builder, Builder::Helping);
}

#[test]
fn a_gatherer_pays_at_the_slowed_rate() {
    let session_start = clock();
    let mut now = session_start;
    let mut game = started(now);
    game.population = 1;

    let one_payout = i64::from(pace::slowed(data::INCOME_DELAY));
    advance(&mut game, View::Outside, &mut now, session_start, one_payout - 1);
    assert_eq!(game.store(Resource::Wood), 0, "a payout landed early, so the slowdown is not being applied");

    advance(&mut game, View::Outside, &mut now, session_start, 1);
    assert_eq!(game.store(Resource::Wood), 1);
}

#[test]
fn the_metal_trades_stall_when_their_inputs_run_dry() {
    let session_start = clock();
    let mut now = session_start;
    let mut game = started(now);
    game.raise(Building::Steelworks);
    game.raise(Building::Armoury);
    game.population = 2;
    game.workers.insert(data::Job::Steelworker, 1);
    game.workers.insert(data::Job::Armourer, 1);
    game.set_store(Resource::Iron, 1);
    game.set_store(Resource::Coal, 1);
    game.set_store(Resource::Sulphur, 1);

    let one_payout = i64::from(pace::slowed(data::INCOME_DELAY));
    advance(&mut game, View::Outside, &mut now, session_start, one_payout);
    assert_eq!(game.store(Resource::Iron), 0);
    assert_eq!(game.store(Resource::Coal), 0);
    assert_eq!(game.store(Resource::Sulphur), 0);
    assert_eq!(
        game.store(Resource::Bullets),
        1,
        "the steel made this round should have gone straight into a bullet"
    );
    assert_eq!(game.store(Resource::Steel), 0);

    // With the inputs gone both trades stall rather than going into debt.
    advance(&mut game, View::Outside, &mut now, session_start, one_payout);
    assert_eq!(game.store(Resource::Bullets), 1);
    assert_eq!(game.store(Resource::Steel), 0);
    assert_eq!(game.store(Resource::Iron), 0);
}

#[test]
fn time_before_the_session_connected_is_worth_nothing() {
    // The save was last touched a day ago; this session connected a minute ago.
    let last_settled = clock();
    let session_start = last_settled + 24 * 60 * 60;
    let mut now = session_start + 60;

    let mut game = started(last_settled);
    game.population = 1;

    let mut rng = StdRng::seed_from_u64(7);
    let settled = sim::settle(&mut game, View::Outside, now, session_start, &mut rng);
    assert_eq!(settled.credited, 60, "credit reached back past the session's connect time");

    // And from here on, connected time does count.
    now += 60;
    let settled = sim::settle(&mut game, View::Outside, now, session_start, &mut rng);
    assert_eq!(settled.credited, 60);
}

#[test]
fn the_daily_floor_fast_forwards_a_village_but_not_a_bare_room() {
    let session_start = clock();
    let mut now = session_start;

    // A villaged save visited for one second banks the whole floor...
    let mut village = started(now);
    village.buildings.insert(Building::Hut, 1);
    village.population = 2;
    now += 1;
    let mut rng = StdRng::seed_from_u64(7);
    let settled = sim::settle(&mut village, View::Outside, now, session_start, &mut rng);
    assert_eq!(settled.credited, DAILY_CREDIT_FLOOR_SECS);
    assert_eq!(settled.withheld, 0, "the floor must not underflow withheld");

    // ...while a hutless room only gets the second that passed.
    let mut room = started(session_start);
    let settled = sim::settle(&mut room, View::Room, session_start + 1, session_start, &mut rng);
    assert_eq!(settled.credited, 1);
}

#[test]
fn arrivals_are_drawn_from_upstreams_three_delays() {
    let session_start = clock();
    let mut now = session_start;
    let mut game = started(now);
    game.buildings.insert(Building::Hut, 1);
    // Consume the daily floor first, so the settle below credits exactly one
    // second and the arrival clock still holds its fresh draw.
    game.pace.grant(now, 0, DAILY_CREDIT_FLOOR_SECS);

    advance(&mut game, View::Outside, &mut now, session_start, 1);
    let expected: Vec<u32> = [30, 90, 150].iter().map(|s| pace::slowed(*s)).collect();
    assert!(
        expected.contains(&game.pop_timer),
        "arrival delay {} is not one of the three draws {expected:?}",
        game.pop_timer
    );
}

#[test]
fn a_trap_haul_reads_like_upstream() {
    let one = [(Resource::Fur, 2)];
    assert_eq!(sim::haul_message(&one), "the traps contain scraps of fur");

    let two = [(Resource::Fur, 1), (Resource::Meat, 1)];
    assert_eq!(sim::haul_message(&two), "the traps contain scraps of fur and bits of meat");

    let three = [(Resource::Fur, 1), (Resource::Meat, 2), (Resource::Charm, 1)];
    assert_eq!(
        sim::haul_message(&three),
        "the traps contain scraps of fur, bits of meat and a crudely made charm"
    );
}

#[test]
fn cooldowns_keep_running_after_the_daily_allowance_is_spent() {
    let session_start = clock();
    let mut now = session_start;
    let mut game = started(now);
    game.pace.grant(now, DAILY_CREDIT_SECS, 0);
    game.gather_cooldown = data::GATHER_DELAY;

    now += i64::from(data::GATHER_DELAY);
    let mut rng = StdRng::seed_from_u64(7);
    let settled = sim::settle(&mut game, View::Outside, now, session_start, &mut rng);

    assert_eq!(settled.credited, 0, "the daily cap should have withheld all of it");
    assert!(settled.withheld > 0);
    assert_eq!(game.gather_cooldown, 0, "a pacing rule must never leave a button stuck");
}

#[test]
fn the_thieves_take_what_is_there_and_it_is_all_booked_as_stolen() {
    let session_start = clock();
    let mut now = session_start;
    let mut game = started(now);
    game.thieves = Thieves::Active;
    game.set_store(Resource::Wood, 7);
    game.set_store(Resource::Fur, 100);
    game.set_store(Resource::Meat, 0);

    advance(&mut game, View::Room, &mut now, session_start, i64::from(pace::slowed(data::INCOME_DELAY)));

    assert_eq!(game.store(Resource::Wood), 0);
    assert_eq!(game.stolen.get(&Resource::Wood).copied(), Some(7));
    assert_eq!(game.store(Resource::Fur), 95);
    assert_eq!(game.stolen.get(&Resource::Fur).copied(), Some(5));
    assert_eq!(game.stolen.get(&Resource::Meat).copied(), None);
}

#[test]
fn a_save_that_was_never_settled_starts_its_clock_now() {
    let session_start = clock();
    let mut game = Game::new(false);
    assert_eq!(game.last_settled, 0);
    let mut rng = StdRng::seed_from_u64(1);
    let settled = sim::settle(&mut game, View::Room, session_start + 500, session_start, &mut rng);
    assert_eq!(settled.credited, 0);
    assert_eq!(game.last_settled, session_start + 500);
}

#[test]
fn the_arrival_lines_count_the_newcomers() {
    assert_eq!(sim::arrival_message(1), "a stranger arrives in the night");
    assert!(sim::arrival_message(2).contains("family"));
}

#[test]
fn checking_the_traps_rolls_one_find_per_trap_and_bait() {
    let mut game = Game::new(false);
    game.buildings.insert(Building::Trap, 3);
    game.set_store(Resource::Bait, 1);
    let mut rng = StdRng::seed_from_u64(11);
    let drops = sim::roll_traps(&game, &mut rng);
    assert!(!drops.is_empty());
    assert!(drops.iter().map(|(_, n)| *n).sum::<i64>() == 4, "three traps and one bait roll four finds: {drops:?}");
    let mut kinds: Vec<Resource> = drops.iter().map(|(r, _)| *r).collect();
    kinds.dedup();
    assert_eq!(kinds.len(), drops.len(), "each find is listed once");
}
