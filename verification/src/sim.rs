//! The clock. The village has no timers: it settles forward on demand, on
//! load, on every action and on leave. Elapsed time inside a live session is
//! connected time, so advancing the world is a subtraction, and gaps between
//! sessions contribute nothing.
//!
//! Two clocks, deliberately different (see `pace`):
//! - **Village time** is credited, capped per day, and slowed. Fire,
//!   temperature, the stranger, income and arrivals all step on it.
//! - **Cooldowns** run on plain wall clock, uncapped and unslowed, so a pacing
//!   rule can never leave a button stuck.
use rand::rngs::StdRng;
use vstd::prelude::*;
use vstd::view::View as _;

use crate::chance::{self, draw, UNIT};
use crate::collections::{EnumMap, EnumSet, Keyed};
use crate::data::{self, Building, Fire, Job, Resource, Temperature};
use crate::model::{self, add_held, assigned_in, held, held_u, nonneg, Builder, Game, Thieves, View};
use crate::pace;

verus! {

// ---------------------------------------------------------------------------
// The model: what one second of village time does
// ---------------------------------------------------------------------------

/// The part of the save the village clock moves, as plain values.
pub struct Clock {
    pub fire: Fire,
    pub fire_timer: u32,
    pub temperature: Temperature,
    pub temp_timer: u32,
    pub builder: Builder,
    pub builder_timer: u32,
    pub need_wood_timer: Option<u32>,
    pub forest_unlocked: bool,
    pub income_timer: u32,
    pub pop_timer: u32,
    pub population: u32,
    pub stores: Map<Resource, i64>,
    pub carry: Set<Resource>,
    pub stolen: Map<Resource, i64>,
}

/// The clock as a save holds it.
pub open spec fn clock_of(g: Game) -> Clock {
    Clock {
        fire: g.fire,
        fire_timer: g.fire_timer,
        temperature: g.temperature,
        temp_timer: g.temp_timer,
        builder: g.builder,
        builder_timer: g.builder_timer,
        need_wood_timer: g.need_wood_timer,
        forest_unlocked: g.forest_unlocked,
        income_timer: g.income_timer,
        pop_timer: g.pop_timer,
        population: g.population,
        stores: g.stores@,
        carry: g.carry@,
        stolen: g.stolen@,
    }
}

/// `b` is `a` in everything the clock does not move.
pub open spec fn beyond_clock(a: Game, b: Game) -> bool {
    b == (Game {
        fire: b.fire,
        fire_timer: b.fire_timer,
        temperature: b.temperature,
        temp_timer: b.temp_timer,
        builder: b.builder,
        builder_timer: b.builder_timer,
        need_wood_timer: b.need_wood_timer,
        forest_unlocked: b.forest_unlocked,
        income_timer: b.income_timer,
        pop_timer: b.pop_timer,
        population: b.population,
        stores: b.stores,
        carry: b.carry,
        stolen: b.stolen,
        ..a
    })
}

/// The text of each message, in order.
pub open spec fn texts(v: Seq<String>) -> Seq<Seq<char>> {
    v.map_values(|s: String| s@)
}

/// The fire burns down one level at a time. Once she is helping, the builder
/// feeds a low fire herself before it cools, so a tended fire holds its level.
pub open spec fn fire_step(c: Clock) -> (Clock, Seq<Seq<char>>) {
    if c.fire == Fire::Dead {
        (c, seq![])
    } else if c.fire_timer > 1 {
        (Clock { fire_timer: (c.fire_timer - 1) as u32, ..c }, seq![])
    } else {
        let stokes = data::fire_level(c.fire) <= 2 && c.builder == Builder::Helping && held(
            c.stores,
            Resource::Wood,
        ) > 0;
        let stores = if stokes {
            add_held(c.stores, Resource::Wood, -1)
        } else {
            c.stores
        };
        let fed = if stokes {
            data::stoked_fire(c.fire)
        } else {
            c.fire
        };
        let fire = data::cooled_fire(fed);
        let said: Seq<Seq<char>> = if stokes {
            seq!["builder stokes the fire"@]
        } else {
            seq![]
        };
        (
            Clock { fire, fire_timer: data::FIRE_COOL_DELAY, stores, ..c },
            said.push("the fire is "@ + data::fire_text(fire)),
        )
    }
}

/// The room drifts one step toward the fire, up or down.
pub open spec fn temperature_step(c: Clock) -> (Clock, Seq<Seq<char>>) {
    if c.temp_timer > 1 {
        (Clock { temp_timer: (c.temp_timer - 1) as u32, ..c }, seq![])
    } else {
        let temp = data::temperature_level(c.temperature) as int;
        let fire = data::fire_level(c.fire) as int;
        let c1 = Clock { temp_timer: data::ROOM_WARM_DELAY, ..c };
        if temp > 0 && temp > fire {
            let t = data::temperature_at((temp - 1) as u8);
            (Clock { temperature: t, ..c1 }, seq!["the room is "@ + data::temperature_text(t)])
        } else if temp < 4 && temp < fire {
            let t = data::temperature_at((temp + 1) as u8);
            (Clock { temperature: t, ..c1 }, seq!["the room is "@ + data::temperature_text(t)])
        } else {
            (c1, seq![])
        }
    }
}

/// The stranger's arc. She arrives on her own; warming up is what moves her
/// along after that, so the room has to be warm before she stops shivering.
pub open spec fn builder_step(c: Clock) -> (Clock, Seq<Seq<char>>) {
    let waiting = c.builder == Builder::Approaching || c.builder == Builder::Collapsed
        || c.builder == Builder::Shivering;
    if !waiting {
        (c, seq![])
    } else if c.builder_timer > 1 {
        (Clock { builder_timer: (c.builder_timer - 1) as u32, ..c }, seq![])
    } else {
        let c1 = Clock { builder_timer: data::BUILDER_STATE_DELAY, ..c };
        let warm = data::temperature_level(c.temperature) >= 3;
        if c.builder == Builder::Approaching {
            (
                Clock {
                    builder: Builder::Collapsed,
                    need_wood_timer: Some(data::NEED_WOOD_DELAY),
                    ..c1
                },
                seq![
                    "a ragged stranger stumbles through the door and collapses in the corner"@,
                ],
            )
        } else if c.builder == Builder::Collapsed && warm {
            (
                Clock { builder: Builder::Shivering, ..c1 },
                seq!["the stranger shivers, and mumbles quietly. her words are unintelligible."@],
            )
        } else if c.builder == Builder::Shivering && warm {
            (
                Clock { builder: Builder::Sleeping, ..c1 },
                seq!["the stranger in the corner stops shivering. her breathing calms."@],
            )
        } else {
            (c1, seq![])
        }
    }
}

/// The moment the wood runs out and the forest becomes a place you can go.
pub open spec fn need_wood_step(c: Clock) -> (Clock, Seq<Seq<char>>) {
    match c.need_wood_timer {
        None => (c, seq![]),
        Some(left) => if left > 1 {
            (Clock { need_wood_timer: Some((left - 1) as u32), ..c }, seq![])
        } else {
            (
                Clock {
                    need_wood_timer: None,
                    forest_unlocked: true,
                    stores: c.stores.insert(Resource::Wood, data::UNLOCK_FOREST_WOOD),
                    ..c
                },
                seq!["the wind howls outside"@, "the wood is running out"@],
            )
        },
    }
}

/// Whether a store holds half a unit not yet banked.
pub open spec fn half_of(carry: Set<Resource>, r: Resource) -> int {
    if carry.contains(r) {
        1
    } else {
        0
    }
}

/// What a store is worth in half units, counting the half not yet banked.
pub open spec fn halves(stores: Map<Resource, i64>, carry: Set<Resource>, r: Resource) -> int {
    2 * held(stores, r) + half_of(carry, r)
}

/// Credit `d` half units to a store: whole units are banked and an odd half
/// is carried to the next payout.
pub open spec fn credit(
    sc: (Map<Resource, i64>, Set<Resource>),
    r: Resource,
    d: int,
) -> (Map<Resource, i64>, Set<Resource>) {
    let t = half_of(sc.1, r) + d;
    (
        add_held(sc.0, r, t / 2),
        if t % 2 == 1 {
            sc.1.insert(r)
        } else {
            sc.1.remove(r)
        },
    )
}

/// Every delta of a payout credited, in order.
pub open spec fn credit_all(
    sc: (Map<Resource, i64>, Set<Resource>),
    deltas: Seq<(Resource, i64)>,
) -> (Map<Resource, i64>, Set<Resource>)
    decreases deltas.len(),
{
    if deltas.len() == 0 {
        sc
    } else {
        credit(credit_all(sc, deltas.drop_last()), deltas.last().0, deltas.last().1 as int)
    }
}

/// Whether no input of a payout would go into debt.
pub open spec fn affordable(
    sc: (Map<Resource, i64>, Set<Resource>),
    deltas: Seq<(Resource, i64)>,
) -> bool {
    forall|i: int|
        0 <= i < deltas.len() ==> halves(sc.0, sc.1, #[trigger] deltas[i].0) + deltas[i].1 >= 0
}

/// One source's whole payout, or none of it: a source whose inputs would go
/// negative does not run this round.
pub open spec fn pay(
    sc: (Map<Resource, i64>, Set<Resource>),
    deltas: Seq<(Resource, i64)>,
) -> (Map<Resource, i64>, Set<Resource>) {
    if affordable(sc, deltas) {
        credit_all(sc, deltas)
    } else {
        sc
    }
}

/// A trade's yields for `n` workers.
pub open spec fn scaled_yields(ys: Seq<(Resource, i64)>, n: int) -> Seq<(Resource, i64)> {
    ys.map_values(|e: (Resource, i64)| (e.0, (e.1 * n) as i64))
}

/// The payouts of the first `n` trades in listing order; a trade nobody
/// works is skipped.
pub open spec fn pay_jobs(
    sc: (Map<Resource, i64>, Set<Resource>),
    workers: Map<Job, u32>,
    n: nat,
) -> (Map<Resource, i64>, Set<Resource>)
    decreases n,
{
    if n == 0 {
        sc
    } else {
        let prev = pay_jobs(sc, workers, (n - 1) as nat);
        let j = Job::from_key((n - 1) as nat);
        let w = held_u(workers, j);
        if w == 0 {
            prev
        } else {
            pay(prev, scaled_yields(data::job_half_yields(j), w))
        }
    }
}

/// What the thieves take: as much of each cut as is there, all of it booked
/// as stolen.
pub open spec fn skim(
    stores: Map<Resource, i64>,
    stolen: Map<Resource, i64>,
    cuts: Seq<(Resource, i64)>,
) -> (Map<Resource, i64>, Map<Resource, i64>)
    decreases cuts.len(),
{
    if cuts.len() == 0 {
        (stores, stolen)
    } else {
        let prev = skim(stores, stolen, cuts.drop_last());
        let r = cuts.last().0;
        let d = cuts.last().1 as int;
        let have = held(prev.0, r);
        let taken = if have + d < 0 {
            have
        } else {
            -d
        };
        (
            add_held(prev.0, r, d),
            if taken > 0 {
                prev.1.insert(r, (held(prev.1, r) + taken) as i64)
            } else {
                prev.1
            },
        )
    }
}

/// Villagers not on a trade, who gather wood.
pub open spec fn idle(population: u32, workers: Map<Job, u32>) -> int {
    if population >= assigned_in(workers) {
        population - assigned_in(workers)
    } else {
        0
    }
}

/// One round of payouts: the builder, the gatherers, each trade in listing
/// order, then the thieves.
pub open spec fn payouts(
    stores: Map<Resource, i64>,
    carry: Set<Resource>,
    stolen: Map<Resource, i64>,
    helping: bool,
    gatherers: int,
    workers: Map<Job, u32>,
    robbed: bool,
) -> (Map<Resource, i64>, Set<Resource>, Map<Resource, i64>) {
    let sc0 = (stores, carry);
    let sc1 = if helping {
        pay(sc0, seq![data::BUILDER_HALF_YIELD])
    } else {
        sc0
    };
    let sc2 = if gatherers > 0 {
        pay(sc1, seq![(Resource::Wood, (2 * gatherers) as i64)])
    } else {
        sc1
    };
    let sc3 = pay_jobs(sc2, workers, 9);
    let taken = if robbed {
        skim(sc3.0, stolen, data::thief_skim_spec())
    } else {
        (sc3.0, stolen)
    };
    (taken.0, sc3.1, taken.1)
}

/// Everyone's trade pays out at once, every slowed income delay.
pub open spec fn income_step(c: Clock, workers: Map<Job, u32>, thieves: Thieves) -> Clock {
    if c.income_timer > 1 {
        Clock { income_timer: (c.income_timer - 1) as u32, ..c }
    } else {
        let (stores, carry, stolen) = payouts(
            c.stores,
            c.carry,
            c.stolen,
            c.builder == Builder::Helping,
            idle(c.population, workers),
            workers,
            thieves == Thieves::Active,
        );
        Clock {
            income_timer: (data::INCOME_DELAY * pace::SLOWDOWN) as u32,
            stores,
            carry,
            stolen,
            ..c
        }
    }
}

/// A fresh arrival delay, in seconds: half, one and a half or two and a half
/// minutes (`floor(fraction * 2.5) + 0.5`), slowed.
pub open spec fn arrival_delay(d: u64) -> u32 {
    ((((chance::unit(d) * 5) / (2 * (UNIT as int))) * 60 + 30) * pace::SLOWDOWN) as u32
}

/// How many arrive when there is room for `space`: `floor(fraction * space /
/// 2 + space / 2)`, and at least one.
pub open spec fn arrivals(space: int, d: u64) -> int {
    let n = (space * (chance::unit(d) + UNIT)) / (2 * (UNIT as int));
    if n < 1 {
        1
    } else {
        n
    }
}

/// The line a number of arrivals prints.
pub open spec fn arrival_text(num: int) -> Seq<char> {
    if num == 1 {
        "a stranger arrives in the night"@
    } else if 2 <= num <= 4 {
        "a weathered family takes up in one of the huts."@
    } else if 5 <= num <= 9 {
        "a small group arrives, all dust and bones."@
    } else if 10 <= num <= 29 {
        "a convoy lurches in, equal parts worry and hope."@
    } else {
        "the town's booming. word does get around."@
    }
}

/// Word gets around. Nobody arrives before there is a hut to sleep in; the
/// draws `d` decide the next delay and how many come.
pub open spec fn population_step(c: Clock, huts: int, d: Seq<u64>) -> (Clock, Seq<Seq<char>>) {
    if huts == 0 {
        (c, seq![])
    } else if c.pop_timer == 0 {
        (Clock { pop_timer: arrival_delay(d[0]), ..c }, seq![])
    } else if c.pop_timer > 1 {
        (Clock { pop_timer: (c.pop_timer - 1) as u32, ..c }, seq![])
    } else {
        let c1 = Clock { pop_timer: arrival_delay(d[0]), ..c };
        let room = huts * data::HUT_ROOM;
        if room <= c.population {
            (c1, seq![])
        } else {
            let num = arrivals(room - c.population, d[1]);
            (Clock { population: (c.population + num) as u32, ..c1 }, seq![arrival_text(num)])
        }
    }
}

/// The room's part of a second: the fire, the temperature, the stranger and
/// the wood running out, in that order.
pub open spec fn room_step(c: Clock) -> (Clock, Seq<Seq<char>>) {
    let (c1, m1) = fire_step(c);
    let (c2, m2) = temperature_step(c1);
    let (c3, m3) = builder_step(c2);
    let (c4, m4) = need_wood_step(c3);
    (c4, m1 + m2 + m3 + m4)
}

/// One second of village time, with the draws it takes.
pub open spec fn second(
    c: Clock,
    huts: int,
    workers: Map<Job, u32>,
    thieves: Thieves,
    d: Seq<u64>,
) -> (Clock, Seq<Seq<char>>) {
    let (c4, m4) = room_step(c);
    let c5 = income_step(c4, workers, thieves);
    let (c6, m6) = population_step(c5, huts, d);
    (c6, m4 + m6)
}

/// Seconds of village time one after another, the `i`th taking the draws
/// `dss[i]`.
pub open spec fn run(
    c: Clock,
    huts: int,
    workers: Map<Job, u32>,
    thieves: Thieves,
    dss: Seq<Seq<u64>>,
) -> (Clock, Seq<Seq<char>>)
    decreases dss.len(),
{
    if dss.len() == 0 {
        (c, seq![])
    } else {
        let (c1, m1) = run(c, huts, workers, thieves, dss.drop_last());
        let (c2, m2) = second(c1, huts, workers, thieves, dss.last());
        (c2, m1 + m2)
    }
}

// ---------------------------------------------------------------------------
// Stepping the save
// ---------------------------------------------------------------------------

/// Append a line to the log.
pub(crate) fn say(messages: &mut Vec<String>, text: &str)
    ensures
        texts(final(messages)@) == texts(old(messages)@).push(text@),
{
    messages.push(String::from_str(text));
    proof {
        assert(texts(messages@) =~= texts(old(messages)@).push(text@));
    }
}

/// Append a line made of two parts to the log.
pub(crate) fn say_both(messages: &mut Vec<String>, head: &str, tail: &str)
    ensures
        texts(final(messages)@) == texts(old(messages)@).push(head@ + tail@),
{
    let mut line = String::from_str(head);
    line.append(tail);
    messages.push(line);
    proof {
        assert(texts(messages@) =~= texts(old(messages)@).push(head@ + tail@));
    }
}

/// A countdown one second on, saturating at zero.
pub open spec fn tick(t: u32) -> u32 {
    if t > 0 {
        (t - 1) as u32
    } else {
        0
    }
}

/// The fire burns down one level at a time.
fn step_fire(game: &mut Game, messages: &mut Vec<String>)
    requires
        old(game).wf(),
    ensures
        final(game).wf(),
        beyond_clock(*old(game), *final(game)),
        clock_of(*final(game)) == fire_step(clock_of(*old(game))).0,
        texts(final(messages)@) == texts(old(messages)@) + fire_step(clock_of(*old(game))).1,
{
    let ghost c = clock_of(*old(game));
    let ghost said0 = texts(old(messages)@);
    if game.fire == Fire::Dead {
        assert(said0 + seq![] =~= said0);
        return;
    }
    game.fire_timer = if game.fire_timer > 0 {
        game.fire_timer - 1
    } else {
        0
    };
    if game.fire_timer > 0 {
        assert(said0 + seq![] =~= said0);
        return;
    }
    let stokes = game.fire.value() <= Fire::Flickering.value() && game.builder == Builder::Helping
        && game.store(Resource::Wood) > 0;
    if stokes {
        say(messages, "builder stokes the fire");
        game.add_store(Resource::Wood, -1);
        game.fire = game.fire.stoked();
    }
    if game.fire != Fire::Dead {
        game.fire = game.fire.cooled();
        game.fire_timer = data::FIRE_COOL_DELAY;
        say_both(messages, "the fire is ", game.fire.text());
    }
    proof {
        let said: Seq<Seq<char>> = if stokes {
            seq!["builder stokes the fire"@]
        } else {
            seq![]
        };
        assert(texts(messages@) =~= said0 + said.push("the fire is "@ + data::fire_text(game.fire)));
    }
}

/// The room drifts one step toward the fire, up or down.
fn step_temperature(game: &mut Game, messages: &mut Vec<String>)
    requires
        old(game).wf(),
    ensures
        final(game).wf(),
        beyond_clock(*old(game), *final(game)),
        clock_of(*final(game)) == temperature_step(clock_of(*old(game))).0,
        texts(final(messages)@) == texts(old(messages)@) + temperature_step(clock_of(*old(game))).1,
{
    let ghost said0 = texts(old(messages)@);
    game.temp_timer = if game.temp_timer > 0 {
        game.temp_timer - 1
    } else {
        0
    };
    if game.temp_timer > 0 {
        assert(said0 + seq![] =~= said0);
        return;
    }
    game.temp_timer = data::ROOM_WARM_DELAY;
    let temp = game.temperature.value();
    let fire = game.fire.value();
    if temp > 0 && temp > fire {
        game.temperature = Temperature::from_value(temp - 1);
        say_both(messages, "the room is ", game.temperature.text());
        assert(texts(messages@) =~= said0 + seq!["the room is "@ + data::temperature_text(game.temperature)]);
    } else if temp < 4 && temp < fire {
        game.temperature = Temperature::from_value(temp + 1);
        say_both(messages, "the room is ", game.temperature.text());
        assert(texts(messages@) =~= said0 + seq!["the room is "@ + data::temperature_text(game.temperature)]);
    } else {
        assert(said0 + seq![] =~= said0);
    }
}

/// The stranger's arc.
fn step_builder(game: &mut Game, messages: &mut Vec<String>)
    requires
        old(game).wf(),
    ensures
        final(game).wf(),
        beyond_clock(*old(game), *final(game)),
        clock_of(*final(game)) == builder_step(clock_of(*old(game))).0,
        texts(final(messages)@) == texts(old(messages)@) + builder_step(clock_of(*old(game))).1,
{
    let ghost said0 = texts(old(messages)@);
    let waiting = game.builder == Builder::Approaching || game.builder == Builder::Collapsed
        || game.builder == Builder::Shivering;
    if !waiting {
        assert(said0 + seq![] =~= said0);
        return;
    }
    game.builder_timer = if game.builder_timer > 0 {
        game.builder_timer - 1
    } else {
        0
    };
    if game.builder_timer > 0 {
        assert(said0 + seq![] =~= said0);
        return;
    }
    game.builder_timer = data::BUILDER_STATE_DELAY;
    let warm = game.temperature.value() >= 3;
    if game.builder == Builder::Approaching {
        say(messages, "a ragged stranger stumbles through the door and collapses in the corner");
        game.builder = Builder::Collapsed;
        game.need_wood_timer = Some(data::NEED_WOOD_DELAY);
        assert(texts(messages@) =~= said0 + seq![
            "a ragged stranger stumbles through the door and collapses in the corner"@,
        ]);
    } else if game.builder == Builder::Collapsed && warm {
        say(messages, "the stranger shivers, and mumbles quietly. her words are unintelligible.");
        game.builder = Builder::Shivering;
        assert(texts(messages@) =~= said0 + seq![
            "the stranger shivers, and mumbles quietly. her words are unintelligible."@,
        ]);
    } else if game.builder == Builder::Shivering && warm {
        say(messages, "the stranger in the corner stops shivering. her breathing calms.");
        game.builder = Builder::Sleeping;
        assert(texts(messages@) =~= said0 + seq![
            "the stranger in the corner stops shivering. her breathing calms."@,
        ]);
    } else {
        assert(said0 + seq![] =~= said0);
    }
}

/// The moment the wood runs out and the forest opens.
#[verifier::rlimit(40)]
fn step_need_wood(game: &mut Game, messages: &mut Vec<String>)
    requires
        old(game).wf(),
    ensures
        final(game).wf(),
        beyond_clock(*old(game), *final(game)),
        clock_of(*final(game)) == need_wood_step(clock_of(*old(game))).0,
        texts(final(messages)@) == texts(old(messages)@) + need_wood_step(clock_of(*old(game))).1,
{
    let ghost said0 = texts(old(messages)@);
    let left = match game.need_wood_timer {
        Some(left) => left,
        None => {
            assert(said0 + seq![] =~= said0);
            return;
        },
    };
    let left = if left > 0 {
        left - 1
    } else {
        0
    };
    if left > 0 {
        game.need_wood_timer = Some(left);
        assert(said0 + seq![] =~= said0);
        return;
    }
    game.need_wood_timer = None;
    game.forest_unlocked = true;
    game.set_store(Resource::Wood, data::UNLOCK_FOREST_WOOD);
    say(messages, "the wind howls outside");
    say(messages, "the wood is running out");
    assert(texts(messages@) =~= said0 + seq!["the wind howls outside"@, "the wood is running out"@]);
}

/// The most one delta of a payout may move, in half units.
pub const PAY_CAP: i64 = 0x20_0000_0000;

/// The most a store may hold going into a payout: well clear of `i64`'s end,
/// whatever a day of payouts adds.
pub const STORE_CAP: i64 = 0x4000_0400_0000_0000;

/// Whether no store in a map holds more than `b`.
pub open spec fn capped(m: Map<Resource, i64>, b: int) -> bool {
    forall|r: Resource| #[trigger] held(m, r) <= b
}

/// Half of `t`, rounded down.
fn halve_floor(t: i64) -> (w: i64)
    requires
        -PAY_CAP - 1 <= t <= PAY_CAP + 1,
    ensures
        w == t / 2,
        t - 2 * w == t % 2,
{
    let w: i64 = if t >= 0 {
        t / 2
    } else {
        -((1 - t) / 2)
    };
    assert(w == t / 2 && t - 2 * w == t % 2) by (nonlinear_arith)
        requires
            w == (if t >= 0 { t / 2 } else { -((1 - t) / 2) }),
    ;
    w
}

/// Credit `d` half units to one store: the whole units are banked, never
/// below none, and an odd half is carried.
#[verifier::rlimit(40)]
fn credit_one(stores: &mut EnumMap<Resource, i64>, carry: &mut EnumSet<Resource>, r: Resource, d: i64)
    requires
        old(stores).wf(),
        old(carry).wf(),
        nonneg(old(stores)@),
        -PAY_CAP <= d <= PAY_CAP,
        held(old(stores)@, r) <= STORE_CAP + 3 * PAY_CAP,
    ensures
        final(stores).wf(),
        final(carry).wf(),
        nonneg(final(stores)@),
        (final(stores)@, final(carry)@) == credit((old(stores)@, old(carry)@), r, d as int),
        forall|q: Resource| #[trigger] held(final(stores)@, q) <= held(old(stores)@, q) + (if q == r {
            PAY_CAP as int
        } else {
            0
        }),
{
    let c: i64 = if carry.contains(&r) {
        1
    } else {
        0
    };
    let t = c + d;
    let whole = halve_floor(t);
    let have: i64 = match stores.get(&r) {
        Some(n) => *n,
        None => 0,
    };
    let sum = have + whole;
    let next = if sum < 0 {
        0
    } else {
        sum
    };
    stores.insert(r, next);
    if t - 2 * whole == 1 {
        carry.insert(r);
    } else {
        carry.remove(&r);
    }
    proof {
        assert(carry@ =~= credit((old(stores)@, old(carry)@), r, d as int).1);
        assert(stores@ =~= credit((old(stores)@, old(carry)@), r, d as int).0);
    }
}

/// Apply one source's whole payout, or none of it.
#[verifier::rlimit(40)]
fn pay_out(stores: &mut EnumMap<Resource, i64>, carry: &mut EnumSet<Resource>, deltas: &Vec<(Resource, i64)>)
    requires
        old(stores).wf(),
        old(carry).wf(),
        nonneg(old(stores)@),
        deltas@.len() <= 3,
        forall|i: int| 0 <= i < deltas@.len() ==> -PAY_CAP <= #[trigger] deltas@[i].1 <= PAY_CAP,
        capped(old(stores)@, STORE_CAP as int),
    ensures
        final(stores).wf(),
        final(carry).wf(),
        nonneg(final(stores)@),
        (final(stores)@, final(carry)@) == pay((old(stores)@, old(carry)@), deltas@),
        forall|r: Resource| #[trigger] held(final(stores)@, r) <= held(old(stores)@, r) + 3 * PAY_CAP,
{
    let ghost sc0 = (old(stores)@, old(carry)@);
    let n = deltas.len();
    let mut ok = true;
    let mut i: usize = 0;
    while i < n && ok
        invariant
            n == deltas@.len(),
            i <= n,
            stores.wf(),
            carry.wf(),
            sc0 == (stores@, carry@),
            ok == (forall|j: int| 0 <= j < i ==> halves(sc0.0, sc0.1, #[trigger] deltas@[j].0) + deltas@[j].1 >= 0),
            forall|j: int| 0 <= j < deltas@.len() ==> -PAY_CAP <= #[trigger] deltas@[j].1 <= PAY_CAP,
            capped(sc0.0, STORE_CAP as int),
        decreases n - i,
    {
        let (r, d) = deltas[i];
        assert(-PAY_CAP <= deltas@[i as int].1 <= PAY_CAP);
        let half: i128 = if carry.contains(&r) {
            1
        } else {
            0
        };
        let have: i64 = match stores.get(&r) {
            Some(n) => *n,
            None => 0,
        };
        assert(held(sc0.0, r) == have);
        assert(have <= STORE_CAP);
        let worth = 2 * (have as i128) + half + (d as i128);
        if worth < 0 {
            ok = false;
        }
        i = i + 1;
    }
    if !ok {
        return;
    }
    let mut k: usize = 0;
    while k < n
        invariant
            n == deltas@.len(),
            n <= 3,
            k <= n,
            stores.wf(),
            carry.wf(),
            nonneg(stores@),
            (stores@, carry@) == credit_all(sc0, deltas@.take(k as int)),
            forall|j: int| 0 <= j < deltas@.len() ==> -PAY_CAP <= #[trigger] deltas@[j].1 <= PAY_CAP,
            forall|r: Resource| #[trigger] held(stores@, r) <= held(sc0.0, r) + k * PAY_CAP,
            capped(sc0.0, STORE_CAP as int),
        decreases n - k,
    {
        let (r, d) = deltas[k];
        assert(-PAY_CAP <= deltas@[k as int].1 <= PAY_CAP);
        let ghost before = stores@;
        assert(held(before, r) <= held(sc0.0, r) + k * PAY_CAP);
        credit_one(stores, carry, r, d);
        proof {
            assert(deltas@.take(k + 1).drop_last() =~= deltas@.take(k as int));
            assert(deltas@.take(k + 1).last() == deltas@[k as int]);
            assert forall|q: Resource| #[trigger] held(stores@, q) <= held(sc0.0, q) + (k + 1) * PAY_CAP by {
                assert(held(before, q) <= held(sc0.0, q) + k * PAY_CAP);
            }
        }
        k = k + 1;
    }
    proof {
        assert(deltas@.take(n as int) =~= deltas@);
    }
}

/// Every trade's yield list is short and moves little per worker.
proof fn lemma_yields_small(j: Job)
    ensures
        data::job_half_yields(j).len() <= 3,
        forall|k: int|
            0 <= k < data::job_half_yields(j).len() ==> -10 <= #[trigger] data::job_half_yields(j)[k].1 <= 10,
{
    match j {
        Job::Hunter => {},
        Job::Trapper => {},
        Job::Tanner => {},
        Job::Charcutier => {},
        Job::IronMiner => {},
        Job::CoalMiner => {},
        Job::SulphurMiner => {},
        Job::Steelworker => {},
        Job::Armourer => {},
    }
}

/// A yield list for `n` workers.
fn scale(ys: &Vec<(Resource, i64)>, n: u32) -> (r: Vec<(Resource, i64)>)
    requires
        forall|k: int| 0 <= k < ys@.len() ==> -10 <= #[trigger] ys@[k].1 <= 10,
    ensures
        r@ == scaled_yields(ys@, n as int),
        forall|k: int| 0 <= k < r@.len() ==> -PAY_CAP <= #[trigger] r@[k].1 <= PAY_CAP,
{
    let mut r: Vec<(Resource, i64)> = Vec::new();
    let mut k: usize = 0;
    while k < ys.len()
        invariant
            k <= ys@.len(),
            forall|q: int| 0 <= q < ys@.len() ==> -10 <= #[trigger] ys@[q].1 <= 10,
            r@ == scaled_yields(ys@.take(k as int), n as int),
            forall|q: int| 0 <= q < r@.len() ==> -PAY_CAP <= #[trigger] r@[q].1 <= PAY_CAP,
        decreases ys@.len() - k,
    {
        let (res, y) = ys[k];
        assert(-10 <= ys@[k as int].1 <= 10);
        assert(-42949672950 <= y * (n as i64) <= 42949672950) by (nonlinear_arith)
            requires
                -10 <= y <= 10,
                0 <= n <= 4294967295,
        ;
        r.push((res, y * (n as i64)));
        proof {
            assert(ys@.take(k + 1) =~= ys@.take(k as int).push(ys@[k as int]));
            assert(scaled_yields(ys@.take(k + 1), n as int) =~= scaled_yields(ys@.take(k as int), n as int).push(
                (res, (y * n) as i64),
            ));
        }
        k = k + 1;
    }
    proof {
        assert(ys@.take(ys@.len() as int) =~= ys@);
    }
    r
}

/// The thieves take their cut, booking what they actually got.
fn skim_out(
    stores: &mut EnumMap<Resource, i64>,
    stolen: &mut EnumMap<Resource, i64>,
    cuts: &Vec<(Resource, i64)>,
)
    requires
        old(stores).wf(),
        old(stolen).wf(),
        nonneg(old(stores)@),
        cuts@ == data::thief_skim_spec(),
        capped(old(stolen)@, STORE_CAP as int),
    ensures
        final(stores).wf(),
        final(stolen).wf(),
        nonneg(final(stores)@),
        (final(stores)@, final(stolen)@) == skim(old(stores)@, old(stolen)@, cuts@),
        forall|r: Resource| #[trigger] held(final(stores)@, r) <= held(old(stores)@, r),
        forall|r: Resource| #[trigger] held(final(stolen)@, r) <= held(old(stolen)@, r) + 10,
{
    let ghost s0 = old(stores)@;
    let ghost t0 = old(stolen)@;
    let mut k: usize = 0;
    while k < cuts.len()
        invariant
            k <= cuts@.len(),
            cuts@ == data::thief_skim_spec(),
            stores.wf(),
            stolen.wf(),
            nonneg(stores@),
            (stores@, stolen@) == skim(s0, t0, cuts@.take(k as int)),
            forall|r: Resource| #[trigger] held(stores@, r) <= held(s0, r),
            forall|r: Resource| #[trigger] held(stolen@, r) <= held(t0, r) + 10,
            forall|r: Resource|
                (k == 0 || r != Resource::Wood) && (k <= 1 || r != Resource::Fur) && (k <= 2 || r
                    != Resource::Meat) ==> #[trigger] held(stolen@, r) == held(t0, r),
            capped(t0, STORE_CAP as int),
        decreases cuts@.len() - k,
    {
        let (r, d) = cuts[k];
        assert(-10 <= d < 0);
        let have: i64 = match stores.get(&r) {
            Some(n) => *n,
            None => 0,
        };
        let taken = if have + d < 0 {
            have
        } else {
            -d
        };
        let ghost stolen_before = stolen@;
        let ghost stores_before = stores@;
        if taken > 0 {
            let prev: i64 = match stolen.get(&r) {
                Some(n) => *n,
                None => 0,
            };
            assert(held(t0, r) <= STORE_CAP);
            assert(held(stolen_before, r) == held(t0, r));
            stolen.insert(r, prev + taken);
        }
        let sum = have + d;
        stores.insert(r, if sum < 0 {
            0
        } else {
            sum
        });
        proof {
            assert(cuts@.take(k + 1).drop_last() =~= cuts@.take(k as int));
            assert(cuts@.take(k + 1).last() == cuts@[k as int]);
            assert(stores@ =~= add_held(stores_before, r, d as int));
            assert forall|q: Resource| #[trigger] held(stores@, q) <= held(s0, q) by {
                assert(held(stores_before, q) <= held(s0, q));
                if q != r {
                    assert(held(stores@, q) == held(stores_before, q));
                }
            }
            assert(k == 0 ==> r == Resource::Wood);
            assert(k == 1 ==> r == Resource::Fur);
            assert(k == 2 ==> r == Resource::Meat);
            assert forall|q: Resource| #[trigger] held(stolen@, q) <= held(t0, q) + 10 by {
                if q != r {
                    assert(held(stolen@, q) == held(stolen_before, q));
                }
            }
            assert forall|q: Resource|
                (k + 1 == 0 || q != Resource::Wood) && (k + 1 <= 1 || q != Resource::Fur) && (k + 1
                    <= 2 || q != Resource::Meat) implies #[trigger] held(stolen@, q) == held(t0, q) by {
                assert(q != r);
                assert(held(stolen@, q) == held(stolen_before, q));
            }
        }
        k = k + 1;
    }
    proof {
        assert(cuts@.take(cuts@.len() as int) =~= cuts@);
    }
}

/// One round of payouts, on the tables themselves.
#[verifier::rlimit(40)]
fn pay_round(
    stores: &mut EnumMap<Resource, i64>,
    carry: &mut EnumSet<Resource>,
    stolen: &mut EnumMap<Resource, i64>,
    helping: bool,
    gatherers: u32,
    workers: &EnumMap<Job, u32>,
    robbed: bool,
)
    requires
        old(stores).wf(),
        old(carry).wf(),
        old(stolen).wf(),
        workers.wf(),
        nonneg(old(stores)@),
        capped(old(stores)@, 0x4000_0000_0000_0000),
        capped(old(stolen)@, STORE_CAP as int),
    ensures
        final(stores).wf(),
        final(carry).wf(),
        final(stolen).wf(),
        nonneg(final(stores)@),
        (final(stores)@, final(carry)@, final(stolen)@) == payouts(
            old(stores)@,
            old(carry)@,
            old(stolen)@,
            helping,
            gatherers as int,
            workers@,
            robbed,
        ),
        forall|r: Resource| #[trigger] held(final(stores)@, r) <= held(old(stores)@, r) + 33 * PAY_CAP,
        forall|r: Resource| #[trigger] held(final(stolen)@, r) <= held(old(stolen)@, r) + 10,
{
    let ghost s0 = old(stores)@;
    if helping {
        let deltas = vec![data::BUILDER_HALF_YIELD];
        assert(deltas@ =~= seq![data::BUILDER_HALF_YIELD]);
        pay_out(stores, carry, &deltas);
    }
    if gatherers > 0 {
        let deltas = vec![(Resource::Wood, 2 * (gatherers as i64))];
        assert(deltas@ =~= seq![(Resource::Wood, (2 * gatherers) as i64)]);
        let ghost before = stores@;
        assert forall|r: Resource| #[trigger] held(stores@, r) <= STORE_CAP by {
            assert(held(s0, r) <= 0x4000_0000_0000_0000);
        }
        pay_out(stores, carry, &deltas);
        assert forall|r: Resource| #[trigger] held(stores@, r) <= held(s0, r) + 6 * PAY_CAP by {
            assert(held(before, r) <= held(s0, r) + 3 * PAY_CAP);
        }
    }
    let ghost sc2 = (stores@, carry@);
    let mut i: usize = 0;
    while i < 9
        invariant
            i <= 9,
            stores.wf(),
            carry.wf(),
            workers.wf(),
            nonneg(stores@),
            (stores@, carry@) == pay_jobs(sc2, workers@, i as nat),
            forall|r: Resource| #[trigger] held(stores@, r) <= held(s0, r) + (6 + 3 * i) * PAY_CAP,
            capped(s0, 0x4000_0000_0000_0000),
        decreases 9 - i,
    {
        let job = Job::from_index(i);
        let w: u32 = match workers.get(&job) {
            Some(n) => *n,
            None => 0,
        };
        if w > 0 {
            let ys = job.half_yields();
            proof {
                lemma_yields_small(job);
            }
            let deltas = scale(&ys, w);
            let ghost before = stores@;
            assert forall|r: Resource| #[trigger] held(stores@, r) <= STORE_CAP by {
                assert(held(s0, r) <= 0x4000_0000_0000_0000);
            }
            pay_out(stores, carry, &deltas);
            assert forall|r: Resource| #[trigger] held(stores@, r) <= held(s0, r) + (6 + 3 * (i + 1))
                * PAY_CAP by {
                assert(held(before, r) <= held(s0, r) + (6 + 3 * i) * PAY_CAP);
            }
        }
        i = i + 1;
    }
    if robbed {
        let cuts = data::thief_skim();
        skim_out(stores, stolen, &cuts);
    }
}

/// Everyone's trade pays out at once, every slowed income delay.
#[verifier::rlimit(40)]
fn step_income(game: &mut Game)
    requires
        old(game).wf(),
        old(game).assigned() <= u32::MAX,
        capped(old(game).stores@, 0x4000_0000_0000_0000),
        capped(old(game).stolen@, STORE_CAP as int),
    ensures
        final(game).wf(),
        beyond_clock(*old(game), *final(game)),
        clock_of(*final(game)) == income_step(
            clock_of(*old(game)),
            old(game).workers@,
            old(game).thieves,
        ),
        forall|r: Resource| #[trigger] held(final(game).stores@, r) <= held(old(game).stores@, r) + 33 * PAY_CAP,
        forall|r: Resource| #[trigger] held(final(game).stolen@, r) <= held(old(game).stolen@, r) + 10,
{
    game.income_timer = if game.income_timer > 0 {
        game.income_timer - 1
    } else {
        0
    };
    if game.income_timer > 0 {
        return;
    }
    game.income_timer = pace::slowed(data::INCOME_DELAY);
    let helping = game.builder == Builder::Helping;
    let gatherers = game.gatherers();
    let robbed = game.thieves == Thieves::Active;
    pay_round(
        &mut game.stores,
        &mut game.carry,
        &mut game.stolen,
        helping,
        gatherers,
        &game.workers,
        robbed,
    );
}

/// The line a number of arrivals prints.
pub fn arrival_message(num: u32) -> (r: &'static str)
    ensures
        r@ == arrival_text(num as int),
{
    if num == 1 {
        "a stranger arrives in the night"
    } else if 2 <= num && num <= 4 {
        "a weathered family takes up in one of the huts."
    } else if 5 <= num && num <= 9 {
        "a small group arrives, all dust and bones."
    } else if 10 <= num && num <= 29 {
        "a convoy lurches in, equal parts worry and hope."
    } else {
        "the town's booming. word does get around."
    }
}

/// A fresh arrival delay from a draw.
fn next_arrival_delay(d: u64) -> (r: u32)
    ensures
        r == arrival_delay(d),
{
    let u = chance::unit_of(d);
    let k = ((u as u128) * 5) / (2 * (UNIT as u128));
    assert(k <= 2) by (nonlinear_arith)
        requires
            k == ((u as int) * 5) / (2 * 0x20_0000_0000_0000int),
            u < 0x20_0000_0000_0000,
    ;
    pace::slowed((k as u32) * 60 + 30)
}

/// How many arrive when there is room for `space`.
fn arrivals_for(space: u32, d: u64) -> (r: u32)
    requires
        space >= 1,
    ensures
        r == arrivals(space as int, d),
        1 <= r <= space,
{
    let u = chance::unit_of(d);
    assert((space as int) * ((u as int) + 0x20_0000_0000_0000int) <= 0xFFFF_FFFFint * 0x40_0000_0000_0000int) by (nonlinear_arith)
        requires
            u < 0x20_0000_0000_0000,
            space <= 0xFFFF_FFFF,
    ;
    let n = ((space as u128) * ((u as u128) + (UNIT as u128))) / (2 * (UNIT as u128));
    assert(n < space) by (nonlinear_arith)
        requires
            n == ((space as int) * ((u as int) + 0x20_0000_0000_0000int)) / (2 * 0x20_0000_0000_0000int),
            u < 0x20_0000_0000_0000,
            space >= 1,
    ;
    if n < 1 {
        1
    } else {
        n as u32
    }
}

/// Word gets around, on the two counters it moves. Returns the draws it
/// used (nought where it drew nothing).
fn arrive(
    pop_timer: &mut u32,
    population: &mut u32,
    huts: u32,
    rng: &mut StdRng,
    messages: &mut Vec<String>,
) -> (used: Ghost<Seq<u64>>)
    requires
        huts * data::HUT_ROOM <= u32::MAX,
    ensures
        used@.len() == 2,
        ({
            let c = population_step(
                Clock { pop_timer: *old(pop_timer), population: *old(population), ..arbitrary() },
                huts as int,
                used@,
            );
            &&& *final(pop_timer) == c.0.pop_timer
            &&& *final(population) == c.0.population
            &&& texts(final(messages)@) == texts(old(messages)@) + c.1
        }),
{
    let ghost said0 = texts(old(messages)@);
    let ghost mut used: Seq<u64> = seq![0u64, 0u64];
    assert(said0 + seq![] =~= said0);
    if huts > 0 {
        if *pop_timer == 0 {
            let d = draw(rng);
            *pop_timer = next_arrival_delay(d);
            proof {
                used = seq![d, 0u64];
            }
        } else {
            *pop_timer = *pop_timer - 1;
            if *pop_timer == 0 {
                let d = draw(rng);
                *pop_timer = next_arrival_delay(d);
                proof {
                    used = seq![d, 0u64];
                }
                let room = huts * data::HUT_ROOM;
                if room > *population {
                    let space = room - *population;
                    let d2 = draw(rng);
                    let num = arrivals_for(space, d2);
                    say(messages, arrival_message(num));
                    *population = *population + num;
                    proof {
                        used = seq![d, d2];
                    }
                    assert(texts(messages@) =~= said0 + seq![arrival_text(num as int)]);
                }
            }
        }
    }
    Ghost(used)
}

/// Word gets around. Returns the draws it used.
fn step_population(game: &mut Game, rng: &mut StdRng, messages: &mut Vec<String>) -> (used: Ghost<
    Seq<u64>,
>)
    requires
        old(game).wf(),
        old(game).count(Building::Hut) * data::HUT_ROOM <= u32::MAX,
    ensures
        final(game).wf(),
        beyond_clock(*old(game), *final(game)),
        used@.len() == 2,
        clock_of(*final(game)) == population_step(
            clock_of(*old(game)),
            old(game).count(Building::Hut),
            used@,
        ).0,
        texts(final(messages)@) == texts(old(messages)@) + population_step(
            clock_of(*old(game)),
            old(game).count(Building::Hut),
            used@,
        ).1,
{
    let huts = game.building_count(Building::Hut);
    arrive(&mut game.pop_timer, &mut game.population, huts, rng, messages)
}

/// The room's part of a second.
#[verifier::rlimit(40)]
fn step_room(game: &mut Game, messages: &mut Vec<String>)
    requires
        old(game).wf(),
    ensures
        final(game).wf(),
        beyond_clock(*old(game), *final(game)),
        clock_of(*final(game)) == room_step(clock_of(*old(game))).0,
        texts(final(messages)@) == texts(old(messages)@) + room_step(clock_of(*old(game))).1,
        forall|r: Resource| #[trigger] held(final(game).stores@, r) <= held(old(game).stores@, r) + 4,
{
    let ghost s0 = old(game).stores@;
    let ghost m0 = texts(old(messages)@);
    step_fire(game, messages);
    let ghost s1 = game.stores@;
    step_temperature(game, messages);
    step_builder(game, messages);
    let ghost s3 = game.stores@;
    step_need_wood(game, messages);
    proof {
        let (c1, t1) = fire_step(clock_of(*old(game)));
        let (c2, t2) = temperature_step(c1);
        let (c3, t3) = builder_step(c2);
        let (c4, t4) = need_wood_step(c3);
        assert(texts(messages@) =~= m0 + (t1 + t2 + t3 + t4));
        assert(s3 == s1);
        assert forall|r: Resource| #[trigger] held(game.stores@, r) <= held(s0, r) + 4 by {
            assert(held(s1, r) <= held(s0, r));
        }
    }
}

/// One second of village time. Every clock is an explicit countdown, so this
/// is the only place the world moves. Returns the draws it used.
#[verifier::rlimit(40)]
fn step_second(game: &mut Game, rng: &mut StdRng, messages: &mut Vec<String>) -> (used: Ghost<
    Seq<u64>,
>)
    requires
        old(game).wf(),
        old(game).assigned() <= u32::MAX,
        old(game).count(Building::Hut) * data::HUT_ROOM <= u32::MAX,
        capped(old(game).stores@, 0x3FFF_FFFF_FFFF_FFF0),
        capped(old(game).stolen@, 0x4000_0000_0000_0000),
    ensures
        final(game).wf(),
        beyond_clock(*old(game), *final(game)),
        ({
            let (c, m) = second(
                clock_of(*old(game)),
                old(game).count(Building::Hut),
                old(game).workers@,
                old(game).thieves,
                used@,
            );
            clock_of(*final(game)) == c && texts(final(messages)@) == texts(old(messages)@) + m
        }),
        forall|r: Resource| #[trigger] held(final(game).stores@, r) <= held(old(game).stores@, r) + 0x800_0000_0000,
        forall|r: Resource| #[trigger] held(final(game).stolen@, r) <= held(old(game).stolen@, r) + 10,
{
    let ghost s0 = old(game).stores@;
    let ghost m0 = texts(old(messages)@);
    step_room(game, messages);
    let ghost s4 = game.stores@;
    let ghost m4 = texts(messages@);
    assert forall|r: Resource| #[trigger] held(game.stores@, r) <= 0x4000_0000_0000_0000 by {
        assert(held(s0, r) <= 0x3FFF_FFFF_FFFF_FFF0);
    }
    assert forall|r: Resource| #[trigger] held(game.stolen@, r) <= STORE_CAP by {
        assert(held(old(game).stolen@, r) <= 0x4000_0000_0000_0000);
    }
    step_income(game);
    let ghost s5 = game.stores@;
    let used = step_population(game, rng, messages);
    proof {
        let (c4, t4) = room_step(clock_of(*old(game)));
        let c5 = income_step(c4, old(game).workers@, old(game).thieves);
        let (c6, t6) = population_step(c5, old(game).count(Building::Hut), used@);
        assert(texts(messages@) =~= m0 + (t4 + t6));
        assert(game.stores@ == s5);
        assert forall|r: Resource| #[trigger] held(game.stores@, r) <= held(s0, r) + 0x800_0000_0000 by {
            assert(held(s4, r) <= held(s0, r) + 4);
            assert(held(s5, r) <= held(s4, r) + 33 * PAY_CAP);
        }
    }
    used
}

pub const MSG_STRANGER_HELPS: &'static str =
    "the stranger is standing by the fire. she says she can help. says she builds things.";

/// What a settle did, for the caller's log and status line.
#[derive(Clone, Debug, Default)]
pub struct Settled {
    /// Notifications produced while time passed, oldest first.
    pub messages: Vec<String>,
    /// Village seconds actually credited.
    pub credited: u32,
    /// Real seconds that went uncredited because today's allowance ran out.
    pub withheld: u32,
}

/// A countdown `by` seconds on, saturating at zero.
pub open spec fn run_down(t: u32, by: u32) -> u32 {
    if t >= by {
        (t - by) as u32
    } else {
        0
    }
}

/// The real seconds a settle at `now` accounts for: credit never reaches back
/// past the session's connect time, and a fresh save (never settled) starts
/// its clock here.
pub open spec fn elapsed_secs(last_settled: i64, session_start: i64, now: i64) -> u32 {
    if last_settled == 0 {
        0
    } else {
        let floor = if session_start >= last_settled {
            session_start
        } else {
            last_settled
        };
        let gap = now - floor;
        if gap < 0 {
            0
        } else if gap > u32::MAX {
            u32::MAX
        } else {
            gap as u32
        }
    }
}

/// Time before the session connected is worth nothing: a settle accounts for
/// at most the seconds since the session's connect time, however long ago the
/// save was last settled.
pub proof fn law_credit_never_reaches_back_past_the_connect(last_settled: i64, session_start: i64, now: i64)
    ensures
        elapsed_secs(last_settled, session_start, now) <= if now > session_start {
            now - session_start
        } else {
            0
        },
{
}

/// The announcements of the build options that just appeared, in order.
pub open spec fn announce(bs: Seq<Building>) -> Seq<Seq<char>>
    decreases bs.len(),
{
    if bs.len() == 0 {
        seq![]
    } else {
        announce(bs.drop_last()) + match data::building_available_msg(bs.last()) {
            Some(t) => seq![t],
            None => seq![],
        }
    }
}

/// What a settle leaves behind, given the draws the seconds took: the clock
/// run forward over them, the stranger on her feet if the player is in the
/// room to see her wake, and the build options that came within reach, with
/// everything said along the way.
pub open spec fn settled_as(
    before: Game,
    after: Game,
    view: View,
    dss: Seq<Seq<u64>>,
    said: Seq<Seq<char>>,
) -> bool {
    let (c, m) = run(
        clock_of(before),
        before.count(Building::Hut),
        before.workers@,
        before.thieves,
        dss,
    );
    let wakes = view == View::Room && c.builder == Builder::Sleeping;
    let woke = if wakes {
        Clock { builder: Builder::Helping, ..c }
    } else {
        c
    };
    let greeting: Seq<Seq<char>> = if wakes {
        seq![MSG_STRANGER_HELPS@]
    } else {
        seq![]
    };
    let mid = Game { seen_buildings: before.seen_buildings, ..after };
    &&& clock_of(after) == woke
    &&& beyond_clock(
        Game {
            seen_buildings: after.seen_buildings,
            last_settled: after.last_settled,
            stoke_cooldown: after.stoke_cooldown,
            gather_cooldown: after.gather_cooldown,
            traps_cooldown: after.traps_cooldown,
            pace: after.pace,
            ..before
        },
        after,
    )
    &&& if woke.builder == Builder::Helping {
        &&& after.seen_buildings@ == before.seen_buildings@.union(
            Set::new(|b: Building| crate::model::build_eligible(mid, b)),
        )
        &&& said == m + greeting + announce(crate::model::newly_buildable(mid, 13))
    } else {
        &&& after.seen_buildings == before.seen_buildings
        &&& said == m + greeting
    }
}

/// The most a store may hold for a settle to be sure of staying in range:
/// a day of payouts on top stays well clear of `i64`'s end.
pub const SETTLE_CAP: i64 = 0x2000_0000_0000_0000;

/// The real seconds a settle at `now` accounts for.
fn elapsed_since(last_settled: i64, session_start: i64, now: i64) -> (e: u32)
    ensures
        e == elapsed_secs(last_settled, session_start, now),
{
    if last_settled == 0 {
        return 0;
    }
    let floor = if session_start >= last_settled {
        session_start
    } else {
        last_settled
    };
    let gap = (now as i128) - (floor as i128);
    if gap < 0 {
        0
    } else if gap > 0xFFFF_FFFFi128 {
        u32::MAX
    } else {
        gap as u32
    }
}

/// Step the village `seconds` times. Returns the draws each second took.
#[verifier::rlimit(40)]
fn clock_forward(game: &mut Game, seconds: u32, rng: &mut StdRng, messages: &mut Vec<String>) -> (dss:
    Ghost<Seq<Seq<u64>>>)
    requires
        old(game).wf(),
        old(game).assigned() <= u32::MAX,
        old(game).count(Building::Hut) * data::HUT_ROOM <= u32::MAX,
        seconds <= pace::DAILY_CREDIT_SECS,
        capped(old(game).stores@, SETTLE_CAP as int),
        capped(old(game).stolen@, SETTLE_CAP as int),
    ensures
        final(game).wf(),
        beyond_clock(*old(game), *final(game)),
        dss@.len() == seconds,
        ({
            let (c, m) = run(
                clock_of(*old(game)),
                old(game).count(Building::Hut),
                old(game).workers@,
                old(game).thieves,
                dss@,
            );
            clock_of(*final(game)) == c && texts(final(messages)@) == texts(old(messages)@) + m
        }),
{
    let ghost g1 = *old(game);
    let ghost c0 = clock_of(g1);
    let ghost huts = g1.count(Building::Hut);
    let ghost m0 = texts(old(messages)@);
    let ghost mut dss: Seq<Seq<u64>> = Seq::empty();
    assert(m0 + seq![] =~= m0);
    let mut i: u32 = 0;
    while i < seconds
        invariant
            i <= seconds,
            seconds <= pace::DAILY_CREDIT_SECS,
            game.wf(),
            g1.wf(),
            g1.assigned() <= u32::MAX,
            huts == g1.count(Building::Hut),
            huts * data::HUT_ROOM <= u32::MAX,
            beyond_clock(g1, *game),
            dss.len() == i,
            clock_of(*game) == run(c0, huts, g1.workers@, g1.thieves, dss).0,
            texts(messages@) == m0 + run(c0, huts, g1.workers@, g1.thieves, dss).1,
            forall|r: Resource| #[trigger] held(game.stores@, r) <= held(g1.stores@, r) + i * 0x800_0000_0000,
            forall|r: Resource| #[trigger] held(game.stolen@, r) <= held(g1.stolen@, r) + i * 10,
            capped(g1.stores@, SETTLE_CAP as int),
            capped(g1.stolen@, SETTLE_CAP as int),
        decreases seconds - i,
    {
        let ghost before = *game;
        let ghost said = texts(messages@);
        assert forall|r: Resource| #[trigger] held(game.stores@, r) <= 0x3FFF_FFFF_FFFF_FFF0 by {
            assert(held(g1.stores@, r) <= SETTLE_CAP);
        }
        assert forall|r: Resource| #[trigger] held(game.stolen@, r) <= 0x4000_0000_0000_0000 by {
            assert(held(g1.stolen@, r) <= SETTLE_CAP);
        }
        let used = step_second(game, rng, messages);
        proof {
            let prev = run(c0, huts, g1.workers@, g1.thieves, dss);
            let next = second(prev.0, huts, g1.workers@, g1.thieves, used@);
            assert(dss.push(used@).drop_last() =~= dss);
            dss = dss.push(used@);
            assert(texts(messages@) =~= m0 + (prev.1 + next.1));
            assert forall|r: Resource| #[trigger] held(game.stores@, r) <= held(g1.stores@, r) + (i + 1)
                * 0x800_0000_0000 by {
                assert(held(before.stores@, r) <= held(g1.stores@, r) + i * 0x800_0000_0000);
            }
            assert forall|r: Resource| #[trigger] held(game.stolen@, r) <= held(g1.stolen@, r) + (i + 1)
                * 10 by {
                assert(held(before.stolen@, r) <= held(g1.stolen@, r) + i * 10);
            }
        }
        i = i + 1;
    }
    Ghost(dss)
}

/// The announcements of the build options that just appeared.
fn announce_all(messages: &mut Vec<String>, newly: &Vec<Building>)
    ensures
        texts(final(messages)@) == texts(old(messages)@) + announce(newly@),
{
    let ghost m0 = texts(old(messages)@);
    assert(newly@.take(0) =~= seq![]);
    assert(m0 + seq![] =~= m0);
    let mut k: usize = 0;
    while k < newly.len()
        invariant
            k <= newly@.len(),
            texts(messages@) == m0 + announce(newly@.take(k as int)),
        decreases newly@.len() - k,
    {
        let building = newly[k];
        match building.available_msg() {
            Some(line) => {
                say(messages, line);
            },
            None => {},
        }
        proof {
            assert(newly@.take(k + 1).drop_last() =~= newly@.take(k as int));
            assert(newly@.take(k + 1).last() == building);
            assert(texts(messages@) =~= m0 + announce(newly@.take(k + 1)));
        }
        k = k + 1;
    }
    proof {
        assert(newly@.take(newly@.len() as int) =~= newly@);
    }
}

/// After the clock: the stranger gets to her feet if the player is in the
/// room to see it, and the builder offers whatever came within reach.
#[verifier::rlimit(40)]
fn greet_and_offer(game: &mut Game, view: View, messages: &mut Vec<String>)
    requires
        old(game).wf(),
    ensures
        final(game).wf(),
        ({
            let wakes = view == View::Room && old(game).builder == Builder::Sleeping;
            let woke = if wakes {
                Game { builder: Builder::Helping, ..*old(game) }
            } else {
                *old(game)
            };
            let greeting: Seq<Seq<char>> = if wakes {
                seq![MSG_STRANGER_HELPS@]
            } else {
                seq![]
            };
            &&& *final(game) == (Game { seen_buildings: final(game).seen_buildings, ..woke })
            &&& if woke.builder == Builder::Helping {
                &&& final(game).seen_buildings@ == old(game).seen_buildings@.union(
                    Set::new(|b: Building| crate::model::build_eligible(woke, b)),
                )
                &&& texts(final(messages)@) == texts(old(messages)@) + greeting + announce(
                    crate::model::newly_buildable(woke, 13),
                )
            } else {
                &&& final(game).seen_buildings == old(game).seen_buildings
                &&& texts(final(messages)@) == texts(old(messages)@) + greeting
            }
        }),
{
    let ghost m0 = texts(old(messages)@);
    if view == View::Room && game.builder == Builder::Sleeping {
        game.builder = Builder::Helping;
        say(messages, MSG_STRANGER_HELPS);
    } else {
        assert(m0 + seq![] =~= m0);
    }
    let ghost m1 = texts(messages@);
    let newly = game.refresh_build_options();
    if game.builder == Builder::Helping {
        announce_all(messages, &newly);
    } else {
        assert(newly@.len() == 0);
    }
}

/// The wall-clock half of a settle: the save remembers `now`, the cooldowns
/// run down on the real seconds, and the day's allowance is drawn on. Returns
/// the real seconds and the village seconds credited.
#[verifier::rlimit(40)]
fn open_settle(game: &mut Game, now: i64, session_start: i64) -> (r: (u32, u32))
    requires
        old(game).wf(),
        pace::sound_on(old(game).pace, pace::day_of(now as int)),
    ensures
        final(game).wf(),
        r.0 == elapsed_secs(old(game).last_settled, session_start, now),
        (final(game).pace, r.1) == pace::grant_spec(
            old(game).pace,
            pace::day_of(now as int),
            r.0,
            if old(game).count(Building::Hut) > 0 {
                pace::DAILY_CREDIT_FLOOR_SECS
            } else {
                0
            },
        ),
        r.1 <= pace::DAILY_CREDIT_SECS,
        *final(game) == (Game {
            last_settled: now,
            stoke_cooldown: run_down(old(game).stoke_cooldown, r.0),
            gather_cooldown: run_down(old(game).gather_cooldown, r.0),
            traps_cooldown: run_down(old(game).traps_cooldown, r.0),
            pace: final(game).pace,
            ..*old(game)
        }),
{
    let elapsed = elapsed_since(game.last_settled, session_start, now);
    game.last_settled = now;
    // Cooldowns first, on real time: a pacing rule must never leave a button
    // stuck.
    game.stoke_cooldown = if game.stoke_cooldown >= elapsed {
        game.stoke_cooldown - elapsed
    } else {
        0
    };
    game.gather_cooldown = if game.gather_cooldown >= elapsed {
        game.gather_cooldown - elapsed
    } else {
        0
    };
    game.traps_cooldown = if game.traps_cooldown >= elapsed {
        game.traps_cooldown - elapsed
    } else {
        0
    };
    // The daily floor only applies once the village stands: fast-forwarding a
    // bare room burns allowance on a world where nothing moves.
    let floor_secs = if game.has_village() {
        pace::DAILY_CREDIT_FLOOR_SECS
    } else {
        0
    };
    let credited = game.pace.grant(now, elapsed, floor_secs);
    (elapsed, credited)
}

/// The pieces of a settle add up to what `settled_as` says.
proof fn lemma_settled(
    before: Game,
    g1: Game,
    g2: Game,
    after: Game,
    view: View,
    dss: Seq<Seq<u64>>,
    said: Seq<Seq<char>>,
)
    requires
        g1 == (Game {
            last_settled: g1.last_settled,
            stoke_cooldown: g1.stoke_cooldown,
            gather_cooldown: g1.gather_cooldown,
            traps_cooldown: g1.traps_cooldown,
            pace: g1.pace,
            ..before
        }),
        beyond_clock(g1, g2),
        ({
            let (c, m) = run(
                clock_of(before),
                before.count(Building::Hut),
                before.workers@,
                before.thieves,
                dss,
            );
            clock_of(g2) == c && ({
                let wakes = view == View::Room && g2.builder == Builder::Sleeping;
                let woke = if wakes {
                    Game { builder: Builder::Helping, ..g2 }
                } else {
                    g2
                };
                let greeting: Seq<Seq<char>> = if wakes {
                    seq![MSG_STRANGER_HELPS@]
                } else {
                    seq![]
                };
                &&& after == (Game { seen_buildings: after.seen_buildings, ..woke })
                &&& if woke.builder == Builder::Helping {
                    &&& after.seen_buildings@ == g2.seen_buildings@.union(
                        Set::new(|b: Building| crate::model::build_eligible(woke, b)),
                    )
                    &&& said == seq![] + m + greeting + announce(crate::model::newly_buildable(woke, 13))
                } else {
                    &&& after.seen_buildings == g2.seen_buildings
                    &&& said == seq![] + m + greeting
                }
            })
        }),
    ensures
        settled_as(before, after, view, dss, said),
{
    let (c, m) = run(
        clock_of(before),
        before.count(Building::Hut),
        before.workers@,
        before.thieves,
        dss,
    );
    assert(seq![] + m =~= m);
    let wakes = view == View::Room && g2.builder == Builder::Sleeping;
    let woke = if wakes {
        Game { builder: Builder::Helping, ..g2 }
    } else {
        g2
    };
    let mid = Game { seen_buildings: before.seen_buildings, ..after };
    assert(g2.seen_buildings == before.seen_buildings);
    assert(mid == woke);
}

/// Advance the game to Unix second `now`.
///
/// `session_start` is when this session connected: credit never reaches back
/// past it, which is what makes logged-out time worth nothing. `view` is the
/// panel the player is on, because the stranger only gets to her feet when
/// somebody is in the room to see it. Cooldowns run down on the real seconds;
/// the village steps once per credited second.
#[verifier::rlimit(80)]
pub fn settle(game: &mut Game, view: View, now: i64, session_start: i64, rng: &mut StdRng) -> (s: Settled)
    requires
        old(game).wf(),
        old(game).assigned() <= u32::MAX,
        old(game).count(Building::Hut) * data::HUT_ROOM <= u32::MAX,
        pace::sound_on(old(game).pace, pace::day_of(now as int)),
        capped(old(game).stores@, SETTLE_CAP as int),
        capped(old(game).stolen@, SETTLE_CAP as int),
    ensures
        final(game).wf(),
        ({
            let e = elapsed_secs(old(game).last_settled, session_start, now);
            let floor = if old(game).count(Building::Hut) > 0 {
                pace::DAILY_CREDIT_FLOOR_SECS
            } else {
                0
            };
            &&& (final(game).pace, s.credited) == pace::grant_spec(
                old(game).pace,
                pace::day_of(now as int),
                e,
                floor,
            )
            &&& s.withheld == run_down(e, s.credited)
            &&& final(game).stoke_cooldown == run_down(old(game).stoke_cooldown, e)
            &&& final(game).gather_cooldown == run_down(old(game).gather_cooldown, e)
            &&& final(game).traps_cooldown == run_down(old(game).traps_cooldown, e)
        }),
        final(game).last_settled == now,
        exists|dss: Seq<Seq<u64>>|
            dss.len() == s.credited && settled_as(*old(game), *final(game), view, dss, texts(s.messages@)),
{
    let (elapsed, credited) = open_settle(game, now, session_start);
    let withheld = if elapsed >= credited {
        elapsed - credited
    } else {
        0
    };
    let ghost g1 = *game;
    let mut messages: Vec<String> = Vec::new();
    assert(texts(messages@) =~= seq![]);
    let dss = clock_forward(game, credited, rng, &mut messages);
    let ghost g2 = *game;
    greet_and_offer(game, view, &mut messages);
    proof {
        assert(clock_of(g1) == clock_of(*old(game)));
        lemma_settled(*old(game), g1, g2, *game, view, dss@, texts(messages@));
        assert(dss@.len() == credited && settled_as(*old(game), *game, view, dss@, texts(messages@)));
    }
    Settled { messages, credited, withheld }
}

// ---------------------------------------------------------------------------
// The traps
// ---------------------------------------------------------------------------

/// What a draw catches: the first row of the trap table whose threshold it
/// falls under, from row `i` on.
pub open spec fn catch_from(d: u64, i: int) -> Resource
    decreases 5 - i,
{
    if i >= 5 {
        data::trap_drop(5).1
    } else if chance::below(d, data::trap_drop(i).0 as int, 1000) {
        data::trap_drop(i).1
    } else {
        catch_from(d, i + 1)
    }
}

/// What a draw catches.
pub open spec fn catch(d: u64) -> Resource {
    catch_from(d, 0)
}

/// Whether no resource shows up twice in a haul.
pub open spec fn distinct_finds(h: Seq<(Resource, i64)>) -> bool {
    forall|i: int, j: int| 0 <= i < j < h.len() ==> #[trigger] h[i].0 != #[trigger] h[j].0
}

/// A haul with one more of `r`: its row counts up, or a new row starts.
pub open spec fn add_catch(h: Seq<(Resource, i64)>, r: Resource) -> Seq<(Resource, i64)> {
    if exists|j: int| 0 <= j < h.len() && #[trigger] h[j].0 == r {
        let j = choose|j: int| 0 <= j < h.len() && #[trigger] h[j].0 == r;
        h.update(j, (r, (h[j].1 + 1) as i64))
    } else {
        h.push((r, 1i64))
    }
}

/// What a run of draws catches, one row per resource in the order first
/// caught, with the count of each.
pub open spec fn haul(ds: Seq<u64>) -> Seq<(Resource, i64)>
    decreases ds.len(),
{
    if ds.len() == 0 {
        seq![]
    } else {
        add_catch(haul(ds.drop_last()), catch(ds.last()))
    }
}

/// Adding deltas that never name `r` leaves `r` where it was.
pub proof fn lemma_add_all_untouched(m: Map<Resource, i64>, d: Seq<(Resource, i64)>, r: Resource)
    requires
        forall|i: int| 0 <= i < d.len() ==> (#[trigger] d[i]).0 != r,
    ensures
        held(model::add_all(m, d), r) == held(m, r),
    decreases d.len(),
{
    if d.len() > 0 {
        lemma_add_all_untouched(m, d.drop_last(), r);
    }
}

/// Deltas that each name a different store, none larger than `most`, fit
/// on stores none of which holds more than `i64::MAX - most`.
pub proof fn lemma_distinct_deltas_fit(m: Map<Resource, i64>, d: Seq<(Resource, i64)>, most: int)
    requires
        0 <= most,
        forall|r: Resource| 0 <= #[trigger] held(m, r) <= i64::MAX - most,
        distinct_finds(d),
        forall|i: int| 0 <= i < d.len() ==> 0 <= #[trigger] d[i].1 <= most,
    ensures
        model::add_all_fits(m, d),
    decreases d.len(),
{
    if d.len() > 0 {
        let front = d.drop_last();
        assert forall|i: int, j: int| 0 <= i < j < front.len() implies #[trigger] front[i].0
            != #[trigger] front[j].0 by {
            assert(d[i] == front[i] && d[j] == front[j]);
        }
        assert forall|i: int| 0 <= i < front.len() implies 0 <= #[trigger] front[i].1 <= most by {
            assert(d[i] == front[i]);
        }
        lemma_distinct_deltas_fit(m, front, most);
        let last = d.last();
        assert forall|i: int| 0 <= i < front.len() implies (#[trigger] front[i]).0 != last.0 by {
            assert(d[i] == front[i]);
            assert(d[i].0 != d[d.len() - 1].0);
        }
        lemma_add_all_untouched(m, front, last.0);
        assert(0 <= d[d.len() - 1].1 <= most);
    }
}

/// What a draw catches.
fn catch_of(d: u64) -> (r: Resource)
    ensures
        r == catch(d),
{
    let mut i: usize = 0;
    while i < 5
        invariant
            i <= 5,
            catch(d) == catch_from(d, i as int),
        decreases 5 - i,
    {
        let (under, resource, _) = data::trap_drop_at(i);
        if chance::draw_below(d, under, 1000) {
            return resource;
        }
        i = i + 1;
    }
    data::trap_drop_at(5).1
}

/// Roll what the traps caught: one draw per roll.
pub fn roll_traps(game: &Game, rng: &mut StdRng) -> (drops: Vec<(Resource, i64)>)
    requires
        game.wf(),
        game.count(Building::Trap) * 2 <= u32::MAX,
    ensures
        exists|ds: Seq<u64>|
            ds.len() == game.count(Building::Trap) + game.baited_spec() && drops@ == haul(ds),
        distinct_finds(drops@),
        forall|j: int|
            0 <= j < drops@.len() ==> 1 <= #[trigger] drops@[j].1 <= game.count(Building::Trap)
                + game.baited_spec(),
{
    let rolls = game.trap_rolls();
    let mut drops: Vec<(Resource, i64)> = Vec::new();
    let ghost mut ds: Seq<u64> = seq![];
    let mut n: u32 = 0;
    while n < rolls
        invariant
            n <= rolls,
            ds.len() == n,
            drops@ == haul(ds),
            distinct_finds(drops@),
            forall|j: int| 0 <= j < drops@.len() ==> 1 <= #[trigger] drops@[j].1 <= n,
        decreases rolls - n,
    {
        let d = draw(rng);
        let resource = catch_of(d);
        let mut j: usize = 0;
        let mut found = false;
        while j < drops.len() && !found
            invariant
                j <= drops@.len(),
                found ==> j < drops@.len() && drops@[j as int].0 == resource,
                !found ==> forall|k: int| 0 <= k < j ==> #[trigger] drops@[k].0 != resource,
            decreases drops@.len() - j + (if found {
                0int
            } else {
                1int
            }),
        {
            if drops[j].0 == resource {
                found = true;
            } else {
                j = j + 1;
            }
        }
        let ghost before = drops@;
        if found {
            let count = drops[j].1;
            drops.set(j, (resource, count + 1));
            proof {
                let w = choose|w: int| 0 <= w < before.len() && #[trigger] before[w].0 == resource;
                assert(before[j as int].0 == resource);
                if w < j {
                    assert(before[w].0 != before[j as int].0);
                } else if w > j {
                    assert(before[j as int].0 != before[w].0);
                }
                assert(w == j);
            }
        } else {
            drops.push((resource, 1));
            proof {
                assert(!exists|w: int| 0 <= w < before.len() && #[trigger] before[w].0 == resource);
            }
        }
        proof {
            assert(ds.push(d).drop_last() =~= ds);
            ds = ds.push(d);
        }
        n = n + 1;
    }
    drops
}

/// The line for one trap find, from the same table as the drops.
pub open spec fn trap_text(r: Resource) -> Seq<char> {
    if r == Resource::Fur {
        data::trap_drop(0).2
    } else if r == Resource::Meat {
        data::trap_drop(1).2
    } else if r == Resource::Scales {
        data::trap_drop(2).2
    } else if r == Resource::Teeth {
        data::trap_drop(3).2
    } else if r == Resource::Cloth {
        data::trap_drop(4).2
    } else if r == Resource::Charm {
        data::trap_drop(5).2
    } else {
        "something"@
    }
}

/// The first `n` finds, commas between them and an "and" before the last of
/// the whole list.
pub open spec fn listing(finds: Seq<Seq<char>>, n: nat) -> Seq<char>
    decreases n,
{
    if n == 0 {
        seq![]
    } else {
        let sep: Seq<char> = if n - 1 == 0 {
            seq![]
        } else if n - 1 == finds.len() - 1 {
            " and "@
        } else {
            ", "@
        };
        listing(finds, (n - 1) as nat) + sep + finds[n - 1]
    }
}

/// The line a haul prints.
pub open spec fn haul_text(drops: Seq<(Resource, i64)>) -> Seq<char> {
    "the traps contain "@ + listing(
        drops.map_values(|e: (Resource, i64)| trap_text(e.0)),
        drops.len(),
    )
}

/// The message for one trap find.
fn trap_message(resource: Resource) -> (r: &'static str)
    ensures
        r@ == trap_text(resource),
{
    let mut i: usize = 0;
    while i < data::TRAP_DROP_COUNT
        invariant
            i <= data::TRAP_DROP_COUNT,
            forall|k: int| 0 <= k < i ==> #[trigger] data::trap_drop(k).1 != resource,
        decreases data::TRAP_DROP_COUNT - i,
    {
        let (_, r, message) = data::trap_drop_at(i);
        if r == resource {
            return message;
        }
        i = i + 1;
    }
    assert(data::trap_drop(0).1 != resource);
    assert(data::trap_drop(1).1 != resource);
    assert(data::trap_drop(2).1 != resource);
    assert(data::trap_drop(3).1 != resource);
    assert(data::trap_drop(4).1 != resource);
    assert(data::trap_drop(5).1 != resource);
    "something"
}

/// The line a trap haul prints: commas between finds and an "and" before
/// the last.
pub fn haul_message(drops: &[(Resource, i64)]) -> (r: String)
    ensures
        r@ == haul_text(drops@),
{
    let ghost finds = drops@.map_values(|e: (Resource, i64)| trap_text(e.0));
    let mut message = String::from_str("the traps contain ");
    let n = drops.len();
    let mut i: usize = 0;
    while i < n
        invariant
            i <= n,
            n == drops@.len(),
            finds == drops@.map_values(|e: (Resource, i64)| trap_text(e.0)),
            message@ == "the traps contain "@ + listing(finds, i as nat),
        decreases n - i,
    {
        let ghost before = message@;
        if i > 0 {
            if i == n - 1 {
                message.append(" and ");
            } else {
                message.append(", ");
            }
        }
        message.append(trap_message(drops[i].0));
        proof {
            let sep: Seq<char> = if i == 0 {
                seq![]
            } else if i == finds.len() - 1 {
                " and "@
            } else {
                ", "@
            };
            assert(finds[i as int] == trap_text(drops@[i as int].0));
            assert(message@ =~= "the traps contain "@ + (listing(finds, i as nat) + sep + finds[i as int]));
        }
        i = i + 1;
    }
    message
}


/// A round with nobody on a trade pays no trade.
proof fn lemma_no_trade_pays(sc: (Map<Resource, i64>, Set<Resource>), workers: Map<Job, u32>, n: nat)
    requires
        forall|j: Job| #[trigger] held_u(workers, j) == 0,
    ensures
        pay_jobs(sc, workers, n) == sc,
    decreases n,
{
    if n > 0 {
        lemma_no_trade_pays(sc, workers, (n - 1) as nat);
    }
}

/// While the builder is helping, every income round pays her two wood: with
/// nothing else paying out, the wood in the store room goes up by exactly
/// two, any half unit carried stays carried, and nothing else moves.
pub proof fn law_the_builder_pays_two_wood_a_round(
    stores: Map<Resource, i64>,
    carry: Set<Resource>,
    stolen: Map<Resource, i64>,
    workers: Map<Job, u32>,
)
    requires
        nonneg(stores),
        held(stores, Resource::Wood) <= i64::MAX - 2,
        forall|j: Job| #[trigger] held_u(workers, j) == 0,
    ensures
        ({
            let (after, carried, still) = payouts(stores, carry, stolen, true, 0, workers, false);
            &&& held(after, Resource::Wood) == held(stores, Resource::Wood) + 2
            &&& forall|r: Resource| r != Resource::Wood ==> #[trigger] held(after, r) == held(stores, r)
            &&& carried.contains(Resource::Wood) == carry.contains(Resource::Wood)
            &&& still == stolen
        }),
{
    let ds = seq![data::BUILDER_HALF_YIELD];
    let sc1 = pay((stores, carry), ds);
    assert(affordable((stores, carry), ds));
    assert(ds.drop_last() =~= Seq::<(Resource, i64)>::empty());
    assert(credit_all((stores, carry), ds.drop_last()) == (stores, carry));
    let t = half_of(carry, Resource::Wood) + 4;
    assert(t / 2 == 2 && (t % 2 == 1) == carry.contains(Resource::Wood));
    assert(sc1 == credit((stores, carry), Resource::Wood, 4));
    assert(sc1.0 == add_held(stores, Resource::Wood, 2));
    lemma_no_trade_pays(sc1, workers, 9);
    assert(payouts(stores, carry, stolen, true, 0, workers, false) == (sc1.0, sc1.1, stolen));
}


/// Every idle villager gathers a log a round: with the builder away and
/// nobody on a trade, the wood goes up by exactly the number of gatherers
/// and nothing else moves.
pub proof fn law_each_gatherer_brings_a_log_a_round(
    stores: Map<Resource, i64>,
    carry: Set<Resource>,
    stolen: Map<Resource, i64>,
    workers: Map<Job, u32>,
    gatherers: int,
)
    requires
        nonneg(stores),
        0 < gatherers <= u32::MAX,
        held(stores, Resource::Wood) <= i64::MAX - gatherers,
        forall|j: Job| #[trigger] held_u(workers, j) == 0,
    ensures
        ({
            let (after, carried, still) = payouts(stores, carry, stolen, false, gatherers, workers, false);
            &&& held(after, Resource::Wood) == held(stores, Resource::Wood) + gatherers
            &&& forall|r: Resource| r != Resource::Wood ==> #[trigger] held(after, r) == held(stores, r)
            &&& carried.contains(Resource::Wood) == carry.contains(Resource::Wood)
            &&& still == stolen
        }),
{
    let ds = seq![(Resource::Wood, (2 * gatherers) as i64)];
    let sc2 = pay((stores, carry), ds);
    assert(affordable((stores, carry), ds));
    assert(ds.drop_last() =~= Seq::<(Resource, i64)>::empty());
    assert(credit_all((stores, carry), ds.drop_last()) == (stores, carry));
    let t = half_of(carry, Resource::Wood) + 2 * gatherers;
    assert(t / 2 == gatherers && (t % 2 == 1) == carry.contains(Resource::Wood));
    assert(sc2 == credit((stores, carry), Resource::Wood, 2 * gatherers));
    assert(sc2.0 == add_held(stores, Resource::Wood, gatherers));
    lemma_no_trade_pays(sc2, workers, 9);
    assert(payouts(stores, carry, stolen, false, gatherers, workers, false) == (sc2.0, sc2.1, stolen));
}

} // verus!
