//! The wasteland: generating the map, walking it, burning supplies, and
//! getting home (or not).
//!
//! A pure rules module. Nothing here renders, saves or logs on its own: every
//! entry point returns a tagged outcome and appends its lines to a `Vec`, and
//! the session decides what to do with them. Expeditions are live play: they
//! run on keypresses and wall clock, never on village time.
use rand::rngs::StdRng;
use vstd::prelude::*;

use crate::chance::{self, draw, UNIT};
use crate::collections::{EnumMap, EnumSet, Keyed};
use crate::data::{self, Blueprint, Building, Perk, Resource};
use crate::model::{
    self, add_held, cell, clamp0, distance_from_home, full_grid, held, nonneg, put_cell, Battleship,
    Expedition, Game, ShipState, WorldMap, GRID,
};
use crate::sim::{say, texts};
use crate::world_data::{self, Tile};

verus! {

/// Which way a step goes.
#[derive(Clone, Copy, Debug, PartialEq, Eq, Structural)]
pub enum Direction {
    North,
    South,
    East,
    West,
}

impl Direction {
    /// The square a step moves by.
    pub fn delta(self) -> (r: (i32, i32))
        ensures
            r == match self {
                Direction::North => (0i32, -1i32),
                Direction::South => (0i32, 1i32),
                Direction::East => (1i32, 0i32),
                Direction::West => (-1i32, 0i32),
            },
    {
        match self {
            Direction::North => (0, -1),
            Direction::South => (0, 1),
            Direction::East => (1, 0),
            Direction::West => (-1, 0),
        }
    }
}

/// What a step landed on.
#[derive(Clone, Copy, Debug, PartialEq, Eq)]
pub enum Step {
    /// Nothing but ground.
    Walked,
    /// The village: the trip is over, safely.
    Home,
    /// A landmark's setpiece starts.
    Setpiece(&'static str),
    /// Something out there picked a fight.
    Fight,
    /// Starved or died of thirst.
    Died,
    /// The edge of the map: nothing happened at all.
    Blocked,
}

/// Whether a square is on the grid.
pub open spec fn on_grid(x: int, y: int) -> bool {
    0 <= x < GRID && 0 <= y < GRID
}

/// Manhattan distance between two squares.
pub open spec fn manhattan(x: int, y: int, a: int, b: int) -> int {
    (if x >= a {
        x - a
    } else {
        a - x
    }) + (if y >= b {
        y - b
    } else {
        b - y
    })
}

/// The mines a cleared setpiece hands over, by scene name.
pub fn mine_for(scene: &str) -> (r: Option<Building>)
    ensures
        r == (if scene@ == "ironmine"@ {
            Some(Building::IronMine)
        } else if scene@ == "coalmine"@ {
            Some(Building::CoalMine)
        } else if scene@ == "sulphurmine"@ {
            Some(Building::SulphurMine)
        } else {
            None
        }),
{
    if str_eq(scene, "ironmine") {
        Some(Building::IronMine)
    } else if str_eq(scene, "coalmine") {
        Some(Building::CoalMine)
    } else if str_eq(scene, "sulphurmine") {
        Some(Building::SulphurMine)
    } else {
        None
    }
}

/// Whether two strings are the same, character for character.
pub fn str_eq(a: &str, b: &str) -> (r: bool)
    ensures
        r == (a@ == b@),
{
    let n = a.unicode_len();
    if n != b.unicode_len() {
        return false;
    }
    let mut i: usize = 0;
    while i < n
        invariant
            n == a@.len(),
            n == b@.len(),
            i <= n,
            forall|k: int| 0 <= k < i ==> a@[k] == b@[k],
        decreases n - i,
    {
        if a.get_char(i) != b.get_char(i) {
            return false;
        }
        i = i + 1;
    }
    assert(a@ =~= b@);
    true
}

/// Whether the pack keeps an item between trips rather than dropping it off
/// at home: food, ammunition, charms, medicine, weapons and anything the
/// workshop makes.
pub open spec fn stays_packed(item: Resource) -> bool {
    item == Resource::CuredMeat || item == Resource::Bullets || item == Resource::EnergyCell || item
        == Resource::Charm || item == Resource::Medicine || (exists|w: world_data::Weapon|
        world_data::weapon_item(w) == Some(item)) || (exists|i: int|
        0 <= i < data::CRAFTABLE_COUNT && #[trigger] data::craft_entry(i).0 == item)
}

/// Whether an item is dropped off at home rather than kept in the pack.
pub fn leave_it_at_home(item: Resource) -> (r: bool)
    ensures
        r == !stays_packed(item),
{
    match item {
        Resource::CuredMeat | Resource::Bullets | Resource::EnergyCell | Resource::Charm
        | Resource::Medicine => {
            return false;
        },
        _ => {},
    }
    if world_data::Weapon::of(item).is_some() {
        return false;
    }
    // Anything the workshop makes stays packed too.
    let recipes = data::craftables();
    let mut i: usize = 0;
    while i < recipes.len()
        invariant
            recipes@.len() == data::CRAFTABLE_COUNT,
            forall|k: int|
                0 <= k < data::CRAFTABLE_COUNT ==> (#[trigger] recipes@[k]).item == data::craft_entry(
                    k,
                ).0,
            i <= recipes@.len(),
            forall|k: int| 0 <= k < i ==> #[trigger] data::craft_entry(k).0 != item,
        decreases recipes@.len() - i,
    {
        if recipes[i].item == item {
            assert(data::craft_entry(i as int).0 == item);
            return false;
        }
        i = i + 1;
    }
    true
}

/// The scene a visit to the ravaged battleship opens on: the wreck is
/// explored first, and every visit after that steps into the elevators.
pub fn battleship_scene(trip: &Expedition) -> (r: &'static str)
    ensures
        r@ == (if trip.battleship.entered {
            "executioner-antechamber"@
        } else {
            "executioner-intro"@
        }),
{
    if trip.battleship.entered {
        "executioner-antechamber"
    } else {
        "executioner-intro"
    }
}

/// Writing one cell of a full layer changes that cell and no other.
pub proof fn lemma_put_cell(rows: Seq<Seq<char>>, x: int, y: int, c: char, a: int, b: int)
    requires
        full_grid(rows),
    ensures
        full_grid(put_cell(rows, x, y, c)),
        on_grid(a, b) ==> cell(put_cell(rows, x, y, c), a, b) == if a == x && b == y {
            Some(c)
        } else {
            cell(rows, a, b)
        },
{
    let after = put_cell(rows, x, y, c);
    if on_grid(x, y) {
        assert forall|i: int| 0 <= i < GRID implies #[trigger] after[i].len() == GRID by {
            assert(rows[i].len() == GRID);
        }
        if on_grid(a, b) {
            assert(rows[b].len() == GRID);
        }
    }
}

/// `after` is `before` with every square within `r` of `(x, y)` lit, and
/// nothing else changed.
pub open spec fn lit(before: WorldMap, after: WorldMap, x: int, y: int, r: int) -> bool {
    &&& after.wf()
    &&& after.tiles == before.tiles
    &&& after.visited == before.visited
    &&& forall|a: int, b: int|
        on_grid(a, b) ==> #[trigger] after.seen_at(a, b) == (before.seen_at(a, b) || (a == x && b == y)
            || manhattan(a, b, x, y) <= r)
}

/// Light everything within `r` of a square, in a diamond. The square
/// itself is lit whatever `r` is.
pub fn uncover(map: &mut WorldMap, x: i32, y: i32, r: i32)
    requires
        old(map).wf(),
        r > i32::MIN,
        r >= 0 ==> i32::MIN <= x - r && x + r <= i32::MAX && i32::MIN <= y - r && y + r <= i32::MAX,
    ensures
        lit(*old(map), *final(map), x as int, y as int, r as int),
{
    let ghost m0 = *old(map);
    proof {
        assert forall|a: int, b: int| on_grid(a, b) implies #[trigger] cell(
            put_cell(m0.mask_v(), x as int, y as int, '1'),
            a,
            b,
        ) == if a == x && b == y {
            Some('1')
        } else {
            cell(m0.mask_v(), a, b)
        } by {
            lemma_put_cell(m0.mask_v(), x as int, y as int, '1', a, b);
        }
        lemma_put_cell(m0.mask_v(), x as int, y as int, '1', 0, 0);
    }
    map.set_seen(x, y);
    let rr = r as i64;
    let mut i: i64 = -rr;
    while i <= rr
        invariant
            -rr <= i,
            rr >= 0 ==> i <= rr + 1,
            rr == r,
            r > i32::MIN,
            r >= 0 ==> i32::MIN <= x - r && x + r <= i32::MAX && i32::MIN <= y - r && y + r <= i32::MAX,
            map.wf(),
            map.tiles == m0.tiles,
            map.visited == m0.visited,
            forall|a: int, b: int|
                on_grid(a, b) ==> #[trigger] map.seen_at(a, b) == (m0.seen_at(a, b) || (a == x && b
                    == y) || (a - x < i && manhattan(a, b, x as int, y as int) <= r)),
        decreases rr + 1 - i,
    {
        let span = rr - if i < 0 {
            -i
        } else {
            i
        };
        let mut j: i64 = -span;
        while j <= span
            invariant
                -rr <= i <= rr,
                rr == r,
                0 <= span <= rr,
                span == rr - (if i < 0 {
                    -i
                } else {
                    i as int
                }),
                -span <= j <= span + 1,
                i32::MIN <= x - r && x + r <= i32::MAX && i32::MIN <= y - r && y + r <= i32::MAX,
                map.wf(),
                map.tiles == m0.tiles,
                map.visited == m0.visited,
                forall|a: int, b: int|
                    on_grid(a, b) ==> #[trigger] map.seen_at(a, b) == (m0.seen_at(a, b) || (a == x && b
                        == y) || (a - x < i && manhattan(a, b, x as int, y as int) <= r) || (a - x == i
                        && b - y < j && -span <= b - y)),
            decreases span + 1 - j,
        {
            let ghost prev = *map;
            let sx = (x as i64 + i) as i32;
            let sy = (y as i64 + j) as i32;
            map.set_seen(sx, sy);
            proof {
                lemma_put_cell(prev.mask_v(), sx as int, sy as int, '1', 0, 0);
                assert forall|a: int, b: int| on_grid(a, b) implies #[trigger] map.seen_at(a, b) == (
                prev.seen_at(a, b) || (a == x + i && b == y + j)) by {
                    lemma_put_cell(prev.mask_v(), sx as int, sy as int, '1', a, b);
                }
            }
            j = j + 1;
        }
        i = i + 1;
    }
}

/// The lantern, which the scout perk doubles.
pub open spec fn light_radius(game: Game) -> int {
    if game.perk(Perk::Scout) {
        (world_data::LIGHT_RADIUS * 2) as int
    } else {
        world_data::LIGHT_RADIUS as int
    }
}

/// The lantern, which the scout perk doubles.
fn light(map: &mut WorldMap, x: i32, y: i32, game: &Game)
    requires
        old(map).wf(),
        game.wf(),
        -0x1000_0000 <= x <= 0x1000_0000,
        -0x1000_0000 <= y <= 0x1000_0000,
    ensures
        lit(*old(map), *final(map), x as int, y as int, light_radius(*game)),
{
    let radius = if game.has_perk(Perk::Scout) {
        world_data::LIGHT_RADIUS * 2
    } else {
        world_data::LIGHT_RADIUS
    };
    uncover(map, x, y, radius);
}

// ---------------------------------------------------------------------------
// Walking
// ---------------------------------------------------------------------------

/// The danger warning after a step: it turns on eight squares out without
/// iron armour or eighteen without steel, and off again closer in. Returns
/// the new flag and whether it flipped.
pub open spec fn danger_after(danger: bool, distance: int, iron: int, steel: int) -> (bool, bool) {
    if !danger {
        if iron == 0 && distance >= 8 {
            (true, true)
        } else if steel == 0 && distance >= 18 {
            (true, true)
        } else {
            (false, false)
        }
    } else if distance < 8 {
        (false, true)
    } else if distance < 18 && iron > 0 {
        (false, true)
    } else {
        (true, false)
    }
}

/// Whether the danger warning flipped this step.
fn check_danger(game: &Game, trip: &mut Expedition) -> (flipped: bool)
    requires
        game.wf(),
        -1000 <= old(trip).x <= 1000,
        -1000 <= old(trip).y <= 1000,
    ensures
        (final(trip).danger, flipped) == danger_after(
            old(trip).danger,
            distance_from_home(old(trip).x as int, old(trip).y as int),
            game.stock(Resource::IronArmour),
            game.stock(Resource::SteelArmour),
        ),
        *final(trip) == (Expedition { danger: final(trip).danger, ..*old(trip) }),
{
    let distance = trip.distance();
    if !trip.danger {
        if game.store(Resource::IronArmour) == 0 && distance >= 8 {
            trip.danger = true;
            return true;
        }
        if game.store(Resource::SteelArmour) == 0 && distance >= 18 {
            trip.danger = true;
            return true;
        }
        return false;
    }
    if distance < 8 {
        trip.danger = false;
        return true;
    }
    if distance < 18 && game.store(Resource::IronArmour) > 0 {
        trip.danger = false;
        return true;
    }
    false
}

/// The moves a strip of meat lasts, which the slow metabolism doubles.
pub open spec fn moves_per_food(g: Game) -> int {
    if g.perk(Perk::SlowMetabolism) {
        (world_data::MOVES_PER_FOOD * 2) as int
    } else {
        world_data::MOVES_PER_FOOD as int
    }
}

/// The moves a ration of water lasts, which the desert rat doubles.
pub open spec fn moves_per_water(g: Game) -> int {
    if g.perk(Perk::DesertRat) {
        (world_data::MOVES_PER_WATER * 2) as int
    } else {
        world_data::MOVES_PER_WATER as int
    }
}

/// What a strip of cured meat heals, which the gastronome doubles.
pub open spec fn meat_heal_of(g: Game) -> int {
    if g.perk(Perk::Gastronome) {
        world_data::MEAT_HEAL * 2
    } else {
        world_data::MEAT_HEAL as int
    }
}

/// One move's eating: every so many moves a strip of cured meat goes, and
/// heals; with none left hunger warns once and then kills, and enough
/// deaths by hunger teach a slower metabolism.
pub open spec fn ate(
    g: Game,
    t: Expedition,
    g2: Game,
    t2: Expedition,
    alive: bool,
    said: Seq<Seq<char>>,
) -> bool {
    let moves = t.food_move + 1;
    let meat = t.carried(Resource::CuredMeat) - 1;
    if moves < moves_per_food(g) {
        &&& alive
        &&& g2 == g
        &&& t2 == (Expedition { food_move: moves as u32, ..t })
        &&& said == Seq::<Seq<char>>::empty()
    } else if meat == 0 {
        &&& alive
        &&& g2 == g
        &&& t2 == (Expedition { food_move: 0, outfit: t2.outfit, ..t })
        &&& t2.outfit@ == t.outfit@.insert(Resource::CuredMeat, 0)
        &&& said == seq![world_data::MSG_MEAT_OUT@]
    } else if meat < 0 && !t.starvation {
        &&& alive
        &&& g2 == g
        &&& t2 == (Expedition { food_move: 0, outfit: t2.outfit, starvation: true, ..t })
        &&& t2.outfit@ == t.outfit@.insert(Resource::CuredMeat, 0)
        &&& said == seq![world_data::MSG_STARVING@]
    } else if meat < 0 {
        let learns = g.starved + 1 >= world_data::STARVED_PERK_AT && !g.perk(world_data::STARVED_PERK);
        &&& !alive
        &&& g2 == (Game {
            starved: (g.starved + 1) as u32,
            perks: g2.perks,
            ..g
        })
        &&& g2.perks@ == if g.starved + 1 >= world_data::STARVED_PERK_AT {
            g.perks@.insert(world_data::STARVED_PERK)
        } else {
            g.perks@
        }
        &&& t2 == (Expedition { food_move: 0, outfit: t2.outfit, ..t })
        &&& t2.outfit@ == t.outfit@.insert(Resource::CuredMeat, 0)
        &&& said == if learns {
            seq![data::perk_notify(world_data::STARVED_PERK)]
        } else {
            Seq::<Seq<char>>::empty()
        }
    } else {
        let healed = t.hp + meat_heal_of(g);
        let cap = world_data::BASE_HEALTH + model::armour_bonus(g);
        &&& alive
        &&& g2 == g
        &&& t2 == (Expedition {
            food_move: 0,
            outfit: t2.outfit,
            starvation: false,
            hp: (if healed < cap {
                healed
            } else {
                cap
            }) as i64,
            ..t
        })
        &&& t2.outfit@ == t.outfit@.insert(Resource::CuredMeat, meat as i64)
        &&& said == Seq::<Seq<char>>::empty()
    }
}

/// One move's drinking: every so many moves a ration of water goes; with
/// none left thirst warns once and then kills, and enough deaths by thirst
/// teach the desert rat.
pub open spec fn drank(
    g: Game,
    t: Expedition,
    g2: Game,
    t2: Expedition,
    alive: bool,
    said: Seq<Seq<char>>,
) -> bool {
    let moves = t.water_move + 1;
    let water = t.water - 1;
    if moves < moves_per_water(g) {
        &&& alive
        &&& g2 == g
        &&& t2 == (Expedition { water_move: moves as u32, ..t })
        &&& said == Seq::<Seq<char>>::empty()
    } else if water == 0 {
        &&& alive
        &&& g2 == g
        &&& t2 == (Expedition { water_move: 0, water: 0, ..t })
        &&& said == seq![world_data::MSG_WATER_OUT@]
    } else if water < 0 && !t.thirst {
        &&& alive
        &&& g2 == g
        &&& t2 == (Expedition { water_move: 0, water: 0, thirst: true, ..t })
        &&& said == seq![world_data::MSG_THIRST@]
    } else if water < 0 {
        let learns = g.dehydrated + 1 >= world_data::STARVED_PERK_AT && !g.perk(
            world_data::DEHYDRATED_PERK,
        );
        &&& !alive
        &&& g2 == (Game {
            dehydrated: (g.dehydrated + 1) as u32,
            perks: g2.perks,
            ..g
        })
        &&& g2.perks@ == if g.dehydrated + 1 >= world_data::STARVED_PERK_AT {
            g.perks@.insert(world_data::DEHYDRATED_PERK)
        } else {
            g.perks@
        }
        &&& t2 == (Expedition { water_move: 0, water: 0, ..t })
        &&& said == if learns {
            seq![data::perk_notify(world_data::DEHYDRATED_PERK)]
        } else {
            Seq::<Seq<char>>::empty()
        }
    } else {
        &&& alive
        &&& g2 == g
        &&& t2 == (Expedition { water_move: 0, water: water as i64, thirst: false, ..t })
        &&& said == Seq::<Seq<char>>::empty()
    }
}

/// Eat for one move. Returns whether the wanderer is still alive.
#[verifier::rlimit(40)]
fn eat(game: &mut Game, trip: &mut Expedition, out: &mut Vec<String>) -> (alive: bool)
    requires
        old(game).wf(),
        old(trip).wf(),
        old(trip).food_move < u32::MAX,
        old(game).starved < u32::MAX,
        0 <= old(trip).hp <= 0x1000_0000,
    ensures
        final(game).wf(),
        final(trip).wf(),
        ate(*old(game), *old(trip), *final(game), *final(trip), alive, texts(final(out)@).skip(
            texts(old(out)@).len() as int,
        )),
        texts(final(out)@) == texts(old(out)@) + texts(final(out)@).skip(texts(old(out)@).len() as int),
{
    let ghost said0 = texts(old(out)@);
    trip.food_move = trip.food_move + 1;
    let per_food = if game.has_perk(Perk::SlowMetabolism) {
        world_data::MOVES_PER_FOOD * 2
    } else {
        world_data::MOVES_PER_FOOD
    };
    if trip.food_move < per_food {
        assert(texts(out@).skip(said0.len() as int) =~= Seq::<Seq<char>>::empty());
        assert(texts(out@) =~= said0 + texts(out@).skip(said0.len() as int));
        return true;
    }
    trip.food_move = 0;
    let meat = trip.carrying(Resource::CuredMeat) - 1;
    if meat == 0 {
        say(out, world_data::MSG_MEAT_OUT);
        trip.outfit.insert(Resource::CuredMeat, 0);
        assert(texts(out@).skip(said0.len() as int) =~= seq![world_data::MSG_MEAT_OUT@]);
    } else if meat < 0 {
        trip.outfit.insert(Resource::CuredMeat, 0);
        if !trip.starvation {
            say(out, world_data::MSG_STARVING);
            trip.starvation = true;
            assert(texts(out@).skip(said0.len() as int) =~= seq![world_data::MSG_STARVING@]);
        } else {
            game.starved = game.starved + 1;
            if game.starved >= world_data::STARVED_PERK_AT {
                if game.add_perk(world_data::STARVED_PERK) {
                    say(out, world_data::STARVED_PERK.notify());
                    assert(texts(out@).skip(said0.len() as int) =~= seq![
                        data::perk_notify(world_data::STARVED_PERK),
                    ]);
                } else {
                    assert(texts(out@).skip(said0.len() as int) =~= Seq::<Seq<char>>::empty());
                }
            } else {
                assert(texts(out@).skip(said0.len() as int) =~= Seq::<Seq<char>>::empty());
            }
            assert(texts(out@) =~= said0 + texts(out@).skip(said0.len() as int));
            return false;
        }
    } else {
        trip.starvation = false;
        trip.outfit.insert(Resource::CuredMeat, meat);
        let healed = trip.hp + game.meat_heal();
        let cap = game.max_health();
        trip.hp = if healed < cap {
            healed
        } else {
            cap
        };
        assert(texts(out@).skip(said0.len() as int) =~= Seq::<Seq<char>>::empty());
    }
    assert(texts(out@) =~= said0 + texts(out@).skip(said0.len() as int));
    true
}

/// Thirst kills: the count goes up, and enough of them teach the desert rat.
fn parch(game: &mut Game, out: &mut Vec<String>)
    requires
        old(game).wf(),
        old(game).dehydrated < u32::MAX,
    ensures
        final(game).wf(),
        *final(game) == (Game {
            dehydrated: (old(game).dehydrated + 1) as u32,
            perks: final(game).perks,
            ..*old(game)
        }),
        final(game).perks@ == if old(game).dehydrated + 1 >= world_data::STARVED_PERK_AT {
            old(game).perks@.insert(world_data::DEHYDRATED_PERK)
        } else {
            old(game).perks@
        },
        texts(final(out)@) == texts(old(out)@) + if old(game).dehydrated + 1
            >= world_data::STARVED_PERK_AT && !old(game).perk(world_data::DEHYDRATED_PERK) {
            seq![data::perk_notify(world_data::DEHYDRATED_PERK)]
        } else {
            Seq::<Seq<char>>::empty()
        },
{
    let ghost said0 = texts(old(out)@);
    game.dehydrated = game.dehydrated + 1;
    if game.dehydrated >= world_data::STARVED_PERK_AT {
        if game.add_perk(world_data::DEHYDRATED_PERK) {
            say(out, world_data::DEHYDRATED_PERK.notify());
        } else {
            assert(said0 + Seq::<Seq<char>>::empty() =~= said0);
        }
    } else {
        assert(said0 + Seq::<Seq<char>>::empty() =~= said0);
    }
}

/// Drink for one move. Returns whether the wanderer is still alive.
#[verifier::rlimit(40)]
fn drink(game: &mut Game, trip: &mut Expedition, out: &mut Vec<String>) -> (alive: bool)
    requires
        old(game).wf(),
        old(trip).wf(),
        old(trip).water_move < u32::MAX,
        old(game).dehydrated < u32::MAX,
        old(trip).water > i64::MIN,
    ensures
        final(game).wf(),
        final(trip).wf(),
        drank(*old(game), *old(trip), *final(game), *final(trip), alive, texts(final(out)@).skip(
            texts(old(out)@).len() as int,
        )),
        texts(final(out)@) == texts(old(out)@) + texts(final(out)@).skip(texts(old(out)@).len() as int),
{
    let ghost said0 = texts(old(out)@);
    trip.water_move = trip.water_move + 1;
    let per_water = if game.has_perk(Perk::DesertRat) {
        world_data::MOVES_PER_WATER * 2
    } else {
        world_data::MOVES_PER_WATER
    };
    if trip.water_move < per_water {
        assert(texts(out@).skip(said0.len() as int) =~= Seq::<Seq<char>>::empty());
        assert(texts(out@) =~= said0 + texts(out@).skip(said0.len() as int));
        return true;
    }
    trip.water_move = 0;
    let water = trip.water - 1;
    if water == 0 {
        say(out, world_data::MSG_WATER_OUT);
        trip.water = 0;
        assert(texts(out@).skip(said0.len() as int) =~= seq![world_data::MSG_WATER_OUT@]);
    } else if water < 0 {
        trip.water = 0;
        if !trip.thirst {
            say(out, world_data::MSG_THIRST);
            trip.thirst = true;
            assert(texts(out@).skip(said0.len() as int) =~= seq![world_data::MSG_THIRST@]);
        } else {
            let ghost said1 = texts(out@);
            let ghost g1 = *game;
            parch(game, out);
            assert(said1 == said0);
            assert(texts(out@).skip(said0.len() as int) =~= if g1.dehydrated + 1
                >= world_data::STARVED_PERK_AT && !g1.perk(world_data::DEHYDRATED_PERK) {
                seq![data::perk_notify(world_data::DEHYDRATED_PERK)]
            } else {
                Seq::<Seq<char>>::empty()
            });
            assert(texts(out@) =~= said0 + texts(out@).skip(said0.len() as int));
            return false;
        }
    } else {
        trip.thirst = false;
        trip.water = water;
        assert(texts(out@).skip(said0.len() as int) =~= Seq::<Seq<char>>::empty());
    }
    assert(texts(out@) =~= said0 + texts(out@).skip(said0.len() as int));
    true
}

/// A move's supplies: eating, then, if that did not kill, drinking.
pub open spec fn supplied(
    g: Game,
    t: Expedition,
    g2: Game,
    t2: Expedition,
    alive: bool,
    said: Seq<Seq<char>>,
) -> bool {
    exists|gm: Game, tm: Expedition, fed: bool, n: int|
        0 <= n <= said.len() && #[trigger] ate(g, t, gm, tm, fed, said.take(n)) && if fed {
            drank(gm, tm, g2, t2, alive, said.skip(n))
        } else {
            !alive && g2 == gm && t2 == tm && n == said.len()
        }
}

/// Eat, drink, and pay for it. Returns whether the wanderer is still alive.
fn use_supplies(game: &mut Game, trip: &mut Expedition, out: &mut Vec<String>) -> (alive: bool)
    requires
        old(game).wf(),
        old(trip).wf(),
        old(trip).food_move < u32::MAX,
        old(trip).water_move < u32::MAX,
        old(game).starved < u32::MAX,
        old(game).dehydrated < u32::MAX,
        0 <= old(trip).hp <= 0x1000_0000,
        old(trip).water > i64::MIN,
    ensures
        final(game).wf(),
        final(trip).wf(),
        supplied(*old(game), *old(trip), *final(game), *final(trip), alive, texts(final(out)@).skip(
            texts(old(out)@).len() as int,
        )),
        texts(final(out)@) == texts(old(out)@) + texts(final(out)@).skip(texts(old(out)@).len() as int),
{
    let ghost said0 = texts(old(out)@);
    let fed = eat(game, trip, out);
    let ghost gm = *game;
    let ghost tm = *trip;
    let ghost said1 = texts(out@);
    let ghost first = said1.skip(said0.len() as int);
    if !fed {
        proof {
            let said = texts(out@).skip(said0.len() as int);
            assert(said.take(first.len() as int) =~= said);
            assert(ate(*old(game), *old(trip), gm, tm, fed, said.take(first.len() as int)));
        }
        return false;
    }
    let alive = drink(game, trip, out);
    proof {
        let second = texts(out@).skip(said1.len() as int);
        let said = texts(out@).skip(said0.len() as int);
        assert(texts(out@) =~= said0 + (first + second));
        assert(said =~= first + second);
        assert(said.take(first.len() as int) =~= first);
        assert(said.skip(first.len() as int) =~= second);
        assert(ate(*old(game), *old(trip), gm, tm, fed, said.take(first.len() as int)));
    }
    alive
}

/// Whether something jumps out this step: never sooner than a few moves
/// after the last fight, one in five after that, and the stealthy perk
/// halves the odds.
pub open spec fn fight_odds(g: Game) -> int {
    if g.perk(Perk::Stealthy) {
        (world_data::FIGHT_CHANCE_PCT / 2) as int
    } else {
        world_data::FIGHT_CHANCE_PCT as int
    }
}

/// Whether something jumps out this step.
fn check_fight(game: &Game, trip: &mut Expedition, rng: &mut StdRng) -> (fights: bool)
    requires
        game.wf(),
        old(trip).fight_move < u32::MAX,
    ensures
        old(trip).fight_move + 1 <= world_data::FIGHT_DELAY ==> !fights && *final(trip) == (Expedition {
            fight_move: (old(trip).fight_move + 1) as u32,
            ..*old(trip)
        }),
        old(trip).fight_move + 1 > world_data::FIGHT_DELAY ==> exists|d: u64|
            fights == chance::below(d, fight_odds(*game), 100) && *final(trip) == (Expedition {
                fight_move: if fights {
                    0
                } else {
                    (old(trip).fight_move + 1) as u32
                },
                ..*old(trip)
            }),
{
    trip.fight_move = trip.fight_move + 1;
    if trip.fight_move <= world_data::FIGHT_DELAY {
        return false;
    }
    let odds = if game.has_perk(Perk::Stealthy) {
        world_data::FIGHT_CHANCE_PCT / 2
    } else {
        world_data::FIGHT_CHANCE_PCT
    };
    let d = draw(rng);
    assert(odds == fight_odds(*game));
    if chance::draw_below(d, odds, 100) {
        trip.fight_move = 0;
        assert(chance::below(d, fight_odds(*game), 100));
        return true;
    }
    assert(!chance::below(d, fight_odds(*game), 100));
    false
}

/// The square a step moves by.
pub open spec fn direction_delta(d: Direction) -> (int, int) {
    match d {
        Direction::North => (0, -1),
        Direction::South => (0, 1),
        Direction::East => (1, 0),
        Direction::West => (-1, 0),
    }
}

/// Where a step lands.
pub open spec fn landing(t: Expedition, d: Direction) -> (int, int) {
    (t.x + direction_delta(d).0, t.y + direction_delta(d).1)
}

/// The trip standing on the square a step lands on, the lantern lit over
/// `map` and the danger warning updated, before anything else happens.
pub open spec fn arrival(g: Game, t: Expedition, d: Direction, map: WorldMap) -> Expedition {
    let (nx, ny) = landing(t, d);
    Expedition {
        x: nx as i32,
        y: ny as i32,
        map,
        danger: danger_after(
            t.danger,
            distance_from_home(nx, ny),
            g.stock(Resource::IronArmour),
            g.stock(Resource::SteelArmour),
        ).0,
        ..t
    }
}

/// What a step says on landing: the change of ground, and the danger
/// warning if it flipped.
pub open spec fn arrival_lines(g: Game, t: Expedition, d: Direction) -> Seq<Seq<char>> {
    let (nx, ny) = landing(t, d);
    let from = t.map.tile_at(t.x as int, t.y as int);
    let to = t.map.tile_at(nx, ny);
    let (danger, flipped) = danger_after(
        t.danger,
        distance_from_home(nx, ny),
        g.stock(Resource::IronArmour),
        g.stock(Resource::SteelArmour),
    );
    let narrated: Seq<Seq<char>> = match world_data::narrate_move_spec(from, to) {
        Some(line) => seq![line],
        None => seq![],
    };
    let warned: Seq<Seq<char>> = if !flipped {
        seq![]
    } else if danger {
        seq![world_data::MSG_DANGER@]
    } else {
        seq![world_data::MSG_SAFER@]
    };
    narrated + warned
}

/// A plain step on open ground: the supplies are paid for, and if the
/// wanderer lives, the odds of a fight are rolled.
pub open spec fn walked_on(
    g: Game,
    arrived: Expedition,
    g2: Game,
    t2: Expedition,
    r: Step,
    said: Seq<Seq<char>>,
) -> bool {
    exists|fed: Expedition, alive: bool|
        #[trigger] supplied(g, arrived, g2, fed, alive, said) && if !alive {
            r == Step::Died && t2 == fed
        } else if fed.fight_move + 1 <= world_data::FIGHT_DELAY {
            r == Step::Walked && t2 == (Expedition { fight_move: (fed.fight_move + 1) as u32, ..fed })
        } else {
            exists|d: u64|
                #![trigger chance::below(d, fight_odds(g2), 100)]
                (r == Step::Fight) == chance::below(d, fight_odds(g2), 100) && (r == Step::Fight || r
                    == Step::Walked) && t2 == (Expedition {
                    fight_move: if r == Step::Fight {
                        0
                    } else {
                        (fed.fight_move + 1) as u32
                    },
                    ..fed
                })
        }
}

/// Whether an outpost has already been drunk dry this trip.
pub(crate) fn outpost_used(used: &Vec<(i32, i32)>, x: i32, y: i32) -> (r: bool)
    ensures
        r == used@.contains((x, y)),
{
    let mut i: usize = 0;
    while i < used.len()
        invariant
            i <= used@.len(),
            forall|k: int| 0 <= k < i ==> used@[k] != (x, y),
        decreases used@.len() - i,
    {
        if used[i].0 == x && used[i].1 == y {
            assert(used@[i as int] == (x, y));
            return true;
        }
        i = i + 1;
    }
    false
}

/// Whether a landmark square offers nothing more this trip: its setpiece was
/// played out, or it is an outpost already drunk dry.
pub open spec fn played_out(trip: Expedition, x: int, y: int) -> bool {
    trip.map.visited_at(x, y) || (trip.map.tile_at(x, y) == Tile::Outpost && trip.used_outposts@.contains(
        (x as i32, y as i32),
    ))
}

/// The setpiece a square starts, if any.
pub open spec fn setpiece_at(trip: Expedition, x: int, y: int) -> Option<Seq<char>> {
    let to = trip.map.tile_at(x, y);
    if played_out(trip, x, y) {
        None
    } else if to == Tile::Battleship {
        Some(
            if trip.battleship.entered {
                "executioner-antechamber"@
            } else {
                "executioner-intro"@
            },
        )
    } else {
        match world_data::landmark_spec(to) {
            Some(l) => Some(l.3),
            None => None,
        }
    }
}

/// Take one step. Every consequence of a move lands here: narration, the
/// lantern, the danger warning, home, landmarks, supplies and the odds of a
/// fight.
#[verifier::rlimit(100)]
pub fn step(
    game: &mut Game,
    trip: &mut Expedition,
    direction: Direction,
    rng: &mut StdRng,
    out: &mut Vec<String>,
) -> (r: Step)
    requires
        old(game).wf(),
        old(trip).wf(),
        on_grid(old(trip).x as int, old(trip).y as int),
        old(trip).food_move < u32::MAX,
        old(trip).water_move < u32::MAX,
        old(trip).fight_move < u32::MAX,
        old(game).starved < u32::MAX,
        old(game).dehydrated < u32::MAX,
        0 <= old(trip).hp <= 0x1000_0000,
        old(trip).water > i64::MIN,
    ensures
        final(game).wf(),
        final(trip).wf(),
        !on_grid(landing(*old(trip), direction).0, landing(*old(trip), direction).1) ==> {
            &&& r == Step::Blocked
            &&& *final(trip) == *old(trip)
            &&& *final(game) == *old(game)
            &&& final(out)@ == old(out)@
        },
        on_grid(landing(*old(trip), direction).0, landing(*old(trip), direction).1) ==> {
            let (nx, ny) = landing(*old(trip), direction);
            let arrived = arrival(*old(game), *old(trip), direction, final(trip).map);
            let heard = texts(old(out)@) + arrival_lines(*old(game), *old(trip), direction);
            &&& lit(old(trip).map, final(trip).map, nx, ny, light_radius(*old(game)))
            &&& texts(final(out)@).take(heard.len() as int) == heard
            &&& if arrived.map.tile_at(nx, ny) == Tile::Village {
                &&& r == Step::Home
                &&& *final(trip) == arrived
                &&& *final(game) == *old(game)
                &&& texts(final(out)@) == heard
            } else if setpiece_at(arrived, nx, ny) is Some {
                &&& r matches Step::Setpiece(scene) && scene@ == setpiece_at(arrived, nx, ny)->Some_0
                &&& *final(trip) == arrived
                &&& *final(game) == *old(game)
                &&& texts(final(out)@) == heard
            } else {
                walked_on(*old(game), arrived, *final(game), *final(trip), r, texts(final(out)@).skip(
                    heard.len() as int,
                ))
            }
        },
{
    let ghost said0 = texts(old(out)@);
    let (dx, dy) = direction.delta();
    let nx = trip.x + dx;
    let ny = trip.y + dy;
    if nx < 0 || ny < 0 || nx >= GRID || ny >= GRID {
        return Step::Blocked;
    }
    let from = trip.map.tile(trip.x, trip.y);
    trip.x = nx;
    trip.y = ny;
    let to = trip.map.tile(nx, ny);
    match world_data::narrate_move(from, to) {
        Some(line) => say(out, line),
        None => {},
    }
    light(&mut trip.map, nx, ny, game);
    let flipped = check_danger(game, trip);
    if flipped {
        if trip.danger {
            say(out, world_data::MSG_DANGER);
        } else {
            say(out, world_data::MSG_SAFER);
        }
    }
    let ghost arrived = *trip;
    let ghost heard = texts(out@);
    proof {
        assert(heard.take(heard.len() as int) =~= heard);
        let narrated: Seq<Seq<char>> = match world_data::narrate_move_spec(from, to) {
            Some(line) => seq![line],
            None => seq![],
        };
        let warned: Seq<Seq<char>> = if !flipped {
            seq![]
        } else if trip.danger {
            seq![world_data::MSG_DANGER@]
        } else {
            seq![world_data::MSG_SAFER@]
        };
        assert(heard =~= said0 + narrated + warned);
        assert(narrated + warned =~= arrival_lines(*old(game), *old(trip), direction));
        assert(heard =~= said0 + arrival_lines(*old(game), *old(trip), direction));
    }
    if to == Tile::Village {
        return Step::Home;
    }
    let played = trip.map.visited(nx, ny) || (to == Tile::Outpost && outpost_used(
        &trip.used_outposts,
        nx,
        ny,
    ));
    if !played {
        if to == Tile::Battleship {
            return Step::Setpiece(battleship_scene(trip));
        }
        match to.landmark() {
            Some(landmark) => {
                return Step::Setpiece(landmark.scene);
            },
            None => {},
        }
    }
    let alive = use_supplies(game, trip, out);
    let ghost fed = *trip;
    let ghost said = texts(out@).skip(heard.len() as int);
    assert(supplied(*old(game), arrived, *game, fed, alive, said));
    if !alive {
        proof {
            assert(texts(out@).take(heard.len() as int) =~= heard);
            assert(arrived == arrival(*old(game), *old(trip), direction, trip.map));
            assert(walked_on(*old(game), arrived, *game, *trip, Step::Died, texts(out@).skip(heard.len() as int)));
        }
        return Step::Died;
    }
    let fights = check_fight(game, trip, rng);
    proof {
        assert(texts(out@).take(heard.len() as int) =~= heard);
        assert(texts(out@).skip(heard.len() as int) == said);
    }
    let r = if fights {
        Step::Fight
    } else {
        Step::Walked
    };
    proof {
        if fed.fight_move + 1 > world_data::FIGHT_DELAY {
            let d = choose|d: u64|
                fights == chance::below(d, fight_odds(*game), 100) && *trip == (Expedition {
                    fight_move: if fights {
                        0
                    } else {
                        (fed.fight_move + 1) as u32
                    },
                    ..fed
                });
            assert((r == Step::Fight) == chance::below(d, fight_odds(*game), 100));
        }
        assert(arrived == arrival(*old(game), *old(trip), direction, trip.map));
        assert(walked_on(*old(game), arrived, *game, *trip, r, texts(out@).skip(heard.len() as int)));
    }
    r
}

// ---------------------------------------------------------------------------
// Setting out and coming back
// ---------------------------------------------------------------------------

/// How much of a packed item actually leaves the store room: the loadout is
/// a plan, clamped to what is on the shelf.
pub open spec fn take_of(g: Game, r: Resource) -> int {
    let want = held(g.outfit@, r);
    let have = g.stock(r);
    if want < have {
        want
    } else {
        have
    }
}

/// The pack a trip sets out with.
pub open spec fn packed(g: Game) -> Map<Resource, i64> {
    Map::new(|r: Resource| take_of(g, r) > 0, |r: Resource| take_of(g, r) as i64)
}

/// The store room once the pack is taken out of it.
pub open spec fn unpacked(g: Game) -> Map<Resource, i64> {
    Map::new(
        |r: Resource| g.stores@.contains_key(r),
        |r: Resource|
            if take_of(g, r) > 0 {
                (g.stores@[r] - take_of(g, r)) as i64
            } else {
                g.stores@[r]
            },
    )
}

/// What setting out leaves: the packed supplies leave the store room for
/// the pack, and a fresh trip stands at the village on the committed map,
/// with the health and water the village's gear allows.
pub open spec fn set_out(g: Game, after: Game, trip: Expedition) -> bool {
    &&& after.stores@ == unpacked(g)
    &&& after == (Game { stores: after.stores, ..g })
    &&& trip.wf()
    &&& trip.outfit@ == packed(g)
    &&& trip.x == world_data::VILLAGE_X && trip.y == world_data::VILLAGE_Y
    &&& trip.hp == world_data::BASE_HEALTH + model::armour_bonus(after)
    &&& trip.water == world_data::BASE_WATER + model::water_bonus(after)
    &&& trip.food_move == 0 && trip.water_move == 0 && trip.fight_move == 0
    &&& !trip.starvation && !trip.thirst && !trip.danger
    &&& trip.used_outposts@.len() == 0
    &&& trip.cleared@ == Set::<Building>::empty()
    &&& !trip.found_ship
    &&& !trip.battleship.entered && trip.battleship.decks@ == Set::<model::Deck>::empty()
    &&& trip.combat is None
    &&& (
        match g.world {
            Some(w) => trip.map.tiles_v() == w.tiles_v() && trip.map.mask_v() == w.mask_v()
                && trip.map.visited_v() == w.visited_v(),
            None => forall|x: int, y: int|
                on_grid(x, y) ==> trip.map.tile_at(x, y) == Tile::Barrens && !trip.map.seen_at(x, y)
                    && !trip.map.visited_at(x, y),
        }
    )
}

/// Set out. The pack comes out of the store room, and the wanderer starts at
/// the village, full of water and health.
#[verifier::rlimit(40)]
pub fn embark(game: &mut Game) -> (trip: Expedition)
    requires
        old(game).wf(),
    ensures
        final(game).wf(),
        set_out(*old(game), *final(game), trip),
{
    let ghost g0 = *old(game);
    let mut pack: EnumMap<Resource, i64> = EnumMap::new();
    let mut i: usize = 0;
    while i < 53
        invariant
            i <= 53,
            game.wf(),
            pack.wf(),
            nonneg(pack@),
            g0.wf(),
            *game == (Game { stores: game.stores, ..g0 }),
            forall|r: Resource|
                #![trigger pack@.contains_key(r)]
                pack@.contains_key(r) == (r.key() < i && take_of(g0, r) > 0),
            forall|r: Resource| #[trigger] pack@.contains_key(r) ==> pack@[r] == take_of(g0, r),
            forall|r: Resource|
                #![trigger game.stores@.contains_key(r)]
                game.stores@.contains_key(r) == g0.stores@.contains_key(r),
            forall|r: Resource|
                #[trigger] game.stores@.contains_key(r) ==> game.stores@[r] == if r.key() < i && take_of(
                    g0,
                    r,
                ) > 0 {
                    g0.stores@[r] - take_of(g0, r)
                } else {
                    g0.stores@[r] as int
                },
        decreases 53 - i,
    {
        let item = Resource::from_index(i);
        let want: i64 = match game.outfit.get(&item) {
            Some(n) => *n,
            None => 0,
        };
        let have = game.store(item);
        let count = if want < have {
            want
        } else {
            have
        };
        if count > 0 {
            game.add_store(item, -count);
            pack.insert(item, count);
        }
        proof {
            assert forall|r: Resource| #[trigger] pack@.contains_key(r) == (r.key() < i + 1 && take_of(g0, r) > 0) by {
                Resource::key_injective(r, item);
            }
            assert forall|r: Resource| #[trigger] game.stores@.contains_key(r) implies game.stores@[r] == if r.key() < i + 1
                && take_of(g0, r) > 0 {
                g0.stores@[r] - take_of(g0, r)
            } else {
                g0.stores@[r] as int
            } by {
                Resource::key_injective(r, item);
            }
        }
        i = i + 1;
    }
    proof {
        assert forall|r: Resource| r.key() < 53 by {
            Resource::key_injective(r, r);
        }
        assert(pack@ =~= packed(g0));
        assert(game.stores@ =~= unpacked(g0));
    }
    let map = match &game.world {
        Some(world) => world.copy(),
        None => WorldMap::blank(),
    };
    let hp = game.max_health();
    let water = game.max_water();
    let mut trip = Expedition::at_home(map, hp, water);
    trip.outfit = pack;
    trip
}

/// Died out there. The trip's map changes and its pack are lost, and another
/// expedition has to wait out the cooldown.
pub fn die(game: &mut Game, out: &mut Vec<String>)
    requires
        old(game).wf(),
    ensures
        final(game).wf(),
        texts(final(out)@) == texts(old(out)@).push(world_data::MSG_WORLD_FADES@),
        final(game).outfit@ == Map::<Resource, i64>::empty(),
        *final(game) == (Game {
            expedition: None,
            outfit: final(game).outfit,
            embark_cooldown: world_data::DEATH_COOLDOWN,
            ..*old(game)
        }),
{
    say(out, world_data::MSG_WORLD_FADES);
    game.expedition = None;
    game.outfit.clear();
    game.embark_cooldown = world_data::DEATH_COOLDOWN;
}

/// Which way the compass points from the village toward a square `(dx, dy)`
/// off it: a straight heading when one axis is more than twice the other,
/// else the diagonal.
pub open spec fn compass(dx: int, dy: int) -> Seq<char> {
    let ax = if dx < 0 {
        -dx
    } else {
        dx
    };
    let ay = if dy < 0 {
        -dy
    } else {
        dy
    };
    if ax > 2 * ay {
        if dx < 0 {
            "west"@
        } else {
            "east"@
        }
    } else if ay > 2 * ax {
        if dy < 0 {
            "north"@
        } else {
            "south"@
        }
    } else if dy < 0 && dx < 0 {
        "northwest"@
    } else if dy < 0 {
        "northeast"@
    } else if dx < 0 {
        "southwest"@
    } else {
        "southeast"@
    }
}

/// Whether `(x, y)` comes before `(a, b)` reading the map row by row.
pub open spec fn reads_before(x: int, y: int, a: int, b: int) -> bool {
    y < b || (y == b && x < a)
}

/// The heading from the village toward a square.
fn heading(dx: i32, dy: i32) -> (r: &'static str)
    requires
        -1000 <= dx <= 1000,
        -1000 <= dy <= 1000,
    ensures
        r@ == compass(dx as int, dy as int),
{
    let ax = if dx < 0 {
        -dx
    } else {
        dx
    };
    let ay = if dy < 0 {
        -dy
    } else {
        dy
    };
    if ax > 2 * ay {
        if dx < 0 {
            "west"
        } else {
            "east"
        }
    } else if ay > 2 * ax {
        if dy < 0 {
            "north"
        } else {
            "south"
        }
    } else if dy < 0 && dx < 0 {
        "northwest"
    } else if dy < 0 {
        "northeast"
    } else if dx < 0 {
        "southwest"
    } else {
        "southeast"
    }
}

/// Where the compass points on a map: toward the crashed starship, the first
/// one reading the map row by row, or nowhere if there is none.
pub open spec fn compass_reading(map: WorldMap, d: Seq<char>) -> bool {
    &&& (forall|x: int, y: int| on_grid(x, y) ==> #[trigger] map.tile_at(x, y) != Tile::Ship) ==> d
        == "nowhere"@
    &&& (exists|x: int, y: int| on_grid(x, y) && #[trigger] map.tile_at(x, y) == Tile::Ship) ==> exists|
        x: int,
        y: int,
    |
        on_grid(x, y) && #[trigger] map.tile_at(x, y) == Tile::Ship && (forall|a: int, b: int|
            on_grid(a, b) && reads_before(a, b, x, y) ==> map.tile_at(a, b) != Tile::Ship) && d
            == compass(x - world_data::RADIUS, y - world_data::RADIUS)
}

/// Which way the compass points: toward the crashed starship, the first one
/// reading the map row by row, or nowhere if there is none.
pub fn compass_dir(map: &WorldMap) -> (r: &'static str)
    ensures
        compass_reading(*map, r@),
{
    let mut y: i32 = 0;
    while y < GRID
        invariant
            0 <= y <= GRID,
            forall|a: int, b: int| on_grid(a, b) && b < y ==> #[trigger] map.tile_at(a, b) != Tile::Ship,
        decreases GRID - y,
    {
        let mut x: i32 = 0;
        while x < GRID
            invariant
                0 <= y < GRID,
                0 <= x <= GRID,
                forall|a: int, b: int|
                    on_grid(a, b) && (b < y || (b == y && a < x)) ==> #[trigger] map.tile_at(a, b)
                        != Tile::Ship,
            decreases GRID - x,
        {
            if map.tile(x, y) == Tile::Ship {
                let r = heading(x - world_data::RADIUS, y - world_data::RADIUS);
                assert(on_grid(x as int, y as int) && map.tile_at(x as int, y as int) == Tile::Ship);
                return r;
            }
            x = x + 1;
        }
        y = y + 1;
    }
    "nowhere"
}

/// Whether coming home hands a building over: its setpiece was cleared this
/// trip and none stands yet.
pub open spec fn granted(g: Game, cleared: Set<Building>, b: Building) -> bool {
    cleared.contains(b) && g.count(b) == 0
}

/// The line a mine handed over prints, naming the trade that can work it.
pub open spec fn mine_line(b: Building) -> Seq<Seq<char>> {
    let jobs = data::building_jobs(b);
    if jobs.len() > 0 {
        seq![
            "the "@ + data::building_label(b) + " is ours. "@ + data::job_label(jobs[0])
                + "s can work it."@,
        ]
    } else {
        seq![]
    }
}

/// The lines for the first `n` buildings handed over, in listing order.
pub open spec fn mine_lines(g: Game, cleared: Set<Building>, n: nat) -> Seq<Seq<char>>
    decreases n,
{
    if n == 0 {
        seq![]
    } else {
        let b = Building::from_key((n - 1) as nat);
        mine_lines(g, cleared, (n - 1) as nat) + if granted(g, cleared, b) {
            mine_line(b)
        } else {
            seq![]
        }
    }
}

/// Whether a trade opens with a building handed over.
pub open spec fn opened_by(g: Game, cleared: Set<Building>, j: data::Job) -> bool {
    exists|b: Building| granted(g, cleared, b) && #[trigger] data::building_jobs(b).contains(j)
}

/// Stand up every building whose setpiece was cleared and which the village
/// lacks, opening its trades.
#[verifier::rlimit(60)]
fn grant_cleared(game: &mut Game, cleared: &EnumSet<Building>, out: &mut Vec<String>)
    requires
        old(game).wf(),
        cleared.wf(),
    ensures
        final(game).wf(),
        final(game).buildings@ == Map::new(
            |b: Building| old(game).buildings@.contains_key(b) || granted(*old(game), cleared@, b),
            |b: Building|
                if granted(*old(game), cleared@, b) {
                    1u32
                } else {
                    old(game).buildings@[b]
                },
        ),
        final(game).seen_jobs@ == old(game).seen_jobs@.union(
            Set::new(|j: data::Job| opened_by(*old(game), cleared@, j)),
        ),
        final(game).workers@ == Map::new(
            |j: data::Job| old(game).workers@.contains_key(j) || opened_by(*old(game), cleared@, j),
            |j: data::Job|
                if old(game).workers@.contains_key(j) {
                    old(game).workers@[j]
                } else {
                    0u32
                },
        ),
        *final(game) == (Game {
            buildings: final(game).buildings,
            seen_jobs: final(game).seen_jobs,
            workers: final(game).workers,
            ..*old(game)
        }),
        texts(final(out)@) == texts(old(out)@) + mine_lines(*old(game), cleared@, 13),
{
    let ghost g0 = *old(game);
    let ghost m0 = texts(old(out)@);
    assert(m0 + seq![] =~= m0);
    let mut i: usize = 0;
    while i < 13
        invariant
            i <= 13,
            game.wf(),
            g0.wf(),
            cleared.wf(),
            *game == (Game {
                buildings: game.buildings,
                seen_jobs: game.seen_jobs,
                workers: game.workers,
                ..g0
            }),
            game.buildings@ == Map::new(
                |b: Building| g0.buildings@.contains_key(b) || (b.key() < i && granted(g0, cleared@, b)),
                |b: Building|
                    if b.key() < i && granted(g0, cleared@, b) {
                        1u32
                    } else {
                        g0.buildings@[b]
                    },
            ),
            game.seen_jobs@ == g0.seen_jobs@.union(
                Set::new(
                    |j: data::Job|
                        exists|b: Building|
                            b.key() < i && granted(g0, cleared@, b) && #[trigger] data::building_jobs(
                                b,
                            ).contains(j),
                ),
            ),
            forall|j: data::Job|
                #![trigger game.workers@.contains_key(j)]
                game.workers@.contains_key(j) == (g0.workers@.contains_key(j) || exists|b: Building|
                    b.key() < i && granted(g0, cleared@, b) && #[trigger] data::building_jobs(b).contains(
                        j,
                    )),
            forall|j: data::Job|
                #[trigger] game.workers@.contains_key(j) ==> game.workers@[j] == if g0.workers@.contains_key(
                    j,
                ) {
                    g0.workers@[j]
                } else {
                    0u32
                },
            texts(out@) == m0 + mine_lines(g0, cleared@, i as nat),
        decreases 13 - i,
    {
        let building = Building::from_index(i);
        proof {
            Building::key_injective(building, building);
        }
        let ghost before = *game;
        if cleared.contains(&building) && game.building_count(building) == 0 {
            proof {
                assert(game.count(building) == g0.count(building)) by {
                    assert(game.buildings@.contains_key(building) == g0.buildings@.contains_key(building));
                }
            }
            game.raise(building);
            let jobs = building.unlocks_jobs();
            if jobs.len() > 0 {
                let mut line = String::from_str("the ");
                line.append(building.label());
                line.append(" is ours. ");
                line.append(jobs[0].label());
                line.append("s can work it.");
                say(out, line.as_str());
            }
        }
        proof {
            assert(texts(out@) =~= m0 + mine_lines(g0, cleared@, (i + 1) as nat));
            assert forall|b: Building| #[trigger] game.buildings@.contains_key(b) == (g0.buildings@.contains_key(b)
                || (b.key() < i + 1 && granted(g0, cleared@, b))) by {
                Building::key_injective(b, building);
            }
            assert(game.buildings@ =~= Map::new(
                |b: Building| g0.buildings@.contains_key(b) || (b.key() < i + 1 && granted(g0, cleared@, b)),
                |b: Building|
                    if b.key() < i + 1 && granted(g0, cleared@, b) {
                        1u32
                    } else {
                        g0.buildings@[b]
                    },
            )) by {
                assert forall|b: Building| #[trigger] game.buildings@.contains_key(b) implies game.buildings@[b]
                    == (if b.key() < i + 1 && granted(g0, cleared@, b) {
                    1u32
                } else {
                    g0.buildings@[b]
                }) by {
                    Building::key_injective(b, building);
                }
            }
            assert(game.seen_jobs@ =~= g0.seen_jobs@.union(
                Set::new(
                    |j: data::Job|
                        exists|b: Building|
                            b.key() < i + 1 && granted(g0, cleared@, b) && #[trigger] data::building_jobs(
                                b,
                            ).contains(j),
                ),
            )) by {
                assert forall|j: data::Job| #[trigger] game.seen_jobs@.contains(j) == g0.seen_jobs@.union(
                    Set::new(
                        |j: data::Job|
                            exists|b: Building|
                                b.key() < i + 1 && granted(g0, cleared@, b) && #[trigger] data::building_jobs(
                                    b,
                                ).contains(j),
                    ),
                ).contains(j) by {
                    if exists|b: Building|
                        b.key() < i + 1 && granted(g0, cleared@, b) && #[trigger] data::building_jobs(
                            b,
                        ).contains(j) {
                        let b = choose|b: Building|
                            b.key() < i + 1 && granted(g0, cleared@, b) && #[trigger] data::building_jobs(
                                b,
                            ).contains(j);
                        Building::key_injective(b, building);
                    }
                }
            }
            assert forall|j: data::Job| #[trigger] game.workers@.contains_key(j) == (g0.workers@.contains_key(j)
                || exists|b: Building|
                b.key() < i + 1 && granted(g0, cleared@, b) && #[trigger] data::building_jobs(b).contains(
                    j,
                )) by {
                if exists|b: Building|
                    b.key() < i + 1 && granted(g0, cleared@, b) && #[trigger] data::building_jobs(b).contains(
                        j,
                    ) {
                    let b = choose|b: Building|
                        b.key() < i + 1 && granted(g0, cleared@, b) && #[trigger] data::building_jobs(
                            b,
                        ).contains(j);
                    Building::key_injective(b, building);
                }
            }
        }
        i = i + 1;
    }
    proof {
        assert forall|b: Building| b.key() < 13 by {
            Building::key_injective(b, b);
        }
        assert(game.buildings@ =~= Map::new(
            |b: Building| g0.buildings@.contains_key(b) || granted(g0, cleared@, b),
            |b: Building|
                if granted(g0, cleared@, b) {
                    1u32
                } else {
                    g0.buildings@[b]
                },
        ));
        assert(game.seen_jobs@ =~= g0.seen_jobs@.union(
            Set::new(|j: data::Job| opened_by(g0, cleared@, j)),
        ));
        assert(game.workers@ =~= Map::new(
            |j: data::Job| g0.workers@.contains_key(j) || opened_by(g0, cleared@, j),
            |j: data::Job|
                if g0.workers@.contains_key(j) {
                    g0.workers@[j]
                } else {
                    0u32
                },
        ));
    }
}

/// The pack once the trip is home: everything goes back on the shelf, and
/// what the wanderer always carries stays packed for next time.
#[verifier::rlimit(40)]
fn bank_pack(game: &mut Game, pack: &EnumMap<Resource, i64>)
    requires
        old(game).wf(),
        pack.wf(),
        nonneg(pack@),
        forall|r: Resource| #[trigger] held(old(game).stores@, r) + held(pack@, r) <= i64::MAX,
    ensures
        final(game).wf(),
        final(game).stores@ == Map::new(
            |r: Resource| old(game).stores@.contains_key(r) || pack@.contains_key(r),
            |r: Resource| (held(old(game).stores@, r) + held(pack@, r)) as i64,
        ),
        final(game).outfit@ == Map::new(
            |r: Resource| pack@.contains_key(r) && stays_packed(r),
            |r: Resource| pack@[r],
        ),
        *final(game) == (Game { stores: final(game).stores, outfit: final(game).outfit, ..*old(game) }),
{
    let ghost g0 = *old(game);
    let mut kept: EnumMap<Resource, i64> = EnumMap::new();
    let mut i: usize = 0;
    while i < 53
        invariant
            i <= 53,
            game.wf(),
            g0.wf(),
            pack.wf(),
            nonneg(pack@),
            kept.wf(),
            nonneg(kept@),
            forall|r: Resource| #[trigger] held(g0.stores@, r) + held(pack@, r) <= i64::MAX,
            *game == (Game { stores: game.stores, ..g0 }),
            forall|r: Resource|
                #![trigger game.stores@.contains_key(r)]
                game.stores@.contains_key(r) == (g0.stores@.contains_key(r) || (r.key() < i
                    && pack@.contains_key(r))),
            forall|r: Resource|
                #[trigger] game.stores@.contains_key(r) ==> game.stores@[r] == held(g0.stores@, r) + if r.key()
                    < i {
                    held(pack@, r)
                } else {
                    0
                },
            forall|r: Resource|
                #![trigger kept@.contains_key(r)]
                kept@.contains_key(r) == (r.key() < i && pack@.contains_key(r) && stays_packed(r)),
            forall|r: Resource| #[trigger] kept@.contains_key(r) ==> kept@[r] == pack@[r],
        decreases 53 - i,
    {
        let item = Resource::from_index(i);
        match pack.get(&item) {
            Some(count) => {
                let count = *count;
                game.add_store(item, count);
                if !leave_it_at_home(item) {
                    kept.insert(item, count);
                }
            },
            None => {},
        }
        proof {
            assert forall|r: Resource| #[trigger] game.stores@.contains_key(r) == (g0.stores@.contains_key(r) || (r.key()
                < i + 1 && pack@.contains_key(r))) by {
                Resource::key_injective(r, item);
            }
            assert forall|r: Resource| #[trigger] game.stores@.contains_key(r) implies game.stores@[r] == held(g0.stores@, r)
                + if r.key() < i + 1 {
                held(pack@, r)
            } else {
                0
            } by {
                Resource::key_injective(r, item);
            }
            assert forall|r: Resource| #[trigger] kept@.contains_key(r) == (r.key() < i + 1 && pack@.contains_key(r)
                && stays_packed(r)) by {
                Resource::key_injective(r, item);
            }
        }
        i = i + 1;
    }
    proof {
        assert forall|r: Resource| r.key() < 53 by {
            Resource::key_injective(r, r);
        }
        assert(game.stores@ =~= Map::new(
            |r: Resource| g0.stores@.contains_key(r) || pack@.contains_key(r),
            |r: Resource| (held(g0.stores@, r) + held(pack@, r)) as i64,
        ));
        assert(kept@ =~= Map::new(
            |r: Resource| pack@.contains_key(r) && stays_packed(r),
            |r: Resource| pack@[r],
        ));
    }
    game.outfit = kept;
}

/// Home safe: commit the map and the battleship, hand over anything the
/// wasteland gave up, feed the blueprints to the fabricator, and put the
/// pack back in the store room.
#[verifier::rlimit(60)]
pub fn go_home(game: &mut Game, trip: Expedition, out: &mut Vec<String>)
    requires
        old(game).wf(),
        trip.wf(),
        forall|r: Resource| #[trigger] held(old(game).stores@, r) + trip.carried(r) <= i64::MAX,
    ensures
        final(game).wf(),
        final(game).buildings@ == Map::new(
            |b: Building| old(game).buildings@.contains_key(b) || granted(*old(game), trip.cleared@, b),
            |b: Building|
                if granted(*old(game), trip.cleared@, b) {
                    1u32
                } else {
                    old(game).buildings@[b]
                },
        ),
        final(game).seen_jobs@ == old(game).seen_jobs@.union(
            Set::new(|j: data::Job| opened_by(*old(game), trip.cleared@, j)),
        ),
        final(game).workers@ == Map::new(
            |j: data::Job| old(game).workers@.contains_key(j) || opened_by(*old(game), trip.cleared@, j),
            |j: data::Job|
                if old(game).workers@.contains_key(j) {
                    old(game).workers@[j]
                } else {
                    0u32
                },
        ),
        final(game).ship == if trip.found_ship && old(game).ship is None {
            Some(
                ShipState {
                    hull: 0,
                    thrusters: 1,
                    seen_ship: false,
                    seen_warning: false,
                    liftoff_cooldown: 0,
                },
            )
        } else {
            old(game).ship
        },
        final(game).battleship == trip.battleship,
        final(game).fabricator == (old(game).fabricator || trip.battleship.entered),
        final(game).blueprints@ == old(game).blueprints@.union(
            Set::new(|b: Blueprint| model::carries_token(trip.outfit@, b)),
        ),
        final(game).stores@ == Map::new(
            |r: Resource| old(game).stores@.contains_key(r) || model::without_tokens(trip.outfit@).contains_key(r),
            |r: Resource| (held(old(game).stores@, r) + held(model::without_tokens(trip.outfit@), r)) as i64,
        ),
        final(game).outfit@ == Map::new(
            |r: Resource| model::without_tokens(trip.outfit@).contains_key(r) && stays_packed(r),
            |r: Resource| trip.outfit@[r],
        ),
        final(game).seen_all_map == trip.map.all_seen_spec(),
        final(game).world == Some(trip.map),
        final(game).expedition is None,
        texts(final(out)@) == texts(old(out)@) + mine_lines(*old(game), trip.cleared@, 13) + (if trip.battleship.entered
            && !old(game).fabricator {
            seq![data::MSG_FABRICATOR_FOUND@]
        } else {
            Seq::<Seq<char>>::empty()
        }) + (if exists|b: Blueprint| model::carries_token(trip.outfit@, b) {
            seq![data::MSG_BLUEPRINTS_REDEEMED@]
        } else {
            Seq::<Seq<char>>::empty()
        }),
        *final(game) == (Game {
            buildings: final(game).buildings,
            seen_jobs: final(game).seen_jobs,
            workers: final(game).workers,
            ship: final(game).ship,
            battleship: final(game).battleship,
            fabricator: final(game).fabricator,
            blueprints: final(game).blueprints,
            stores: final(game).stores,
            outfit: final(game).outfit,
            seen_all_map: final(game).seen_all_map,
            world: final(game).world,
            expedition: None,
            ..*old(game)
        }),
{
    let ghost g0 = *old(game);
    let ghost m0 = texts(old(out)@);
    let ghost pack0 = trip.outfit@;
    grant_cleared(game, &trip.cleared, out);
    let ghost g1 = *game;
    commit_finds(game, trip.found_ship, trip.battleship, out);
    let ghost g2 = *game;
    unpack(game, trip.outfit, out);
    let ghost g3 = *game;
    commit_map(game, trip.map);
    proof {
        assert(texts(out@) =~= m0 + mine_lines(g0, trip.cleared@, 13) + (if trip.battleship.entered
            && !g0.fabricator {
            seq![data::MSG_FABRICATOR_FOUND@]
        } else {
            Seq::<Seq<char>>::empty()
        }) + (if exists|b: Blueprint| model::carries_token(pack0, b) {
            seq![data::MSG_BLUEPRINTS_REDEEMED@]
        } else {
            Seq::<Seq<char>>::empty()
        }));
    }
}

/// The ship and the battleship come home with the trip; the strange device
/// out of the battleship opens the fabricator.
fn commit_finds(game: &mut Game, found_ship: bool, battleship: Battleship, out: &mut Vec<String>)
    requires
        old(game).wf(),
        battleship.decks.wf(),
    ensures
        final(game).wf(),
        final(game).ship == if found_ship && old(game).ship is None {
            Some(
                ShipState {
                    hull: 0,
                    thrusters: 1,
                    seen_ship: false,
                    seen_warning: false,
                    liftoff_cooldown: 0,
                },
            )
        } else {
            old(game).ship
        },
        final(game).battleship == battleship,
        final(game).fabricator == (old(game).fabricator || battleship.entered),
        *final(game) == (Game {
            ship: final(game).ship,
            battleship: final(game).battleship,
            fabricator: final(game).fabricator,
            ..*old(game)
        }),
        texts(final(out)@) == texts(old(out)@) + if battleship.entered && !old(game).fabricator {
            seq![data::MSG_FABRICATOR_FOUND@]
        } else {
            Seq::<Seq<char>>::empty()
        },
{
    let ghost m0 = texts(old(out)@);
    if found_ship && game.ship.is_none() {
        game.ship = Some(ShipState::new());
    }
    let entered = battleship.entered;
    game.battleship = battleship;
    if entered && !game.fabricator {
        game.fabricator = true;
        say(out, data::MSG_FABRICATOR_FOUND);
    } else {
        assert(m0 + Seq::<Seq<char>>::empty() =~= m0);
    }
}

/// The pack comes out: blueprint tokens feed the fabricator, and the rest
/// goes back on the shelf.
fn unpack(game: &mut Game, outfit: EnumMap<Resource, i64>, out: &mut Vec<String>)
    requires
        old(game).wf(),
        outfit.wf(),
        nonneg(outfit@),
        forall|r: Resource| #[trigger] held(old(game).stores@, r) + held(outfit@, r) <= i64::MAX,
    ensures
        final(game).wf(),
        final(game).blueprints@ == old(game).blueprints@.union(
            Set::new(|b: Blueprint| model::carries_token(outfit@, b)),
        ),
        final(game).stores@ == Map::new(
            |r: Resource| old(game).stores@.contains_key(r) || model::without_tokens(outfit@).contains_key(r),
            |r: Resource| (held(old(game).stores@, r) + held(model::without_tokens(outfit@), r)) as i64,
        ),
        final(game).outfit@ == Map::new(
            |r: Resource| model::without_tokens(outfit@).contains_key(r) && stays_packed(r),
            |r: Resource| outfit@[r],
        ),
        *final(game) == (Game {
            blueprints: final(game).blueprints,
            stores: final(game).stores,
            outfit: final(game).outfit,
            ..*old(game)
        }),
        texts(final(out)@) == texts(old(out)@) + if exists|b: Blueprint| model::carries_token(outfit@, b) {
            seq![data::MSG_BLUEPRINTS_REDEEMED@]
        } else {
            Seq::<Seq<char>>::empty()
        },
{
    let ghost m0 = texts(old(out)@);
    let ghost pack0 = outfit@;
    let mut pack = outfit;
    if game.redeem_blueprints(&mut pack) {
        say(out, data::MSG_BLUEPRINTS_REDEEMED);
    } else {
        assert(m0 + Seq::<Seq<char>>::empty() =~= m0);
    }
    proof {
        assert forall|r: Resource| #[trigger] held(game.stores@, r) + held(pack@, r) <= i64::MAX by {
            assert(held(old(game).stores@, r) + held(pack0, r) <= i64::MAX);
        }
    }
    bank_pack(game, &pack);
}

/// The working copy becomes the committed map: everything uncovered, cleared
/// or roaded this trip is kept, and only now.
fn commit_map(game: &mut Game, map: WorldMap)
    requires
        old(game).wf(),
        map.wf(),
    ensures
        final(game).wf(),
        *final(game) == (Game {
            seen_all_map: map.all_seen_spec(),
            world: Some(map),
            expedition: None,
            ..*old(game)
        }),
{
    game.seen_all_map = map.all_seen();
    game.world = Some(map);
    game.expedition = None;
}

// ---------------------------------------------------------------------------
// Roads
// ---------------------------------------------------------------------------

/// The spiral the road search walks, as `(x, y, dx, dy)` after `k` moves:
/// out along manhattan contours from the start.
pub open spec fn spiral(k: nat) -> (int, int, int, int)
    decreases k,
{
    if k == 0 {
        (0, 0, 1, -1)
    } else {
        let (x, y, dx, dy) = spiral((k - 1) as nat);
        let (ex, ey) = if x == 0 || y == 0 {
            (-dy, dx)
        } else {
            (dx, dy)
        };
        if x == 0 && y <= 0 {
            (x + 1, y, ex, ey)
        } else {
            (x + ex, y + ey, ex, ey)
        }
    }
}

/// Everything the spiral touches stays within `k` of the start, turning on
/// unit steps.
proof fn lemma_spiral_bounds(k: nat)
    ensures
        -(k as int) <= spiral(k).0 <= k,
        -(k as int) <= spiral(k).1 <= k,
        -1 <= spiral(k).2 <= 1,
        -1 <= spiral(k).3 <= 1,
    decreases k,
{
    if k > 0 {
        lemma_spiral_bounds((k - 1) as nat);
    }
}

/// The tile a layer of glyphs holds at a square; off the edge, barrens.
pub open spec fn tile_in(tiles: Seq<Seq<char>>, x: int, y: int) -> Tile {
    match cell(tiles, x, y) {
        Some(c) => world_data::tile_of_glyph(c),
        None => Tile::Barrens,
    }
}

/// Whether the road can stop at a square the spiral reached at offset
/// `(x, y)`: a road, an outpost other than the one being cleared, or the
/// village, away from the map's edge.
pub open spec fn joins_road(tiles: Seq<Seq<char>>, sx: int, sy: int, x: int, y: int) -> bool {
    let tile = tile_in(tiles, sx, sy);
    &&& 0 < sx < GRID - 1
    &&& 0 < sy < GRID - 1
    &&& (tile == Tile::Road || (tile == Tile::Outpost && !(x == 0 && y == 0)) || tile == Tile::Village)
}

/// Whether the spiral's `k`th square joins the road.
pub open spec fn joins_at(tiles: Seq<Seq<char>>, start: (i32, i32), k: nat) -> bool {
    let (x, y, _, _) = spiral(k);
    joins_road(tiles, start.0 + x, start.1 + y, x, y)
}

/// How far the search spirals before giving up on the village.
pub open spec fn search_limit(start: (i32, i32)) -> int {
    let d = distance_from_home(start.0 as int, start.1 as int) + 2;
    d * d
}

/// A search from a square of the map is short.
pub proof fn lemma_grid_search(start: (i32, i32))
    requires
        on_grid(start.0 as int, start.1 as int),
    ensures
        search_limit(start) <= 4000,
{
    let d = distance_from_home(start.0 as int, start.1 as int) + 2;
    assert(d * d <= 4000) by (nonlinear_arith)
        requires
            2 <= d <= 62,
    ;
}

/// A search that can be counted reaches no further than `i32` holds: its
/// square of the distance, and the start's own coordinates, stay small.
proof fn lemma_search_reach(start: (i32, i32))
    requires
        search_limit(start) <= i32::MAX,
    ensures
        distance_from_home(start.0 as int, start.1 as int) <= 46338,
        -0x7fff_ffff <= start.0 - search_limit(start) && start.0 + search_limit(start) <= 0x7fff_ffff,
        -0x7fff_ffff <= start.1 - search_limit(start) && start.1 + search_limit(start) <= 0x7fff_ffff,
{
    let d = distance_from_home(start.0 as int, start.1 as int) + 2;
    assert(d <= 46340) by (nonlinear_arith)
        requires
            d * d <= 0x7fff_ffff,
            d >= 2,
    ;
    assert(d * d <= 2147395600) by (nonlinear_arith)
        requires
            2 <= d <= 46340,
    ;
    assert(search_limit(start) == d * d);
}

/// Spiral out along manhattan contours until something road-like turns up;
/// failing that, the village.
pub fn closest_road(map: &WorldMap, start: (i32, i32)) -> (r: (i32, i32))
    requires
        search_limit(start) <= i32::MAX,
    ensures
        (exists|k: nat| k < search_limit(start) && #[trigger] joins_at(map.tiles_v(), start, k)) ==> exists|
            k: nat,
        |
            k < search_limit(start) && #[trigger] joins_at(map.tiles_v(), start, k) && (forall|j: nat|
                j < k ==> !joins_at(map.tiles_v(), start, j)) && r.0 == start.0 + spiral(k).0 && r.1 == start.1
                + spiral(k).1,
        (forall|k: nat| k < search_limit(start) ==> !#[trigger] joins_at(map.tiles_v(), start, k)) ==> r == (
            world_data::VILLAGE_X,
            world_data::VILLAGE_Y,
        ),
        on_grid(r.0 as int, r.1 as int),
{
    proof {
        lemma_search_reach(start);
    }
    let dxv = if start.0 >= world_data::VILLAGE_X {
        start.0 - world_data::VILLAGE_X
    } else {
        world_data::VILLAGE_X - start.0
    };
    let dyv = if start.1 >= world_data::VILLAGE_Y {
        start.1 - world_data::VILLAGE_Y
    } else {
        world_data::VILLAGE_Y - start.1
    };
    let d = dxv + dyv + 2;
    assert(d * d == search_limit(start));
    let limit = d * d;
    let mut x: i32 = 0;
    let mut y: i32 = 0;
    let mut dx: i32 = 1;
    let mut dy: i32 = -1;
    let mut k: i32 = 0;
    while k < limit
        invariant
            0 <= k <= limit,
            limit == search_limit(start),
            -0x7fff_ffff <= start.0 - limit && start.0 + limit <= 0x7fff_ffff,
            -0x7fff_ffff <= start.1 - limit && start.1 + limit <= 0x7fff_ffff,
            (x as int, y as int, dx as int, dy as int) == spiral(k as nat),
            forall|j: nat| j < k ==> !#[trigger] joins_at(map.tiles_v(), start, j),
        decreases limit - k,
    {
        proof {
            lemma_spiral_bounds(k as nat);
        }
        let sx = start.0 + x;
        let sy = start.1 + y;
        if sx > 0 && sx < GRID - 1 && sy > 0 && sy < GRID - 1 {
            let tile = map.tile(sx, sy);
            let connected = tile == Tile::Road || (tile == Tile::Outpost && !(x == 0 && y == 0)) || tile
                == Tile::Village;
            if connected {
                assert(joins_at(map.tiles_v(), start, k as nat));
                return (sx, sy);
            }
        }
        assert(!joins_at(map.tiles_v(), start, k as nat));
        if x == 0 || y == 0 {
            let tmp = dx;
            dx = -dy;
            dy = tmp;
        }
        if x == 0 && y <= 0 {
            x = x + 1;
        } else {
            x = x + dx;
            y = y + dy;
        }
        k = k + 1;
    }
    (world_data::VILLAGE_X, world_data::VILLAGE_Y)
}

/// Whether `a` lies on a leg of road `len` squares long from `from`,
/// heading `dir` (one step up or down the axis).
pub open spec fn on_leg(a: int, from: int, dir: int, len: int) -> bool {
    if dir > 0 {
        from <= a < from + len
    } else {
        from - len < a <= from
    }
}

/// The squares a road from `start` back to `end` runs over: along one axis
/// and then the other.
pub open spec fn on_road(start: (int, int), end: (int, int), a: int, b: int) -> bool {
    let x_dist = start.0 - end.0;
    let y_dist = start.1 - end.1;
    let ax = if x_dist < 0 {
        -x_dist
    } else {
        x_dist
    };
    let ay = if y_dist < 0 {
        -y_dist
    } else {
        y_dist
    };
    let (x_int, y_int) = if ax > ay {
        (end.0, end.1 + y_dist)
    } else {
        (end.0 + x_dist, end.1)
    };
    (b == y_int && on_leg(a, end.0, x_dist, ax)) || (a == x_int && on_leg(b, end.1, y_dist, ay))
}

/// Where the road search stops: the first square of the spiral that joins
/// the road, or the village.
pub open spec fn road_end(map: Seq<Seq<char>>, start: (i32, i32)) -> (int, int) {
    if exists|k: nat| k < search_limit(start) && #[trigger] joins_at(map, start, k) {
        let k = choose|k: nat|
            k < search_limit(start) && #[trigger] joins_at(map, start, k) && (forall|j: nat|
                j < k ==> !joins_at(map, start, j));
        (start.0 + spiral(k).0, start.1 + spiral(k).1)
    } else {
        (world_data::VILLAGE_X as int, world_data::VILLAGE_Y as int)
    }
}

/// The search always stops where `road_end` says.
proof fn lemma_road_end(map: Seq<Seq<char>>, start: (i32, i32), r: (i32, i32))
    requires
        (exists|k: nat| k < search_limit(start) && #[trigger] joins_at(map, start, k)) ==> exists|
            k: nat,
        |
            k < search_limit(start) && #[trigger] joins_at(map, start, k) && (forall|j: nat|
                j < k ==> !joins_at(map, start, j)) && r.0 == start.0 + spiral(k).0 && r.1 == start.1
                + spiral(k).1,
        (forall|k: nat| k < search_limit(start) ==> !#[trigger] joins_at(map, start, k)) ==> r == (
            world_data::VILLAGE_X,
            world_data::VILLAGE_Y,
        ),
    ensures
        (r.0 as int, r.1 as int) == road_end(map, start),
{
    if exists|k: nat| k < search_limit(start) && #[trigger] joins_at(map, start, k) {
        let k1 = choose|k: nat|
            k < search_limit(start) && #[trigger] joins_at(map, start, k) && (forall|j: nat|
                j < k ==> !joins_at(map, start, j)) && r.0 == start.0 + spiral(k).0 && r.1 == start.1
                + spiral(k).1;
        let k2 = choose|k: nat|
            k < search_limit(start) && #[trigger] joins_at(map, start, k) && (forall|j: nat|
                j < k ==> !joins_at(map, start, j));
        if k2 < k1 {
            assert(!joins_at(map, start, k2));
        } else if k1 < k2 {
            assert(!joins_at(map, start, k1));
        }
        assert(k1 == k2);
    }
}

/// A road drawn from the trip's square to where the nearest connection
/// lies: every terrain square on the way becomes road, and nothing else about
/// the trip changes.
pub open spec fn road_drawn(before: Expedition, after: Expedition) -> bool {
    &&& after.wf()
    &&& after == (Expedition { map: after.map, ..before })
    &&& after.map.mask == before.map.mask
    &&& after.map.visited == before.map.visited
    &&& forall|a: int, b: int|
        on_grid(a, b) ==> #[trigger] after.map.tile_at(a, b) == if on_road(
            (before.x as int, before.y as int),
            road_end(before.map.tiles_v(), (before.x, before.y)),
            a,
            b,
        ) && world_data::is_terrain_tile(before.map.tile_at(a, b)) {
            Tile::Road
        } else {
            before.map.tile_at(a, b)
        }
}

/// The trip's square turned into an outpost, with a road drawn from it as
/// though it already stood there.
pub open spec fn dungeon_cleared(before: Expedition, after: Expedition) -> bool {
    &&& after.wf()
    &&& after == (Expedition { map: after.map, ..before })
    &&& after.map.mask == before.map.mask
    &&& after.map.visited == before.map.visited
    &&& on_grid(before.x as int, before.y as int) ==> after.map.tile_at(before.x as int, before.y as int)
        == Tile::Outpost
    &&& forall|a: int, b: int|
        on_grid(a, b) && !(a == before.x && b == before.y) ==> #[trigger] after.map.tile_at(a, b) == if on_road(
            (before.x as int, before.y as int),
            road_end(
                put_cell(before.map.tiles_v(), before.x as int, before.y as int, world_data::tile_glyph(Tile::Outpost)),
                (before.x, before.y),
            ),
            a,
            b,
        ) && world_data::is_terrain_tile(before.map.tile_at(a, b)) {
            Tile::Road
        } else {
            before.map.tile_at(a, b)
        }
}

/// Run a road from the trip's square to the nearest road, outpost or the
/// village itself, over terrain only.
#[verifier::rlimit(40)]
pub fn draw_road(trip: &mut Expedition)
    requires
        old(trip).wf(),
        search_limit((old(trip).x, old(trip).y)) <= i32::MAX,
    ensures
        road_drawn(*old(trip), *final(trip)),
{
    let ghost m0 = old(trip).map;
    let start = (trip.x, trip.y);
    proof {
        lemma_search_reach(start);
    }
    let closest = closest_road(&trip.map, start);
    proof {
        lemma_road_end(m0.tiles_v(), start, closest);
    }
    let x_dist = start.0 - closest.0;
    let y_dist = start.1 - closest.1;
    let ax = if x_dist < 0 {
        -x_dist
    } else {
        x_dist
    };
    let ay = if y_dist < 0 {
        -y_dist
    } else {
        y_dist
    };
    let (x_int, y_int) = if ax > ay {
        (closest.0, closest.1 + y_dist)
    } else {
        (closest.0 + x_dist, closest.1)
    };
    let ghost end = (closest.0 as int, closest.1 as int);
    let ghost st = (start.0 as int, start.1 as int);
    let mut k: i32 = 0;
    while k < ax
        invariant
            0 <= k <= ax,
            ax == (if x_dist < 0 { -x_dist } else { x_dist as int }),
            -100_000 <= x_dist <= 100_000,
            -100_000 <= closest.0 <= 100_000,
            -100_000 <= y_int <= 100_000,
            end == (closest.0 as int, closest.1 as int),
            trip.wf(),
            *trip == (Expedition { map: trip.map, ..*old(trip) }),
            trip.map.mask == m0.mask,
            trip.map.visited == m0.visited,
            forall|a: int, b: int|
                on_grid(a, b) ==> #[trigger] trip.map.tile_at(a, b) == if b == y_int && on_leg(
                    a,
                    end.0,
                    x_dist as int,
                    k as int,
                ) && world_data::is_terrain_tile(m0.tile_at(a, b)) {
                    Tile::Road
                } else {
                    m0.tile_at(a, b)
                },
        decreases ax - k,
    {
        let px = if x_dist > 0 {
            closest.0 + k
        } else {
            closest.0 - k
        };
        let ghost before = trip.map;
        let paved = trip.map.tile(px, y_int).is_terrain();
        if paved {
            trip.map.set_tile(px, y_int, Tile::Road);
        }
        proof {
            assert forall|a: int, b: int| on_grid(a, b) implies #[trigger] trip.map.tile_at(a, b) == if b
                == y_int && on_leg(a, end.0, x_dist as int, (k + 1) as int)
                && world_data::is_terrain_tile(m0.tile_at(a, b)) {
                Tile::Road
            } else {
                m0.tile_at(a, b)
            } by {
                crate::world::lemma_put_cell(before.tiles_v(), px as int, y_int as int, '#', a, b);
                if a == px && b == y_int {
                    assert(!on_leg(a, end.0, x_dist as int, k as int));
                    assert(on_leg(a, end.0, x_dist as int, (k + 1) as int));
                } else if b == y_int {
                    assert(on_leg(a, end.0, x_dist as int, (k + 1) as int) == on_leg(
                        a,
                        end.0,
                        x_dist as int,
                        k as int,
                    ));
                }
                assert(before.tile_at(a, b) == if b == y_int && on_leg(a, end.0, x_dist as int, k as int)
                    && world_data::is_terrain_tile(m0.tile_at(a, b)) {
                    Tile::Road
                } else {
                    m0.tile_at(a, b)
                });
            }
        }
        k = k + 1;
    }
    let mut k: i32 = 0;
    while k < ay
        invariant
            0 <= k <= ay,
            ay == (if y_dist < 0 { -y_dist } else { y_dist as int }),
            ax == (if x_dist < 0 { -x_dist } else { x_dist as int }),
            -100_000 <= y_dist <= 100_000,
            -100_000 <= closest.1 <= 100_000,
            -100_000 <= x_int <= 100_000,
            end == (closest.0 as int, closest.1 as int),
            trip.wf(),
            *trip == (Expedition { map: trip.map, ..*old(trip) }),
            trip.map.mask == m0.mask,
            trip.map.visited == m0.visited,
            forall|a: int, b: int|
                on_grid(a, b) ==> #[trigger] trip.map.tile_at(a, b) == if ((b == y_int && on_leg(
                    a,
                    end.0,
                    x_dist as int,
                    ax as int,
                )) || (a == x_int && on_leg(b, end.1, y_dist as int, k as int)))
                    && world_data::is_terrain_tile(m0.tile_at(a, b)) {
                    Tile::Road
                } else {
                    m0.tile_at(a, b)
                },
        decreases ay - k,
    {
        let py = if y_dist > 0 {
            closest.1 + k
        } else {
            closest.1 - k
        };
        let ghost before = trip.map;
        let paved = trip.map.tile(x_int, py).is_terrain();
        if paved {
            trip.map.set_tile(x_int, py, Tile::Road);
        }
        proof {
            assert forall|a: int, b: int| on_grid(a, b) implies #[trigger] trip.map.tile_at(a, b) == if ((b
                == y_int && on_leg(a, end.0, x_dist as int, ax as int)) || (a == x_int && on_leg(
                b,
                end.1,
                y_dist as int,
                (k + 1) as int,
            ))) && world_data::is_terrain_tile(m0.tile_at(a, b)) {
                Tile::Road
            } else {
                m0.tile_at(a, b)
            } by {
                crate::world::lemma_put_cell(before.tiles_v(), x_int as int, py as int, '#', a, b);
                if a == x_int && b == py {
                    assert(!on_leg(b, end.1, y_dist as int, k as int));
                    assert(on_leg(b, end.1, y_dist as int, (k + 1) as int));
                } else if a == x_int {
                    assert(on_leg(b, end.1, y_dist as int, (k + 1) as int) == on_leg(
                        b,
                        end.1,
                        y_dist as int,
                        k as int,
                    ));
                }
                assert(before.tile_at(a, b) == if ((b == y_int && on_leg(a, end.0, x_dist as int, ax as int))
                    || (a == x_int && on_leg(b, end.1, y_dist as int, k as int)))
                    && world_data::is_terrain_tile(m0.tile_at(a, b)) {
                    Tile::Road
                } else {
                    m0.tile_at(a, b)
                });
            }
        }
        k = k + 1;
    }
}

/// A cleared landmark becomes an outpost, and a road runs back to whatever
/// is already connected.
pub fn clear_dungeon(trip: &mut Expedition)
    requires
        old(trip).wf(),
        search_limit((old(trip).x, old(trip).y)) <= i32::MAX,
    ensures
        dungeon_cleared(*old(trip), *final(trip)),
{
    let ghost m0 = trip.map;
    trip.map.set_tile(trip.x, trip.y, Tile::Outpost);
    proof {
        assert forall|a: int, b: int| on_grid(a, b) implies #[trigger] trip.map.tile_at(a, b) == if a == trip.x
            && b == trip.y {
            Tile::Outpost
        } else {
            m0.tile_at(a, b)
        } by {
            crate::world::lemma_put_cell(m0.tiles_v(), trip.x as int, trip.y as int, 'P', a, b);
        }
        crate::world::lemma_put_cell(m0.tiles_v(), trip.x as int, trip.y as int, 'P', 0, 0);
    }
    let ghost m1 = trip.map;
    draw_road(trip);
}

// ---------------------------------------------------------------------------
// Generation
// ---------------------------------------------------------------------------

/// Where a square lives in the generation grid: one column of `GRID` per `x`.
pub open spec fn slot(x: int, y: int) -> int {
    x * GRID + y
}

/// What generation has written at a square so far; nothing off the edge.
pub open spec fn written(grid: Seq<Option<Tile>>, x: int, y: int) -> Option<Tile> {
    if on_grid(x, y) {
        grid[slot(x, y)]
    } else {
        None
    }
}

/// How many of a square's four neighbours hold `t`.
pub open spec fn sticky_count(grid: Seq<Option<Tile>>, x: int, y: int, t: Tile) -> int {
    (if written(grid, x, y - 1) == Some(t) {
        1int
    } else {
        0int
    }) + (if written(grid, x, y + 1) == Some(t) {
        1int
    } else {
        0int
    }) + (if written(grid, x + 1, y) == Some(t) {
        1int
    } else {
        0int
    }) + (if written(grid, x - 1, y) == Some(t) {
        1int
    } else {
        0int
    })
}

/// How many of a square's four neighbours have been written.
pub open spec fn written_count(grid: Seq<Option<Tile>>, x: int, y: int) -> int {
    (if written(grid, x, y - 1) is Some {
        1int
    } else {
        0int
    }) + (if written(grid, x, y + 1) is Some {
        1int
    } else {
        0int
    }) + (if written(grid, x + 1, y) is Some {
        1int
    } else {
        0int
    }) + (if written(grid, x - 1, y) is Some {
        1int
    } else {
        0int
    })
}

/// The odds of a terrain tile, in hundredths.
pub open spec fn terrain_odds(t: Tile) -> int {
    if t == Tile::Forest {
        world_data::FOREST_PCT as int
    } else if t == Tile::Field {
        world_data::FIELD_PCT as int
    } else if t == Tile::Barrens {
        world_data::BARRENS_PCT as int
    } else {
        0
    }
}

/// A terrain tile's weight at a square, in ten-thousandths: each written
/// neighbour of the same kind pulls half the odds its way, and the rest is the
/// flat terrain distribution over what is left.
pub open spec fn tile_weight(grid: Seq<Option<Tile>>, x: int, y: int, t: Tile) -> int {
    (world_data::STICKINESS_PCT as int) * 100 * sticky_count(grid, x, y, t) + terrain_odds(t) * (100
        - (world_data::STICKINESS_PCT as int) * written_count(grid, x, y))
}

/// Whether `a` ranks before `b`: the heavier first, and between equals the
/// lower glyph.
pub open spec fn outranks(a: (Tile, int), b: (Tile, int)) -> bool {
    a.1 > b.1 || (a.1 == b.1 && (world_data::tile_glyph(a.0) as int) < (world_data::tile_glyph(b.0) as int))
}

/// Three weighted tiles in rank order.
pub open spec fn ranked(e0: (Tile, int), e1: (Tile, int), e2: (Tile, int)) -> Seq<(Tile, int)> {
    let (a, b) = if outranks(e1, e0) {
        (e1, e0)
    } else {
        (e0, e1)
    };
    let (b2, c) = if outranks(e2, b) {
        (e2, b)
    } else {
        (b, e2)
    };
    let (a2, b3) = if outranks(b2, a) {
        (b2, a)
    } else {
        (a, b2)
    };
    seq![a2, b3, c]
}

/// Whether a draw falls under a cumulative weight, in ten-thousandths.
pub open spec fn under(d: u64, cumulative: int) -> bool {
    chance::unit(d) * 10000 < cumulative * (UNIT as int)
}

/// The tile generation writes at a square for a draw: the forest next to
/// the village, else the first tile in rank order whose cumulative weight
/// the draw falls under.
pub open spec fn chosen(grid: Seq<Option<Tile>>, x: int, y: int, d: u64) -> Tile {
    let order = ranked(
        (Tile::Forest, tile_weight(grid, x, y, Tile::Forest)),
        (Tile::Field, tile_weight(grid, x, y, Tile::Field)),
        (Tile::Barrens, tile_weight(grid, x, y, Tile::Barrens)),
    );
    if under(d, order[0].1) {
        order[0].0
    } else if under(d, order[0].1 + order[1].1) {
        order[1].0
    } else if under(d, order[0].1 + order[1].1 + order[2].1) {
        order[2].0
    } else {
        Tile::Barrens
    }
}

/// Whether every written square holds terrain or the village.
pub open spec fn plain(grid: Seq<Option<Tile>>) -> bool {
    forall|i: int|
        0 <= i < grid.len() ==> (#[trigger] grid[i] matches Some(t) ==> world_data::is_terrain_tile(t) || t
            == Tile::Village)
}

/// What generation has written at a neighbour, as the tile chooser counts
/// it.
fn neighbour(grid: &Vec<Option<Tile>>, x: i32, y: i32) -> (r: Option<Tile>)
    requires
        grid@.len() == GRID * GRID,
        -1 <= x <= GRID,
        -1 <= y <= GRID,
    ensures
        r == written(grid@, x as int, y as int),
{
    if x < 0 || y < 0 || x >= GRID || y >= GRID {
        None
    } else {
        grid[(x * GRID + y) as usize]
    }
}

/// Whether `a` ranks before `b`, on the exec side.
fn outranks_exec(a: (Tile, i64), b: (Tile, i64)) -> (r: bool)
    ensures
        r == outranks((a.0, a.1 as int), (b.0, b.1 as int)),
{
    a.1 > b.1 || (a.1 == b.1 && (a.0.glyph() as u32) < (b.0.glyph() as u32))
}

/// Whether a neighbour holds `t`, as a count.
fn holds_tile(n: Option<Tile>, t: Tile) -> (r: i64)
    ensures
        r == if n == Some(t) {
            1int
        } else {
            0int
        },
{
    match n {
        Some(held) => if held == t {
            1
        } else {
            0
        },
        None => 0,
    }
}

/// Whether a draw falls under a cumulative weight, on the exec side.
fn draw_under(d: u64, cumulative: i64) -> (r: bool)
    requires
        -1_000_000 <= cumulative <= 1_000_000,
    ensures
        r == under(d, cumulative as int),
{
    let u = chance::unit_of(d);
    let lhs = (u as i128) * 10000;
    let rhs = (cumulative as i128) * (UNIT as i128);
    lhs < rhs
}

/// The three terrain weights at a square, and whether it borders the
/// village.
fn weigh(grid: &Vec<Option<Tile>>, x: i32, y: i32) -> (r: (bool, i64, i64, i64))
    requires
        grid@.len() == GRID * GRID,
        on_grid(x as int, y as int),
    ensures
        r.0 == (sticky_count(grid@, x as int, y as int, Tile::Village) > 0),
        r.1 == tile_weight(grid@, x as int, y as int, Tile::Forest),
        r.2 == tile_weight(grid@, x as int, y as int, Tile::Field),
        r.3 == tile_weight(grid@, x as int, y as int, Tile::Barrens),
        -100_000 <= r.1 <= 100_000,
        -100_000 <= r.2 <= 100_000,
        -100_000 <= r.3 <= 100_000,
{
    let n0 = neighbour(grid, x, y - 1);
    let n1 = neighbour(grid, x, y + 1);
    let n2 = neighbour(grid, x + 1, y);
    let n3 = neighbour(grid, x - 1, y);
    let village = holds_tile(n0, Tile::Village) + holds_tile(n1, Tile::Village) + holds_tile(
        n2,
        Tile::Village,
    ) + holds_tile(n3, Tile::Village);
    let forest = holds_tile(n0, Tile::Forest) + holds_tile(n1, Tile::Forest) + holds_tile(
        n2,
        Tile::Forest,
    ) + holds_tile(n3, Tile::Forest);
    let field = holds_tile(n0, Tile::Field) + holds_tile(n1, Tile::Field) + holds_tile(
        n2,
        Tile::Field,
    ) + holds_tile(n3, Tile::Field);
    let barrens = holds_tile(n0, Tile::Barrens) + holds_tile(n1, Tile::Barrens) + holds_tile(
        n2,
        Tile::Barrens,
    ) + holds_tile(n3, Tile::Barrens);
    let seen: i64 = (if n0.is_some() {
        1
    } else {
        0
    }) + (if n1.is_some() {
        1
    } else {
        0
    }) + (if n2.is_some() {
        1
    } else {
        0
    }) + (if n3.is_some() {
        1
    } else {
        0
    });
    assert(0 <= forest <= 4 && 0 <= field <= 4 && 0 <= barrens <= 4 && 0 <= seen <= 4);
    let rest = 100 - (world_data::STICKINESS_PCT as i64) * seen;
    let sticky = (world_data::STICKINESS_PCT as i64) * 100;
    assert(-100 <= rest <= 100 && sticky == 5000);
    let fp = world_data::FOREST_PCT as i64;
    let dp = world_data::FIELD_PCT as i64;
    let bp = world_data::BARRENS_PCT as i64;
    assert(fp == 15 && dp == 35 && bp == 50);
    assert(-5000 <= fp * rest <= 5000 && -5000 <= dp * rest <= 5000 && -5000 <= bp * rest <= 5000)
        by (nonlinear_arith)
        requires
            fp == 15,
            dp == 35,
            bp == 50,
            -100 <= rest <= 100,
    ;
    assert(0 <= sticky * forest <= 20000 && 0 <= sticky * field <= 20000 && 0 <= sticky * barrens
        <= 20000) by (nonlinear_arith)
        requires
            sticky == 5000,
            0 <= forest <= 4,
            0 <= field <= 4,
            0 <= barrens <= 4,
    ;
    (village > 0, sticky * forest + fp * rest, sticky * field + dp * rest, sticky * barrens + bp * rest)
}

/// Three weighted tiles in rank order.
fn rank(e0: (Tile, i64), e1: (Tile, i64), e2: (Tile, i64)) -> (r: ((Tile, i64), (Tile, i64), (Tile, i64)))
    ensures
        ranked((e0.0, e0.1 as int), (e1.0, e1.1 as int), (e2.0, e2.1 as int)) == seq![
            (r.0.0, r.0.1 as int),
            (r.1.0, r.1.1 as int),
            (r.2.0, r.2.1 as int),
        ],
        (r.0.1 == e0.1 || r.0.1 == e1.1 || r.0.1 == e2.1),
        (r.1.1 == e0.1 || r.1.1 == e1.1 || r.1.1 == e2.1),
        (r.2.1 == e0.1 || r.2.1 == e1.1 || r.2.1 == e2.1),
{
    let (a, b) = if outranks_exec(e1, e0) {
        (e1, e0)
    } else {
        (e0, e1)
    };
    let (b2, c) = if outranks_exec(e2, b) {
        (e2, b)
    } else {
        (b, e2)
    };
    let (a2, b3) = if outranks_exec(b2, a) {
        (b2, a)
    } else {
        (a, b2)
    };
    (a2, b3, c)
}

/// Choose a square's tile: written neighbours pull the odds their way, and
/// the rest is the flat terrain distribution.
fn choose_tile(grid: &Vec<Option<Tile>>, x: i32, y: i32, rng: &mut StdRng) -> (t: Tile)
    requires
        grid@.len() == GRID * GRID,
        on_grid(x as int, y as int),
    ensures
        sticky_count(grid@, x as int, y as int, Tile::Village) > 0 ==> t == Tile::Forest,
        sticky_count(grid@, x as int, y as int, Tile::Village) == 0 ==> exists|d: u64|
            t == #[trigger] chosen(grid@, x as int, y as int, d),
        world_data::is_terrain_tile(t),
{
    let (village, forest, field, barrens) = weigh(grid, x, y);
    if village {
        // The village must sit in a forest, for the look of the thing.
        return Tile::Forest;
    }
    let (a, b, c) = rank((Tile::Forest, forest), (Tile::Field, field), (Tile::Barrens, barrens));
    let d = draw(rng);
    let t = if draw_under(d, a.1) {
        a.0
    } else if draw_under(d, a.1 + b.1) {
        b.0
    } else if draw_under(d, a.1 + b.1 + c.1) {
        c.0
    } else {
        Tile::Barrens
    };
    assert(t == chosen(grid@, x as int, y as int, d));
    t
}

/// A coordinate pulled back onto the map.
pub open spec fn clamp_grid(v: int) -> int {
    if v < 0 {
        0
    } else if v > 2 * world_data::RADIUS {
        2 * world_data::RADIUS
    } else {
        v
    }
}

/// Where one attempt at placing a landmark lands, for its four draws: a
/// distance in the ring, split at random between the axes, each signed at
/// random, pulled back onto the map.
pub open spec fn attempt(min: int, max: int, d: Seq<u64>) -> (int, int) {
    let span = if max - min > 0 {
        max - min
    } else {
        0
    };
    let r = chance::scaled(d[0], span) + min;
    let xd = chance::scaled(d[1], r);
    let yd = r - xd;
    let xs = if chance::below(d[2], 1, 2) {
        -xd
    } else {
        xd
    };
    let ys = if chance::below(d[3], 1, 2) {
        -yd
    } else {
        yd
    };
    (clamp_grid(world_data::RADIUS + xs), clamp_grid(world_data::RADIUS + ys))
}

/// One attempt at a square in a ring around the village.
fn aim(min: i32, max: i32, rng: &mut StdRng) -> (r: (i32, i32, Ghost<Seq<u64>>))
    requires
        0 <= min <= world_data::RADIUS,
        min <= max <= 45,
    ensures
        r.2@.len() == 4,
        (r.0 as int, r.1 as int) == attempt(min as int, max as int, r.2@),
        on_grid(r.0 as int, r.1 as int),
        min <= manhattan(r.0 as int, r.1 as int, world_data::RADIUS as int, world_data::RADIUS as int) <= max,
{
    let span: i32 = if max - min > 0 {
        max - min
    } else {
        0
    };
    let d0 = draw(rng);
    let radius = (chance::draw_scaled(d0, span as u64) as i32) + min;
    let d1 = draw(rng);
    let xd = chance::draw_scaled(d1, radius as u64) as i32;
    let yd = radius - xd;
    let d2 = draw(rng);
    let xs = if chance::draw_below(d2, 1, 2) {
        -xd
    } else {
        xd
    };
    let d3 = draw(rng);
    let ys = if chance::draw_below(d3, 1, 2) {
        -yd
    } else {
        yd
    };
    let x = if world_data::RADIUS + xs < 0 {
        0
    } else if world_data::RADIUS + xs > 2 * world_data::RADIUS {
        2 * world_data::RADIUS
    } else {
        world_data::RADIUS + xs
    };
    let y = if world_data::RADIUS + ys < 0 {
        0
    } else if world_data::RADIUS + ys > 2 * world_data::RADIUS {
        2 * world_data::RADIUS
    } else {
        world_data::RADIUS + ys
    };
    let ghost ds = seq![d0, d1, d2, d3];
    assert(ds[0] == d0 && ds[1] == d1 && ds[2] == d2 && ds[3] == d3);
    (x, y, Ghost(ds))
}

/// Whether a square of the generation grid may take a landmark: terrain
/// has been written there.
pub open spec fn open_ground(grid: Seq<Option<Tile>>, x: int, y: int) -> bool {
    written(grid, x, y) matches Some(t) && world_data::is_terrain_tile(t)
}

/// Whether every square of a ring around the village is open ground.
pub open spec fn ring_open(grid: Seq<Option<Tile>>, min: int, max: int) -> bool {
    forall|x: int, y: int|
        on_grid(x, y) && min <= manhattan(x, y, world_data::RADIUS as int, world_data::RADIUS as int) <= max
            ==> #[trigger] open_ground(grid, x, y)
}

/// Where a landmark's placing ended: a square of its ring, aimed at by the
/// draw rule, that is open ground whenever the whole ring is.
pub open spec fn landed(grid: Seq<Option<Tile>>, min: int, max: int, r: (int, int)) -> bool {
    &&& on_grid(r.0, r.1)
    &&& min <= manhattan(r.0, r.1, world_data::RADIUS as int, world_data::RADIUS as int) <= max
    &&& exists|ds: Seq<u64>| ds.len() == 4 && r == #[trigger] attempt(min, max, ds)
    &&& ring_open(grid, min, max) ==> open_ground(grid, r.0, r.1)
}

/// The grid once a landmark's placing ended at `r`: the landmark on that
/// square if it is open ground, else the grid untouched.
pub open spec fn dropped_on(grid: Seq<Option<Tile>>, r: (int, int), landmark: Tile) -> Seq<Option<Tile>> {
    if open_ground(grid, r.0, r.1) {
        grid.update(slot(r.0, r.1), Some(landmark))
    } else {
        grid
    }
}

/// Drop one landmark in its ring, on terrain only: random squares of the
/// ring are tried until one is open ground. Gives up after ten thousand
/// tries, leaving the grid alone, which only a ring with ground taken
/// can make it do.
fn place_landmark(grid: &mut Vec<Option<Tile>>, min: i32, max: i32, landmark: Tile, rng: &mut StdRng) -> (r: (
    i32,
    i32,
))
    requires
        old(grid)@.len() == GRID * GRID,
        0 <= min <= world_data::RADIUS,
        min <= max <= 45,
        !open_ground(old(grid)@, world_data::RADIUS as int, world_data::RADIUS as int),
    ensures
        landed(old(grid)@, min as int, max as int, (r.0 as int, r.1 as int)),
        final(grid)@ == dropped_on(old(grid)@, (r.0 as int, r.1 as int), landmark),
{
    let mut x = world_data::RADIUS;
    let mut y = world_data::RADIUS;
    let mut guard: u32 = 0;
    loop
        invariant
            grid@ == old(grid)@,
            grid@.len() == GRID * GRID,
            0 <= min <= world_data::RADIUS,
            min <= max <= 45,
            on_grid(x as int, y as int),
            !open_ground(old(grid)@, world_data::RADIUS as int, world_data::RADIUS as int),
            guard == 0 ==> x == world_data::RADIUS && y == world_data::RADIUS,
            guard > 0 ==> min <= manhattan(x as int, y as int, world_data::RADIUS as int, world_data::RADIUS as int) <= max,
            guard > 0 ==> exists|ds: Seq<u64>| ds.len() == 4 && (x as int, y as int) == #[trigger] attempt(
                min as int,
                max as int,
                ds,
            ),
            guard <= 10_000,
            ring_open(old(grid)@, min as int, max as int) ==> guard <= 1,
        ensures
            grid@ == old(grid)@,
            on_grid(x as int, y as int),
            open_ground(old(grid)@, x as int, y as int),
            min <= manhattan(x as int, y as int, world_data::RADIUS as int, world_data::RADIUS as int) <= max,
            exists|ds: Seq<u64>| ds.len() == 4 && (x as int, y as int) == #[trigger] attempt(
                min as int,
                max as int,
                ds,
            ),
        decreases 10_000 - guard,
    {
        let open = match grid[(x * GRID + y) as usize] {
            Some(t) => t.is_terrain(),
            None => false,
        };
        if open {
            break;
        }
        assert(guard > 0 && ring_open(old(grid)@, min as int, max as int) ==> open_ground(
            old(grid)@,
            x as int,
            y as int,
        ));
        if guard >= 10_000 {
            // The ring is full: giving up on one landmark beats spinning
            // forever and hanging a session.
            return (x, y);
        }
        guard = guard + 1;
        let (nx, ny, ds) = aim(min, max, rng);
        x = nx;
        y = ny;
        assert(ds@.len() == 4 && (x as int, y as int) == attempt(min as int, max as int, ds@));
    }
    proof {
        lemma_slot(x as int, y as int, 0, 0);
    }
    grid.set((x * GRID + y) as usize, Some(landmark));
    (x, y)
}

/// What generation may leave on a square: the village at the centre, and
/// elsewhere terrain or a landmark within its ring (the ravaged battleship
/// only on a veteran's map).
pub open spec fn drawn_square(t: Tile, x: int, y: int, veteran: bool) -> bool {
    if x == world_data::RADIUS && y == world_data::RADIUS {
        t == Tile::Village
    } else {
        world_data::is_terrain_tile(t) || ({
            &&& t != Tile::Village
            &&& t != Tile::Outpost
            &&& world_data::landmark_spec(t) matches Some(l) && l.0 > 0 && l.1 <= manhattan(
                x,
                y,
                world_data::RADIUS as int,
                world_data::RADIUS as int,
            ) <= l.2
            &&& t == Tile::Battleship ==> veteran
        })
    }
}

/// The generation grid so far holds only what generation may leave there.
pub open spec fn sound_grid(grid: Seq<Option<Tile>>, veteran: bool) -> bool {
    &&& grid.len() == GRID * GRID
    &&& grid[slot(world_data::RADIUS as int, world_data::RADIUS as int)] == Some(Tile::Village)
    &&& forall|x: int, y: int|
        on_grid(x, y) ==> (#[trigger] grid[slot(x, y)] matches Some(t) ==> drawn_square(t, x, y, veteran))
}

/// Every square a glyph is written with reads back as its tile.
proof fn lemma_glyph_roundtrip(t: Tile)
    ensures
        world_data::tile_of_glyph(world_data::tile_glyph(t)) == t,
{
}

/// Slots of distinct squares are distinct.
proof fn lemma_slot(x: int, y: int, a: int, b: int)
    requires
        on_grid(x, y),
        on_grid(a, b),
    ensures
        0 <= slot(x, y) < GRID * GRID,
        slot(x, y) == slot(a, b) ==> x == a && y == b,
{
    assert(0 <= slot(x, y) < GRID * GRID) by (nonlinear_arith)
        requires
            0 <= x < 61,
            0 <= y < 61,
    ;
    assert(slot(x, y) == slot(a, b) ==> x == a && y == b) by (nonlinear_arith)
        requires
            0 <= x < 61,
            0 <= y < 61,
            0 <= a < 61,
            0 <= b < 61,
    ;
}

/// The square the spiral visits `t` steps into ring `r`: round the square
/// ring of that radius, clockwise from its top left corner.
pub open spec fn spiral_at(r: int, t: int) -> (int, int) {
    let c = world_data::RADIUS as int;
    if t < 2 * r {
        (c - r + t, c - r)
    } else if t < 4 * r {
        (c + r, c - 3 * r + t)
    } else if t < 6 * r {
        (c + 5 * r - t, c + r)
    } else {
        (c - r, c + 7 * r - t)
    }
}

/// The terrain a square takes given what is around it: forest beside the
/// village, else the sticky draw `d`.
pub open spec fn terrain_for(grid: Seq<Option<Tile>>, x: int, y: int, d: u64) -> Tile {
    if sticky_count(grid, x, y, Tile::Village) > 0 {
        Tile::Forest
    } else {
        chosen(grid, x, y, d)
    }
}

/// The grid after the first `ds.len()` squares of ring `r` took their
/// terrain, one draw each.
pub open spec fn filled_ring(grid: Seq<Option<Tile>>, r: int, ds: Seq<u64>) -> Seq<Option<Tile>>
    decreases ds.len(),
{
    if ds.len() == 0 {
        grid
    } else {
        let g = filled_ring(grid, r, ds.drop_last());
        let (x, y) = spiral_at(r, ds.len() - 1);
        g.update(slot(x, y), Some(terrain_for(g, x, y, ds.last())))
    }
}

/// The grid after the first `dss.len()` rings were filled, ring `i + 1`
/// with the draws `dss[i]`.
pub open spec fn filled_rings(grid: Seq<Option<Tile>>, dss: Seq<Seq<u64>>) -> Seq<Option<Tile>>
    decreases dss.len(),
{
    if dss.len() == 0 {
        grid
    } else {
        filled_ring(filled_rings(grid, dss.drop_last()), dss.len() as int, dss.last())
    }
}

/// Terrain spiralled out from the village, ring by ring: every square of
/// every ring, in turn, takes forest beside the village and else its own
/// draw of the sticky terrain rule.
#[verifier::rlimit(90)]
#[verifier::spinoff_prover]
fn spiral_terrain(grid: &mut Vec<Option<Tile>>, veteran: bool, rng: &mut StdRng)
    requires
        sound_grid(old(grid)@, veteran),
    ensures
        sound_grid(final(grid)@, veteran),
        exists|dss: Seq<Seq<u64>>|
            #![trigger filled_rings(old(grid)@, dss)]
            dss.len() == world_data::RADIUS && (forall|i: int|
                0 <= i < dss.len() ==> (#[trigger] dss[i]).len() == 8 * (i + 1)) && final(grid)@
                == filled_rings(old(grid)@, dss),
{
    let ghost g0 = grid@;
    let ghost mut dss: Seq<Seq<u64>> = seq![];
    let mut r: i32 = 1;
    while r <= world_data::RADIUS
        invariant
            1 <= r <= world_data::RADIUS + 1,
            sound_grid(grid@, veteran),
            g0 == old(grid)@,
            dss.len() == r - 1,
            forall|i: int| 0 <= i < dss.len() ==> (#[trigger] dss[i]).len() == 8 * (i + 1),
            grid@ == filled_rings(g0, dss),
        decreases world_data::RADIUS + 1 - r,
    {
        let ghost base = grid@;
        let ghost mut ds: Seq<u64> = seq![];
        let mut t: i32 = 0;
        while t < r * 8
            invariant
                1 <= r <= world_data::RADIUS,
                0 <= t <= r * 8,
                sound_grid(grid@, veteran),
                ds.len() == t,
                grid@ == filled_ring(base, r as int, ds),
            decreases r * 8 - t,
        {
            let c = world_data::RADIUS;
            let (x, y) = if t < 2 * r {
                (c - r + t, c - r)
            } else if t < 4 * r {
                (c + r, c - 3 * r + t)
            } else if t < 6 * r {
                (c + 5 * r - t, c + r)
            } else {
                (c - r, c + 7 * r - t)
            };
            assert((x as int, y as int) == spiral_at(r as int, t as int));
            assert(on_grid(x as int, y as int));
            assert(!(x == c && y == c));
            let ghost g = grid@;
            let tile = choose_tile(grid, x, y, rng);
            let ghost d: u64 = if sticky_count(g, x as int, y as int, Tile::Village) > 0 {
                0
            } else {
                choose|d: u64| tile == #[trigger] chosen(g, x as int, y as int, d)
            };
            proof {
                lemma_slot(x as int, y as int, 0, 0);
            }
            let ghost before = grid@;
            grid.set((x * GRID + y) as usize, Some(tile));
            proof {
                assert forall|a: int, b: int| on_grid(a, b) implies (#[trigger] grid@[slot(a, b)] matches Some(
                    u,
                ) ==> drawn_square(u, a, b, veteran)) by {
                    lemma_slot(x as int, y as int, a, b);
                }
                lemma_slot(x as int, y as int, c as int, c as int);
                let ds1 = ds.push(d);
                assert(ds1.drop_last() =~= ds);
                assert(tile == terrain_for(g, x as int, y as int, d));
                ds = ds1;
            }
            t = t + 1;
        }
        proof {
            let dss1 = dss.push(ds);
            assert(dss1.drop_last() =~= dss);
            dss = dss1;
        }
        r = r + 1;
    }
}

/// Every landmark's ring sits within the map's reach.
proof fn lemma_rings(t: Tile)
    ensures
        world_data::landmark_spec(t) matches Some(l) ==> 0 <= l.1 <= world_data::RADIUS && l.1 <= l.2 <= 45,
        world_data::landmark_spec(t) is Some ==> t != Tile::Village,
{
}

/// The tiles in listing order.
pub open spec fn listed_tile(i: int) -> Tile {
    if i == 0 {
        Tile::Village
    } else if i == 1 {
        Tile::IronMine
    } else if i == 2 {
        Tile::CoalMine
    } else if i == 3 {
        Tile::SulphurMine
    } else if i == 4 {
        Tile::Forest
    } else if i == 5 {
        Tile::Field
    } else if i == 6 {
        Tile::Barrens
    } else if i == 7 {
        Tile::Road
    } else if i == 8 {
        Tile::House
    } else if i == 9 {
        Tile::Cave
    } else if i == 10 {
        Tile::Town
    } else if i == 11 {
        Tile::City
    } else if i == 12 {
        Tile::Outpost
    } else if i == 13 {
        Tile::Ship
    } else if i == 14 {
        Tile::Borehole
    } else if i == 15 {
        Tile::Battlefield
    } else if i == 16 {
        Tile::Swamp
    } else {
        Tile::Battleship
    }
}

fn listed(i: usize) -> (t: Tile)
    requires
        i < 18,
    ensures
        t == listed_tile(i as int),
{
    if i == 0 {
        Tile::Village
    } else if i == 1 {
        Tile::IronMine
    } else if i == 2 {
        Tile::CoalMine
    } else if i == 3 {
        Tile::SulphurMine
    } else if i == 4 {
        Tile::Forest
    } else if i == 5 {
        Tile::Field
    } else if i == 6 {
        Tile::Barrens
    } else if i == 7 {
        Tile::Road
    } else if i == 8 {
        Tile::House
    } else if i == 9 {
        Tile::Cave
    } else if i == 10 {
        Tile::Town
    } else if i == 11 {
        Tile::City
    } else if i == 12 {
        Tile::Outpost
    } else if i == 13 {
        Tile::Ship
    } else if i == 14 {
        Tile::Borehole
    } else if i == 15 {
        Tile::Battlefield
    } else if i == 16 {
        Tile::Swamp
    } else {
        Tile::Battleship
    }
}

/// One landmark to place: the tile and its ring.
pub open spec fn placing(t: Tile) -> (Tile, int, int) {
    let l = world_data::landmark_spec(t)->Some_0;
    (t, l.1 as int, l.2 as int)
}

/// The landmarks a map takes among the first `n` tiles, in listing order,
/// each as many times as it is scattered; the ravaged battleship only on a
/// veteran's map.
pub open spec fn scatter_plan(veteran: bool, n: nat) -> Seq<(Tile, int, int)>
    decreases n,
{
    if n == 0 {
        seq![]
    } else {
        let t = listed_tile(n - 1);
        scatter_plan(veteran, (n - 1) as nat) + if (t != Tile::Battleship || veteran)
            && world_data::landmark_spec(t) is Some {
            Seq::new(world_data::landmark_spec(t)->Some_0.0 as nat, |k: int| placing(t))
        } else {
            seq![]
        }
    }
}

/// The grid after placing the landmarks of `plan` in turn, each placing
/// ending where `ends` says.
pub open spec fn scattered(
    grid: Seq<Option<Tile>>,
    plan: Seq<(Tile, int, int)>,
    ends: Seq<(int, int)>,
) -> Seq<Option<Tile>>
    decreases plan.len(),
{
    if plan.len() == 0 || ends.len() == 0 {
        grid
    } else {
        dropped_on(scattered(grid, plan.drop_last(), ends.drop_last()), ends.last(), plan.last().0)
    }
}

/// Whether each placing of `plan` ended where a placing on the grid it met
/// can end.
pub open spec fn all_landed(grid: Seq<Option<Tile>>, plan: Seq<(Tile, int, int)>, ends: Seq<(int, int)>) -> bool
    decreases plan.len(),
{
    if plan.len() == 0 || ends.len() == 0 {
        true
    } else {
        all_landed(grid, plan.drop_last(), ends.drop_last()) && landed(
            scattered(grid, plan.drop_last(), ends.drop_last()),
            plan.last().1,
            plan.last().2,
            ends.last(),
        )
    }
}

/// The landmarks dropped in their rings, one after another in listing
/// order; the ravaged battleship only for an account that has flown out
/// before.
#[verifier::rlimit(40)]
fn scatter_landmarks(grid: &mut Vec<Option<Tile>>, veteran: bool, rng: &mut StdRng)
    requires
        sound_grid(old(grid)@, veteran),
    ensures
        sound_grid(final(grid)@, veteran),
        exists|ends: Seq<(int, int)>|
            #![trigger scattered(old(grid)@, scatter_plan(veteran, 18), ends)]
            ends.len() == scatter_plan(veteran, 18).len() && all_landed(old(grid)@, scatter_plan(veteran, 18), ends)
                && final(grid)@ == scattered(old(grid)@, scatter_plan(veteran, 18), ends),
{
    let ghost g0 = grid@;
    let ghost mut ends: Seq<(int, int)> = seq![];
    let mut i: usize = 0;
    while i < 18
        invariant
            i <= 18,
            sound_grid(grid@, veteran),
            g0 == old(grid)@,
            ends.len() == scatter_plan(veteran, i as nat).len(),
            all_landed(g0, scatter_plan(veteran, i as nat), ends),
            grid@ == scattered(g0, scatter_plan(veteran, i as nat), ends),
        decreases 18 - i,
    {
        let tile = listed(i);
        let ghost done = scatter_plan(veteran, i as nat);
        if tile != Tile::Battleship || veteran {
            match tile.landmark() {
                Some(landmark) => {
                    proof {
                        lemma_rings(tile);
                    }
                    let mut n: u32 = 0;
                    while n < landmark.num
                        invariant
                            n <= landmark.num,
                            sound_grid(grid@, veteran),
                            world_data::landmark_spec(tile) matches Some(l) && l.0 == landmark.num && l.1
                                == landmark.min_radius && l.2 == landmark.max_radius,
                            0 <= landmark.min_radius <= world_data::RADIUS,
                            landmark.min_radius <= landmark.max_radius <= 45,
                            tile != Tile::Village,
                            tile == Tile::Battleship ==> veteran,
                            g0 == old(grid)@,
                            ends.len() == done.len() + n,
                            all_landed(g0, done + Seq::new(n as nat, |k: int| placing(tile)), ends),
                            grid@ == scattered(g0, done + Seq::new(n as nat, |k: int| placing(tile)), ends),
                        decreases landmark.num - n,
                    {
                        proof {
                            lemma_slot(world_data::RADIUS as int, world_data::RADIUS as int, 0, 0);
                        }
                        let ghost before = grid@;
                        let (x, y) = place_landmark(
                            grid,
                            landmark.min_radius,
                            landmark.max_radius,
                            tile,
                            rng,
                        );
                        proof {
                            if grid@ != before {
                                assert forall|a: int, b: int| on_grid(a, b) implies (#[trigger] grid@[slot(
                                    a,
                                    b,
                                )] matches Some(u) ==> drawn_square(u, a, b, veteran)) by {
                                    lemma_slot(x as int, y as int, a, b);
                                }
                                lemma_slot(
                                    x as int,
                                    y as int,
                                    world_data::RADIUS as int,
                                    world_data::RADIUS as int,
                                );
                            }
                            let pre = done + Seq::new(n as nat, |k: int| placing(tile));
                            let post = done + Seq::new((n + 1) as nat, |k: int| placing(tile));
                            assert(post.drop_last() =~= pre);
                            assert(post.last() == placing(tile));
                            let ends1 = ends.push((x as int, y as int));
                            assert(ends1.drop_last() =~= ends);
                            ends = ends1;
                        }
                        n = n + 1;
                    }
                    proof {
                        assert(done + Seq::new(landmark.num as nat, |k: int| placing(tile)) =~= scatter_plan(
                            veteran,
                            (i + 1) as nat,
                        ));
                    }
                },
                None => {
                    assert(scatter_plan(veteran, (i + 1) as nat) =~= done);
                },
            }
        } else {
            assert(scatter_plan(veteran, (i + 1) as nat) =~= done);
        }
        i = i + 1;
    }
    assert(scattered(old(grid)@, scatter_plan(veteran, 18), ends) == grid@);
}

/// What a square of the generation grid becomes on the map: unwritten
/// squares are barrens.
pub open spec fn painted(grid: Seq<Option<Tile>>, x: int, y: int) -> Tile {
    match grid[slot(x, y)] {
        Some(t) => t,
        None => Tile::Barrens,
    }
}

/// The generation grid written out as a map, nothing yet seen or visited.
#[verifier::rlimit(40)]
fn paint(grid: &Vec<Option<Tile>>) -> (map: WorldMap)
    requires
        grid@.len() == GRID * GRID,
    ensures
        map.wf(),
        forall|x: int, y: int|
            on_grid(x, y) ==> #[trigger] map.tile_at(x, y) == painted(grid@, x, y) && !map.seen_at(x, y)
                && !map.visited_at(x, y),
{
    let mut map = WorldMap::blank();
    let mut x: i32 = 0;
    while x < GRID
        invariant
            0 <= x <= GRID,
            grid@.len() == GRID * GRID,
            map.wf(),
            forall|a: int, b: int|
                on_grid(a, b) ==> #[trigger] map.tile_at(a, b) == (if a < x {
                    painted(grid@, a, b)
                } else {
                    Tile::Barrens
                }) && !map.seen_at(a, b) && !map.visited_at(a, b),
        decreases GRID - x,
    {
        let mut y: i32 = 0;
        while y < GRID
            invariant
                0 <= x < GRID,
                0 <= y <= GRID,
                grid@.len() == GRID * GRID,
                map.wf(),
                forall|a: int, b: int|
                    on_grid(a, b) ==> #[trigger] map.tile_at(a, b) == (if a < x || (a == x && b < y) {
                        painted(grid@, a, b)
                    } else {
                        Tile::Barrens
                    }) && !map.seen_at(a, b) && !map.visited_at(a, b),
            decreases GRID - y,
        {
            proof {
                lemma_slot(x as int, y as int, 0, 0);
            }
            let tile = match grid[(x * GRID + y) as usize] {
                Some(t) => t,
                None => Tile::Barrens,
            };
            assert(tile == painted(grid@, x as int, y as int));
            let ghost before = map;
            map.set_tile(x, y, tile);
            proof {
                lemma_glyph_roundtrip(tile);
                crate::world::lemma_put_cell(before.tiles_v(), x as int, y as int, world_data::tile_glyph(tile), 0, 0);
                assert(map.mask_v() == before.mask_v() && map.visited_v() == before.visited_v());
                assert forall|a: int, b: int| on_grid(a, b) implies #[trigger] map.tile_at(a, b) == (if a < x || (a
                    == x && b < y + 1) {
                    painted(grid@, a, b)
                } else {
                    Tile::Barrens
                }) && !map.seen_at(a, b) && !map.visited_at(a, b) by {
                    crate::world::lemma_put_cell(
                        before.tiles_v(),
                        x as int,
                        y as int,
                        world_data::tile_glyph(tile),
                        a,
                        b,
                    );
                    assert(before.tile_at(a, b) == (if a < x || (a == x && b < y) {
                        painted(grid@, a, b)
                    } else {
                        Tile::Barrens
                    }) && !before.seen_at(a, b) && !before.visited_at(a, b));
                }
            }
            y = y + 1;
        }
        x = x + 1;
    }
    map
}

/// Whether generation has put terrain on a square.
pub open spec fn terrain_at(grid: Seq<Option<Tile>>, x: int, y: int) -> bool {
    grid[slot(x, y)] matches Some(t) && world_data::is_terrain_tile(t)
}

/// The sticky rule only ever picks terrain.
proof fn lemma_terrain_for(grid: Seq<Option<Tile>>, x: int, y: int, d: u64)
    ensures
        world_data::is_terrain_tile(terrain_for(grid, x, y, d)),
{
}

/// Ring `r` of the spiral runs over squares of the map `r` squares out
/// (counting the larger of the two offsets), never the village's own.
proof fn lemma_spiral_square(r: int, t: int)
    requires
        1 <= r <= world_data::RADIUS,
        0 <= t < 8 * r,
    ensures
        on_grid(spiral_at(r, t).0, spiral_at(r, t).1),
        !(spiral_at(r, t).0 == world_data::RADIUS && spiral_at(r, t).1 == world_data::RADIUS),
{
}

/// Every square of the map but the village's own is on the spiral: on the
/// ring as far out as its larger offset.
proof fn lemma_spiral_covers(a: int, b: int) -> (rt: (int, int))
    requires
        on_grid(a, b),
        !(a == world_data::RADIUS && b == world_data::RADIUS),
    ensures
        1 <= rt.0 <= world_data::RADIUS,
        0 <= rt.1 < 8 * rt.0,
        spiral_at(rt.0, rt.1) == (a, b),
{
    let c = world_data::RADIUS as int;
    let dx = a - c;
    let dy = b - c;
    let adx = if dx < 0 {
        -dx
    } else {
        dx
    };
    let ady = if dy < 0 {
        -dy
    } else {
        dy
    };
    let r = if adx > ady {
        adx
    } else {
        ady
    };
    if dy == -r && dx < r {
        (r, dx + r)
    } else if dx == r && dy < r {
        (r, dy + 3 * r)
    } else if dy == r && dx > -r {
        (r, 5 * r - dx)
    } else {
        (r, 7 * r - dy)
    }
}

/// Filling part of a ring puts terrain on each square it reached and keeps
/// terrain wherever it already stood.
proof fn lemma_ring_filled(grid: Seq<Option<Tile>>, r: int, ds: Seq<u64>)
    requires
        grid.len() == GRID * GRID,
        1 <= r <= world_data::RADIUS,
        ds.len() <= 8 * r,
    ensures
        filled_ring(grid, r, ds).len() == grid.len(),
        forall|a: int, b: int|
            on_grid(a, b) && terrain_at(grid, a, b) ==> #[trigger] terrain_at(filled_ring(grid, r, ds), a, b),
        forall|t: int|
            0 <= t < ds.len() ==> terrain_at(
                filled_ring(grid, r, ds),
                #[trigger] spiral_at(r, t).0,
                spiral_at(r, t).1,
            ),
    decreases ds.len(),
{
    if ds.len() > 0 {
        let prev = ds.drop_last();
        lemma_ring_filled(grid, r, prev);
        let g = filled_ring(grid, r, prev);
        let (x, y) = spiral_at(r, ds.len() - 1);
        lemma_spiral_square(r, ds.len() - 1);
        lemma_terrain_for(g, x, y, ds.last());
        lemma_slot(x, y, 0, 0);
        assert forall|a: int, b: int|
            on_grid(a, b) && terrain_at(grid, a, b) implies #[trigger] terrain_at(filled_ring(grid, r, ds), a, b) by {
            lemma_slot(x, y, a, b);
            lemma_slot(a, b, 0, 0);
            assert(terrain_at(g, a, b));
            assert(filled_ring(grid, r, ds) == g.update(slot(x, y), Some(terrain_for(g, x, y, ds.last()))));
        }
        assert forall|t: int| 0 <= t < ds.len() implies terrain_at(
            filled_ring(grid, r, ds),
            #[trigger] spiral_at(r, t).0,
            spiral_at(r, t).1,
        ) by {
            lemma_spiral_square(r, t);
            lemma_slot(x, y, spiral_at(r, t).0, spiral_at(r, t).1);
            lemma_slot(spiral_at(r, t).0, spiral_at(r, t).1, 0, 0);
        }
    }
}

/// Filling whole rings puts terrain on every square of them, and keeps it
/// wherever it stood.
proof fn lemma_rings_filled(grid: Seq<Option<Tile>>, dss: Seq<Seq<u64>>)
    requires
        grid.len() == GRID * GRID,
        dss.len() <= world_data::RADIUS,
        forall|i: int| 0 <= i < dss.len() ==> (#[trigger] dss[i]).len() == 8 * (i + 1),
    ensures
        filled_rings(grid, dss).len() == grid.len(),
        forall|a: int, b: int|
            on_grid(a, b) && terrain_at(grid, a, b) ==> #[trigger] terrain_at(filled_rings(grid, dss), a, b),
        forall|r: int, t: int|
            1 <= r <= dss.len() && 0 <= t < 8 * r ==> terrain_at(
                filled_rings(grid, dss),
                #[trigger] spiral_at(r, t).0,
                spiral_at(r, t).1,
            ),
    decreases dss.len(),
{
    if dss.len() > 0 {
        let prev = dss.drop_last();
        assert forall|i: int| 0 <= i < prev.len() implies (#[trigger] prev[i]).len() == 8 * (i + 1) by {
            assert(prev[i] == dss[i]);
        }
        lemma_rings_filled(grid, prev);
        let g = filled_rings(grid, prev);
        let n = dss.len() as int;
        assert(dss.last() == dss[n - 1]);
        lemma_ring_filled(g, n, dss.last());
        assert forall|r: int, t: int| 1 <= r <= dss.len() && 0 <= t < 8 * r implies terrain_at(
            filled_rings(grid, dss),
            #[trigger] spiral_at(r, t).0,
            spiral_at(r, t).1,
        ) by {
            lemma_spiral_square(r, t);
            if r < n {
                assert(terrain_at(g, spiral_at(r, t).0, spiral_at(r, t).1));
            }
        }
    }
}

/// Placing landmarks keeps the grid's size.
proof fn lemma_scatter_len(grid: Seq<Option<Tile>>, plan: Seq<(Tile, int, int)>, ends: Seq<(int, int)>)
    requires
        plan.len() == ends.len(),
        grid.len() == GRID * GRID,
    ensures
        scattered(grid, plan, ends).len() == grid.len(),
    decreases plan.len(),
{
    if plan.len() > 0 {
        lemma_scatter_len(grid, plan.drop_last(), ends.drop_last());
        let r = ends.last();
        if on_grid(r.0, r.1) {
            lemma_slot(r.0, r.1, 0, 0);
        }
    }
}

/// The first `k + 1` placings are the first `k` and then the next.
proof fn lemma_scatter_step(grid: Seq<Option<Tile>>, plan: Seq<(Tile, int, int)>, ends: Seq<(int, int)>, k: int)
    requires
        plan.len() == ends.len(),
        0 <= k < plan.len(),
    ensures
        scattered(grid, plan.take(k + 1), ends.take(k + 1)) == dropped_on(
            scattered(grid, plan.take(k), ends.take(k)),
            ends[k],
            plan[k].0,
        ),
        all_landed(grid, plan, ends) ==> landed(
            scattered(grid, plan.take(k), ends.take(k)),
            plan[k].1,
            plan[k].2,
            ends[k],
        ),
    decreases plan.len(),
{
    assert(plan.take(k + 1).drop_last() =~= plan.take(k));
    assert(ends.take(k + 1).drop_last() =~= ends.take(k));
    if k + 1 < plan.len() {
        lemma_scatter_step(grid, plan.drop_last(), ends.drop_last(), k);
        assert(plan.drop_last().take(k) =~= plan.take(k));
        assert(ends.drop_last().take(k) =~= ends.take(k));
    } else {
        assert(plan.take(k) =~= plan.drop_last());
        assert(ends.take(k) =~= ends.drop_last());
    }
}

/// A landmark once placed stays: later placings only ever land on open
/// ground.
proof fn lemma_scatter_keeps(
    grid: Seq<Option<Tile>>,
    plan: Seq<(Tile, int, int)>,
    ends: Seq<(int, int)>,
    k: int,
    a: int,
    b: int,
    t: Tile,
)
    requires
        plan.len() == ends.len(),
        0 <= k <= plan.len(),
        grid.len() == GRID * GRID,
        on_grid(a, b),
        !world_data::is_terrain_tile(t),
        scattered(grid, plan.take(k), ends.take(k))[slot(a, b)] == Some(t),
    ensures
        scattered(grid, plan, ends)[slot(a, b)] == Some(t),
    decreases plan.len(),
{
    if k == plan.len() {
        assert(plan.take(k) =~= plan);
        assert(ends.take(k) =~= ends);
    } else {
        assert(plan.drop_last().take(k) =~= plan.take(k));
        assert(ends.drop_last().take(k) =~= ends.take(k));
        lemma_scatter_keeps(grid, plan.drop_last(), ends.drop_last(), k, a, b, t);
        let prev = scattered(grid, plan.drop_last(), ends.drop_last());
        lemma_scatter_len(grid, plan.drop_last(), ends.drop_last());
        let r = ends.last();
        lemma_slot(a, b, 0, 0);
        if open_ground(prev, r.0, r.1) {
            lemma_slot(r.0, r.1, a, b);
        }
    }
}

/// What the first placings leave off the squares they ended on: the grid
/// as it was.
proof fn lemma_scatter_elsewhere(
    grid: Seq<Option<Tile>>,
    plan: Seq<(Tile, int, int)>,
    ends: Seq<(int, int)>,
    a: int,
    b: int,
)
    requires
        plan.len() == ends.len(),
        grid.len() == GRID * GRID,
        on_grid(a, b),
        forall|j: int| 0 <= j < ends.len() ==> #[trigger] ends[j] != (a, b),
    ensures
        scattered(grid, plan, ends)[slot(a, b)] == grid[slot(a, b)],
    decreases plan.len(),
{
    if plan.len() > 0 {
        let pe = ends.drop_last();
        assert forall|j: int| 0 <= j < pe.len() implies #[trigger] pe[j] != (a, b) by {
            assert(pe[j] == ends[j]);
        }
        lemma_scatter_elsewhere(grid, plan.drop_last(), pe, a, b);
        let prev = scattered(grid, plan.drop_last(), pe);
        lemma_scatter_len(grid, plan.drop_last(), pe);
        let r = ends.last();
        assert(r == ends[ends.len() - 1]);
        lemma_slot(a, b, 0, 0);
        if open_ground(prev, r.0, r.1) {
            lemma_slot(r.0, r.1, a, b);
        }
    }
}

/// A plan starts with the three mines, nearest first.
proof fn lemma_plan_starts_with_mines(veteran: bool, n: nat)
    requires
        4 <= n <= 18,
    ensures
        scatter_plan(veteran, n).len() >= 3,
        scatter_plan(veteran, n)[0] == (Tile::IronMine, 5int, 5int),
        scatter_plan(veteran, n)[1] == (Tile::CoalMine, 10int, 10int),
        scatter_plan(veteran, n)[2] == (Tile::SulphurMine, 20int, 20int),
    decreases n,
{
    if n == 4 {
        reveal_with_fuel(scatter_plan, 5);
        assert(scatter_plan(veteran, 1) =~= seq![]);
        assert(scatter_plan(veteran, 2) =~= seq![(Tile::IronMine, 5int, 5int)]);
        assert(scatter_plan(veteran, 3) =~= seq![(Tile::IronMine, 5int, 5int), (Tile::CoalMine, 10int, 10int)]);
        assert(scatter_plan(veteran, 4) =~= seq![
            (Tile::IronMine, 5int, 5int),
            (Tile::CoalMine, 10int, 10int),
            (Tile::SulphurMine, 20int, 20int),
        ]);
    } else {
        lemma_plan_starts_with_mines(veteran, (n - 1) as nat);
    }
}

/// A mine whose ring is all open ground when its turn comes stands on the
/// square its placing ended on, and stays there.
proof fn lemma_mine_placed(
    grid: Seq<Option<Tile>>,
    plan: Seq<(Tile, int, int)>,
    ends: Seq<(int, int)>,
    k: int,
)
    requires
        plan.len() == ends.len(),
        0 <= k < plan.len(),
        grid.len() == GRID * GRID,
        all_landed(grid, plan, ends),
        !world_data::is_terrain_tile(plan[k].0),
        ring_open(scattered(grid, plan.take(k), ends.take(k)), plan[k].1, plan[k].2),
    ensures
        on_grid(ends[k].0, ends[k].1),
        plan[k].1 <= manhattan(ends[k].0, ends[k].1, world_data::RADIUS as int, world_data::RADIUS as int)
            <= plan[k].2,
        scattered(grid, plan, ends)[slot(ends[k].0, ends[k].1)] == Some(plan[k].0),
{
    lemma_scatter_step(grid, plan, ends, k);
    let g = scattered(grid, plan.take(k), ends.take(k));
    let r = ends[k];
    assert(open_ground(g, r.0, r.1));
    lemma_scatter_len(grid, plan.take(k), ends.take(k));
    lemma_slot(r.0, r.1, 0, 0);
    lemma_scatter_keeps(grid, plan, ends, k + 1, r.0, r.1, plan[k].0);
}

/// Squares of one ring are none of another ring's.
proof fn lemma_open_ring_after(
    filled: Seq<Option<Tile>>,
    plan: Seq<(Tile, int, int)>,
    ends: Seq<(int, int)>,
    k: int,
    d: int,
)
    requires
        plan.len() == ends.len(),
        0 <= k <= plan.len(),
        filled.len() == GRID * GRID,
        forall|x: int, y: int|
            on_grid(x, y) && !(x == world_data::RADIUS && y == world_data::RADIUS) ==> #[trigger] terrain_at(
                filled,
                x,
                y,
            ),
        d >= 1,
        forall|j: int|
            0 <= j < k ==> manhattan(
                (#[trigger] ends[j]).0,
                ends[j].1,
                world_data::RADIUS as int,
                world_data::RADIUS as int,
            ) != d,
    ensures
        ring_open(scattered(filled, plan.take(k), ends.take(k)), d, d),
{
    let g = scattered(filled, plan.take(k), ends.take(k));
    assert forall|x: int, y: int|
        on_grid(x, y) && d <= manhattan(x, y, world_data::RADIUS as int, world_data::RADIUS as int) <= d implies #[trigger] open_ground(
        g,
        x,
        y,
    ) by {
        let et = ends.take(k);
        assert forall|j: int| 0 <= j < et.len() implies #[trigger] et[j] != (x, y) by {
            assert(et[j] == ends[j]);
        }
        lemma_scatter_elsewhere(filled, plan.take(k), et, x, y);
        assert(terrain_at(filled, x, y));
    }
}

/// On a grid with terrain everywhere but the village, the three mines
/// always stand, each on its own ring.
proof fn lemma_mines_stand(filled: Seq<Option<Tile>>, veteran: bool, ends: Seq<(int, int)>)
    requires
        filled.len() == GRID * GRID,
        forall|x: int, y: int|
            on_grid(x, y) && !(x == world_data::RADIUS && y == world_data::RADIUS) ==> #[trigger] terrain_at(
                filled,
                x,
                y,
            ),
        ends.len() == scatter_plan(veteran, 18).len(),
        all_landed(filled, scatter_plan(veteran, 18), ends),
    ensures
        mines_stand(scattered(filled, scatter_plan(veteran, 18), ends)),
{
    let plan = scatter_plan(veteran, 18);
    lemma_plan_starts_with_mines(veteran, 18);
    let c = world_data::RADIUS as int;
    lemma_open_ring_after(filled, plan, ends, 0, 5);
    lemma_mine_placed(filled, plan, ends, 0);
    lemma_open_ring_after(filled, plan, ends, 1, 10);
    lemma_mine_placed(filled, plan, ends, 1);
    lemma_open_ring_after(filled, plan, ends, 2, 20);
    lemma_mine_placed(filled, plan, ends, 2);
    let g = scattered(filled, plan, ends);
    assert(g[slot(ends[0].0, ends[0].1)] == Some(Tile::IronMine));
    assert(g[slot(ends[1].0, ends[1].1)] == Some(Tile::CoalMine));
    assert(g[slot(ends[2].0, ends[2].1)] == Some(Tile::SulphurMine));
}

/// Whether the three mines stand on a grid, each on the ring that is its
/// own: the iron mine five squares from the village, the coal mine ten, the
/// sulphur mine twenty.
pub open spec fn mines_stand(grid: Seq<Option<Tile>>) -> bool {
    &&& exists|x: int, y: int|
        on_grid(x, y) && manhattan(x, y, world_data::RADIUS as int, world_data::RADIUS as int) == 5
            && #[trigger] grid[slot(x, y)] == Some(Tile::IronMine)
    &&& exists|x: int, y: int|
        on_grid(x, y) && manhattan(x, y, world_data::RADIUS as int, world_data::RADIUS as int) == 10
            && #[trigger] grid[slot(x, y)] == Some(Tile::CoalMine)
    &&& exists|x: int, y: int|
        on_grid(x, y) && manhattan(x, y, world_data::RADIUS as int, world_data::RADIUS as int) == 20
            && #[trigger] grid[slot(x, y)] == Some(Tile::SulphurMine)
}

/// Whether the three mines stand on a map, each on its own ring: the iron
/// mine five squares from the village, the coal mine ten, the sulphur mine
/// twenty.
pub open spec fn mines_on_map(map: WorldMap) -> bool {
    &&& exists|x: int, y: int|
        on_grid(x, y) && manhattan(x, y, world_data::RADIUS as int, world_data::RADIUS as int) == 5
            && #[trigger] map.tile_at(x, y) == Tile::IronMine
    &&& exists|x: int, y: int|
        on_grid(x, y) && manhattan(x, y, world_data::RADIUS as int, world_data::RADIUS as int) == 10
            && #[trigger] map.tile_at(x, y) == Tile::CoalMine
    &&& exists|x: int, y: int|
        on_grid(x, y) && manhattan(x, y, world_data::RADIUS as int, world_data::RADIUS as int) == 20
            && #[trigger] map.tile_at(x, y) == Tile::SulphurMine
}

/// The generation grid before anything is drawn: the village at the
/// centre and nothing else.
pub open spec fn start_grid() -> Seq<Option<Tile>> {
    Seq::new(
        (GRID * GRID) as nat,
        |i: int|
            if i == slot(world_data::RADIUS as int, world_data::RADIUS as int) {
                Some(Tile::Village)
            } else {
                None
            },
    )
}

/// Draw a fresh world: terrain spiralled out from the village, then the
/// landmarks dropped in their rings, the village square lit. The ravaged
/// battleship is only drawn for an account that has flown out before.
///
/// The map is exactly what those two passes leave for some run of draws:
/// each ring's terrain by the sticky rule, then every landmark of the plan
/// in turn, each placing ending on a square of its ring that is open
/// ground whenever the whole ring is (so a placing is only ever given up
/// in a ring with ground already taken).
pub fn generate(veteran: bool, rng: &mut StdRng) -> (map: WorldMap)
    ensures
        map.wf(),
        exists|dss: Seq<Seq<u64>>, ends: Seq<(int, int)>|
            #![trigger scattered(filled_rings(start_grid(), dss), scatter_plan(veteran, 18), ends)]
            {
                &&& dss.len() == world_data::RADIUS
                &&& forall|i: int| 0 <= i < dss.len() ==> (#[trigger] dss[i]).len() == 8 * (i + 1)
                &&& ends.len() == scatter_plan(veteran, 18).len()
                &&& all_landed(filled_rings(start_grid(), dss), scatter_plan(veteran, 18), ends)
                &&& forall|x: int, y: int|
                    on_grid(x, y) ==> #[trigger] map.tile_at(x, y) == painted(
                        scattered(filled_rings(start_grid(), dss), scatter_plan(veteran, 18), ends),
                        x,
                        y,
                    )
            },
        forall|x: int, y: int| on_grid(x, y) ==> drawn_square(#[trigger] map.tile_at(x, y), x, y, veteran),
        forall|x: int, y: int|
            on_grid(x, y) ==> (#[trigger] map.seen_at(x, y) == (manhattan(
                x,
                y,
                world_data::RADIUS as int,
                world_data::RADIUS as int,
            ) <= world_data::LIGHT_RADIUS)),
        forall|x: int, y: int| on_grid(x, y) ==> !#[trigger] map.visited_at(x, y),
        mines_on_map(map),
{
    let mut grid: Vec<Option<Tile>> = Vec::new();
    while grid.len() < 3721
        invariant
            grid@.len() <= 3721,
            forall|i: int| 0 <= i < grid@.len() ==> grid@[i] is None,
        decreases 3721 - grid@.len(),
    {
        grid.push(None);
    }
    proof {
        lemma_slot(world_data::RADIUS as int, world_data::RADIUS as int, 0, 0);
    }
    grid.set((world_data::RADIUS * GRID + world_data::RADIUS) as usize, Some(Tile::Village));
    proof {
        assert forall|x: int, y: int| on_grid(x, y) implies (#[trigger] grid@[slot(x, y)] matches Some(t)
            ==> drawn_square(t, x, y, veteran)) by {
            lemma_slot(x, y, world_data::RADIUS as int, world_data::RADIUS as int);
        }
    }
    assert(grid@ =~= start_grid());
    spiral_terrain(&mut grid, veteran, rng);
    let ghost dss = choose|dss: Seq<Seq<u64>>|
        #![trigger filled_rings(start_grid(), dss)]
        dss.len() == world_data::RADIUS && (forall|i: int|
            0 <= i < dss.len() ==> (#[trigger] dss[i]).len() == 8 * (i + 1)) && grid@ == filled_rings(
            start_grid(),
            dss,
        );
    let ghost filled = grid@;
    proof {
        lemma_rings_filled(start_grid(), dss);
        assert forall|x: int, y: int|
            on_grid(x, y) && !(x == world_data::RADIUS && y == world_data::RADIUS) implies #[trigger] terrain_at(
            filled,
            x,
            y,
        ) by {
            let (r, t) = lemma_spiral_covers(x, y);
            assert(terrain_at(filled, spiral_at(r, t).0, spiral_at(r, t).1));
        }
    }
    scatter_landmarks(&mut grid, veteran, rng);
    let ghost ends = choose|ends: Seq<(int, int)>|
        #![trigger scattered(filled, scatter_plan(veteran, 18), ends)]
        ends.len() == scatter_plan(veteran, 18).len() && all_landed(filled, scatter_plan(veteran, 18), ends)
            && grid@ == scattered(filled, scatter_plan(veteran, 18), ends);
    let mut map = paint(&grid);
    proof {
        assert forall|x: int, y: int| on_grid(x, y) implies drawn_square(#[trigger] map.tile_at(x, y), x, y, veteran) by {
            assert(map.tile_at(x, y) == painted(grid@, x, y));
        }
    }
    // The village square is lit from the start, which is what makes the first
    // step out of it visible.
    let ghost before = map;
    uncover(&mut map, world_data::RADIUS, world_data::RADIUS, world_data::LIGHT_RADIUS);
    proof {
        assert(lit(before, map, world_data::RADIUS as int, world_data::RADIUS as int, world_data::LIGHT_RADIUS as int));
        assert(map.tiles == before.tiles);
        assert(map.tiles_v() == before.tiles_v());
        assert forall|x: int, y: int| on_grid(x, y) implies drawn_square(#[trigger] map.tile_at(x, y), x, y, veteran) by {
            assert(before.tile_at(x, y) == map.tile_at(x, y));
        }
        assert forall|x: int, y: int| on_grid(x, y) implies !#[trigger] map.visited_at(x, y) by {
            assert(before.tile_at(x, y) == painted(grid@, x, y));
            assert(!before.visited_at(x, y));
        }
        assert forall|x: int, y: int| on_grid(x, y) implies (#[trigger] map.seen_at(x, y) == (manhattan(
            x,
            y,
            world_data::RADIUS as int,
            world_data::RADIUS as int,
        ) <= world_data::LIGHT_RADIUS)) by {
            assert(before.tile_at(x, y) == painted(grid@, x, y));
            assert(!before.seen_at(x, y));
        }
        assert forall|x: int, y: int| on_grid(x, y) implies #[trigger] map.tile_at(x, y) == painted(
            scattered(filled_rings(start_grid(), dss), scatter_plan(veteran, 18), ends),
            x,
            y,
        ) by {
            assert(before.tile_at(x, y) == painted(grid@, x, y));
        }
        lemma_mines_stand(filled, veteran, ends);
        let (x0, y0) = choose|x: int, y: int|
            on_grid(x, y) && manhattan(x, y, world_data::RADIUS as int, world_data::RADIUS as int) == 5
                && #[trigger] grid@[slot(x, y)] == Some(Tile::IronMine);
        assert(map.tile_at(x0, y0) == painted(grid@, x0, y0));
        let (x1, y1) = choose|x: int, y: int|
            on_grid(x, y) && manhattan(x, y, world_data::RADIUS as int, world_data::RADIUS as int) == 10
                && #[trigger] grid@[slot(x, y)] == Some(Tile::CoalMine);
        assert(map.tile_at(x1, y1) == painted(grid@, x1, y1));
        let (x2, y2) = choose|x: int, y: int|
            on_grid(x, y) && manhattan(x, y, world_data::RADIUS as int, world_data::RADIUS as int) == 20
                && #[trigger] grid@[slot(x, y)] == Some(Tile::SulphurMine);
        assert(map.tile_at(x2, y2) == painted(grid@, x2, y2));
    }
    map
}

/// Whether a map already carries the ravaged battleship.
fn has_battleship(map: &WorldMap) -> (r: bool)
    ensures
        r == exists|x: int, y: int| on_grid(x, y) && #[trigger] map.tile_at(x, y) == Tile::Battleship,
{
    let mut x: i32 = 0;
    while x < GRID
        invariant
            0 <= x <= GRID,
            forall|a: int, b: int| on_grid(a, b) && a < x ==> #[trigger] map.tile_at(a, b) != Tile::Battleship,
        decreases GRID - x,
    {
        let mut y: i32 = 0;
        while y < GRID
            invariant
                0 <= x < GRID,
                0 <= y <= GRID,
                forall|a: int, b: int|
                    on_grid(a, b) && (a < x || (a == x && b < y)) ==> #[trigger] map.tile_at(a, b)
                        != Tile::Battleship,
            decreases GRID - y,
        {
            if map.tile(x, y) == Tile::Battleship {
                assert(on_grid(x as int, y as int) && map.tile_at(x as int, y as int) == Tile::Battleship);
                return true;
            }
            y = y + 1;
        }
        x = x + 1;
    }
    false
}

/// Whether every square of the map at distance `d` from the village holds
/// terrain.
pub open spec fn ring_of_terrain(map: WorldMap, d: int) -> bool {
    forall|x: int, y: int|
        on_grid(x, y) && manhattan(x, y, world_data::RADIUS as int, world_data::RADIUS as int) == d
            ==> world_data::is_terrain_tile(#[trigger] map.tile_at(x, y))
}

/// Drop the ravaged battleship into a map drawn without it, for an account
/// that earns the unlock partway through a run. Never twice: a map that
/// already has the wreck is left alone. Returns whether it was dropped.
/// Random squares of its ring are tried until one holds terrain; only a
/// ring with no terrain left ever makes it give up, so where the ring is
/// all terrain the wreck always lands.
pub fn place_battleship(map: &mut WorldMap, rng: &mut StdRng) -> (placed: bool)
    requires
        old(map).wf(),
    ensures
        final(map).wf(),
        (forall|x: int, y: int| on_grid(x, y) ==> #[trigger] old(map).tile_at(x, y) != Tile::Battleship)
            && (world_data::is_terrain_tile(old(map).tile_at(world_data::RADIUS as int, world_data::RADIUS as int))
            || ring_of_terrain(*old(map), 28)) ==> placed,
        final(map).mask == old(map).mask,
        final(map).visited == old(map).visited,
        (exists|x: int, y: int| on_grid(x, y) && #[trigger] old(map).tile_at(x, y) == Tile::Battleship)
            ==> !placed,
        !placed ==> *final(map) == *old(map),
        placed ==> exists|x: int, y: int|
            on_grid(x, y) && world_data::is_terrain_tile(#[trigger] old(map).tile_at(x, y)) && ((x
                == world_data::RADIUS && y == world_data::RADIUS) || manhattan(
                x,
                y,
                world_data::RADIUS as int,
                world_data::RADIUS as int,
            ) == 28) && final(map).tiles_v() == put_cell(
                old(map).tiles_v(),
                x,
                y,
                world_data::tile_glyph(Tile::Battleship),
            ),
{
    if has_battleship(map) {
        return false;
    }
    let ring = match Tile::Battleship.landmark() {
        Some(l) => l,
        None => {
            return false;
        },
    };
    let mut x = world_data::RADIUS;
    let mut y = world_data::RADIUS;
    let mut guard: u32 = 0;
    loop
        invariant
            *map == *old(map),
            old(map).wf(),
            ring.min_radius == 28 && ring.max_radius == 28,
            on_grid(x as int, y as int),
            guard == 0 ==> x == world_data::RADIUS && y == world_data::RADIUS,
            guard > 0 ==> manhattan(x as int, y as int, world_data::RADIUS as int, world_data::RADIUS as int)
                == 28,
            guard <= 10_000,
            world_data::is_terrain_tile(old(map).tile_at(world_data::RADIUS as int, world_data::RADIUS as int))
                ==> guard == 0,
            ring_of_terrain(*old(map), 28) ==> guard <= 1,
        ensures
            on_grid(x as int, y as int),
            world_data::is_terrain_tile(map.tile_at(x as int, y as int)),
            (x == world_data::RADIUS && y == world_data::RADIUS) || manhattan(
                x as int,
                y as int,
                world_data::RADIUS as int,
                world_data::RADIUS as int,
            ) == 28,
        decreases 10_000 - guard,
    {
        if map.tile(x, y).is_terrain() {
            break;
        }
        if guard >= 10_000 {
            // The ring is full; better no wreck than a hung session.
            return false;
        }
        guard = guard + 1;
        let (nx, ny, _) = aim(ring.min_radius, ring.max_radius, rng);
        x = nx;
        y = ny;
    }
    let ghost before = *map;
    assert(before == *old(map));
    map.set_tile(x, y, Tile::Battleship);
    proof {
        crate::world::lemma_put_cell(before.tiles_v(), x as int, y as int, 'X', 0, 0);
        assert(map.wf());
        assert(world_data::is_terrain_tile(before.tile_at(x as int, y as int)));
    }
    true
}


/// A strip of meat eaten heals: when a move eats and meat is left over, the
/// wanderer's health after it is their health plus what a strip heals, or
/// the most there is if that is less; eating never lowers health below the
/// cap and always raises it when it was under.
pub proof fn law_eating_heals_up_to_the_cap(
    g: Game,
    t: Expedition,
    g2: Game,
    t2: Expedition,
    alive: bool,
    said: Seq<Seq<char>>,
)
    requires
        ate(g, t, g2, t2, alive, said),
        t.food_move + 1 >= moves_per_food(g),
        t.carried(Resource::CuredMeat) >= 2,
        0 <= t.hp <= 1_000_000,
    ensures
        alive,
        t2.carried(Resource::CuredMeat) == t.carried(Resource::CuredMeat) - 1,
        ({
            let most = world_data::BASE_HEALTH + model::armour_bonus(g);
            let heal: int = if g.perk(Perk::Gastronome) {
                16
            } else {
                8
            };
            &&& (t.hp + heal <= most ==> t2.hp == t.hp + heal)
            &&& (t.hp + heal > most ==> t2.hp == most)
            &&& (t.hp < most ==> t2.hp > t.hp)
        }),
{
}


/// A move that does not come to a meal leaves the meat and the health as
/// they were.
pub proof fn law_a_move_short_of_a_meal_eats_nothing(
    g: Game,
    t: Expedition,
    g2: Game,
    t2: Expedition,
    alive: bool,
    said: Seq<Seq<char>>,
)
    requires
        ate(g, t, g2, t2, alive, said),
        t.food_move + 1 < moves_per_food(g),
    ensures
        alive,
        g2 == g,
        t2.carried(Resource::CuredMeat) == t.carried(Resource::CuredMeat),
        t2.hp == t.hp,
        t2.food_move == t.food_move + 1,
{
}

/// A move that comes to a drink with water to spare drinks exactly one
/// ration and nothing else about the wanderer changes.
pub proof fn law_drinking_takes_one_ration(
    g: Game,
    t: Expedition,
    g2: Game,
    t2: Expedition,
    alive: bool,
    said: Seq<Seq<char>>,
)
    requires
        drank(g, t, g2, t2, alive, said),
        t.water_move + 1 >= moves_per_water(g),
        t.water >= 2,
    ensures
        alive,
        g2 == g,
        t2.water == t.water - 1,
        t2.hp == t.hp,
        t2.water_move == 0,
{
}

} // verus!
