//! The shapes the village panel is made of: the rows a player acts on, the
//! groups they are listed under, and what acting on one asks of the session.
use vstd::prelude::*;
use vstd::view::View as _;

use crate::collections::Keyed;
use crate::data::{self, Building, Fire, Job, Resource};
use crate::event;
use crate::collections::EnumMap;
use crate::model::{self, held, load_of, nonneg, BuildOutcome, BuyOutcome, CraftOutcome, Expedition, Game, ShipState, View};
use crate::sim::{say, say_both, texts};
use crate::space;
use crate::world;
use crate::world_data;
use rand::rngs::StdRng;

verus! {

/// How many notification lines the log keeps.
pub const LOG_CAP: usize = 200;

/// One actionable row in the current panel.
#[derive(Clone, Copy, Debug, PartialEq, Eq, Structural)]
pub enum Row {
    LightFire,
    StokeFire,
    Build(Building),
    /// A workshop recipe, named by what it makes.
    Craft(Resource),
    /// A trading post good.
    Buy(Resource),
    GatherWood,
    CheckTraps,
    Worker(Job),
    /// A row of the outfitting screen: how many to pack.
    Outfit(Resource),
    Embark,
    ReinforceHull,
    UpgradeEngine,
    LiftOff,
    /// A row of the event modal that is currently up.
    Event(event::Row),
    Leave,
}

/// Which group of room buttons a row is listed under.
#[derive(Clone, Copy, Debug, PartialEq, Eq, Structural)]
pub enum Section {
    Build,
    Craft,
    Buy,
}

/// The heading a group is listed under.
pub open spec fn section_legend(s: Section) -> Seq<char> {
    match s {
        Section::Build => "build:"@,
        Section::Craft => "craft:"@,
        Section::Buy => "buy:"@,
    }
}

impl Section {
    /// The heading this group is listed under.
    pub fn legend(self) -> (r: &'static str)
        ensures
            r@ == section_legend(self),
    {
        match self {
            Section::Build => data::SECTION_BUILD,
            Section::Craft => data::SECTION_CRAFT,
            Section::Buy => data::SECTION_BUY,
        }
    }
}

/// What acting on a row asked the session to do.
#[derive(Clone, Copy, Debug, PartialEq, Eq, Structural)]
pub enum Acted {
    /// Handled in place.
    Stay,
    /// The player wants out of the door.
    Leave,
}

// ---------------------------------------------------------------------------
// The rows of a panel
// ---------------------------------------------------------------------------

/// A build row for every building offered so far, in listing order.
pub open spec fn build_rows(g: Game, n: nat) -> Seq<Row>
    decreases n,
{
    if n == 0 {
        seq![]
    } else {
        let b = Building::from_key((n - 1) as nat);
        if g.seen_buildings@.contains(b) {
            build_rows(g, (n - 1) as nat).push(Row::Build(b))
        } else {
            build_rows(g, (n - 1) as nat)
        }
    }
}

/// A craft row for every recipe offered so far, in the workshop's order.
pub open spec fn craft_rows(g: Game, n: nat) -> Seq<Row>
    decreases n,
{
    if n == 0 {
        seq![]
    } else {
        let item = data::craft_entry(n - 1).0;
        if g.seen_crafts@.contains(item) {
            craft_rows(g, (n - 1) as nat).push(Row::Craft(item))
        } else {
            craft_rows(g, (n - 1) as nat)
        }
    }
}

/// A trade row for every good on the shelf, in the trading post's order.
pub open spec fn trade_rows(g: Game, n: nat) -> Seq<Row>
    decreases n,
{
    if n == 0 {
        seq![]
    } else {
        let item = data::trade_entry(n - 1).0;
        if g.seen_trades@.contains(item) {
            trade_rows(g, (n - 1) as nat).push(Row::Buy(item))
        } else {
            trade_rows(g, (n - 1) as nat)
        }
    }
}

/// A worker row for every trade that has opened, in job order.
pub open spec fn worker_rows(g: Game, n: nat) -> Seq<Row>
    decreases n,
{
    if n == 0 {
        seq![]
    } else {
        let j = Job::from_key((n - 1) as nat);
        if g.seen_jobs@.contains(j) {
            worker_rows(g, (n - 1) as nat).push(Row::Worker(j))
        } else {
            worker_rows(g, (n - 1) as nat)
        }
    }
}

/// A packing row for every carryable on the shelf or already packed.
pub open spec fn outfit_rows(g: Game, n: nat) -> Seq<Row>
    decreases n,
{
    if n == 0 {
        seq![]
    } else {
        let item = world_data::CARRYABLE@[n - 1];
        if g.stock(item) > 0 || held(g.outfit@, item) > 0 {
            outfit_rows(g, (n - 1) as nat).push(Row::Outfit(item))
        } else {
            outfit_rows(g, (n - 1) as nat)
        }
    }
}

/// The rows a panel offers, in display order, when no modal is up: the room's
/// fire, builds, crafts and goods; the forest's gathering, traps and trades;
/// the path's packing and setting out; the ship's three rows; and a way out
/// of the door under all of them. The wasteland has no rows: it is walked.
pub open spec fn panel_rows_spec(g: Game, view: View) -> Seq<Row> {
    match view {
        View::Room => seq![
            if g.fire == Fire::Dead {
                Row::LightFire
            } else {
                Row::StokeFire
            },
        ] + build_rows(g, 13) + craft_rows(g, data::CRAFTABLE_COUNT as nat) + trade_rows(
            g,
            data::TRADE_GOOD_COUNT as nat,
        ) + seq![Row::Leave],
        View::Outside => seq![Row::GatherWood] + (if g.count(Building::Trap) > 0 {
            seq![Row::CheckTraps]
        } else {
            Seq::empty()
        }) + worker_rows(g, 9) + seq![Row::Leave],
        View::Path => outfit_rows(g, 15) + seq![Row::Embark, Row::Leave],
        View::World => Seq::empty(),
        View::Fabricator => seq![Row::Leave],
        View::Ship => seq![Row::ReinforceHull, Row::UpgradeEngine, Row::LiftOff, Row::Leave],
    }
}

fn room_rows(game: &Game, rows: &mut Vec<Row>)
    requires
        game.wf(),
    ensures
        final(rows)@ == old(rows)@ + build_rows(*game, 13) + craft_rows(*game, data::CRAFTABLE_COUNT as nat)
            + trade_rows(*game, data::TRADE_GOOD_COUNT as nat),
{
    let ghost start = rows@;
    let mut i: usize = 0;
    while i < 13
        invariant
            i <= 13,
            game.wf(),
            rows@ == start + build_rows(*game, i as nat),
        decreases 13 - i,
    {
        let b = Building::from_index(i);
        if game.build_available(b) {
            rows.push(Row::Build(b));
        }
        i = i + 1;
    }
    let ghost mid = rows@;
    let crafts = data::craftables();
    let mut i: usize = 0;
    while i < crafts.len()
        invariant
            i <= crafts@.len(),
            crafts@.len() == data::CRAFTABLE_COUNT,
            forall|k: int| 0 <= k < data::CRAFTABLE_COUNT ==> (#[trigger] crafts@[k]).item == data::craft_entry(k).0,
            game.wf(),
            rows@ == mid + craft_rows(*game, i as nat),
        decreases crafts@.len() - i,
    {
        if game.craft_available(&crafts[i]) {
            rows.push(Row::Craft(crafts[i].item));
        }
        i = i + 1;
    }
    let ghost late = rows@;
    let goods = data::trade_goods();
    let mut i: usize = 0;
    while i < goods.len()
        invariant
            i <= goods@.len(),
            goods@.len() == data::TRADE_GOOD_COUNT,
            forall|k: int| 0 <= k < data::TRADE_GOOD_COUNT ==> (#[trigger] goods@[k]).good == data::trade_entry(k).0,
            game.wf(),
            rows@ == late + trade_rows(*game, i as nat),
        decreases goods@.len() - i,
    {
        if game.buy_available(&goods[i]) {
            rows.push(Row::Buy(goods[i].good));
        }
        i = i + 1;
    }
    assert(rows@ =~= start + build_rows(*game, 13) + craft_rows(*game, data::CRAFTABLE_COUNT as nat) + trade_rows(
        *game,
        data::TRADE_GOOD_COUNT as nat,
    ));
}

/// The rows a panel offers, in display order, when no modal is up.
pub fn panel_rows(game: &Game, view: View) -> (r: Vec<Row>)
    requires
        game.wf(),
    ensures
        r@ == panel_rows_spec(*game, view),
{
    let mut rows: Vec<Row> = Vec::new();
    match view {
        View::Room => {
            if game.fire == Fire::Dead {
                rows.push(Row::LightFire);
            } else {
                rows.push(Row::StokeFire);
            }
            room_rows(game, &mut rows);
        },
        View::Outside => {
            rows.push(Row::GatherWood);
            if game.building_count(Building::Trap) > 0 {
                rows.push(Row::CheckTraps);
            }
            let ghost start = rows@;
            let mut i: usize = 0;
            while i < 9
                invariant
                    i <= 9,
                    game.wf(),
                    rows@ == start + worker_rows(*game, i as nat),
                decreases 9 - i,
            {
                let j = Job::from_index(i);
                if game.seen_jobs.contains(&j) {
                    rows.push(Row::Worker(j));
                }
                i = i + 1;
            }
        },
        View::Path => {
            let mut i: usize = 0;
            while i < 15
                invariant
                    i <= 15,
                    game.wf(),
                    rows@ == outfit_rows(*game, i as nat),
                decreases 15 - i,
            {
                let item = world_data::CARRYABLE[i];
                let packed = match game.outfit.get(&item) {
                    Some(n) => *n,
                    None => 0,
                };
                if game.store(item) > 0 || packed > 0 {
                    rows.push(Row::Outfit(item));
                }
                i = i + 1;
            }
            rows.push(Row::Embark);
        },
        View::World => {
            return rows;
        },
        View::Fabricator => {},
        View::Ship => {
            rows.push(Row::ReinforceHull);
            rows.push(Row::UpgradeEngine);
            rows.push(Row::LiftOff);
        },
    }
    rows.push(Row::Leave);
    proof {
        assert(rows@ =~= panel_rows_spec(*game, view));
    }
    rows
}

/// The row under the cursor, the cursor held to the list; an empty list
/// offers only the way out.
pub open spec fn selected_spec(rows: Seq<Row>, cursor: int) -> Row {
    if rows.len() == 0 {
        Row::Leave
    } else if cursor < rows.len() - 1 {
        rows[cursor]
    } else {
        rows[rows.len() - 1]
    }
}

/// The row under the cursor, the cursor held to the list.
pub fn selected(rows: &Vec<Row>, cursor: usize) -> (r: Row)
    ensures
        r == selected_spec(rows@, cursor as int),
{
    if rows.len() == 0 {
        return Row::Leave;
    }
    let last = rows.len() - 1;
    if cursor < last {
        rows[cursor]
    } else {
        rows[last]
    }
}

/// Where the cursor lands after moving `delta` rows over a list of `len`,
/// wrapping at both ends; over an empty list it stays put.
pub open spec fn cursor_spec(cursor: int, len: int, delta: int) -> int {
    if len == 0 {
        cursor
    } else {
        (cursor + delta) % len
    }
}

/// However far it moves, the cursor lands on a row of a non-empty list.
pub proof fn law_the_cursor_lands_on_a_row(cursor: int, len: int, delta: int)
    requires
        len > 0,
    ensures
        0 <= cursor_spec(cursor, len, delta) < len,
{
}

/// Move the cursor `delta` rows, wrapping at both ends.
pub fn move_cursor(cursor: usize, len: usize, delta: i32) -> (r: usize)
    requires
        cursor <= i32::MAX,
        len <= i32::MAX,
        i32::MIN <= cursor + delta <= i32::MAX,
    ensures
        r == cursor_spec(cursor as int, len as int, delta as int),
{
    if len == 0 {
        return cursor;
    }
    let s: i64 = cursor as i64 + delta as i64;
    let m: i64 = len as i64;
    if s >= 0 {
        (s % m) as usize
    } else {
        let t: i64 = -s;
        let k: i64 = t % m;
        proof {
            let q = (t as int) / (m as int);
            vstd::arithmetic::div_mod::lemma_fundamental_div_mod(t as int, m as int);
            assert(t == m * q + k);
            if k == 0 {
                assert(s == (-q) * m + 0) by (nonlinear_arith)
                    requires
                        t == m * q + k,
                        k == 0,
                        s == -t,
                ;
                vstd::arithmetic::div_mod::lemma_fundamental_div_mod_converse_mod(
                    s as int,
                    m as int,
                    -q,
                    0,
                );
            } else {
                assert(s == (-q - 1) * m + (m - k)) by (nonlinear_arith)
                    requires
                        t == m * q + k,
                        s == -t,
                ;
                vstd::arithmetic::div_mod::lemma_fundamental_div_mod_converse_mod(
                    s as int,
                    m as int,
                    -q - 1,
                    m - k,
                );
            }
        }
        if k == 0 {
            0
        } else {
            (m - k) as usize
        }
    }
}

// ---------------------------------------------------------------------------
// Switching panels
// ---------------------------------------------------------------------------

/// The panels open so far, in the order Tab cycles them: the room always,
/// the forest once the wood runs out, the path once the compass is bought,
/// the ship once it is found.
pub open spec fn open_views(g: Game) -> Seq<View> {
    seq![View::Room] + (if g.forest_unlocked {
        seq![View::Outside]
    } else {
        Seq::empty()
    }) + (if g.path_unlocked {
        seq![View::Path]
    } else {
        Seq::empty()
    }) + (if g.ship is Some {
        seq![View::Ship]
    } else {
        Seq::empty()
    })
}

/// Where `v` first stands in `open` from `i` on, or the start if nowhere.
pub open spec fn place_of(open: Seq<View>, v: View, i: nat) -> int
    decreases open.len() - i,
{
    if i >= open.len() {
        0
    } else if open[i as int] == v {
        i as int
    } else {
        place_of(open, v, i + 1)
    }
}

/// The panel Tab moves on to from `v`.
pub open spec fn view_after(g: Game, v: View) -> View {
    let open = open_views(g);
    open[(place_of(open, v, 0) + 1) % (open.len() as int)]
}

proof fn lemma_place_in_range(open: Seq<View>, v: View, i: nat)
    ensures
        0 <= place_of(open, v, i) < open.len() || (open.len() == 0 && place_of(open, v, i) == 0),
    decreases open.len() - i,
{
    if i < open.len() && open[i as int] != v {
        lemma_place_in_range(open, v, i + 1);
    }
}

/// Switch panels with Tab. The wasteland is not in the cycle: it is entered
/// by setting out and left by coming home, dying or parking the trip. The
/// first step outside and the first look at the ship each say their one line,
/// latched on the save.
pub fn toggle_view(game: &mut Game, view: View, out: &mut Vec<String>) -> (next: View)
    requires
        old(game).wf(),
    ensures
        final(game).wf(),
        view == View::World ==> next == View::World && *final(game) == *old(game) && final(out)@ == old(out)@,
        view != View::World ==> {
            &&& next == view_after(*old(game), view)
            &&& *final(game) == (Game { seen_forest: final(game).seen_forest, ship: final(game).ship, ..*old(game) })
            &&& final(game).seen_forest == (old(game).seen_forest || next == View::Outside)
            &&& final(game).ship == match old(game).ship {
                Some(s) => Some(
                    if next == View::Ship {
                        ShipState { seen_ship: true, ..s }
                    } else {
                        s
                    },
                ),
                None => None,
            }
            &&& texts(final(out)@) == texts(old(out)@) + (if next == View::Outside && !old(game).seen_forest {
                seq![data::MSG_SEEN_FOREST@]
            } else {
                Seq::empty()
            }) + (if next == View::Ship && (old(game).ship matches Some(s) && !s.seen_ship) {
                seq![space::MSG_SEEN_SHIP@]
            } else {
                Seq::empty()
            })
        },
{
    if view == View::World {
        return View::World;
    }
    let ghost m0 = texts(old(out)@);
    let next = next_view(game, view);
    let first_outside = latch(&mut game.seen_forest, next == View::Outside);
    let first_ship = latch_ship(&mut game.ship, next == View::Ship);
    if first_outside {
        say(out, data::MSG_SEEN_FOREST);
    }
    if first_ship {
        say(out, space::MSG_SEEN_SHIP);
    }
    proof {
        assert(m0 + Seq::<Seq<char>>::empty() =~= m0);
        assert(texts(out@) =~= m0 + (if next == View::Outside && !old(game).seen_forest {
            seq![data::MSG_SEEN_FOREST@]
        } else {
            Seq::empty()
        }) + (if next == View::Ship && (old(game).ship matches Some(s) && !s.seen_ship) {
            seq![space::MSG_SEEN_SHIP@]
        } else {
            Seq::empty()
        }));
    }
    next
}

/// The panel Tab moves on to.
fn next_view(game: &Game, view: View) -> (next: View)
    ensures
        next == view_after(*game, view),
{
    let mut open: Vec<View> = Vec::new();
    open.push(View::Room);
    if game.forest_unlocked {
        open.push(View::Outside);
    }
    if game.path_unlocked {
        open.push(View::Path);
    }
    if game.ship.is_some() {
        open.push(View::Ship);
    }
    assert(open@ =~= open_views(*game));
    let mut at: usize = 0;
    let mut i: usize = 0;
    let mut found = false;
    while i < open.len()
        invariant
            i <= open@.len(),
            open@ == open_views(*game),
            found ==> at < open@.len() && at == place_of(open@, view, 0),
            !found ==> place_of(open@, view, 0) == place_of(open@, view, i as nat) && at == 0,
        decreases open@.len() - i,
    {
        if !found && open[i] == view {
            at = i;
            found = true;
        }
        i = i + 1;
    }
    proof {
        lemma_place_in_range(open@, view, 0);
    }
    open[(at + 1) % open.len()]
}

/// Set a one-time flag when its moment comes; whether this was the first
/// time.
fn latch(flag: &mut bool, now: bool) -> (first: bool)
    ensures
        first == (now && !*old(flag)),
        *final(flag) == (*old(flag) || now),
{
    let first = now && !*flag;
    if now {
        *flag = true;
    }
    first
}

/// Mark the ship seen when it is being looked at; whether this was the first
/// look.
fn latch_ship(ship: &mut Option<ShipState>, looking: bool) -> (first: bool)
    ensures
        first == (looking && (*old(ship) matches Some(s) && !s.seen_ship)),
        *final(ship) == match *old(ship) {
            Some(s) => Some(
                if looking {
                    ShipState { seen_ship: true, ..s }
                } else {
                    s
                },
            ),
            None => None,
        },
{
    match ship {
        Some(s) => {
            if looking {
                let first = !s.seen_ship;
                s.seen_ship = true;
                first
            } else {
                false
            }
        },
        None => false,
    }
}

// ---------------------------------------------------------------------------
// What a row shows
// ---------------------------------------------------------------------------

/// Seconds until a row's cooldown runs out. The fight's own rows keep their
/// cooldowns in the fight, not on the save, so they read as ready here.
pub open spec fn row_cooldown_spec(g: Game, row: Row) -> u32 {
    match row {
        Row::LightFire | Row::StokeFire => g.stoke_cooldown,
        Row::GatherWood => g.gather_cooldown,
        Row::CheckTraps => g.traps_cooldown,
        Row::Embark => g.embark_cooldown,
        Row::LiftOff => match g.ship {
            Some(s) => s.liftoff_cooldown,
            None => 0,
        },
        _ => 0,
    }
}

/// Seconds until a row's cooldown runs out.
pub fn row_cooldown(game: &Game, row: Row) -> (r: u32)
    ensures
        r == row_cooldown_spec(*game, row),
{
    match row {
        Row::LightFire | Row::StokeFire => game.stoke_cooldown,
        Row::GatherWood => game.gather_cooldown,
        Row::CheckTraps => game.traps_cooldown,
        Row::Embark => game.embark_cooldown,
        Row::LiftOff => match &game.ship {
            Some(s) => s.liftoff_cooldown,
            None => 0,
        },
        _ => 0,
    }
}

/// The recipe for `item` from the `i`-th on: its cost and its ceiling.
pub open spec fn recipe_from(item: Resource, i: int) -> Option<(Option<u32>, Seq<(Resource, i64)>)>
    decreases data::CRAFTABLE_COUNT - i,
{
    if i < 0 || i >= data::CRAFTABLE_COUNT {
        None
    } else if data::craft_entry(i).0 == item {
        Some((data::craft_entry(i).1, data::craft_entry(i).2))
    } else {
        recipe_from(item, i + 1)
    }
}

/// The shelf entry for `item` from the `i`-th on: its price and its ceiling.
pub open spec fn shelf_from(item: Resource, i: int) -> Option<(Option<u32>, Seq<(Resource, i64)>)>
    decreases data::TRADE_GOOD_COUNT - i,
{
    if i < 0 || i >= data::TRADE_GOOD_COUNT {
        None
    } else if data::trade_entry(i).0 == item {
        Some((data::trade_entry(i).1, data::trade_entry(i).2))
    } else {
        shelf_from(item, i + 1)
    }
}

/// The workshop's recipe for `item`: its ceiling and cost, if it has one.
fn recipe(item: Resource) -> (r: Option<(Option<u32>, Vec<(Resource, i64)>)>)
    ensures
        r is Some <==> recipe_from(item, 0) is Some,
        r matches Some(x) ==> x.0 == recipe_from(item, 0)->Some_0.0 && x.1@ == recipe_from(item, 0)->Some_0.1,
{
    let mut crafts = data::craftables();
    let mut i: usize = 0;
    while i < crafts.len()
        invariant
            i <= crafts@.len(),
            crafts@.len() == data::CRAFTABLE_COUNT,
            forall|k: int|
                0 <= k < data::CRAFTABLE_COUNT ==> (#[trigger] crafts@[k]).item == data::craft_entry(k).0
                    && crafts@[k].maximum == data::craft_entry(k).1 && crafts@[k].cost@ == data::craft_entry(k).2,
            recipe_from(item, 0) == recipe_from(item, i as int),
        decreases crafts@.len() - i,
    {
        if crafts[i].item == item {
            let c = crafts.remove(i);
            return Some((c.maximum, c.cost));
        }
        i = i + 1;
    }
    None
}

/// The trading post's entry for `item`: its ceiling and price, if it sells it.
fn shelf(item: Resource) -> (r: Option<(Option<u32>, Vec<(Resource, i64)>)>)
    ensures
        r is Some <==> shelf_from(item, 0) is Some,
        r matches Some(x) ==> x.0 == shelf_from(item, 0)->Some_0.0 && x.1@ == shelf_from(item, 0)->Some_0.1,
{
    let mut goods = data::trade_goods();
    let mut i: usize = 0;
    while i < goods.len()
        invariant
            i <= goods@.len(),
            goods@.len() == data::TRADE_GOOD_COUNT,
            forall|k: int|
                0 <= k < data::TRADE_GOOD_COUNT ==> (#[trigger] goods@[k]).good == data::trade_entry(k).0
                    && goods@[k].maximum == data::trade_entry(k).1 && goods@[k].cost@ == data::trade_entry(k).2,
            shelf_from(item, 0) == shelf_from(item, i as int),
        decreases goods@.len() - i,
    {
        if goods[i].good == item {
            let g = goods.remove(i);
            return Some((g.maximum, g.cost));
        }
        i = i + 1;
    }
    None
}

/// What a row costs, for the hint line: the next building, the recipe, the
/// price, or the alloy a ship upgrade takes. The modal's buttons carry their
/// own costs.
pub open spec fn row_cost_spec(g: Game, row: Row) -> Seq<(Resource, i64)> {
    match row {
        Row::Build(b) => data::building_cost(b, g.count(b) as u32),
        Row::Craft(item) => match recipe_from(item, 0) {
            Some(x) => x.1,
            None => Seq::empty(),
        },
        Row::Buy(item) => match shelf_from(item, 0) {
            Some(x) => x.1,
            None => Seq::empty(),
        },
        Row::ReinforceHull => seq![(Resource::AlienAlloy, space::ALLOY_PER_HULL)],
        Row::UpgradeEngine => seq![(Resource::AlienAlloy, space::ALLOY_PER_THRUSTER)],
        _ => Seq::empty(),
    }
}

/// What a row costs, for the hint line.
pub fn row_cost(game: &Game, row: Row) -> (r: Vec<(Resource, i64)>)
    requires
        game.buildings.wf(),
    ensures
        r@ == row_cost_spec(*game, row),
{
    match row {
        Row::Build(b) => b.cost(game.building_count(b)),
        Row::Craft(item) => match recipe(item) {
            Some(x) => x.1,
            None => Vec::new(),
        },
        Row::Buy(item) => match shelf(item) {
            Some(x) => x.1,
            None => Vec::new(),
        },
        Row::ReinforceHull => vec![(Resource::AlienAlloy, space::ALLOY_PER_HULL)],
        Row::UpgradeEngine => vec![(Resource::AlienAlloy, space::ALLOY_PER_THRUSTER)],
        _ => Vec::new(),
    }
}

/// Whether a row has hit its ceiling: a building at its maximum, a one-off
/// already owned, nothing packed to set out with, or a ship with no hull. It
/// stays selectable and says so when pressed. The modal's rows are judged by
/// the modal.
pub open spec fn row_at_maximum_spec(g: Game, row: Row) -> bool {
    match row {
        Row::Build(b) => g.count(b) >= data::building_maximum(b),
        Row::Craft(item) => match recipe_from(item, 0) {
            Some((Some(max), _)) => g.stock(item) >= max,
            _ => false,
        },
        Row::Buy(item) => match shelf_from(item, 0) {
            Some((Some(max), _)) => g.stock(item) >= max,
            _ => false,
        },
        Row::Embark => !(g.embark_cooldown == 0 && held(g.outfit@, Resource::CuredMeat) > 0 && g.stock(
            Resource::CuredMeat,
        ) > 0),
        Row::LiftOff => match g.ship {
            Some(s) => s.hull <= 0,
            None => true,
        },
        _ => false,
    }
}

/// Whether a row has hit its ceiling.
pub fn row_at_maximum(game: &Game, row: Row) -> (r: bool)
    requires
        game.wf(),
    ensures
        r == row_at_maximum_spec(*game, row),
{
    match row {
        Row::Build(b) => match b.maximum() {
            Some(max) => game.building_count(b) >= max,
            None => false,
        },
        Row::Craft(item) => match recipe(item) {
            Some((Some(max), _)) => game.store(item) >= max as i64,
            _ => false,
        },
        Row::Buy(item) => match shelf(item) {
            Some((Some(max), _)) => game.store(item) >= max as i64,
            _ => false,
        },
        Row::Embark => !game.can_embark(),
        Row::LiftOff => match &game.ship {
            Some(s) => s.hull <= 0,
            None => true,
        },
        _ => false,
    }
}

/// The group a row is listed under, if it opens one.
pub open spec fn row_section_spec(row: Row) -> Option<Section> {
    match row {
        Row::Build(_) => Some(Section::Build),
        Row::Craft(_) => Some(Section::Craft),
        Row::Buy(_) => Some(Section::Buy),
        _ => None,
    }
}

/// The group a row is listed under, if it opens one.
pub fn row_section(row: Row) -> (r: Option<Section>)
    ensures
        r == row_section_spec(row),
{
    match row {
        Row::Build(_) => Some(Section::Build),
        Row::Craft(_) => Some(Section::Craft),
        Row::Buy(_) => Some(Section::Buy),
        _ => None,
    }
}

// ---------------------------------------------------------------------------
// What the log says
// ---------------------------------------------------------------------------

/// The line a build leaves in the log.
pub open spec fn build_line(outcome: BuildOutcome) -> Seq<char> {
    match outcome {
        BuildOutcome::Built(b) => match data::building_build_msg(b) {
            Some(m) => m,
            None => "the builder puts it up"@,
        },
        BuildOutcome::AtMaximum(b) => match data::building_max_msg(b) {
            Some(m) => m,
            None => "there's no room for another"@,
        },
        BuildOutcome::Missing(r) => "not enough "@ + data::resource_label(r),
        BuildOutcome::NoBuilder => "there's no one to build it"@,
        BuildOutcome::TooCold => data::MSG_BUILDER_SHIVERS@,
        BuildOutcome::NotOffered(_) => "that one comes from out there, not from here"@,
    }
}

fn joined(head: &str, tail: &str) -> (r: String)
    ensures
        r@ == head@ + tail@,
{
    let mut line = String::from_str(head);
    line.append(tail);
    line
}

/// The line a build leaves in the log.
pub fn build_message(outcome: BuildOutcome) -> (r: String)
    ensures
        r@ == build_line(outcome),
{
    match outcome {
        BuildOutcome::Built(b) => match b.build_msg() {
            Some(m) => String::from_str(m),
            None => String::from_str("the builder puts it up"),
        },
        BuildOutcome::AtMaximum(b) => match b.max_msg() {
            Some(m) => String::from_str(m),
            None => String::from_str("there's no room for another"),
        },
        BuildOutcome::Missing(r) => joined("not enough ", r.label()),
        BuildOutcome::NoBuilder => String::from_str("there's no one to build it"),
        BuildOutcome::TooCold => String::from_str(data::MSG_BUILDER_SHIVERS),
        BuildOutcome::NotOffered(_) => String::from_str("that one comes from out there, not from here"),
    }
}

/// The line a craft leaves in the log; `made` is the recipe's own line.
pub open spec fn craft_line(outcome: CraftOutcome, made: Seq<char>) -> Seq<char> {
    match outcome {
        CraftOutcome::Crafted(_) => made,
        CraftOutcome::AtMaximum(item) => "there's no need for another "@ + data::resource_label(item),
        CraftOutcome::Missing(r) => "not enough "@ + data::resource_label(r),
        CraftOutcome::TooCold => data::MSG_BUILDER_SHIVERS@,
    }
}

/// The line a craft leaves in the log; `made` is the recipe's own line.
pub fn craft_message(outcome: CraftOutcome, made: &str) -> (r: String)
    ensures
        r@ == craft_line(outcome, made@),
{
    match outcome {
        CraftOutcome::Crafted(_) => String::from_str(made),
        CraftOutcome::AtMaximum(item) => joined("there's no need for another ", item.label()),
        CraftOutcome::Missing(r) => joined("not enough ", r.label()),
        CraftOutcome::TooCold => String::from_str(data::MSG_BUILDER_SHIVERS),
    }
}

/// The line a purchase leaves in the log.
pub open spec fn buy_line(outcome: BuyOutcome) -> Seq<char> {
    match outcome {
        BuyOutcome::Bought(item) => "bought "@ + data::resource_label(item),
        BuyOutcome::AtMaximum(item) => "there's no need for another "@ + data::resource_label(item),
        BuyOutcome::Missing(r) => "not enough "@ + data::resource_label(r),
    }
}

/// The line a purchase leaves in the log.
pub fn buy_message(outcome: BuyOutcome) -> (r: String)
    ensures
        r@ == buy_line(outcome),
{
    match outcome {
        BuyOutcome::Bought(item) => joined("bought ", item.label()),
        BuyOutcome::AtMaximum(item) => joined("there's no need for another ", item.label()),
        BuyOutcome::Missing(r) => joined("not enough ", r.label()),
    }
}

/// The line lighting or stoking the fire leaves in the log.
pub fn fire_message(fire: Fire) -> (r: String)
    ensures
        r@ == "the fire is "@ + data::fire_text(fire),
{
    joined("the fire is ", fire.text())
}

/// The line checking the traps leaves in the log.
pub fn traps_message(drops: &[(Resource, i64)]) -> (r: String)
    ensures
        r@ == if drops@.len() == 0 {
            "the traps are empty"@
        } else {
            crate::sim::haul_text(drops@)
        },
{
    if drops.len() == 0 {
        String::from_str("the traps are empty")
    } else {
        crate::sim::haul_message(drops)
    }
}

// ---------------------------------------------------------------------------
// The path and the ship
// ---------------------------------------------------------------------------

/// What the packed outfit weighs, in tenths of a unit.
fn outfit_load(outfit: &EnumMap<Resource, i64>) -> (r: i64)
    requires
        outfit.wf(),
        nonneg(outfit@),
        forall|k: Resource| #[trigger] held(outfit@, k) <= 1_000_000_000_000,
    ensures
        r == load_of(outfit@, 53),
        0 <= r <= 53 * 50_000_000_000_000,
{
    let mut total: i64 = 0;
    let mut i: usize = 0;
    while i < 53
        invariant
            i <= 53,
            outfit.wf(),
            nonneg(outfit@),
            forall|k: Resource| #[trigger] held(outfit@, k) <= 1_000_000_000_000,
            total == load_of(outfit@, i as nat),
            0 <= total <= i * 50_000_000_000_000,
        decreases 53 - i,
    {
        let r = Resource::from_index(i);
        let n = match outfit.get(&r) {
            Some(n) => *n,
            None => 0,
        };
        proof {
            if outfit@.contains_key(r) {
                assert(outfit@[r] >= 0);
            }
            assert(held(outfit@, r) == n);
        }
        let w = world_data::weight_tenths(r);
        assert(0 <= n * w <= 50_000_000_000_000) by (nonlinear_arith)
            requires
                0 <= n <= 1_000_000_000_000,
                1 <= w <= 50,
        ;
        total = total + n * w;
        i = i + 1;
    }
    total
}

/// How many of `item` are packed after asking for `delta` more (or fewer):
/// more is bounded by the room left in the pack and by the store room, fewer
/// by nothing packed.
pub open spec fn packed_after(g: Game, item: Resource, delta: int) -> int {
    let packed = held(g.outfit@, item);
    if delta > 0 {
        let free = (world_data::DEFAULT_BAG_SPACE + model::pack_bonus(g)) * 10 - load_of(g.outfit@, 53);
        let by_weight = free / (world_data::weight_tenths_spec(item) as int);
        let by_store = g.stock(item) - packed;
        let take = if delta < by_weight {
            if delta < by_store {
                delta
            } else {
                by_store
            }
        } else if by_weight < by_store {
            by_weight
        } else {
            by_store
        };
        packed + if take > 0 {
            take
        } else {
            0
        }
    } else if packed + delta > 0 {
        packed + delta
    } else {
        0
    }
}

/// Pack or unpack supplies, bounded by the store room and by weight.
pub fn pack(game: &mut Game, item: Resource, delta: i64)
    requires
        old(game).wf(),
        forall|k: Resource| #[trigger] held(old(game).outfit@, k) <= 1_000_000_000_000,
        delta > 0 || held(old(game).outfit@, item) + delta >= i64::MIN,
    ensures
        final(game).wf(),
        final(game).outfit@ == old(game).outfit@.insert(item, packed_after(*old(game), item, delta as int) as i64),
        *final(game) == (Game { outfit: final(game).outfit, ..*old(game) }),
{
    let packed = match game.outfit.get(&item) {
        Some(n) => *n,
        None => 0,
    };
    proof {
        if old(game).outfit@.contains_key(item) {
            assert(old(game).outfit@[item] >= 0);
        }
        if old(game).stores@.contains_key(item) {
            assert(old(game).stores@[item] >= 0);
        }
    }
    let next = if delta > 0 {
        let free = game.capacity() * 10 - outfit_load(&game.outfit);
        let w = world_data::weight_tenths(item);
        let by_weight = if free >= 0 {
            free / w
        } else {
            let t = -free;
            let q = t / w;
            let back = if t % w == 0 {
                -q
            } else {
                -q - 1
            };
            proof {
                let qq = (t as int) / (w as int);
                let rr = (t as int) % (w as int);
                vstd::arithmetic::div_mod::lemma_fundamental_div_mod(t as int, w as int);
                if rr == 0 {
                    assert(free == (-qq) * w + 0) by (nonlinear_arith)
                        requires
                            t == w * qq + rr,
                            rr == 0,
                            free == -t,
                    ;
                    vstd::arithmetic::div_mod::lemma_fundamental_div_mod_converse_div(
                        free as int,
                        w as int,
                        -qq,
                        0,
                    );
                } else {
                    assert(free == (-qq - 1) * w + (w - rr)) by (nonlinear_arith)
                        requires
                            t == w * qq + rr,
                            free == -t,
                    ;
                    vstd::arithmetic::div_mod::lemma_fundamental_div_mod_converse_div(
                        free as int,
                        w as int,
                        -qq - 1,
                        w - rr,
                    );
                }
            }
            back
        };
        let by_store = game.store(item) - packed;
        let take = if delta < by_weight {
            if delta < by_store {
                delta
            } else {
                by_store
            }
        } else if by_weight < by_store {
            by_weight
        } else {
            by_store
        };
        packed + if take > 0 {
            take
        } else {
            0
        }
    } else if packed + delta > 0 {
        packed + delta
    } else {
        0
    };
    set_packed(&mut game.outfit, item, next);
    proof {
        assert(nonneg(game.outfit@));
    }
}

fn set_packed(outfit: &mut EnumMap<Resource, i64>, item: Resource, n: i64)
    requires
        old(outfit).wf(),
    ensures
        final(outfit).wf(),
        final(outfit)@ == old(outfit)@.insert(item, n),
{
    outfit.insert(item, n);
}

/// What spending alloy on the ship leaves: one alloy buys a hull plate or
/// a thruster (the ship found anew if it was not yet), or the log says there
/// is none to spend.
pub open spec fn ship_plated(g: Game, hull: bool, after: Game, said: Seq<Seq<char>>, says: Seq<Seq<char>>) -> bool {
    if g.stock(Resource::AlienAlloy) < 1 {
        after == g && says == said.push("not enough alien alloy"@)
    } else {
        let s = match g.ship {
            Some(s) => s,
            None => ShipState { hull: 0, thrusters: 1, seen_ship: false, seen_warning: false, liftoff_cooldown: 0 },
        };
        &&& after.stores@ == model::add_held(g.stores@, Resource::AlienAlloy, -1)
        &&& after.ship == Some(
            if hull {
                ShipState { hull: (s.hull + 1) as i64, ..s }
            } else {
                ShipState { thrusters: (s.thrusters + 1) as i64, ..s }
            },
        )
        &&& after == (Game { stores: after.stores, ship: after.ship, ..g })
        &&& says == said
    }
}

/// Spend the alloy for a plate of hull (or an engine upgrade), giving the
/// game its ship if it had none; short of alloy, say so and spend nothing.
pub fn ship_spend(game: &mut Game, hull: bool, out: &mut Vec<String>)
    requires
        old(game).wf(),
        old(game).ship matches Some(s) ==> s.hull < i64::MAX && s.thrusters < i64::MAX,
    ensures
        final(game).wf(),
        ship_plated(*old(game), hull, *final(game), texts(old(out)@), texts(final(out)@)),
{
    let cost = if hull {
        space::ALLOY_PER_HULL
    } else {
        space::ALLOY_PER_THRUSTER
    };
    if game.store(Resource::AlienAlloy) < cost {
        say(out, "not enough alien alloy");
        return;
    }
    proof {
        if old(game).stores@.contains_key(Resource::AlienAlloy) {
            assert(old(game).stores@[Resource::AlienAlloy] >= 0);
        }
    }
    game.add_store(Resource::AlienAlloy, -cost);
    plate(&mut game.ship, hull);
}

fn plate(ship: &mut Option<ShipState>, hull: bool)
    requires
        *old(ship) matches Some(s) ==> s.hull < i64::MAX && s.thrusters < i64::MAX,
    ensures
        ({
            let s = match *old(ship) {
                Some(s) => s,
                None => ShipState { hull: 0, thrusters: 1, seen_ship: false, seen_warning: false, liftoff_cooldown: 0 },
            };
            *final(ship) == Some(
                if hull {
                    ShipState { hull: (s.hull + 1) as i64, ..s }
                } else {
                    ShipState { thrusters: (s.thrusters + 1) as i64, ..s }
                },
            )
        }),
{
    let mut s = match ship {
        Some(s) => *s,
        None => ShipState::new(),
    };
    if hull {
        s.hull = s.hull + 1;
    } else {
        s.thrusters = s.thrusters + 1;
    }
    *ship = Some(s);
}

/// What pressing lift off leaves: nothing without a hull or while the
/// engines cool; the first press is the one-way warning; the next hands
/// back the hull and engines the flight starts with.
pub open spec fn lift_pressed(
    ship: Option<ShipState>,
    after: Option<ShipState>,
    said: Seq<Seq<char>>,
    says: Seq<Seq<char>>,
    flight: Option<(i64, i64)>,
) -> bool {
    match ship {
        None => flight is None && after == ship && says == said,
        Some(s) => if s.hull <= 0 || s.liftoff_cooldown > 0 {
            flight is None && after == ship && says == said
        } else if !s.seen_warning {
            &&& flight is None
            &&& after == Some(ShipState { seen_warning: true, ..s })
            &&& says == said.push(space::MSG_READY_TO_LEAVE@)
        } else {
            flight == Some((s.hull, s.thrusters)) && after == ship && says == said
        },
    }
}

/// Press lift off: nothing without a hull or while the engines cool; the
/// first press is the one-way warning; the next hands back the hull and
/// engines the flight starts with.
pub fn lift_off(ship: &mut Option<ShipState>, out: &mut Vec<String>) -> (flight: Option<(i64, i64)>)
    ensures
        lift_pressed(*old(ship), *final(ship), texts(old(out)@), texts(final(out)@), flight),
{
    match ship {
        None => None,
        Some(s) => {
            if s.hull <= 0 || s.liftoff_cooldown > 0 {
                None
            } else if !s.seen_warning {
                s.seen_warning = true;
                say(out, space::MSG_READY_TO_LEAVE);
                None
            } else {
                Some((s.hull, s.thrusters))
            }
        },
    }
}

/// Once the compass is in the store room, the path opens, and the wasteland
/// is drawn if it has not been yet. Whether this happened now.
pub fn open_path_if_bought(game: &mut Game, rng: &mut StdRng) -> (opened: bool)
    requires
        old(game).wf(),
    ensures
        final(game).wf(),
        opened == (!old(game).path_unlocked && old(game).stock(Resource::Compass) != 0),
        !opened ==> *final(game) == *old(game),
        opened ==> {
            &&& final(game).path_unlocked
            &&& final(game).world is Some
            &&& (old(game).world is Some ==> final(game).world == old(game).world)
            &&& *final(game) == (Game { path_unlocked: true, world: final(game).world, ..*old(game) })
        },
{
    if game.path_unlocked || game.store(Resource::Compass) == 0 {
        return false;
    }
    game.path_unlocked = true;
    if game.world.is_none() {
        let map = world::generate(game.veteran, rng);
        game.world = Some(map);
    }
    true
}

// ---------------------------------------------------------------------------
// Row labels
// ---------------------------------------------------------------------------

/// The character for a decimal digit.
pub open spec fn digit_char(d: int) -> char {
    if d == 0 {
        '0'
    } else if d == 1 {
        '1'
    } else if d == 2 {
        '2'
    } else if d == 3 {
        '3'
    } else if d == 4 {
        '4'
    } else if d == 5 {
        '5'
    } else if d == 6 {
        '6'
    } else if d == 7 {
        '7'
    } else if d == 8 {
        '8'
    } else {
        '9'
    }
}

/// A natural number in decimal, most significant digit first, with no
/// leading zeros.
pub open spec fn decimal(n: nat) -> Seq<char>
    decreases n,
{
    if n < 10 {
        seq![digit_char(n as int)]
    } else {
        decimal(n / 10) + seq![digit_char((n % 10) as int)]
    }
}

/// An integer in decimal, with a leading minus when it is negative.
pub open spec fn signed_decimal(i: int) -> Seq<char> {
    if i < 0 {
        seq!['-'] + decimal((-i) as nat)
    } else {
        decimal(i as nat)
    }
}

fn digit_text(d: u64) -> (r: &'static str)
    requires
        d < 10,
    ensures
        r@ == seq![digit_char(d as int)],
{
    proof {
        reveal_strlit("0");
        reveal_strlit("1");
        reveal_strlit("2");
        reveal_strlit("3");
        reveal_strlit("4");
        reveal_strlit("5");
        reveal_strlit("6");
        reveal_strlit("7");
        reveal_strlit("8");
        reveal_strlit("9");
    }
    if d == 0 {
        "0"
    } else if d == 1 {
        "1"
    } else if d == 2 {
        "2"
    } else if d == 3 {
        "3"
    } else if d == 4 {
        "4"
    } else if d == 5 {
        "5"
    } else if d == 6 {
        "6"
    } else if d == 7 {
        "7"
    } else if d == 8 {
        "8"
    } else {
        "9"
    }
}

pub(crate) fn append_decimal(line: &mut String, n: u64)
    ensures
        final(line)@ == old(line)@ + decimal(n as nat),
    decreases n,
{
    if n >= 10 {
        append_decimal(line, n / 10);
    }
    line.append(digit_text(n % 10));
    proof {
        assert(final(line)@ =~= old(line)@ + decimal(n as nat)) by {
            if n >= 10 {
                assert(decimal(n as nat) == decimal((n / 10) as nat) + seq![digit_char((n % 10) as int)]);
            }
        }
    }
}

pub(crate) fn append_signed(line: &mut String, n: i64)
    ensures
        final(line)@ == old(line)@ + signed_decimal(n as int),
{
    if n < 0 {
        line.append("-");
        proof {
            reveal_strlit("-");
        }
        let magnitude: u64 = (-(n + 1)) as u64 + 1;
        append_decimal(line, magnitude);
        proof {
            assert(final(line)@ =~= old(line)@ + signed_decimal(n as int));
        }
    } else {
        append_decimal(line, n as u64);
    }
}

/// What a row's button says. The workers and the pack show their counts:
/// a trade by how many work it, a supply as packed over held. Event rows
/// are the open event's own to name: none here.
pub open spec fn row_label_spec(g: Game, row: Row) -> Option<Seq<char>> {
    match row {
        Row::LightFire => Some("light fire"@),
        Row::StokeFire => Some("stoke fire"@),
        Row::Build(b) => Some(data::building_label(b)),
        Row::Craft(item) => Some(data::resource_label(item)),
        Row::Buy(item) => Some(data::resource_label(item)),
        Row::GatherWood => Some("gather wood"@),
        Row::CheckTraps => Some("check traps"@),
        Row::Worker(job) => Some(data::job_label(job) + " "@ + decimal(g.workers_on(job) as nat)),
        Row::Outfit(item) => Some(
            data::resource_label(item) + " "@ + signed_decimal(held(g.outfit@, item)) + "/"@
                + signed_decimal(g.stock(item)),
        ),
        Row::Embark => Some("embark"@),
        Row::ReinforceHull => Some("reinforce hull"@),
        Row::UpgradeEngine => Some("upgrade engine"@),
        Row::LiftOff => Some("lift off"@),
        Row::Event(_) => None,
        Row::Leave => Some("leave"@),
    }
}

/// What a row's button says; `None` for an event row.
pub fn row_label(game: &Game, row: Row) -> (r: Option<String>)
    requires
        game.wf(),
    ensures
        (match r {
            Some(text) => Some(text@),
            None => None,
        }) == row_label_spec(*game, row),
{
    let text: &str = match row {
        Row::LightFire => "light fire",
        Row::StokeFire => "stoke fire",
        Row::Build(b) => b.label(),
        Row::Craft(item) => item.label(),
        Row::Buy(item) => item.label(),
        Row::GatherWood => "gather wood",
        Row::CheckTraps => "check traps",
        Row::Worker(job) => {
            let mut line = String::from_str(job.label());
            line.append(" ");
            append_decimal(&mut line, game.worker_count(job) as u64);
            return Some(line);
        },
        Row::Outfit(item) => {
            let packed: i64 = match game.outfit.get(&item) {
                Some(n) => *n,
                None => 0,
            };
            let mut line = String::from_str(item.label());
            line.append(" ");
            append_signed(&mut line, packed);
            line.append("/");
            append_signed(&mut line, game.store(item));
            return Some(line);
        },
        Row::Embark => "embark",
        Row::ReinforceHull => "reinforce hull",
        Row::UpgradeEngine => "upgrade engine",
        Row::LiftOff => "lift off",
        Row::Event(_) => {
            return None;
        },
        Row::Leave => "leave",
    };
    Some(String::from_str(text))
}


// ---------------------------------------------------------------------------
// Acting on a row
// ---------------------------------------------------------------------------

/// The index of the workshop recipe for `item`, looking from `i` on.
pub open spec fn recipe_at(item: Resource, i: int) -> Option<int>
    decreases data::CRAFTABLE_COUNT - i,
{
    if i < 0 || i >= data::CRAFTABLE_COUNT {
        None
    } else if data::craft_entry(i).0 == item {
        Some(i)
    } else {
        recipe_at(item, i + 1)
    }
}

/// The index of the trading post's shelf for `item`, looking from `i` on.
pub open spec fn shelf_at(item: Resource, i: int) -> Option<int>
    decreases data::TRADE_GOOD_COUNT - i,
{
    if i < 0 || i >= data::TRADE_GOOD_COUNT {
        None
    } else if data::trade_entry(i).0 == item {
        Some(i)
    } else {
        shelf_at(item, i + 1)
    }
}

/// The lines a fire that took prints: how it burns, and the builder's
/// approach when this is what drew her.
pub open spec fn fire_lines(drew_builder: bool, fire: Fire) -> Seq<Seq<char>> {
    seq!["the fire is "@ + data::fire_text(fire)] + if drew_builder {
        seq![data::MSG_FIRE_SPILLS@]
    } else {
        seq![]
    }
}

/// The line checking the traps prints.
pub open spec fn traps_line(drops: Seq<(Resource, i64)>) -> Seq<char> {
    if drops.len() == 0 {
        "the traps are empty"@
    } else {
        crate::sim::haul_text(drops)
    }
}

/// What a purchase leaves once the path may have opened: the compass in the
/// store room opens the path, draws the wasteland if it is not drawn yet,
/// and says where the compass points.
pub open spec fn path_opened(g: Game, after: Game, said: Seq<Seq<char>>, says: Seq<Seq<char>>) -> bool {
    if !g.path_unlocked && g.stock(Resource::Compass) != 0 {
        &&& after.path_unlocked
        &&& after.world is Some
        &&& (g.world is Some ==> after.world == g.world)
        &&& after == (Game { path_unlocked: true, world: after.world, ..g })
        &&& exists|d: Seq<char>|
            world::compass_reading(after.world->0, d) && says == said.push("the compass points "@ + d)
    } else {
        after == g && says == said
    }
}

/// Whether the wanderer may set out: supplies packed and held, no death
/// cooldown, and a wasteland to walk.
pub open spec fn may_set_out(g: Game) -> bool {
    g.embark_cooldown == 0 && held(g.outfit@, Resource::CuredMeat) > 0 && g.stock(Resource::CuredMeat) > 0
        && g.world is Some
}

/// Lighting the fire, and the lines it prints.
pub open spec fn light_pressed(g: Game, after: Game, said: Seq<Seq<char>>, says: Seq<Seq<char>>) -> bool {
    exists|r: model::LightFire|
        model::fire_lit(g, r, after) && says == said + match r {
            model::LightFire::Lit { drew_builder } => fire_lines(drew_builder, after.fire),
            model::LightFire::NotEnoughWood => seq![data::MSG_NOT_ENOUGH_WOOD@],
            model::LightFire::OnCooldown => seq![],
        }
}

/// Stoking the fire, and the lines it prints.
pub open spec fn stoke_pressed(g: Game, after: Game, said: Seq<Seq<char>>, says: Seq<Seq<char>>) -> bool {
    exists|r: model::StokeFire|
        model::fire_stoked(g, r, after) && says == said + match r {
            model::StokeFire::Stoked { drew_builder } => fire_lines(drew_builder, after.fire),
            model::StokeFire::OutOfWood => seq![data::MSG_WOOD_RUN_OUT@],
            model::StokeFire::OnCooldown => seq![],
        }
}

/// A build, and the line it prints.
pub open spec fn build_pressed(g: Game, b: Building, after: Game, said: Seq<Seq<char>>, says: Seq<Seq<char>>) -> bool {
    exists|r: BuildOutcome| model::building_raised(g, b, r, after) && says == said.push(build_line(r))
}

/// Crafting from the recipe at `k`, and the line it prints.
pub open spec fn craft_pressed(
    g: Game,
    item: Resource,
    k: int,
    after: Game,
    said: Seq<Seq<char>>,
    says: Seq<Seq<char>>,
) -> bool {
    exists|r: CraftOutcome|
        model::item_crafted(g, item, data::craft_entry(k).1, data::craft_entry(k).2, r, after) && says
            == said.push(craft_line(r, data::craft_made(k)))
}

/// Buying from the shelf at `k`, the line it prints, and the path the
/// compass may open.
pub open spec fn buy_pressed(
    g: Game,
    item: Resource,
    k: int,
    after: Game,
    said: Seq<Seq<char>>,
    says: Seq<Seq<char>>,
) -> bool {
    exists|r: BuyOutcome, mid: Game|
        model::good_bought(g, item, data::trade_entry(k).1, data::trade_entry(k).2, r, mid) && path_opened(
            mid,
            after,
            said.push(buy_line(r)),
            says,
        )
}

/// Gathering wood, and the line it prints.
pub open spec fn gather_pressed(g: Game, after: Game, said: Seq<Seq<char>>, says: Seq<Seq<char>>) -> bool {
    exists|r: model::GatherOutcome|
        model::wood_gathered(g, r, after) && says == said + match r {
            model::GatherOutcome::Gathered(_) => seq![data::MSG_GATHER_WOOD@],
            model::GatherOutcome::OnCooldown => seq![],
        }
}

/// Emptying the traps, and the line it prints: nothing while they reset;
/// otherwise one draw per trap and per baited trap, the bait used up, and
/// the haul in the store room.
pub open spec fn traps_pressed(g: Game, after: Game, said: Seq<Seq<char>>, says: Seq<Seq<char>>) -> bool {
    if g.traps_cooldown > 0 {
        after == g && says == said
    } else {
        exists|ds: Seq<u64>|
            #![trigger crate::sim::haul(ds)]
            {
                let drops = crate::sim::haul(ds);
                &&& ds.len() == g.count(Building::Trap) + g.baited_spec()
                &&& after.stores@ == model::add_all(
                    model::add_held(g.stores@, Resource::Bait, -g.baited_spec()),
                    drops,
                )
                &&& after == (Game { stores: after.stores, traps_cooldown: data::TRAPS_DELAY, ..g })
                &&& says == said.push(traps_line(drops))
            }
    }
}

/// One more villager onto a trade, if one is free.
pub open spec fn worker_pressed(g: Game, job: Job, after: Game) -> bool {
    exists|moved: u32| model::workers_assigned(g, job, 1, moved, after)
}

/// Setting out, when the wanderer may.
pub open spec fn embark_pressed(g: Game, after: Game) -> bool {
    if may_set_out(g) {
        exists|home: Game, trip: Expedition|
            world::set_out(g, home, trip) && after == (Game { expedition: Some(trip), ..home })
    } else {
        after == g
    }
}

/// What pressing a row does to the game and the log (`said` before, `says`
/// after), and the flight it starts. Event rows belong to the event modal
/// and the way out to the session: neither touches the game here.
pub open spec fn pressed(
    g: Game,
    row: Row,
    after: Game,
    said: Seq<Seq<char>>,
    says: Seq<Seq<char>>,
    flight: Option<(i64, i64)>,
) -> bool {
    &&& (row != Row::LiftOff ==> flight is None)
    &&& match row {
        Row::LightFire => light_pressed(g, after, said, says),
        Row::StokeFire => stoke_pressed(g, after, said, says),
        Row::Build(b) => build_pressed(g, b, after, said, says),
        Row::Craft(item) => match recipe_at(item, 0) {
            None => after == g && says == said,
            Some(k) => craft_pressed(g, item, k, after, said, says),
        },
        Row::Buy(item) => match shelf_at(item, 0) {
            None => after == g && says == said,
            Some(k) => buy_pressed(g, item, k, after, said, says),
        },
        Row::GatherWood => gather_pressed(g, after, said, says),
        Row::CheckTraps => traps_pressed(g, after, said, says),
        Row::Worker(job) => worker_pressed(g, job, after) && says == said,
        Row::Outfit(item) => {
            &&& after.outfit@ == g.outfit@.insert(item, packed_after(g, item, 1) as i64)
            &&& after == (Game { outfit: after.outfit, ..g })
            &&& says == said
        },
        Row::Embark => embark_pressed(g, after) && says == said,
        Row::ReinforceHull => ship_plated(g, true, after, said, says),
        Row::UpgradeEngine => ship_plated(g, false, after, said, says),
        Row::LiftOff => lift_pressed(g.ship, after.ship, said, says, flight) && after == (Game {
            ship: after.ship,
            ..g
        }),
        Row::Event(_) => after == g && says == said,
        Row::Leave => after == g && says == said,
    }
}

/// Index of the recipe for `item` in the workshop's table, if it has one.
fn find_recipe(table: &Vec<data::Craftable>, item: Resource) -> (r: Option<usize>)
    requires
        table.len() == data::CRAFTABLE_COUNT,
        forall|i: int| 0 <= i < data::CRAFTABLE_COUNT ==> (#[trigger] table@[i]).item == data::craft_entry(i).0,
    ensures
        match r {
            Some(k) => recipe_at(item, 0) == Some(k as int),
            None => recipe_at(item, 0) is None,
        },
        r matches Some(k) ==> k < data::CRAFTABLE_COUNT && table@[k as int].item == item,
{
    let mut i: usize = 0;
    while i < table.len()
        invariant
            i <= table.len(),
            table.len() == data::CRAFTABLE_COUNT,
            forall|k: int| 0 <= k < data::CRAFTABLE_COUNT ==> (#[trigger] table@[k]).item == data::craft_entry(k).0,
            recipe_at(item, 0) == recipe_at(item, i as int),
        decreases table.len() - i,
    {
        if table[i].item == item {
            return Some(i);
        }
        i = i + 1;
    }
    None
}

/// Index of the shelf for `item` in the trading post's table, if it has one.
fn find_shelf(table: &Vec<data::TradeGood>, item: Resource) -> (r: Option<usize>)
    requires
        table.len() == data::TRADE_GOOD_COUNT,
        forall|i: int| 0 <= i < data::TRADE_GOOD_COUNT ==> (#[trigger] table@[i]).good == data::trade_entry(i).0,
    ensures
        match r {
            Some(k) => shelf_at(item, 0) == Some(k as int),
            None => shelf_at(item, 0) is None,
        },
        r matches Some(k) ==> k < data::TRADE_GOOD_COUNT && table@[k as int].good == item,
{
    let mut i: usize = 0;
    while i < table.len()
        invariant
            i <= table.len(),
            table.len() == data::TRADE_GOOD_COUNT,
            forall|k: int| 0 <= k < data::TRADE_GOOD_COUNT ==> (#[trigger] table@[k]).good == data::trade_entry(k).0,
            shelf_at(item, 0) == shelf_at(item, i as int),
        decreases table.len() - i,
    {
        if table[i].good == item {
            return Some(i);
        }
        i = i + 1;
    }
    None
}

/// Every workshop recipe costs only positive amounts.
proof fn lemma_craft_costs_nonneg(k: int)
    requires
        0 <= k < data::CRAFTABLE_COUNT,
    ensures
        model::cost_nonneg(data::craft_entry(k).2),
{
}

/// Every trading post price is in positive amounts.
proof fn lemma_trade_costs_nonneg(k: int)
    requires
        0 <= k < data::TRADE_GOOD_COUNT,
    ensures
        model::cost_nonneg(data::trade_entry(k).2),
{
}

fn press_light(game: &mut Game, out: &mut Vec<String>)
    requires
        old(game).wf(),
    ensures
        final(game).wf(),
        pressed(*old(game), Row::LightFire, *final(game), texts(old(out)@), texts(final(out)@), None),
{
    let r = game.light_fire();
    let ghost before = texts(out@);
    match r {
        model::LightFire::Lit { drew_builder } => {
            out.push(fire_message(game.fire));
            if drew_builder {
                say(out, data::MSG_FIRE_SPILLS);
            }
        },
        model::LightFire::NotEnoughWood => say(out, data::MSG_NOT_ENOUGH_WOOD),
        model::LightFire::OnCooldown => {},
    }
    proof {
        assert(texts(out@) =~= before + match r {
            model::LightFire::Lit { drew_builder } => fire_lines(drew_builder, game.fire),
            model::LightFire::NotEnoughWood => seq![data::MSG_NOT_ENOUGH_WOOD@],
            model::LightFire::OnCooldown => seq![],
        });
    }
}

fn press_stoke(game: &mut Game, out: &mut Vec<String>)
    requires
        old(game).wf(),
    ensures
        final(game).wf(),
        pressed(*old(game), Row::StokeFire, *final(game), texts(old(out)@), texts(final(out)@), None),
{
    let r = game.stoke_fire();
    let ghost before = texts(out@);
    match r {
        model::StokeFire::Stoked { drew_builder } => {
            out.push(fire_message(game.fire));
            if drew_builder {
                say(out, data::MSG_FIRE_SPILLS);
            }
        },
        model::StokeFire::OutOfWood => say(out, data::MSG_WOOD_RUN_OUT),
        model::StokeFire::OnCooldown => {},
    }
    proof {
        assert(texts(out@) =~= before + match r {
            model::StokeFire::Stoked { drew_builder } => fire_lines(drew_builder, game.fire),
            model::StokeFire::OutOfWood => seq![data::MSG_WOOD_RUN_OUT@],
            model::StokeFire::OnCooldown => seq![],
        });
    }
}

fn press_gather(game: &mut Game, out: &mut Vec<String>)
    requires
        old(game).wf(),
        old(game).stock(Resource::Wood) <= i64::MAX - data::GATHER_WOOD_CART,
    ensures
        final(game).wf(),
        pressed(*old(game), Row::GatherWood, *final(game), texts(old(out)@), texts(final(out)@), None),
{
    let r = game.gather_wood();
    let ghost before = texts(out@);
    match r {
        model::GatherOutcome::Gathered(_) => say(out, data::MSG_GATHER_WOOD),
        model::GatherOutcome::OnCooldown => {},
    }
    proof {
        assert(texts(out@) =~= before + match r {
            model::GatherOutcome::Gathered(_) => seq![data::MSG_GATHER_WOOD@],
            model::GatherOutcome::OnCooldown => seq![],
        });
    }
}

fn press_build(game: &mut Game, building: Building, out: &mut Vec<String>)
    requires
        old(game).wf(),
    ensures
        final(game).wf(),
        pressed(*old(game), Row::Build(building), *final(game), texts(old(out)@), texts(final(out)@), None),
{
    let r = game.build(building);
    let line = build_message(r);
    let ghost before = texts(out@);
    out.push(line);
    proof {
        assert(texts(out@) =~= before.push(build_line(r)));
    }
}

fn press_craft(game: &mut Game, item: Resource, out: &mut Vec<String>)
    requires
        old(game).wf(),
        crate::sim::capped(old(game).stores@, crate::sim::SETTLE_CAP as int),
    ensures
        final(game).wf(),
        pressed(*old(game), Row::Craft(item), *final(game), texts(old(out)@), texts(final(out)@), None),
{
    let table = data::craftables();
    match find_recipe(&table, item) {
        None => {},
        Some(k) => {
            let recipe = &table[k];
            proof {
                assert(recipe.item == item);
                assert(held(game.stores@, item) <= crate::sim::SETTLE_CAP);
                lemma_craft_costs_nonneg(k as int);
            }
            let r = game.craft(recipe);
            let line = craft_message(r, recipe.build_msg);
            let ghost before = texts(out@);
            out.push(line);
            proof {
                assert(texts(out@) =~= before.push(craft_line(r, data::craft_made(k as int))));
            }
        },
    }
}

fn press_buy(game: &mut Game, item: Resource, rng: &mut StdRng, out: &mut Vec<String>)
    requires
        old(game).wf(),
        crate::sim::capped(old(game).stores@, crate::sim::SETTLE_CAP as int),
    ensures
        final(game).wf(),
        pressed(*old(game), Row::Buy(item), *final(game), texts(old(out)@), texts(final(out)@), None),
{
    let table = data::trade_goods();
    match find_shelf(&table, item) {
        None => {},
        Some(k) => {
            let good = &table[k];
            proof {
                assert(good.good == item);
                assert(held(game.stores@, item) <= crate::sim::SETTLE_CAP);
                lemma_trade_costs_nonneg(k as int);
            }
            let r = game.buy(good);
            let line = buy_message(r);
            let ghost before = texts(out@);
            out.push(line);
            proof {
                assert(texts(out@) =~= before.push(buy_line(r)));
            }
            let ghost mid = *game;
            let ghost said = texts(out@);
            if open_path_if_bought(game, rng) {
                match &game.world {
                    Some(map) => {
                        let d = world::compass_dir(map);
                        say_both(out, "the compass points ", d);
                        proof {
                            assert(world::compass_reading(game.world->0, d@));
                        }
                    },
                    None => {},
                }
            }
            proof {
                assert(path_opened(mid, *game, said, texts(out@)));
            }
        },
    }
}

fn press_traps(game: &mut Game, rng: &mut StdRng, out: &mut Vec<String>)
    requires
        old(game).wf(),
        crate::sim::capped(old(game).stores@, crate::sim::SETTLE_CAP as int),
        old(game).count(Building::Trap) * 2 <= u32::MAX,
    ensures
        final(game).wf(),
        pressed(*old(game), Row::CheckTraps, *final(game), texts(old(out)@), texts(final(out)@), None),
{
    if game.traps_cooldown > 0 {
        return;
    }
    let drops = crate::sim::roll_traps(game, rng);
    let ghost g0 = *game;
    let ghost most = g0.count(Building::Trap) + g0.baited_spec();
    let ghost m = model::add_held(g0.stores@, Resource::Bait, -g0.baited_spec());
    proof {
        assert forall|r: Resource| 0 <= #[trigger] held(m, r) <= i64::MAX - most by {
            assert(held(g0.stores@, r) <= crate::sim::SETTLE_CAP);
            if g0.stores@.contains_key(r) {
                assert(g0.stores@[r] >= 0);
            }
        }
        crate::sim::lemma_distinct_deltas_fit(m, drops@, most);
    }
    game.collect_traps(&drops);
    let line = traps_message(&drops);
    let ghost before = texts(out@);
    out.push(line);
    proof {
        let ds = choose|ds: Seq<u64>|
            ds.len() == g0.count(Building::Trap) + g0.baited_spec() && drops@ == crate::sim::haul(ds);
        assert(texts(out@) =~= before.push(traps_line(crate::sim::haul(ds))));
    }
}

fn press_worker(game: &mut Game, job: Job, out: &Vec<String>)
    requires
        old(game).wf(),
        old(game).assigned() <= u32::MAX,
    ensures
        final(game).wf(),
        pressed(*old(game), Row::Worker(job), *final(game), texts(out@), texts(out@), None),
{
    let _moved = game.assign_worker(job, 1);
}

fn press_embark(game: &mut Game, view: &mut View, cursor: &mut usize)
    requires
        old(game).wf(),
    ensures
        final(game).wf(),
        embark_pressed(*old(game), *final(game)),
        may_set_out(*old(game)) ==> *final(view) == View::World && *final(cursor) == 0,
        !may_set_out(*old(game)) ==> *final(view) == *old(view) && *final(cursor) == *old(cursor),
{
    if !game.can_embark() || game.world.is_none() {
        return;
    }
    let trip = world::embark(game);
    let ghost home = *game;
    game.expedition = Some(trip);
    *view = View::World;
    *cursor = 0;
    proof {
        assert(world::set_out(*old(game), home, trip));
    }
}

/// Act on the row under the cursor, as the Enter key does: the game
/// changes as that row's action says, its lines go to the log, setting out
/// moves the player onto the map, and a ship ready to fly hands back the
/// hull and engines the flight starts with. Returns whether the player
/// asked to leave.
///
/// The caller runs the village clock forward first. The game must hold no
/// more than a run reaches: stores under the settling cap, villagers and
/// traps countable, a pack that can be weighed, and a ship that can take
/// another plate.
#[verifier::rlimit(60)]
pub fn select(
    game: &mut Game,
    view: &mut View,
    cursor: &mut usize,
    rng: &mut StdRng,
    out: &mut Vec<String>,
) -> (r: (Acted, Option<(i64, i64)>))
    requires
        old(game).wf(),
        crate::sim::capped(old(game).stores@, crate::sim::SETTLE_CAP as int),
        old(game).assigned() <= u32::MAX,
        old(game).count(Building::Trap) * 2 <= u32::MAX,
        forall|k: Resource| #[trigger] held(old(game).outfit@, k) <= 1_000_000_000_000,
        old(game).ship matches Some(s) ==> s.hull < i64::MAX && s.thrusters < i64::MAX,
    ensures
        final(game).wf(),
        ({
            let rows = panel_rows_spec(*old(game), *old(view));
            let row = selected_spec(rows, *old(cursor) as int);
            if rows.len() == 0 {
                &&& r == (Acted::Stay, None::<(i64, i64)>)
                &&& *final(game) == *old(game)
                &&& final(out)@ == old(out)@
                &&& *final(view) == *old(view)
                &&& *final(cursor) == *old(cursor)
            } else {
                &&& r.0 == if row == Row::Leave {
                    Acted::Leave
                } else {
                    Acted::Stay
                }
                &&& pressed(*old(game), row, *final(game), texts(old(out)@), texts(final(out)@), r.1)
                &&& if row == Row::Embark && may_set_out(*old(game)) {
                    *final(view) == View::World && *final(cursor) == 0
                } else {
                    *final(view) == *old(view) && *final(cursor) == *old(cursor)
                }
            }
        }),
{
    let rows = panel_rows(game, *view);
    if rows.len() == 0 {
        return (Acted::Stay, None);
    }
    let row = selected(&rows, *cursor);
    match row {
        Row::LightFire => press_light(game, out),
        Row::StokeFire => press_stoke(game, out),
        Row::Build(building) => press_build(game, building, out),
        Row::Craft(item) => press_craft(game, item, out),
        Row::Buy(item) => press_buy(game, item, rng, out),
        Row::GatherWood => {
            proof {
                assert(held(game.stores@, Resource::Wood) <= crate::sim::SETTLE_CAP);
            }
            press_gather(game, out)
        },
        Row::CheckTraps => press_traps(game, rng, out),
        Row::Worker(job) => press_worker(game, job, out),
        Row::Outfit(item) => pack(game, item, 1),
        Row::Embark => press_embark(game, view, cursor),
        Row::ReinforceHull => ship_spend(game, true, out),
        Row::UpgradeEngine => ship_spend(game, false, out),
        Row::LiftOff => {
            let flight = lift_off(&mut game.ship, out);
            return (Acted::Stay, flight);
        },
        Row::Event(_) => {},
        Row::Leave => {
            return (Acted::Leave, None);
        },
    }
    (Acted::Stay, None)
}

/// What `count` more on the selected row leaves: villagers onto its trade,
/// up to those still gathering, or supplies into the pack, up to what the
/// pack and the store room allow. Any other row is left alone.
pub open spec fn assigned_more(g: Game, row: Row, count: u32, after: Game) -> bool {
    match row {
        Row::Worker(job) => exists|moved: u32| model::workers_assigned(g, job, count, moved, after),
        Row::Outfit(item) => {
            &&& after.outfit@ == g.outfit@.insert(item, packed_after(g, item, count as int) as i64)
            &&& after == (Game { outfit: after.outfit, ..g })
        },
        _ => after == g,
    }
}

/// What `count` fewer on the selected row leaves: villagers off its trade,
/// up to those on it, or supplies out of the pack, down to none. Any other
/// row is left alone.
pub open spec fn assigned_fewer(g: Game, row: Row, count: u32, after: Game) -> bool {
    match row {
        Row::Worker(job) => exists|moved: u32| model::workers_unassigned(g, job, count, moved, after),
        Row::Outfit(item) => {
            &&& after.outfit@ == g.outfit@.insert(item, packed_after(g, item, -count) as i64)
            &&& after == (Game { outfit: after.outfit, ..g })
        },
        _ => after == g,
    }
}

/// Move `count` villagers onto the selected trade, or pack `count` more of
/// the selected supply. Safe to bind to a key: it does nothing on any other
/// row. The caller runs the village clock forward first.
pub fn assign_selected(game: &mut Game, view: View, cursor: usize, count: u32)
    requires
        old(game).wf(),
        old(game).assigned() <= u32::MAX,
        forall|k: Resource| #[trigger] held(old(game).outfit@, k) <= 1_000_000_000_000,
    ensures
        final(game).wf(),
        assigned_more(
            *old(game),
            selected_spec(panel_rows_spec(*old(game), view), cursor as int),
            count,
            *final(game),
        ),
{
    let rows = panel_rows(game, view);
    match selected(&rows, cursor) {
        Row::Worker(job) => {
            let _moved = game.assign_worker(job, count);
        },
        Row::Outfit(item) => pack(game, item, count as i64),
        _ => {},
    }
}

/// The inverse: `count` villagers off the selected trade, or `count` of the
/// selected supply out of the pack.
pub fn unassign_selected(game: &mut Game, view: View, cursor: usize, count: u32)
    requires
        old(game).wf(),
        forall|k: Resource| #[trigger] held(old(game).outfit@, k) <= 1_000_000_000_000,
    ensures
        final(game).wf(),
        assigned_fewer(
            *old(game),
            selected_spec(panel_rows_spec(*old(game), view), cursor as int),
            count,
            *final(game),
        ),
{
    let rows = panel_rows(game, view);
    match selected(&rows, cursor) {
        Row::Worker(job) => {
            let _moved = game.unassign_worker(job, count);
        },
        Row::Outfit(item) => {
            proof {
                if game.outfit@.contains_key(item) {
                    assert(game.outfit@[item] >= 0);
                }
            }
            pack(game, item, -(count as i64))
        },
        _ => {},
    }
}

/// The lines of the ending, in order.
pub open spec fn ending_lines() -> Seq<Seq<char>> {
    seq![space::ENDING[0]@, space::ENDING[1]@, space::ENDING[2]@]
}

/// A flight is over: a crash costs the engines a cooldown and says so; a
/// flight that got away prints the ending. Either way the player is back
/// at the ship. Returns the panel to show.
pub fn flight_ended(game: &mut Game, outcome: space::Flight, out: &mut Vec<String>) -> (next: View)
    requires
        old(game).wf(),
    ensures
        final(game).wf(),
        next == View::Ship,
        outcome == space::Flight::Crashed ==> {
            &&& *final(game) == (Game {
                ship: match old(game).ship {
                    Some(s) => Some(ShipState { liftoff_cooldown: space::LIFTOFF_COOLDOWN, ..s }),
                    None => None,
                },
                ..*old(game)
            })
            &&& texts(final(out)@) == texts(old(out)@).push(space::MSG_CRASH@)
        },
        outcome == space::Flight::Won ==> *final(game) == *old(game) && texts(final(out)@) == texts(
            old(out)@,
        ) + ending_lines(),
{
    match outcome {
        space::Flight::Crashed => {
            say(out, space::MSG_CRASH);
            match &mut game.ship {
                Some(ship) => {
                    ship.liftoff_cooldown = space::LIFTOFF_COOLDOWN;
                },
                None => {},
            }
        },
        space::Flight::Won => {
            let ghost before = texts(out@);
            let mut i: usize = 0;
            while i < 3
                invariant
                    i <= 3,
                    texts(out@) == before + ending_lines().take(i as int),
                decreases 3 - i,
            {
                say(out, space::ENDING[i]);
                proof {
                    assert(ending_lines().take(i + 1) =~= ending_lines().take(i as int).push(
                        space::ENDING[i as int]@,
                    ));
                }
                i = i + 1;
            }
            proof {
                assert(ending_lines().take(3) =~= ending_lines());
            }
        },
    }
    View::Ship
}

} // verus!
