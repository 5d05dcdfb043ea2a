//! The persistent game and the rules that act on it.
//!
//! The save has a closed shape: unknown resources, buildings and jobs cannot
//! be represented, and every clock is an explicit countdown, because the
//! village settles time forward on demand instead of ticking (see `sim`).
use uuid::Uuid;
use vstd::prelude::*;
use vstd::view::View as _;

use crate::collections::{EnumMap, EnumSet, Keyed};
use crate::data::{
    self, Blueprint, Building, Fabricable, Fire, Job, Perk, Resource, Temperature,
};
use crate::pace::{self, Pace};
use crate::world_data::{self, Tile};

verus! {

#[verifier::external_type_specification]
#[verifier::external_body]
pub struct ExUuid(Uuid);

/// `Uuid::now_v7`: a fresh time-ordered identifier. It depends on the clock
/// and on chance, so nothing is claimed of it.
#[verifier::external_body]
fn fresh_run_id() -> Uuid {
    Uuid::now_v7()
}

/// How much of a resource a map holds; a missing key holds none.
pub open spec fn held(m: Map<Resource, i64>, r: Resource) -> int {
    if m.contains_key(r) {
        m[r] as int
    } else {
        0
    }
}

pub open spec fn clamp0(x: int) -> int {
    if x < 0 {
        0
    } else {
        x
    }
}

pub open spec fn fits_i64(x: int) -> bool {
    i64::MIN <= x <= i64::MAX
}

/// A map with `amount` more of `r`, never going below nothing.
pub open spec fn add_held(m: Map<Resource, i64>, r: Resource, amount: int) -> Map<Resource, i64> {
    m.insert(r, clamp0(held(m, r) + amount) as i64)
}

/// A list of deltas applied one after another, each clamped at nothing.
pub open spec fn add_all(m: Map<Resource, i64>, deltas: Seq<(Resource, i64)>) -> Map<
    Resource,
    i64,
>
    decreases deltas.len(),
{
    if deltas.len() == 0 {
        m
    } else {
        let prev = add_all(m, deltas.drop_last());
        add_held(prev, deltas.last().0, deltas.last().1 as int)
    }
}

/// Whether applying the deltas one after another never leaves `i64`.
pub open spec fn add_all_fits(m: Map<Resource, i64>, deltas: Seq<(Resource, i64)>) -> bool
    decreases deltas.len(),
{
    if deltas.len() == 0 {
        true
    } else {
        let prev = add_all(m, deltas.drop_last());
        add_all_fits(m, deltas.drop_last()) && fits_i64(
            held(prev, deltas.last().0) + deltas.last().1,
        )
    }
}

/// Spending a cost list: each entry taken out in turn.
pub open spec fn spend_all(m: Map<Resource, i64>, cost: Seq<(Resource, i64)>) -> Map<
    Resource,
    i64,
>
    decreases cost.len(),
{
    if cost.len() == 0 {
        m
    } else {
        let prev = spend_all(m, cost.drop_last());
        add_held(prev, cost.last().0, -(cost.last().1 as int))
    }
}

/// Whether spending the cost list never leaves `i64`.
pub open spec fn spend_all_fits(m: Map<Resource, i64>, cost: Seq<(Resource, i64)>) -> bool
    decreases cost.len(),
{
    if cost.len() == 0 {
        true
    } else {
        let prev = spend_all(m, cost.drop_last());
        spend_all_fits(m, cost.drop_last()) && fits_i64(
            held(prev, cost.last().0) - cost.last().1,
        )
    }
}

/// The first entry of a cost list the stores cannot cover, if any.
pub open spec fn first_missing(m: Map<Resource, i64>, cost: Seq<(Resource, i64)>) -> Option<
    Resource,
>
    decreases cost.len(),
{
    if cost.len() == 0 {
        None
    } else if held(m, cost[0].0) < cost[0].1 {
        Some(cost[0].0)
    } else {
        first_missing(m, cost.drop_first())
    }
}

/// How far along the stranger's arc is.
#[derive(Clone, Copy, Debug, PartialEq, Eq, PartialOrd, Ord, Hash, Default, Structural)]
pub enum Builder {
    /// Nobody has seen the light yet.
    #[default]
    Unseen,
    /// The light is out in the dark; she is on her way.
    Approaching,
    /// Collapsed in the corner.
    Collapsed,
    /// Shivering, mumbling.
    Shivering,
    /// Breathing calmly, asleep.
    Sleeping,
    /// On her feet, building things, feeding the fire.
    Helping,
}

/// Which panel the player is looking at. The stranger only gets up when the
/// player is actually in the room.
#[derive(Clone, Copy, Debug, PartialEq, Eq, Hash, Default, Structural)]
pub enum View {
    #[default]
    Room,
    Outside,
    Path,
    World,
    Fabricator,
    Ship,
}

/// How far along the thief's arc is.
#[derive(Clone, Copy, Debug, PartialEq, Eq, Default, Structural)]
pub enum Thieves {
    /// Nobody is skimming yet.
    #[default]
    Quiet,
    /// Supplies are going missing every income round.
    Active,
    /// Hanged or spared; the skim has stopped for good.
    Dealt,
}

/// A payoff owed at a wall-clock moment: the Mysterious Wanderer's return.
#[derive(Clone, Debug)]
pub struct PendingReward {
    pub resource: Resource,
    pub amount: i64,
    /// Unix seconds this comes due.
    pub due: i64,
    pub message: String,
}

/// The grid is `RADIUS * 2 + 1` square; rows are indexed by `y`, cells
/// within a row by `x`, so a saved map reads the way it is drawn.
pub const GRID: i32 = 61;

/// The cell of a layer at a square, or nothing off the edge or past a short
/// row.
pub open spec fn cell(rows: Seq<Seq<char>>, x: int, y: int) -> Option<char> {
    if 0 <= x < GRID && 0 <= y < GRID && y < rows.len() && x < rows[y].len() {
        Some(rows[y][x])
    } else {
        None
    }
}

/// A layer with one cell rewritten; writes off the grid change nothing.
pub open spec fn put_cell(rows: Seq<Seq<char>>, x: int, y: int, c: char) -> Seq<Seq<char>> {
    if 0 <= x < GRID && 0 <= y < GRID && y < rows.len() && x < rows[y].len() {
        rows.update(y, rows[y].update(x, c))
    } else {
        rows
    }
}

/// A layer that is a full grid.
pub open spec fn full_grid(rows: Seq<Seq<char>>) -> bool {
    rows.len() == GRID && forall|y: int| 0 <= y < GRID ==> #[trigger] rows[y].len() == GRID
}

/// The committed map: the terrain, what has been seen, and which landmarks
/// have been played out. One row of cells per `y`.
#[derive(Clone, Debug)]
pub struct WorldMap {
    /// One glyph per square.
    pub tiles: Vec<Vec<char>>,
    /// `'0'`/`'1'` per square: whether the wanderer has ever seen it.
    pub mask: Vec<Vec<char>>,
    /// `'0'`/`'1'` per square: whether its setpiece has been played out.
    pub visited: Vec<Vec<char>>,
}

impl WorldMap {
    pub open spec fn tiles_v(&self) -> Seq<Seq<char>> {
        self.tiles.deep_view()
    }

    pub open spec fn mask_v(&self) -> Seq<Seq<char>> {
        self.mask.deep_view()
    }

    pub open spec fn visited_v(&self) -> Seq<Seq<char>> {
        self.visited.deep_view()
    }

    /// The tile at a square; anything off the edge reads as barrens.
    pub open spec fn tile_at(&self, x: int, y: int) -> Tile {
        match cell(self.tiles_v(), x, y) {
            Some(c) => world_data::tile_of_glyph(c),
            None => Tile::Barrens,
        }
    }

    pub open spec fn seen_at(&self, x: int, y: int) -> bool {
        cell(self.mask_v(), x, y) == Some('1')
    }

    pub open spec fn visited_at(&self, x: int, y: int) -> bool {
        cell(self.visited_v(), x, y) == Some('1')
    }

    /// All three layers are full grids.
    pub open spec fn wf(&self) -> bool {
        full_grid(self.tiles_v()) && full_grid(self.mask_v()) && full_grid(self.visited_v())
    }

    /// Every square has been seen.
    pub open spec fn all_seen_spec(&self) -> bool {
        forall|y: int, x: int|
            0 <= y < self.mask_v().len() && 0 <= x < self.mask_v()[y].len() ==> self.mask_v()[y][x]
                != '0'
    }

    /// A row of `GRID` copies of one character.
    fn row_of(c: char) -> (r: Vec<char>)
        ensures
            r@.len() == GRID,
            forall|i: int| 0 <= i < GRID ==> r@[i] == c,
    {
        let mut r: Vec<char> = Vec::new();
        while r.len() < 61
            invariant
                r.len() <= 61,
                forall|i: int| 0 <= i < r.len() ==> r@[i] == c,
            decreases 61 - r.len(),
        {
            r.push(c);
        }
        r
    }

    /// A full grid of one character.
    fn layer_of(c: char) -> (r: Vec<Vec<char>>)
        ensures
            full_grid(r.deep_view()),
            forall|y: int, x: int| 0 <= y < GRID && 0 <= x < GRID ==> r.deep_view()[y][x] == c,
    {
        let mut r: Vec<Vec<char>> = Vec::new();
        while r.len() < 61
            invariant
                r.len() <= 61,
                forall|y: int|
                    0 <= y < r.len() ==> (#[trigger] r@[y])@.len() == GRID && forall|x: int|
                        0 <= x < GRID ==> r@[y]@[x] == c,
            decreases 61 - r.len(),
        {
            r.push(WorldMap::row_of(c));
        }
        r
    }

    /// An unwritten map: all barrens, nothing seen, nothing visited.
    pub fn blank() -> (m: WorldMap)
        ensures
            m.wf(),
            forall|x: int, y: int|
                0 <= x < GRID && 0 <= y < GRID ==> m.tile_at(x, y) == Tile::Barrens && !m.seen_at(x, y)
                    && !m.visited_at(x, y),
            forall|y: int, x: int|
                0 <= y < GRID && 0 <= x < GRID ==> m.tiles_v()[y][x] == '.' && m.mask_v()[y][x] == '0'
                    && m.visited_v()[y][x] == '0',
            !m.all_seen_spec(),
    {
        let m = WorldMap {
            tiles: WorldMap::layer_of('.'),
            mask: WorldMap::layer_of('0'),
            visited: WorldMap::layer_of('0'),
        };
        assert(m.mask_v()[0][0] == '0');
        m
    }

    fn char_at(rows: &Vec<Vec<char>>, x: i32, y: i32) -> (r: Option<char>)
        ensures
            r == cell(rows.deep_view(), x as int, y as int),
    {
        if x < 0 || y < 0 || x >= GRID || y >= GRID {
            return None;
        }
        let yy = y as usize;
        let xx = x as usize;
        if yy < rows.len() && xx < rows[yy].len() {
            Some(rows[yy][xx])
        } else {
            None
        }
    }

    fn put(rows: &mut Vec<Vec<char>>, x: i32, y: i32, value: char)
        ensures
            final(rows).deep_view() == put_cell(old(rows).deep_view(), x as int, y as int, value),
    {
        if x < 0 || y < 0 || x >= GRID || y >= GRID {
            return;
        }
        let yy = y as usize;
        let xx = x as usize;
        if yy < rows.len() && xx < rows[yy].len() {
            let mut row = rows[yy].clone();
            proof {
                assert(row@ =~= old(rows)@[yy as int]@);
            }
            row.set(xx, value);
            rows.set(yy, row);
            proof {
                let expect = put_cell(old(rows).deep_view(), x as int, y as int, value);
                let now_rows = final(rows).deep_view();
                assert forall|i: int| 0 <= i < now_rows.len() implies #[trigger] now_rows[i]
                    =~= expect[i] by {
                    if i != yy as int {
                        assert(final(rows)@[i] == old(rows)@[i]);
                    }
                }
                assert(final(rows).deep_view() =~= put_cell(
                    old(rows).deep_view(),
                    x as int,
                    y as int,
                    value,
                ));
            }
        }
    }

    /// The tile at a square. Anything off the edge reads as barrens.
    pub fn tile(&self, x: i32, y: i32) -> (t: Tile)
        ensures
            t == self.tile_at(x as int, y as int),
    {
        match WorldMap::char_at(&self.tiles, x, y) {
            Some(glyph) => Tile::from_glyph(glyph),
            None => Tile::Barrens,
        }
    }

    pub fn set_tile(&mut self, x: i32, y: i32, tile: Tile)
        ensures
            final(self).tiles_v() == put_cell(
                old(self).tiles_v(),
                x as int,
                y as int,
                world_data::tile_glyph(tile),
            ),
            final(self).mask == old(self).mask,
            final(self).visited == old(self).visited,
    {
        WorldMap::put(&mut self.tiles, x, y, tile.glyph());
    }

    /// Whether the square has ever been in the lantern light.
    pub fn seen(&self, x: i32, y: i32) -> (r: bool)
        ensures
            r == self.seen_at(x as int, y as int),
    {
        WorldMap::char_at(&self.mask, x, y) == Some('1')
    }

    pub fn set_seen(&mut self, x: i32, y: i32)
        ensures
            final(self).mask_v() == put_cell(old(self).mask_v(), x as int, y as int, '1'),
            final(self).tiles == old(self).tiles,
            final(self).visited == old(self).visited,
    {
        WorldMap::put(&mut self.mask, x, y, '1');
    }

    /// Whether the square's setpiece has already been played out.
    pub fn visited(&self, x: i32, y: i32) -> (r: bool)
        ensures
            r == self.visited_at(x as int, y as int),
    {
        WorldMap::char_at(&self.visited, x, y) == Some('1')
    }

    pub fn set_visited(&mut self, x: i32, y: i32)
        ensures
            final(self).visited_v() == put_cell(old(self).visited_v(), x as int, y as int, '1'),
            final(self).tiles == old(self).tiles,
            final(self).mask == old(self).mask,
    {
        WorldMap::put(&mut self.visited, x, y, '1');
    }

    /// Whether every square has been seen, which retires the scout's map.
    pub fn all_seen(&self) -> (r: bool)
        ensures
            r == self.all_seen_spec(),
    {
        let mut y: usize = 0;
        while y < self.mask.len()
            invariant
                y <= self.mask@.len(),
                forall|yy: int, x: int|
                    0 <= yy < y && 0 <= x < self.mask_v()[yy].len() ==> self.mask_v()[yy][x] != '0',
            decreases self.mask.len() - y,
        {
            let row = &self.mask[y];
            let mut x: usize = 0;
            while x < row.len()
                invariant
                    y < self.mask@.len(),
                    row@ == self.mask@[y as int]@,
                    x <= row@.len(),
                    forall|xx: int| 0 <= xx < x ==> row@[xx] != '0',
                decreases row.len() - x,
            {
                if row[x] == '0' {
                    assert(self.mask_v()[y as int][x as int] == '0');
                    return false;
                }
                x = x + 1;
            }
            y = y + 1;
        }
        true
    }

    /// Whether a layer is a full grid.
    fn full(rows: &Vec<Vec<char>>) -> (r: bool)
        ensures
            r == full_grid(rows.deep_view()),
    {
        if rows.len() != 61 {
            return false;
        }
        let mut y: usize = 0;
        while y < 61
            invariant
                rows@.len() == GRID,
                y <= 61,
                forall|yy: int| 0 <= yy < y ==> #[trigger] rows.deep_view()[yy].len() == GRID,
            decreases 61 - y,
        {
            if rows[y].len() != 61 {
                assert(rows.deep_view()[y as int].len() != GRID);
                return false;
            }
            y = y + 1;
        }
        true
    }

    /// Whether all three layers are full grids.
    pub fn is_wf(&self) -> (r: bool)
        ensures
            r == self.wf(),
    {
        WorldMap::full(&self.tiles) && WorldMap::full(&self.mask) && WorldMap::full(&self.visited)
    }

    /// A copy of the map, cell for cell.
    pub fn copy(&self) -> (r: WorldMap)
        ensures
            r.tiles_v() == self.tiles_v(),
            r.mask_v() == self.mask_v(),
            r.visited_v() == self.visited_v(),
    {
        let r = WorldMap {
            tiles: self.tiles.clone(),
            mask: self.mask.clone(),
            visited: self.visited.clone(),
        };
        proof {
            broadcast use vstd::std_specs::vec::vec_clone_deep_view_proof;
        }
        r
    }
}

/// One of the ravaged battleship's three decks.
#[derive(Clone, Copy, Debug, PartialEq, Eq, PartialOrd, Ord, Hash, Structural)]
pub enum Deck {
    Engineering,
    Medical,
    Martial,
}

impl Keyed for Deck {
    open spec fn key(self) -> nat {
        match self {
            Deck::Engineering => 0,
            Deck::Medical => 1,
            Deck::Martial => 2,
        }
    }

    open spec fn key_count() -> nat {
        3
    }

    open spec fn from_key(i: nat) -> Self {
        if i == 0 {
            Deck::Engineering
        } else if i == 1 {
            Deck::Medical
        } else {
            Deck::Martial
        }
    }

    fn index(&self) -> (i: usize) {
        match self {
            Deck::Engineering => 0,
            Deck::Medical => 1,
            Deck::Martial => 2,
        }
    }

    fn from_index(i: usize) -> (k: Self) {
        if i == 0 {
            Deck::Engineering
        } else if i == 1 {
            Deck::Medical
        } else {
            Deck::Martial
        }
    }

    fn count() -> (n: usize) {
        3
    }

    proof fn key_injective(a: Self, b: Self) {
    }

    proof fn key_roundtrip(i: nat) {
    }
}

pub open spec fn deck_scene(d: Deck) -> Seq<char> {
    match d {
        Deck::Engineering => "executioner-engineering"@,
        Deck::Medical => "executioner-medical"@,
        Deck::Martial => "executioner-martial"@,
    }
}

pub open spec fn deck_label(d: Deck) -> Seq<char> {
    match d {
        Deck::Engineering => "engineering"@,
        Deck::Medical => "medical"@,
        Deck::Martial => "martial"@,
    }
}

impl Deck {
    pub const ALL: [Deck; 3] = [Deck::Engineering, Deck::Medical, Deck::Martial];

    /// The event key of the wing this deck's elevator opens on.
    pub fn scene(self) -> (r: &'static str)
        ensures
            r@ == deck_scene(self),
    {
        match self {
            Deck::Engineering => "executioner-engineering",
            Deck::Medical => "executioner-medical",
            Deck::Martial => "executioner-martial",
        }
    }

    /// What its button on the elevator bank says.
    pub fn label(self) -> (r: &'static str)
        ensures
            r@ == deck_label(self),
    {
        match self {
            Deck::Engineering => "engineering",
            Deck::Medical => "medical",
            Deck::Martial => "martial",
        }
    }
}

/// How far into the ravaged battleship the wanderer has got. The three decks
/// can be taken in any order.
#[derive(Clone, Debug)]
pub struct Battleship {
    /// The entrance turret is down and the strange device is taken, which is
    /// also what opens the fabricator.
    pub entered: bool,
    pub decks: EnumSet<Deck>,
}

impl Battleship {
    pub fn new() -> (b: Battleship)
        ensures
            !b.entered,
            b.decks.wf(),
            b.decks@ == Set::<Deck>::empty(),
    {
        Battleship { entered: false, decks: EnumSet::new() }
    }

    /// Whether all three decks report clear, which is what unlocks the
    /// command deck's elevator.
    pub fn decks_clear(&self) -> (r: bool)
        requires
            self.decks.wf(),
        ensures
            r == (self.decks@.contains(Deck::Engineering) && self.decks@.contains(Deck::Medical)
                && self.decks@.contains(Deck::Martial)),
    {
        self.decks.contains(&Deck::Engineering) && self.decks.contains(&Deck::Medical)
            && self.decks.contains(&Deck::Martial)
    }

    /// A copy, deck for deck.
    pub fn copy(&self) -> (r: Battleship)
        requires
            self.decks.wf(),
        ensures
            r.entered == self.entered,
            r.decks.wf(),
            r.decks@ == self.decks@,
    {
        let mut decks: EnumSet<Deck> = EnumSet::new();
        if self.decks.contains(&Deck::Engineering) {
            decks.insert(Deck::Engineering);
        }
        if self.decks.contains(&Deck::Medical) {
            decks.insert(Deck::Medical);
        }
        if self.decks.contains(&Deck::Martial) {
            decks.insert(Deck::Martial);
        }
        proof {
            assert forall|d: Deck| decks@.contains(d) == self.decks@.contains(d) by {
                match d {
                    Deck::Engineering => {},
                    Deck::Medical => {},
                    Deck::Martial => {},
                }
            }
            assert(decks@ =~= self.decks@);
        }
        Battleship { entered: self.entered, decks }
    }
}

/// A fight in progress, kept only so a dropped session can pick it back up.
#[derive(Clone, Debug)]
pub struct CombatSnapshot {
    /// The event and scene the fight belongs to, by table key.
    pub event: String,
    pub scene: String,
    pub enemy_hp: i64,
}

/// A trip in progress. Parked on every move, so a dropped connection costs
/// nothing: supplies burn per move, never per second.
pub struct Expedition {
    pub x: i32,
    pub y: i32,
    pub hp: i64,
    pub water: i64,
    pub food_move: u32,
    pub water_move: u32,
    pub fight_move: u32,
    pub starvation: bool,
    pub thirst: bool,
    pub danger: bool,
    /// What is in the pack right now.
    pub outfit: EnumMap<Resource, i64>,
    /// The working copy of the map: committed on a safe return, discarded on
    /// death.
    pub map: WorldMap,
    /// Outposts drunk dry this trip.
    pub used_outposts: Vec<(i32, i32)>,
    /// Mines whose setpiece was cleared this trip, granted on the way home.
    pub cleared: EnumSet<Building>,
    /// Whether the crashed starship was found this trip.
    pub found_ship: bool,
    /// The working copy of the battleship's progress.
    pub battleship: Battleship,
    pub combat: Option<CombatSnapshot>,
}

/// Manhattan distance of a square from the village.
pub open spec fn distance_from_home(x: int, y: int) -> int {
    (if x >= world_data::VILLAGE_X { x - world_data::VILLAGE_X } else { world_data::VILLAGE_X - x })
        + (if y >= world_data::VILLAGE_Y { y - world_data::VILLAGE_Y } else { world_data::VILLAGE_Y
        - y })
}

/// What a pack weighs, in tenths: every slot's count times its weight.
pub open spec fn load_of(m: Map<Resource, i64>, n: nat) -> int
    decreases n,
{
    if n == 0 {
        0
    } else {
        let r = Resource::from_key((n - 1) as nat);
        load_of(m, (n - 1) as nat) + held(m, r) * world_data::weight_tenths_spec(r)
    }
}

/// Every count in the map is at least nothing.
pub open spec fn nonneg(m: Map<Resource, i64>) -> bool {
    forall|r: Resource| m.contains_key(r) ==> #[trigger] m[r] >= 0
}

/// Whether no count in a table of stores is below none.
pub fn counts_nonneg(m: &EnumMap<Resource, i64>) -> (r: bool)
    requires
        m.wf(),
    ensures
        r == nonneg(m@),
{
    let mut i: usize = 0;
    while i < 53
        invariant
            i <= 53,
            m.wf(),
            forall|k: Resource| k.key() < i && #[trigger] m@.contains_key(k) ==> m@[k] >= 0,
        decreases 53 - i,
    {
        let k = Resource::from_index(i);
        match m.get(&k) {
            Some(n) => {
                if *n < 0 {
                    return false;
                }
            },
            None => {},
        }
        proof {
            assert forall|j: Resource| j.key() < i + 1 && #[trigger] m@.contains_key(j) implies m@[j] >= 0 by {
                Resource::key_injective(j, k);
            }
        }
        i = i + 1;
    }
    proof {
        assert forall|j: Resource| #[trigger] m@.contains_key(j) implies m@[j] >= 0 by {
            Resource::key_injective(j, j);
        }
    }
    true
}

impl Expedition {
    pub open spec fn wf(&self) -> bool {
        &&& self.outfit.wf()
        &&& nonneg(self.outfit@)
        &&& self.cleared.wf()
        &&& self.battleship.decks.wf()
        &&& self.map.wf()
    }

    /// Whether the trip is well formed, as a save read from outside must be
    /// checked to be.
    pub fn is_sound(&self) -> (r: bool)
        ensures
            r == self.wf(),
    {
        self.outfit.is_wf() && counts_nonneg(&self.outfit) && self.cleared.is_wf() && self.battleship.decks.is_wf()
            && self.map.is_wf()
    }

    pub open spec fn carried(&self, item: Resource) -> int {
        held(self.outfit@, item)
    }

    /// A trip standing at the village with an empty pack.
    pub fn at_home(map: WorldMap, hp: i64, water: i64) -> (e: Expedition)
        requires
            map.wf(),
        ensures
            e.wf(),
            e.x == world_data::VILLAGE_X,
            e.y == world_data::VILLAGE_Y,
            e.hp == hp,
            e.water == water,
            e.food_move == 0 && e.water_move == 0 && e.fight_move == 0,
            !e.starvation && !e.thirst && !e.danger,
            e.outfit@ == Map::<Resource, i64>::empty(),
            e.map == map,
            e.used_outposts@.len() == 0,
            e.cleared@ == Set::<Building>::empty(),
            !e.found_ship,
            !e.battleship.entered,
            e.battleship.decks@ == Set::<Deck>::empty(),
            e.combat is None,
    {
        Expedition {
            x: world_data::VILLAGE_X,
            y: world_data::VILLAGE_Y,
            hp,
            water,
            food_move: 0,
            water_move: 0,
            fight_move: 0,
            starvation: false,
            thirst: false,
            danger: false,
            outfit: EnumMap::new(),
            map,
            used_outposts: Vec::new(),
            cleared: EnumSet::new(),
            found_ship: false,
            battleship: Battleship::new(),
            combat: None,
        }
    }

    pub fn carrying(&self, item: Resource) -> (r: i64)
        requires
            self.outfit.wf(),
        ensures
            r == self.carried(item),
    {
        match self.outfit.get(&item) {
            Some(n) => *n,
            None => 0,
        }
    }

    /// Put `amount` more of an item in the pack (or take it out), never going
    /// below none.
    pub fn add(&mut self, item: Resource, amount: i64)
        requires
            old(self).outfit.wf(),
            fits_i64(old(self).carried(item) + amount),
        ensures
            final(self).outfit.wf(),
            final(self).outfit@ == add_held(old(self).outfit@, item, amount as int),
            nonneg(old(self).outfit@) ==> nonneg(final(self).outfit@),
            final(self).x == old(self).x && final(self).y == old(self).y,
            final(self).hp == old(self).hp && final(self).water == old(self).water,
            final(self).map == old(self).map,
            final(self).cleared == old(self).cleared,
            final(self).battleship == old(self).battleship,
            final(self).found_ship == old(self).found_ship,
            final(self).food_move == old(self).food_move,
            final(self).water_move == old(self).water_move,
            final(self).fight_move == old(self).fight_move,
            final(self).starvation == old(self).starvation,
            final(self).thirst == old(self).thirst,
            final(self).danger == old(self).danger,
            final(self).used_outposts == old(self).used_outposts,
            final(self).combat == old(self).combat,
    {
        let sum = self.carrying(item) + amount;
        let next = if sum < 0 {
            0
        } else {
            sum
        };
        self.outfit.insert(item, next);
    }

    /// Manhattan distance from the village, which is what the wasteland's
    /// danger and encounter tiers key off.
    pub fn distance(&self) -> (d: i32)
        requires
            distance_from_home(self.x as int, self.y as int) <= i32::MAX,
        ensures
            d == distance_from_home(self.x as int, self.y as int),
    {
        let dx = if self.x >= world_data::VILLAGE_X {
            self.x - world_data::VILLAGE_X
        } else {
            world_data::VILLAGE_X - self.x
        };
        let dy = if self.y >= world_data::VILLAGE_Y {
            self.y - world_data::VILLAGE_Y
        } else {
            world_data::VILLAGE_Y - self.y
        };
        dx + dy
    }

    /// Manhattan distance from the village, counted wide enough that no
    /// square overflows it.
    pub(crate) fn distance_wide(&self) -> (d: i64)
        ensures
            d == distance_from_home(self.x as int, self.y as int),
    {
        let x = self.x as i64;
        let y = self.y as i64;
        let dx = if x >= world_data::VILLAGE_X as i64 {
            x - world_data::VILLAGE_X as i64
        } else {
            world_data::VILLAGE_X as i64 - x
        };
        let dy = if y >= world_data::VILLAGE_Y as i64 {
            y - world_data::VILLAGE_Y as i64
        } else {
            world_data::VILLAGE_Y as i64 - y
        };
        dx + dy
    }

    /// What the pack is carrying, by weight, in tenths of a unit.
    pub fn load_tenths(&self) -> (r: i64)
        requires
            self.outfit.wf(),
            nonneg(self.outfit@),
            forall|i: Resource| #[trigger] self.carried(i) <= 1_000_000_000_000,
        ensures
            r == load_of(self.outfit@, 53),
    {
        let mut total: i64 = 0;
        let mut i: usize = 0;
        while i < 53
            invariant
                i <= 53,
                self.outfit.wf(),
                nonneg(self.outfit@),
                forall|k: Resource| #[trigger] self.carried(k) <= 1_000_000_000_000,
                total == load_of(self.outfit@, i as nat),
                0 <= total <= i * 50_000_000_000_000,
            decreases 53 - i,
        {
            let r = Resource::from_index(i);
            let n = self.carrying(r);
            let w = world_data::weight_tenths(r);
            assert(0 <= n * w <= 50_000_000_000_000) by (nonlinear_arith)
                requires
                    0 <= n <= 1_000_000_000_000,
                    1 <= w <= 50,
            ;
            total = total + n * w;
            i = i + 1;
        }
        total
    }
}

/// The ship, once the crashed starship has been found.
#[derive(Clone, Copy, Debug, PartialEq, Eq)]
pub struct ShipState {
    pub hull: i64,
    pub thrusters: i64,
    /// Whether the ship's one arrival line has been printed.
    pub seen_ship: bool,
    /// Whether the "ready to leave?" warning has been shown.
    pub seen_warning: bool,
    /// Seconds left before liftoff is possible again.
    pub liftoff_cooldown: u32,
}

impl ShipState {
    /// A hull with no plating and the one engine it came with.
    pub fn new() -> (s: ShipState)
        ensures
            s == (ShipState {
                hull: 0,
                thrusters: 1,
                seen_ship: false,
                seen_warning: false,
                liftoff_cooldown: 0,
            }),
    {
        ShipState { hull: 0, thrusters: 1, seen_ship: false, seen_warning: false, liftoff_cooldown: 0 }
    }
}

impl Default for ShipState {
    fn default() -> (s: ShipState)
        ensures
            s == (ShipState {
                hull: 0,
                thrusters: 1,
                seen_ship: false,
                seen_warning: false,
                liftoff_cooldown: 0,
            }),
    {
        ShipState::new()
    }
}

/// The whole save.
pub struct Game {
    // ---- what the player holds ----
    pub stores: EnumMap<Resource, i64>,
    /// The stores holding half a unit of income not yet worth a whole one: a
    /// slowed hunter earns half a fur at a time, so the remainder has to live
    /// somewhere.
    pub carry: EnumSet<Resource>,
    pub buildings: EnumMap<Building, u32>,
    pub workers: EnumMap<Job, u32>,
    pub population: u32,
    // ---- what the player has been shown ----
    /// Build options that have appeared; an option never disappears once
    /// offered, even after the materials are spent.
    pub seen_buildings: EnumSet<Building>,
    /// Jobs whose building has been raised.
    pub seen_jobs: EnumSet<Job>,
    /// Craft rows that have appeared, by the item the row makes.
    pub seen_crafts: EnumSet<Resource>,
    /// Trade rows that have appeared.
    pub seen_trades: EnumSet<Resource>,
    pub forest_unlocked: bool,
    /// Whether the player has stepped outside yet.
    pub seen_forest: bool,
    // ---- the room ----
    pub fire: Fire,
    pub temperature: Temperature,
    pub builder: Builder,
    // ---- clocks, in seconds until the next step ----
    pub fire_timer: u32,
    pub temp_timer: u32,
    pub builder_timer: u32,
    /// Set when the stranger collapses; the wood runs out when it fires.
    pub need_wood_timer: Option<u32>,
    pub income_timer: u32,
    pub pop_timer: u32,
    pub stoke_cooldown: u32,
    pub gather_cooldown: u32,
    pub traps_cooldown: u32,
    // ---- the wanderer ----
    pub perks: EnumSet<Perk>,
    /// How many punches have been thrown, which is how fists get better.
    pub punches: u32,
    /// What is packed for the next trip.
    pub outfit: EnumMap<Resource, i64>,
    /// How many times hunger has been ignored, and thirst.
    pub starved: u32,
    pub dehydrated: u32,
    // ---- the wider world ----
    pub thieves: Thieves,
    /// What the thieves have taken, handed back if the thief is hanged.
    pub stolen: EnumMap<Resource, i64>,
    /// Payoffs owed at a wall-clock time.
    pub pending_rewards: Vec<PendingReward>,
    /// Set by buying the compass: the dusty path opens.
    pub path_unlocked: bool,
    /// The committed map, generated the moment the path opens.
    pub world: Option<WorldMap>,
    /// A trip in progress, parked between sessions.
    pub expedition: Option<Expedition>,
    pub ship: Option<ShipState>,
    /// How far into the ravaged battleship this save has got.
    pub battleship: Battleship,
    /// Whether the strange device has come home and the fabricator stands.
    pub fabricator: bool,
    /// Whether the fabricator has said its one arrival line.
    pub seen_fabricator: bool,
    /// Blueprints redeemed out of the pack.
    pub blueprints: EnumSet<Blueprint>,
    /// Whether the account had already finished the game when this save was
    /// created; all it does is put the ravaged battleship on the map.
    pub veteran: bool,
    /// Whether a ruined city has been cleared.
    pub city_cleared: bool,
    /// Seconds before another expedition may set out (death cooldown).
    pub embark_cooldown: u32,
    /// Whether the whole map has been uncovered.
    pub seen_all_map: bool,
    // ---- pacing ----
    pub pace: Pace,
    /// Unix seconds the clock last settled to. Zero on a fresh save.
    pub last_settled: i64,
    /// This run's identity.
    pub run_id: Uuid,
}

/// What lighting the fire did. `drew_builder` marks the one moment the room
/// first burns bright enough to be seen from outside.
#[derive(Clone, Copy, Debug, PartialEq, Eq, Structural)]
pub enum LightFire {
    Lit { drew_builder: bool },
    NotEnoughWood,
    OnCooldown,
}

/// What stoking the fire did.
#[derive(Clone, Copy, Debug, PartialEq, Eq, Structural)]
pub enum StokeFire {
    Stoked { drew_builder: bool },
    OutOfWood,
    OnCooldown,
}

/// What a build attempt did.
#[derive(Clone, Copy, Debug, PartialEq, Eq, Structural)]
pub enum BuildOutcome {
    Built(Building),
    AtMaximum(Building),
    /// The first resource the stores cannot cover.
    Missing(Resource),
    /// The builder is not on her feet yet.
    NoBuilder,
    /// The room is cold or worse; the builder just shivers.
    TooCold,
    /// A mine: the wasteland grants it, the builder never offers it.
    NotOffered(Building),
}

/// What a craft attempt did.
#[derive(Clone, Copy, Debug, PartialEq, Eq, Structural)]
pub enum CraftOutcome {
    Crafted(Resource),
    AtMaximum(Resource),
    Missing(Resource),
    TooCold,
}

/// What a purchase did. No cold gate: the nomads do not care how the room is.
#[derive(Clone, Copy, Debug, PartialEq, Eq, Structural)]
pub enum BuyOutcome {
    Bought(Resource),
    AtMaximum(Resource),
    Missing(Resource),
}

/// What a gathering trip did.
#[derive(Clone, Copy, Debug, PartialEq, Eq, Structural)]
pub enum GatherOutcome {
    Gathered(i64),
    OnCooldown,
}

/// The number of villagers assigned to trades.
pub open spec fn assigned_in(w: Map<Job, u32>) -> int {
    held_u(w, Job::Hunter) + held_u(w, Job::Trapper) + held_u(w, Job::Tanner) + held_u(
        w,
        Job::Charcutier,
    ) + held_u(w, Job::IronMiner) + held_u(w, Job::CoalMiner) + held_u(w, Job::SulphurMiner)
        + held_u(w, Job::Steelworker) + held_u(w, Job::Armourer)
}

pub open spec fn held_u<K>(m: Map<K, u32>, k: K) -> int {
    if m.contains_key(k) {
        m[k] as int
    } else {
        0
    }
}

impl Game {
    /// Every table has its slots, and nothing holds less than none.
    pub open spec fn wf(&self) -> bool {
        &&& self.stores.wf()
        &&& nonneg(self.stores@)
        &&& self.carry.wf()
        &&& self.buildings.wf()
        &&& self.workers.wf()
        &&& self.seen_buildings.wf()
        &&& self.seen_jobs.wf()
        &&& self.seen_crafts.wf()
        &&& self.seen_trades.wf()
        &&& self.perks.wf()
        &&& self.outfit.wf()
        &&& nonneg(self.outfit@)
        &&& self.stolen.wf()
        &&& self.blueprints.wf()
        &&& self.battleship.decks.wf()
        &&& (self.expedition matches Some(e) ==> e.wf())
        &&& (self.world matches Some(w) ==> w.wf())
    }

    /// Whether every table has its slots and nothing holds less than none,
    /// as a save read from outside must be checked to be.
    pub fn is_sound(&self) -> (r: bool)
        ensures
            r == self.wf(),
    {
        let tables = self.stores.is_wf() && self.carry.is_wf() && self.buildings.is_wf() && self.workers.is_wf()
            && self.seen_buildings.is_wf() && self.seen_jobs.is_wf() && self.seen_crafts.is_wf()
            && self.seen_trades.is_wf() && self.perks.is_wf() && self.outfit.is_wf() && self.stolen.is_wf()
            && self.blueprints.is_wf() && self.battleship.decks.is_wf();
        if !tables {
            return false;
        }
        if !counts_nonneg(&self.stores) || !counts_nonneg(&self.outfit) {
            return false;
        }
        let trip = match &self.expedition {
            Some(e) => e.is_sound(),
            None => true,
        };
        let world = match &self.world {
            Some(w) => w.is_wf(),
            None => true,
        };
        trip && world
    }

    pub open spec fn stock(&self, r: Resource) -> int {
        held(self.stores@, r)
    }

    pub open spec fn count(&self, b: Building) -> int {
        held_u(self.buildings@, b)
    }

    pub open spec fn workers_on(&self, j: Job) -> int {
        held_u(self.workers@, j)
    }

    pub open spec fn assigned(&self) -> int {
        assigned_in(self.workers@)
    }

    pub open spec fn gatherers_spec(&self) -> int {
        if self.population >= self.assigned() {
            self.population - self.assigned()
        } else {
            0
        }
    }

    pub open spec fn perk(&self, p: Perk) -> bool {
        self.perks@.contains(p)
    }

    /// A brand new save: a dark room, a dead fire, and nothing else.
    ///
    /// `veteran` says whether this account has ever finished the game before,
    /// which is the one thing a fresh run inherits.
    pub fn new(veteran: bool) -> (g: Game)
        ensures
            g.wf(),
            g.veteran == veteran,
            g.stores@ == Map::<Resource, i64>::empty(),
            g.buildings@ == Map::<Building, u32>::empty(),
            g.workers@ == Map::<Job, u32>::empty(),
            g.population == 0,
            g.fire == Fire::Dead,
            g.temperature == Temperature::Freezing,
            g.builder == Builder::Unseen,
            g.fire_timer == data::FIRE_COOL_DELAY,
            g.temp_timer == data::ROOM_WARM_DELAY,
            g.income_timer == data::INCOME_DELAY * pace::SLOWDOWN,
            g.builder_timer == 0 && g.pop_timer == 0 && g.need_wood_timer is None,
            g.stoke_cooldown == 0 && g.gather_cooldown == 0 && g.traps_cooldown == 0,
            g.seen_buildings@ == Set::<Building>::empty(),
            g.seen_jobs@ == Set::<Job>::empty(),
            g.seen_crafts@ == Set::<Resource>::empty(),
            g.seen_trades@ == Set::<Resource>::empty(),
            g.perks@ == Set::<Perk>::empty(),
            g.outfit@ == Map::<Resource, i64>::empty(),
            g.stolen@ == Map::<Resource, i64>::empty(),
            g.carry@ == Set::<Resource>::empty(),
            g.blueprints@ == Set::<Blueprint>::empty(),
            !g.forest_unlocked && !g.seen_forest && !g.path_unlocked,
            g.world is None && g.expedition is None && g.ship is None,
            !g.battleship.entered && g.battleship.decks@ == Set::<Deck>::empty(),
            !g.fabricator && !g.seen_fabricator && !g.city_cleared && !g.seen_all_map,
            g.thieves == Thieves::Quiet,
            g.punches == 0 && g.starved == 0 && g.dehydrated == 0 && g.embark_cooldown == 0,
            g.pending_rewards@.len() == 0,
            g.pace == (Pace { day: 0, spent: 0, floored: false }),
            g.last_settled == 0,
    {
        Game {
            stores: EnumMap::new(),
            carry: EnumSet::new(),
            buildings: EnumMap::new(),
            workers: EnumMap::new(),
            population: 0,
            seen_buildings: EnumSet::new(),
            seen_jobs: EnumSet::new(),
            seen_crafts: EnumSet::new(),
            seen_trades: EnumSet::new(),
            forest_unlocked: false,
            seen_forest: false,
            fire: Fire::Dead,
            temperature: Temperature::Freezing,
            builder: Builder::Unseen,
            fire_timer: data::FIRE_COOL_DELAY,
            temp_timer: data::ROOM_WARM_DELAY,
            builder_timer: 0,
            need_wood_timer: None,
            income_timer: pace::slowed(data::INCOME_DELAY),
            pop_timer: 0,
            stoke_cooldown: 0,
            gather_cooldown: 0,
            traps_cooldown: 0,
            perks: EnumSet::new(),
            punches: 0,
            outfit: EnumMap::new(),
            starved: 0,
            dehydrated: 0,
            thieves: Thieves::Quiet,
            stolen: EnumMap::new(),
            pending_rewards: Vec::new(),
            path_unlocked: false,
            world: None,
            expedition: None,
            ship: None,
            battleship: Battleship::new(),
            fabricator: false,
            seen_fabricator: false,
            blueprints: EnumSet::new(),
            veteran,
            city_cleared: false,
            embark_cooldown: 0,
            seen_all_map: false,
            pace: Pace::new(),
            last_settled: 0,
            run_id: fresh_run_id(),
        }
    }

    // ---- stores ----

    pub fn store(&self, resource: Resource) -> (r: i64)
        requires
            self.stores.wf(),
        ensures
            r == self.stock(resource),
    {
        match self.stores.get(&resource) {
            Some(n) => *n,
            None => 0,
        }
    }

    /// Set a store outright, never below none.
    pub fn set_store(&mut self, resource: Resource, amount: i64)
        requires
            old(self).wf(),
        ensures
            final(self).wf(),
            final(self).stores@ == old(self).stores@.insert(resource, clamp0(amount as int) as i64),
            *final(self) == (Game { stores: final(self).stores, ..*old(self) }),
    {
        let next = if amount < 0 {
            0
        } else {
            amount
        };
        self.stores.insert(resource, next);
    }

    /// Add to a store (or take from it), never going below none.
    pub fn add_store(&mut self, resource: Resource, amount: i64)
        requires
            old(self).wf(),
            fits_i64(old(self).stock(resource) + amount),
        ensures
            final(self).wf(),
            final(self).stores@ == add_held(old(self).stores@, resource, amount as int),
            *final(self) == (Game { stores: final(self).stores, ..*old(self) }),
    {
        let sum = self.store(resource) + amount;
        let next = if sum < 0 {
            0
        } else {
            sum
        };
        self.stores.insert(resource, next);
    }

    /// Whether the player has ever held this resource: a store that exists at
    /// all, even at zero.
    pub fn has_seen(&self, resource: Resource) -> (r: bool)
        requires
            self.stores.wf(),
        ensures
            r == self.stores@.contains_key(resource),
    {
        self.stores.contains_key(&resource)
    }

    pub fn building_count(&self, building: Building) -> (r: u32)
        requires
            self.buildings.wf(),
        ensures
            r == self.count(building),
    {
        match self.buildings.get(&building) {
            Some(n) => *n,
            None => 0,
        }
    }

    pub fn worker_count(&self, job: Job) -> (r: u32)
        requires
            self.workers.wf(),
        ensures
            r == self.workers_on(job),
    {
        match self.workers.get(&job) {
            Some(n) => *n,
            None => 0,
        }
    }

    // ---- the village ----

    /// How many villagers the huts sleep.
    pub fn max_population(&self) -> (r: u32)
        requires
            self.buildings.wf(),
            self.count(Building::Hut) * data::HUT_ROOM <= u32::MAX,
        ensures
            r == self.count(Building::Hut) * data::HUT_ROOM,
    {
        self.building_count(Building::Hut) * data::HUT_ROOM
    }

    /// How many villagers are on a trade.
    pub fn assigned_count(&self) -> (r: u32)
        requires
            self.workers.wf(),
            self.assigned() <= u32::MAX,
        ensures
            r == self.assigned(),
    {
        self.worker_count(Job::Hunter) + self.worker_count(Job::Trapper) + self.worker_count(
            Job::Tanner,
        ) + self.worker_count(Job::Charcutier) + self.worker_count(Job::IronMiner)
            + self.worker_count(Job::CoalMiner) + self.worker_count(Job::SulphurMiner)
            + self.worker_count(Job::Steelworker) + self.worker_count(Job::Armourer)
    }

    /// Everyone not assigned to a trade gathers wood, by definition.
    pub fn gatherers(&self) -> (r: u32)
        requires
            self.workers.wf(),
            self.assigned() <= u32::MAX,
        ensures
            r == self.gatherers_spec(),
    {
        let assigned = self.assigned_count();
        if self.population >= assigned {
            self.population - assigned
        } else {
            0
        }
    }

    /// Whether a hut stands, which is what turns the forest into a village.
    pub fn has_village(&self) -> (r: bool)
        requires
            self.buildings.wf(),
        ensures
            r == (self.count(Building::Hut) > 0),
    {
        self.building_count(Building::Hut) > 0
    }
}

/// The room after the fire moves: the cool clock restarts, and a fire
/// brighter than smoldering draws the stranger in if nobody has seen it yet.
pub open spec fn after_fire_change(g: Game, fire: Fire) -> Game {
    let draws = data::fire_level(fire) > 1 && g.builder == Builder::Unseen;
    Game {
        fire,
        fire_timer: data::FIRE_COOL_DELAY,
        builder: if draws { Builder::Approaching } else { g.builder },
        builder_timer: if draws { data::BUILDER_STATE_DELAY } else { g.builder_timer },
        stoke_cooldown: data::STOKE_COOLDOWN,
        ..g
    }
}

/// Whether a cost list is within reach the way the builder judges it: at
/// least half the wood, and at least one of everything else.
pub open spec fn in_reach(m: Map<Resource, i64>, cost: Seq<(Resource, i64)>) -> bool {
    forall|i: int|
        0 <= i < cost.len() ==> if (#[trigger] cost[i]).0 == Resource::Wood {
            held(m, cost[i].0) * 2 >= cost[i].1 && held(m, cost[i].0) > 0
        } else {
            held(m, cost[i].0) > 0
        }
}

/// Every amount in a cost list is at least nothing.
pub open spec fn cost_nonneg(cost: Seq<(Resource, i64)>) -> bool {
    forall|i: int| 0 <= i < cost.len() ==> (#[trigger] cost[i]).1 >= 0
}

/// What a build leaves: a refusal changes nothing; otherwise the cost is
/// spent and the building raised.
pub open spec fn building_raised(g: Game, building: Building, r: BuildOutcome, after: Game) -> bool {
    &&& !data::is_builder_built(building) ==> r == BuildOutcome::NotOffered(building) && after == g
    &&& (
        data::is_builder_built(building) && g.builder != Builder::Helping ==> r
            == BuildOutcome::NoBuilder && after == g
    )
    &&& (
        data::is_builder_built(building) && g.builder == Builder::Helping
            && data::temperature_level(g.temperature) <= 1 ==> r == BuildOutcome::TooCold
            && after == g
    )
    &&& (
        data::is_builder_built(building) && g.builder == Builder::Helping
            && data::temperature_level(g.temperature) > 1 && g.count(building)
            >= data::building_maximum(building) ==> r == BuildOutcome::AtMaximum(building)
            && after == g
    )
    &&& (
        data::is_builder_built(building) && g.builder == Builder::Helping
            && data::temperature_level(g.temperature) > 1 && g.count(building)
            < data::building_maximum(building) ==> {
            let cost = data::building_cost(building, g.count(building) as u32);
            match first_missing(g.stores@, cost) {
                Some(m) => r == BuildOutcome::Missing(m) && after == g,
                None => {
                    &&& r == BuildOutcome::Built(building)
                    &&& after.stores@ == spend_all(g.stores@, cost)
                    &&& raised(g, building, after)
                    &&& after == (Game {
                        stores: after.stores,
                        buildings: after.buildings,
                        seen_jobs: after.seen_jobs,
                        workers: after.workers,
                        ..g
                    })
                },
            }
        }
    )
}

/// What crafting leaves: a refusal changes nothing; otherwise the cost is
/// spent and one more of the item is in the store room.
pub open spec fn item_crafted(g: Game, item: Resource, maximum: Option<u32>, cost: Seq<(Resource, i64)>, r: CraftOutcome, after: Game) -> bool {
    &&& (
        data::temperature_level(g.temperature) <= 1 ==> r == CraftOutcome::TooCold
            && after == g
    )
    &&& (
        data::temperature_level(g.temperature) > 1 ==> match maximum {
            Some(max) if g.stock(item) >= max => r == CraftOutcome::AtMaximum(
                item,
            ) && after == g,
            _ => match first_missing(g.stores@, cost) {
                Some(m) => r == CraftOutcome::Missing(m) && after == g,
                None => {
                    &&& r == CraftOutcome::Crafted(item)
                    &&& after.stores@ == add_held(
                        spend_all(g.stores@, cost),
                        item,
                        1,
                    )
                    &&& after == (Game { stores: after.stores, ..g })
                },
            },
        }
    )
}

/// What a trade leaves: a refusal changes nothing; otherwise the price is
/// paid and one more of the good is in the store room.
pub open spec fn good_bought(g: Game, good: Resource, maximum: Option<u32>, cost: Seq<(Resource, i64)>, r: BuyOutcome, after: Game) -> bool {
    &&& (
        match maximum {
            Some(max) if g.stock(good) >= max => r == BuyOutcome::AtMaximum(
                good,
            ) && after == g,
            _ => match first_missing(g.stores@, cost) {
                Some(m) => r == BuyOutcome::Missing(m) && after == g,
                None => {
                    &&& r == BuyOutcome::Bought(good)
                    &&& after.stores@ == add_held(
                        spend_all(g.stores@, cost),
                        good,
                        1,
                    )
                    &&& after == (Game { stores: after.stores, ..g })
                },
            },
        }
    )
}

/// What gathering leaves: nothing while it cools down; otherwise ten wood,
/// or fifty with the cart.
pub open spec fn wood_gathered(g: Game, r: GatherOutcome, after: Game) -> bool {
    &&& (g.gather_cooldown > 0 ==> r == GatherOutcome::OnCooldown && after == g)
    &&& (
        g.gather_cooldown == 0 ==> {
            let amount = if g.count(Building::Cart) > 0 {
                data::GATHER_WOOD_CART
            } else {
                data::GATHER_WOOD
            };
            &&& r == GatherOutcome::Gathered(amount)
            &&& after.stores@ == add_held(g.stores@, Resource::Wood, amount as int)
            &&& after == (Game {
                stores: after.stores,
                gather_cooldown: data::GATHER_DELAY,
                ..g
            })
        }
    )
}

/// What moving villagers onto a trade leaves: as many as asked for, up to
/// those still gathering.
pub open spec fn workers_assigned(g: Game, job: Job, count: u32, moved: u32, after: Game) -> bool {
    &&& (
        moved == if count < g.gatherers_spec() {
            count as int
        } else {
            g.gatherers_spec()
        }
    )
    &&& (
        after.workers@ == if moved > 0 {
            g.workers@.insert(job, (g.workers_on(job) + moved) as u32)
        } else {
            g.workers@
        }
    )
    &&& (after == (Game { workers: after.workers, ..g }))
}

/// What moving villagers off a trade leaves: as many as asked for, up to
/// those on it.
pub open spec fn workers_unassigned(g: Game, job: Job, count: u32, moved: u32, after: Game) -> bool {
    &&& (
        moved == if count < g.workers_on(job) {
            count as int
        } else {
            g.workers_on(job)
        }
    )
    &&& (
        after.workers@ == if moved > 0 {
            g.workers@.insert(job, (g.workers_on(job) - moved) as u32)
        } else {
            g.workers@
        }
    )
    &&& (after == (Game { workers: after.workers, ..g }))
}

/// What lighting the fire leaves: nothing while the fire cools down or when
/// the wood is short; otherwise the wood is paid (free until wood has ever
/// been held) and the fire burns.
pub open spec fn fire_lit(g: Game, r: LightFire, after: Game) -> bool {
    if g.stoke_cooldown > 0 {
        r == LightFire::OnCooldown && after == g
    } else if g.stores@.contains_key(Resource::Wood) && g.stock(Resource::Wood) < data::LIGHT_FIRE_COST {
        r == LightFire::NotEnoughWood && after == g
    } else {
        let paid = if g.stores@.contains_key(Resource::Wood) {
            add_held(g.stores@, Resource::Wood, -data::LIGHT_FIRE_COST)
        } else {
            g.stores@
        };
        &&& after.stores@ == paid
        &&& after == (Game { stores: after.stores, ..after_fire_change(g, Fire::Burning) })
        &&& r == (LightFire::Lit { drew_builder: g.builder == Builder::Unseen })
    }
}

/// What stoking leaves: nothing while the fire cools down or once the wood
/// has run out; otherwise a log (free until wood has ever been held) and a
/// hotter fire.
pub open spec fn fire_stoked(g: Game, r: StokeFire, after: Game) -> bool {
    if g.stoke_cooldown > 0 {
        r == StokeFire::OnCooldown && after == g
    } else if g.stores@.contains_key(Resource::Wood) && g.stock(Resource::Wood) == 0 {
        r == StokeFire::OutOfWood && after == g
    } else {
        let paid = if g.stores@.contains_key(Resource::Wood) {
            add_held(g.stores@, Resource::Wood, -data::STOKE_FIRE_COST)
        } else {
            g.stores@
        };
        let hotter = data::stoked_fire(g.fire);
        &&& after.stores@ == paid
        &&& after == (Game { stores: after.stores, ..after_fire_change(g, hotter) })
        &&& r == (StokeFire::Stoked {
            drew_builder: data::fire_level(hotter) > 1 && g.builder == Builder::Unseen,
        })
    }
}

/// Whether the outside title names a hut count.
pub open spec fn outside_title_spec(huts: int) -> Seq<char> {
    if huts == 0 {
        "A Silent Forest"@
    } else if huts == 1 {
        "A Lonely Hut"@
    } else if huts <= 4 {
        "A Tiny Village"@
    } else if huts <= 8 {
        "A Modest Village"@
    } else if huts <= 14 {
        "A Large Village"@
    } else {
        "A Raucous Village"@
    }
}

/// Spending from nonnegative stores never leaves `i64` and never goes below
/// nothing, and a covered cost is spent without clamping.
pub proof fn lemma_spend_all(m: Map<Resource, i64>, cost: Seq<(Resource, i64)>)
    requires
        nonneg(m),
        cost_nonneg(cost),
    ensures
        spend_all_fits(m, cost),
        nonneg(spend_all(m, cost)),
    decreases cost.len(),
{
    if cost.len() > 0 {
        let init = cost.drop_last();
        assert forall|i: int| 0 <= i < init.len() implies (#[trigger] init[i]).1 >= 0 by {
            assert(init[i] == cost[i]);
        }
        lemma_spend_all(m, init);
        let prev = spend_all(m, init);
        let r = cost.last().0;
        assert(held(prev, r) >= 0);
        assert(cost.last().1 >= 0);
        let next = add_held(prev, r, -(cost.last().1 as int));
        assert forall|k: Resource| next.contains_key(k) implies #[trigger] next[k] >= 0 by {
            if k != r {
                assert(next[k] == prev[k]);
            }
        }
    }
}

/// Nothing in a cost list is missing exactly when every entry is covered.
pub proof fn lemma_first_missing(m: Map<Resource, i64>, cost: Seq<(Resource, i64)>)
    ensures
        first_missing(m, cost) is None <==> forall|i: int|
            0 <= i < cost.len() ==> held(m, (#[trigger] cost[i]).0) >= cost[i].1,
        first_missing(m, cost) matches Some(r) ==> exists|i: int|
            0 <= i < cost.len() && (#[trigger] cost[i]).0 == r && held(m, r) < cost[i].1,
    decreases cost.len(),
{
    if cost.len() > 0 {
        let rest = cost.drop_first();
        lemma_first_missing(m, rest);
        if held(m, cost[0].0) >= cost[0].1 {
            assert forall|i: int| 0 <= i < rest.len() implies rest[i] == cost[i + 1] by {}
            if first_missing(m, rest) is None {
                assert forall|i: int| 0 <= i < cost.len() implies held(m, (#[trigger] cost[i]).0)
                    >= cost[i].1 by {
                    if i > 0 {
                        assert(cost[i] == rest[i - 1]);
                    }
                }
            } else {
                let r = first_missing(m, rest)->Some_0;
                let j = choose|j: int|
                    0 <= j < rest.len() && (#[trigger] rest[j]).0 == r && held(m, r) < rest[j].1;
                assert(cost[j + 1] == rest[j]);
            }
        }
    }
}

impl Game {
    // ---- the room ----

    /// Light a dead fire. Costs five wood once the player has ever held wood
    /// (the very first fire is free), and refuses rather than half-doing it
    /// when the wood is short.
    pub fn light_fire(&mut self) -> (r: LightFire)
        requires
            old(self).wf(),
        ensures
            final(self).wf(),
            fire_lit(*old(self), r, *final(self)),
    {
        if self.stoke_cooldown > 0 {
            return LightFire::OnCooldown;
        }
        if self.has_seen(Resource::Wood) {
            if self.store(Resource::Wood) < data::LIGHT_FIRE_COST {
                return LightFire::NotEnoughWood;
            }
            self.add_store(Resource::Wood, -data::LIGHT_FIRE_COST);
        }
        self.fire = Fire::Burning;
        self.stoke_cooldown = data::STOKE_COOLDOWN;
        let drew = self.on_fire_change();
        LightFire::Lit { drew_builder: drew }
    }

    /// Feed a live fire one log (free until wood has ever been held).
    #[verifier::rlimit(60)]
    pub fn stoke_fire(&mut self) -> (r: StokeFire)
        requires
            old(self).wf(),
        ensures
            final(self).wf(),
            fire_stoked(*old(self), r, *final(self)),
    {
        if self.stoke_cooldown > 0 {
            return StokeFire::OnCooldown;
        }
        if self.has_seen(Resource::Wood) {
            if self.store(Resource::Wood) == 0 {
                return StokeFire::OutOfWood;
            }
            self.add_store(Resource::Wood, -data::STOKE_FIRE_COST);
        }
        self.fire = self.fire.stoked();
        self.stoke_cooldown = data::STOKE_COOLDOWN;
        let drew = self.on_fire_change();
        StokeFire::Stoked { drew_builder: drew }
    }

    /// Shared bookkeeping after the fire moves. Returns whether this change
    /// is what put the stranger on her way.
    fn on_fire_change(&mut self) -> (drew: bool)
        requires
            old(self).wf(),
            old(self).stoke_cooldown == data::STOKE_COOLDOWN,
        ensures
            final(self).wf(),
            *final(self) == after_fire_change(*old(self), old(self).fire),
            drew == (data::fire_level(old(self).fire) > 1 && old(self).builder == Builder::Unseen),
    {
        self.fire_timer = data::FIRE_COOL_DELAY;
        if self.fire.value() > Fire::Smoldering.value() && self.builder == Builder::Unseen {
            self.builder = Builder::Approaching;
            self.builder_timer = data::BUILDER_STATE_DELAY;
            return true;
        }
        false
    }

    /// The room title tracks the fire: it is only a dark room while the fire
    /// is out or nearly out.
    pub fn room_title(&self) -> (r: &'static str)
        ensures
            r@ == (if data::fire_level(self.fire) < 2 { data::TITLE@ } else { "A Firelit Room"@ }),
    {
        if self.fire.value() < Fire::Flickering.value() {
            data::TITLE
        } else {
            "A Firelit Room"
        }
    }

    /// The outside title tracks the hut count.
    pub fn outside_title(&self) -> (r: &'static str)
        requires
            self.buildings.wf(),
        ensures
            r@ == outside_title_spec(self.count(Building::Hut)),
    {
        let huts = self.building_count(Building::Hut);
        if huts == 0 {
            "A Silent Forest"
        } else if huts == 1 {
            "A Lonely Hut"
        } else if huts <= 4 {
            "A Tiny Village"
        } else if huts <= 8 {
            "A Modest Village"
        } else if huts <= 14 {
            "A Large Village"
        } else {
            "A Raucous Village"
        }
    }

    // ---- the forest ----

    /// Walk out and pick up what the forest floor offers: ten wood, or fifty
    /// with the cart.
    pub fn gather_wood(&mut self) -> (r: GatherOutcome)
        requires
            old(self).wf(),
            old(self).stock(Resource::Wood) <= i64::MAX - data::GATHER_WOOD_CART,
        ensures
            final(self).wf(),
            wood_gathered(*old(self), r, *final(self)),
    {
        if self.gather_cooldown > 0 {
            return GatherOutcome::OnCooldown;
        }
        let amount = if self.building_count(Building::Cart) > 0 {
            data::GATHER_WOOD_CART
        } else {
            data::GATHER_WOOD
        };
        self.add_store(Resource::Wood, amount);
        self.gather_cooldown = data::GATHER_DELAY;
        GatherOutcome::Gathered(amount)
    }

    /// How many traps are baited: as many as there is bait for.
    pub open spec fn baited_spec(&self) -> int {
        let bait = self.stock(Resource::Bait);
        let traps = self.count(Building::Trap);
        if bait < traps {
            bait
        } else {
            traps
        }
    }

    /// How many trap rolls are due: one per trap, plus one per baited trap.
    pub fn trap_rolls(&self) -> (r: u32)
        requires
            self.wf(),
            self.count(Building::Trap) * 2 <= u32::MAX,
        ensures
            r == self.count(Building::Trap) + self.baited_spec(),
    {
        let traps = self.building_count(Building::Trap);
        traps + self.baited()
    }

    fn baited(&self) -> (r: u32)
        requires
            self.wf(),
        ensures
            r == self.baited_spec(),
    {
        let traps = self.building_count(Building::Trap);
        let bait = self.store(Resource::Bait);
        if bait < traps as i64 {
            bait as u32
        } else {
            traps
        }
    }

    /// Standing traps split into `(bare, baited)`.
    pub fn trap_rows(&self) -> (r: (u32, u32))
        requires
            self.wf(),
        ensures
            r.1 == self.baited_spec(),
            r.0 + r.1 == self.count(Building::Trap),
    {
        let traps = self.building_count(Building::Trap);
        let baited = self.baited();
        (traps - baited, baited)
    }

    /// Bank what the traps caught and spend the bait that drew it in.
    pub fn collect_traps(&mut self, drops: &Vec<(Resource, i64)>)
        requires
            old(self).wf(),
            add_all_fits(
                add_held(old(self).stores@, Resource::Bait, -old(self).baited_spec()),
                drops@,
            ),
        ensures
            final(self).wf(),
            final(self).stores@ == add_all(
                add_held(old(self).stores@, Resource::Bait, -old(self).baited_spec()),
                drops@,
            ),
            *final(self) == (Game {
                stores: final(self).stores,
                traps_cooldown: data::TRAPS_DELAY,
                ..*old(self)
            }),
    {
        let baited = self.baited();
        self.add_store(Resource::Bait, -(baited as i64));
        let ghost start = self.stores@;
        let mut i: usize = 0;
        while i < drops.len()
            invariant
                i <= drops@.len(),
                self.wf(),
                add_all_fits(start, drops@),
                self.stores@ == add_all(start, drops@.take(i as int)),
                *self == (Game { stores: self.stores, ..*old(self) }),
            decreases drops.len() - i,
        {
            let (resource, amount) = drops[i];
            proof {
                assert(drops@.take(i + 1).drop_last() =~= drops@.take(i as int));
                lemma_add_all_fits_prefix(start, drops@, i + 1);
            }
            self.add_store(resource, amount);
            i = i + 1;
        }
        proof {
            assert(drops@.take(drops@.len() as int) =~= drops@);
        }
        self.traps_cooldown = data::TRAPS_DELAY;
    }
}

/// A fitting delta list fits at every prefix.
pub proof fn lemma_add_all_fits_prefix(m: Map<Resource, i64>, d: Seq<(Resource, i64)>, n: int)
    requires
        add_all_fits(m, d),
        0 <= n <= d.len(),
    ensures
        add_all_fits(m, d.take(n)),
        n > 0 ==> fits_i64(held(add_all(m, d.take(n - 1)), d[n - 1].0) + d[n - 1].1),
    decreases d.len() - n,
{
    if n == d.len() {
        assert(d.take(n) =~= d);
    } else {
        lemma_add_all_fits_prefix(m, d, n + 1);
        assert(d.take(n + 1).drop_last() =~= d.take(n));
    }
    if n > 0 {
        assert(d.take(n).drop_last() =~= d.take(n - 1));
        assert(d.take(n).last() == d[n - 1]);
    }
}

/// Whether a building would be offered now: the builder builds it, it is not
/// on offer yet, and one already stands or its materials are within reach.
pub open spec fn build_eligible(g: Game, b: Building) -> bool {
    data::is_builder_built(b) && !g.seen_buildings@.contains(b) && (g.count(b) > 0 || in_reach(
        g.stores@,
        data::building_cost(b, g.count(b) as u32),
    ))
}

/// The options among the first `n` buildings that become available and do
/// not stand yet, which are the ones worth announcing, in listing order.
pub open spec fn newly_buildable(g: Game, n: nat) -> Seq<Building>
    decreases n,
{
    if n == 0 {
        Seq::empty()
    } else {
        let prev = newly_buildable(g, (n - 1) as nat);
        let b = Building::from_key((n - 1) as nat);
        if build_eligible(g, b) && g.count(b) == 0 {
            prev.push(b)
        } else {
            prev
        }
    }
}

/// Whether the workshop would put recipe `i` on the shelf.
pub open spec fn craft_eligible(g: Game, i: int) -> bool {
    (!(data::resource_kind(data::craft_entry(i).0) == data::ResourceKind::Tool || data::resource_kind(
        data::craft_entry(i).0,
    ) == data::ResourceKind::Weapon || data::resource_kind(data::craft_entry(i).0)
        == data::ResourceKind::Upgrade) || g.count(Building::Workshop) > 0) && in_reach(
        g.stores@,
        data::craft_entry(i).2,
    )
}

/// Whether the trading post would put good `i` on the shelf: it has been seen,
/// or it is the compass.
pub open spec fn trade_eligible(g: Game, i: int) -> bool {
    data::trade_entry(i).0 == Resource::Compass || g.stores@.contains_key(data::trade_entry(i).0)
}

/// The job table with every listed job given a slot (holding none) if it had
/// none.
pub open spec fn with_jobs(w: Map<Job, u32>, jobs: Seq<Job>) -> Map<Job, u32> {
    Map::new(
        |j: Job| w.contains_key(j) || jobs.contains(j),
        |j: Job|
            if w.contains_key(j) {
                w[j]
            } else {
                0u32
            },
    )
}

/// The game after a building goes up: one more stands, and its trades open.
pub open spec fn raised(g: Game, b: Building, after: Game) -> bool {
    &&& after.buildings@ == g.buildings@.insert(b, (g.count(b) + 1) as u32)
    &&& after.seen_jobs@ == g.seen_jobs@.union(data::building_jobs(b).to_set())
    &&& after.workers@ == with_jobs(g.workers@, data::building_jobs(b))
}

/// Which resources are blueprint tokens.
pub open spec fn is_token(r: Resource) -> bool {
    r == Resource::HypoBlueprint || r == Resource::KineticArmourBlueprint || r
        == Resource::DisruptorBlueprint || r == Resource::PlasmaRifleBlueprint || r
        == Resource::StimBlueprint || r == Resource::GlowstoneBlueprint
}

/// A pack with every blueprint token taken out.
pub open spec fn without_tokens(m: Map<Resource, i64>) -> Map<Resource, i64> {
    Map::new(|r: Resource| m.contains_key(r) && !is_token(r), |r: Resource| m[r])
}

/// Whether a pack holds at least one of a blueprint's token.
pub open spec fn carries_token(m: Map<Resource, i64>, b: Blueprint) -> bool {
    m.contains_key(data::blueprint_token(b)) && m[data::blueprint_token(b)] > 0
}

/// Spending never raises any store.
pub proof fn lemma_spend_all_lowers(m: Map<Resource, i64>, cost: Seq<(Resource, i64)>, r: Resource)
    requires
        nonneg(m),
        cost_nonneg(cost),
    ensures
        held(spend_all(m, cost), r) <= held(m, r),
        m.contains_key(r) ==> spend_all(m, cost).contains_key(r),
    decreases cost.len(),
{
    if cost.len() > 0 {
        let init = cost.drop_last();
        assert forall|i: int| 0 <= i < init.len() implies (#[trigger] init[i]).1 >= 0 by {
            assert(init[i] == cost[i]);
        }
        lemma_spend_all_lowers(m, init, r);
        lemma_spend_all(m, init);
    }
}

impl Game {
    // ---- building ----

    /// Whether a build option is on screen. Once offered, it stays.
    pub fn build_available(&self, building: Building) -> (r: bool)
        requires
            self.seen_buildings.wf(),
        ensures
            r == self.seen_buildings@.contains(building),
    {
        self.seen_buildings.contains(&building)
    }

    /// The builder's unlock test: at least half the wood, and at least one of
    /// everything else the recipe calls for.
    fn materials_in_reach(&self, cost: &Vec<(Resource, i64)>) -> (r: bool)
        requires
            self.stores.wf(),
        ensures
            r == in_reach(self.stores@, cost@),
    {
        let mut i: usize = 0;
        while i < cost.len()
            invariant
                i <= cost@.len(),
                self.stores.wf(),
                forall|k: int|
                    0 <= k < i ==> if (#[trigger] cost@[k]).0 == Resource::Wood {
                        held(self.stores@, cost@[k].0) * 2 >= cost@[k].1 && held(
                            self.stores@,
                            cost@[k].0,
                        ) > 0
                    } else {
                        held(self.stores@, cost@[k].0) > 0
                    },
            decreases cost.len() - i,
        {
            let (resource, amount) = cost[i];
            let have = self.store(resource);
            let enough = match resource {
                Resource::Wood => (have as i128) * 2 >= amount as i128 && have > 0,
                _ => have > 0,
            };
            if !enough {
                return false;
            }
            i = i + 1;
        }
        true
    }

    /// Re-check which options the builder can now offer, returning the ones
    /// that just became available and do not stand yet, so the caller can
    /// announce them. She has to be on her feet; an option is offered when
    /// one already stands or its materials are within reach.
    pub fn refresh_build_options(&mut self) -> (newly: Vec<Building>)
        requires
            old(self).wf(),
        ensures
            final(self).wf(),
            old(self).builder != Builder::Helping ==> newly@.len() == 0 && *final(self) == *old(self),
            old(self).builder == Builder::Helping ==> {
                &&& final(self).seen_buildings@ == old(self).seen_buildings@.union(
                    Set::new(|b: Building| build_eligible(*old(self), b)),
                )
                &&& newly@ == newly_buildable(*old(self), 13)
                &&& *final(self) == (Game { seen_buildings: final(self).seen_buildings, ..*old(self) })
            },
    {
        let mut newly: Vec<Building> = Vec::new();
        if self.builder != Builder::Helping {
            return newly;
        }
        let ghost start = *old(self);
        let mut i: usize = 0;
        while i < 13
            invariant
                i <= 13,
                self.wf(),
                start == *old(self),
                start.builder == Builder::Helping,
                *self == (Game { seen_buildings: self.seen_buildings, ..start }),
                self.seen_buildings@ == start.seen_buildings@.union(
                    Set::new(|b: Building| b.key() < i && build_eligible(start, b)),
                ),
                newly@ == newly_buildable(start, i as nat),
            decreases 13 - i,
        {
            let building = Building::from_index(i);
            proof {
                Building::key_injective(building, building);
            }
            let seen = self.seen_buildings.contains(&building);
            if building.builder_built() && !seen {
                let standing = self.building_count(building) > 0;
                let cost = building.cost(self.building_count(building));
                if standing || self.materials_in_reach(&cost) {
                    self.seen_buildings.insert(building);
                    if !standing {
                        newly.push(building);
                    }
                }
            }
            proof {
                assert forall|b: Building| #[trigger] self.seen_buildings@.contains(b)
                    == start.seen_buildings@.union(
                    Set::new(|b: Building| b.key() < i + 1 && build_eligible(start, b)),
                ).contains(b) by {
                    Building::key_injective(b, building);
                }
                assert(self.seen_buildings@ =~= start.seen_buildings@.union(
                    Set::new(|b: Building| b.key() < i + 1 && build_eligible(start, b)),
                ));
            }
            i = i + 1;
        }
        proof {
            assert forall|b: Building| build_eligible(start, b) implies b.key() < 13 by {
                Building::key_injective(b, b);
            }
            assert(Set::new(|b: Building| b.key() < 13 && build_eligible(start, b)) =~= Set::new(
                |b: Building| build_eligible(start, b),
            ));
        }
        newly
    }

    /// Latch the craft and buy rows that have come within reach. Crafting
    /// wants the builder on her feet, the builder's half-the-wood rule and,
    /// for the finer things, a workshop. Buying wants a trading post and a
    /// good that has been seen at least once, bar the compass.
    pub fn refresh_item_options(&mut self)
        requires
            old(self).wf(),
        ensures
            final(self).wf(),
            final(self).seen_crafts@ == if old(self).builder == Builder::Helping {
                old(self).seen_crafts@.union(
                    Set::new(
                        |r: Resource|
                            exists|i: int|
                                0 <= i < 14 && #[trigger] data::craft_entry(i).0 == r && craft_eligible(
                                    *old(self),
                                    i,
                                ),
                    ),
                )
            } else {
                old(self).seen_crafts@
            },
            final(self).seen_trades@ == if old(self).count(Building::TradingPost) > 0 {
                old(self).seen_trades@.union(
                    Set::new(
                        |r: Resource|
                            exists|i: int|
                                0 <= i < 13 && #[trigger] data::trade_entry(i).0 == r && trade_eligible(
                                    *old(self),
                                    i,
                                ),
                    ),
                )
            } else {
                old(self).seen_trades@
            },
            *final(self) == (Game {
                seen_crafts: final(self).seen_crafts,
                seen_trades: final(self).seen_trades,
                ..*old(self)
            }),
    {
        let ghost start = *old(self);
        if self.builder == Builder::Helping {
            let workshop = self.building_count(Building::Workshop) > 0;
            let table = data::craftables();
            let mut i: usize = 0;
            while i < table.len()
                invariant
                    i <= 14,
                    table.len() == 14,
                    forall|k: int|
                        0 <= k < 14 ==> (#[trigger] table@[k]).item == data::craft_entry(k).0
                            && table@[k].cost@ == data::craft_entry(k).2,
                    workshop == (start.count(Building::Workshop) > 0),
                    self.wf(),
                    *self == (Game { seen_crafts: self.seen_crafts, ..start }),
                    self.seen_crafts@ == start.seen_crafts@.union(
                        Set::new(
                            |r: Resource|
                                exists|k: int|
                                    0 <= k < i && #[trigger] data::craft_entry(k).0 == r
                                        && craft_eligible(start, k),
                        ),
                    ),
                decreases 14 - i,
            {
                let item = table[i].item;
                let needs = item.kind().needs_workshop();
                if !self.seen_crafts.contains(&item) {
                    if !needs || workshop {
                        if self.materials_in_reach(&table[i].cost) {
                            self.seen_crafts.insert(item);
                        }
                    }
                }
                proof {
                    let next = start.seen_crafts@.union(
                        Set::new(
                            |r: Resource|
                                exists|k: int|
                                    0 <= k < i + 1 && #[trigger] data::craft_entry(k).0 == r
                                        && craft_eligible(start, k),
                        ),
                    );
                    assert forall|r: Resource| #[trigger] self.seen_crafts@.contains(r)
                        == next.contains(r) by {
                        if r == item && craft_eligible(start, i as int) {
                            assert(data::craft_entry(i as int).0 == r);
                        }
                    }
                    assert(self.seen_crafts@ =~= next);
                }
                i = i + 1;
            }
        }
        let ghost mid = *self;
        if self.building_count(Building::TradingPost) > 0 {
            let goods = data::trade_goods();
            let mut i: usize = 0;
            while i < goods.len()
                invariant
                    i <= 13,
                    goods.len() == 13,
                    forall|k: int| 0 <= k < 13 ==> (#[trigger] goods@[k]).good == data::trade_entry(k).0,
                    self.wf(),
                    *self == (Game { seen_trades: self.seen_trades, ..mid }),
                    mid.stores@ == start.stores@,
                    self.seen_trades@ == start.seen_trades@.union(
                        Set::new(
                            |r: Resource|
                                exists|k: int|
                                    0 <= k < i && #[trigger] data::trade_entry(k).0 == r
                                        && trade_eligible(start, k),
                        ),
                    ),
                    mid.seen_trades@ == start.seen_trades@,
                decreases 13 - i,
            {
                let good = goods[i].good;
                if good == Resource::Compass || self.has_seen(good) {
                    self.seen_trades.insert(good);
                }
                proof {
                    let next = start.seen_trades@.union(
                        Set::new(
                            |r: Resource|
                                exists|k: int|
                                    0 <= k < i + 1 && #[trigger] data::trade_entry(k).0 == r
                                        && trade_eligible(start, k),
                        ),
                    );
                    assert forall|r: Resource| #[trigger] self.seen_trades@.contains(r)
                        == next.contains(r) by {
                        if r == good && trade_eligible(start, i as int) {
                            assert(data::trade_entry(i as int).0 == r);
                        }
                    }
                    assert(self.seen_trades@ =~= next);
                }
                i = i + 1;
            }
        }
        proof {
            if start.builder != Builder::Helping {
                assert(self.seen_crafts@ == start.seen_crafts@);
            }
            if start.count(Building::TradingPost) == 0 {
                assert(self.seen_trades@ == start.seen_trades@);
            }
        }
    }

    /// Spend a cost list out of the stores, entry by entry.
    fn spend(&mut self, cost: &Vec<(Resource, i64)>)
        requires
            old(self).wf(),
            cost_nonneg(cost@),
        ensures
            final(self).wf(),
            final(self).stores@ == spend_all(old(self).stores@, cost@),
            *final(self) == (Game { stores: final(self).stores, ..*old(self) }),
    {
        let ghost start = self.stores@;
        proof {
            lemma_spend_all(start, cost@);
        }
        let mut i: usize = 0;
        while i < cost.len()
            invariant
                i <= cost@.len(),
                self.wf(),
                cost_nonneg(cost@),
                nonneg(start),
                self.stores@ == spend_all(start, cost@.take(i as int)),
                *self == (Game { stores: self.stores, ..*old(self) }),
            decreases cost.len() - i,
        {
            let (resource, amount) = cost[i];
            proof {
                let pre = cost@.take(i + 1);
                assert(pre.drop_last() =~= cost@.take(i as int));
                assert forall|k: int| 0 <= k < pre.len() implies (#[trigger] pre[k]).1 >= 0 by {
                    assert(pre[k] == cost@[k]);
                }
                lemma_spend_all(start, pre);
                lemma_spend_all(start, cost@.take(i as int));
                assert(cost@[i as int].1 >= 0);
            }
            self.add_store(resource, -amount);
            i = i + 1;
        }
        proof {
            assert(cost@.take(cost@.len() as int) =~= cost@);
        }
    }

    /// The first entry of a cost list the stores cannot cover.
    fn missing(&self, cost: &Vec<(Resource, i64)>) -> (r: Option<Resource>)
        requires
            self.stores.wf(),
        ensures
            r == first_missing(self.stores@, cost@),
    {
        assert(cost@.skip(0) =~= cost@);
        let mut i: usize = 0;
        while i < cost.len()
            invariant
                i <= cost@.len(),
                self.stores.wf(),
                first_missing(self.stores@, cost@) == first_missing(
                    self.stores@,
                    cost@.skip(i as int),
                ),
            decreases cost.len() - i,
        {
            let (resource, amount) = cost[i];
            proof {
                assert(cost@.skip(i as int)[0] == cost@[i as int]);
                assert(cost@.skip(i as int).drop_first() =~= cost@.skip(i + 1));
            }
            if self.store(resource) < amount {
                return Some(resource);
            }
            i = i + 1;
        }
        None
    }

    /// Put one up. Refuses whole: nothing is spent unless everything is
    /// there. A mine is never offered, the builder must be on her feet, the
    /// room must be warmer than cold, and the ceiling must not be reached.
    pub fn build(&mut self, building: Building) -> (r: BuildOutcome)
        requires
            old(self).wf(),
        ensures
            final(self).wf(),
            building_raised(*old(self), building, r, *final(self)),
    {
        if !building.builder_built() {
            return BuildOutcome::NotOffered(building);
        }
        if self.builder != Builder::Helping {
            return BuildOutcome::NoBuilder;
        }
        if self.temperature.value() <= Temperature::Cold.value() {
            return BuildOutcome::TooCold;
        }
        let built = self.building_count(building);
        let max = match building.maximum() {
            Some(m) => m,
            None => u32::MAX,
        };
        if built >= max {
            return BuildOutcome::AtMaximum(building);
        }
        let cost = building.cost(built);
        match self.missing(&cost) {
            Some(resource) => {
                return BuildOutcome::Missing(resource);
            },
            None => {},
        }
        proof {
            assert(cost_nonneg(cost@));
        }
        self.spend(&cost);
        self.raise(building);
        BuildOutcome::Built(building)
    }

    /// Stand a building up and open whatever trades come with it. Separate
    /// from `build` because the wasteland grants the mines outright.
    pub fn raise(&mut self, building: Building)
        requires
            old(self).wf(),
            old(self).count(building) < u32::MAX,
        ensures
            final(self).wf(),
            raised(*old(self), building, *final(self)),
            *final(self) == (Game {
                buildings: final(self).buildings,
                seen_jobs: final(self).seen_jobs,
                workers: final(self).workers,
                ..*old(self)
            }),
    {
        let built = self.building_count(building);
        self.buildings.insert(building, built + 1);
        let jobs = building.unlocks_jobs();
        let ghost start = *old(self);
        let mut i: usize = 0;
        while i < jobs.len()
            invariant
                i <= jobs@.len(),
                jobs@ == data::building_jobs(building),
                self.wf(),
                self.buildings@ == start.buildings@.insert(building, (start.count(building) + 1) as u32),
                self.seen_jobs@ == start.seen_jobs@.union(jobs@.take(i as int).to_set()),
                self.workers@ == with_jobs(start.workers@, jobs@.take(i as int)),
                *self == (Game {
                    buildings: self.buildings,
                    seen_jobs: self.seen_jobs,
                    workers: self.workers,
                    ..start
                }),
            decreases jobs.len() - i,
        {
            let job = jobs[i];
            self.seen_jobs.insert(job);
            if !self.workers.contains_key(&job) {
                self.workers.insert(job, 0);
            }
            proof {
                let pre = jobs@.take(i + 1);
                assert(pre =~= jobs@.take(i as int).push(job));
                assert(self.seen_jobs@ =~= start.seen_jobs@.union(pre.to_set())) by {
                    assert forall|j: Job| #[trigger] pre.to_set().contains(j) == (jobs@.take(
                        i as int,
                    ).to_set().contains(j) || j == job) by {
                        if j == job {
                            assert(pre[i as int] == job);
                        }
                        if jobs@.take(i as int).contains(j) {
                            let k = choose|k: int| 0 <= k < i && jobs@.take(i as int)[k] == j;
                            assert(pre[k] == j);
                        }
                        if pre.contains(j) && j != job {
                            let k = choose|k: int| 0 <= k < i + 1 && pre[k] == j;
                            assert(jobs@.take(i as int)[k] == j);
                        }
                    }
                }
                assert(self.workers@ =~= with_jobs(start.workers@, pre)) by {
                    assert forall|j: Job| #[trigger] pre.contains(j) == (jobs@.take(
                        i as int,
                    ).contains(j) || j == job) by {
                        if j == job {
                            assert(pre[i as int] == job);
                        }
                        if jobs@.take(i as int).contains(j) {
                            let k = choose|k: int| 0 <= k < i && jobs@.take(i as int)[k] == j;
                            assert(pre[k] == j);
                        }
                        if pre.contains(j) && j != job {
                            let k = choose|k: int| 0 <= k < i + 1 && pre[k] == j;
                            assert(jobs@.take(i as int)[k] == j);
                        }
                    }
                }
            }
            i = i + 1;
        }
        proof {
            assert(jobs@.take(jobs@.len() as int) =~= jobs@);
        }
    }
}

/// The health the best armour in the store room adds.
pub open spec fn armour_bonus(g: Game) -> int {
    if g.stock(Resource::SteelArmour) > 0 {
        35
    } else if g.stock(Resource::IronArmour) > 0 {
        15
    } else if g.stock(Resource::LeatherArmour) > 0 {
        5
    } else {
        0
    }
}

/// The best armour in the store room, by name.
pub open spec fn armour_name(g: Game) -> Seq<char> {
    if g.stock(Resource::SteelArmour) > 0 {
        "steel"@
    } else if g.stock(Resource::IronArmour) > 0 {
        "iron"@
    } else if g.stock(Resource::LeatherArmour) > 0 {
        "leather"@
    } else {
        "none"@
    }
}

/// The water the best vessel in the store room adds.
pub open spec fn water_bonus(g: Game) -> int {
    if g.stock(Resource::WaterTank) > 0 {
        50
    } else if g.stock(Resource::Cask) > 0 {
        20
    } else if g.stock(Resource::Waterskin) > 0 {
        10
    } else {
        0
    }
}

/// The space the best pack in the store room adds.
pub open spec fn pack_bonus(g: Game) -> int {
    if g.stock(Resource::Convoy) > 0 {
        60
    } else if g.stock(Resource::Wagon) > 0 {
        30
    } else if g.stock(Resource::Rucksack) > 0 {
        10
    } else {
        0
    }
}

/// How much of a resource one worker's yield list moves, in half units.
pub open spec fn yield_for(ys: Seq<(Resource, i64)>, r: Resource) -> int
    decreases ys.len(),
{
    if ys.len() == 0 {
        0
    } else {
        yield_for(ys.drop_last(), r) + if ys.last().0 == r {
            ys.last().1 as int
        } else {
            0
        }
    }
}

/// The movement of a resource from the first `n` trades, in half units.
pub open spec fn jobs_income(g: Game, r: Resource, n: nat) -> int
    decreases n,
{
    if n == 0 {
        0
    } else {
        let j = Job::from_key((n - 1) as nat);
        jobs_income(g, r, (n - 1) as nat) + g.workers_on(j) * yield_for(data::job_half_yields(j), r)
    }
}

/// Net movement of a resource per income round, all sources summed, in half
/// units: the builder, the gatherers, and every trade.
pub open spec fn income_half(g: Game, r: Resource) -> int {
    (if g.builder == Builder::Helping && r == Resource::Wood {
        4int
    } else {
        0int
    }) + (if r == Resource::Wood {
        2 * g.gatherers_spec()
    } else {
        0
    }) + jobs_income(g, r, 9)
}

impl Game {
    // ---- the workshop and the trading post ----

    /// Whether a craft row is on screen (latched, like the build rows).
    pub fn craft_available(&self, craftable: &data::Craftable) -> (r: bool)
        requires
            self.seen_crafts.wf(),
        ensures
            r == self.seen_crafts@.contains(craftable.item),
    {
        self.seen_crafts.contains(&craftable.item)
    }

    /// Whether a buy row is on screen.
    pub fn buy_available(&self, good: &data::TradeGood) -> (r: bool)
        requires
            self.seen_trades.wf(),
        ensures
            r == self.seen_trades@.contains(good.good),
    {
        self.seen_trades.contains(&good.good)
    }

    /// Make one. Refuses whole, and refuses in a cold room.
    pub fn craft(&mut self, craftable: &data::Craftable) -> (r: CraftOutcome)
        requires
            old(self).wf(),
            cost_nonneg(craftable.cost@),
            old(self).stock(craftable.item) < i64::MAX,
        ensures
            final(self).wf(),
            item_crafted(*old(self), craftable.item, craftable.maximum, craftable.cost@, r, *final(self)),
    {
        if self.temperature.value() <= Temperature::Cold.value() {
            return CraftOutcome::TooCold;
        }
        let held = self.store(craftable.item);
        match craftable.maximum {
            Some(max) => {
                if held >= max as i64 {
                    return CraftOutcome::AtMaximum(craftable.item);
                }
            },
            None => {},
        }
        match self.missing(&craftable.cost) {
            Some(resource) => {
                return CraftOutcome::Missing(resource);
            },
            None => {},
        }
        self.spend(&craftable.cost);
        proof {
            lemma_spend_all_lowers(old(self).stores@, craftable.cost@, craftable.item);
        }
        self.add_store(craftable.item, 1);
        CraftOutcome::Crafted(craftable.item)
    }

    /// Whether a fabricate row is on screen: gated purely on the blueprint,
    /// and some recipes need none at all.
    pub fn fabricable_available(&self, fabricable: &Fabricable) -> (r: bool)
        requires
            self.blueprints.wf(),
        ensures
            r == match fabricable.blueprint {
                Some(b) => self.blueprints@.contains(b),
                None => true,
            },
    {
        match fabricable.blueprint {
            Some(blueprint) => self.blueprints.contains(&blueprint),
            None => true,
        }
    }

    /// Fabricate one batch. Refuses whole; no cold gate.
    pub fn fabricate(&mut self, fabricable: &Fabricable) -> (r: CraftOutcome)
        requires
            old(self).wf(),
            cost_nonneg(fabricable.cost@),
            0 <= fabricable.quantity,
            old(self).stock(fabricable.item) <= i64::MAX - fabricable.quantity,
        ensures
            final(self).wf(),
            match fabricable.maximum {
                Some(max) if old(self).stock(fabricable.item) >= max => r == CraftOutcome::AtMaximum(
                    fabricable.item,
                ) && *final(self) == *old(self),
                _ => match first_missing(old(self).stores@, fabricable.cost@) {
                    Some(m) => r == CraftOutcome::Missing(m) && *final(self) == *old(self),
                    None => {
                        &&& r == CraftOutcome::Crafted(fabricable.item)
                        &&& final(self).stores@ == add_held(
                            spend_all(old(self).stores@, fabricable.cost@),
                            fabricable.item,
                            fabricable.quantity as int,
                        )
                        &&& *final(self) == (Game { stores: final(self).stores, ..*old(self) })
                    },
                },
            },
    {
        let held = self.store(fabricable.item);
        match fabricable.maximum {
            Some(max) => {
                if held >= max as i64 {
                    return CraftOutcome::AtMaximum(fabricable.item);
                }
            },
            None => {},
        }
        match self.missing(&fabricable.cost) {
            Some(resource) => {
                return CraftOutcome::Missing(resource);
            },
            None => {},
        }
        self.spend(&fabricable.cost);
        proof {
            lemma_spend_all_lowers(old(self).stores@, fabricable.cost@, fabricable.item);
        }
        self.add_store(fabricable.item, fabricable.quantity);
        CraftOutcome::Crafted(fabricable.item)
    }

    /// Turn blueprint tokens carried home into recipes the fabricator knows,
    /// consuming every token. Returns whether anything was redeemed.
    pub fn redeem_blueprints(&mut self, outfit: &mut EnumMap<Resource, i64>) -> (redeemed: bool)
        requires
            old(self).wf(),
            old(outfit).wf(),
        ensures
            final(self).wf(),
            final(outfit).wf(),
            final(outfit)@ == without_tokens(old(outfit)@),
            final(self).blueprints@ == old(self).blueprints@.union(
                Set::new(|b: Blueprint| carries_token(old(outfit)@, b)),
            ),
            redeemed == exists|b: Blueprint| carries_token(old(outfit)@, b),
            *final(self) == (Game { blueprints: final(self).blueprints, ..*old(self) }),
    {
        let ghost start = old(outfit)@;
        let mut redeemed = false;
        let mut i: usize = 0;
        while i < 6
            invariant
                i <= 6,
                outfit.wf(),
                self.wf(),
                *self == (Game { blueprints: self.blueprints, ..*old(self) }),
                outfit@ == Map::new(
                    |r: Resource|
                        start.contains_key(r) && !(is_token(r) && exists|b: Blueprint|
                            b.key() < i && data::blueprint_token(b) == r),
                    |r: Resource| start[r],
                ),
                self.blueprints@ == old(self).blueprints@.union(
                    Set::new(|b: Blueprint| b.key() < i && carries_token(start, b)),
                ),
                redeemed == exists|b: Blueprint| b.key() < i && carries_token(start, b),
            decreases 6 - i,
        {
            let blueprint = Blueprint::from_index(i);
            proof {
                Blueprint::key_injective(blueprint, blueprint);
            }
            let token = blueprint.token();
            let taken = outfit.remove(&token);
            let had = match taken {
                Some(n) => n > 0,
                None => false,
            };
            if had {
                self.blueprints.insert(blueprint);
                redeemed = true;
            }
            proof {
                assert forall|b: Blueprint| data::blueprint_token(b) == token implies b == blueprint by {
                    match b {
                        Blueprint::Hypo => {},
                        Blueprint::KineticArmour => {},
                        Blueprint::Disruptor => {},
                        Blueprint::PlasmaRifle => {},
                        Blueprint::Stim => {},
                        Blueprint::Glowstone => {},
                    }
                    match blueprint {
                        Blueprint::Hypo => {},
                        Blueprint::KineticArmour => {},
                        Blueprint::Disruptor => {},
                        Blueprint::PlasmaRifle => {},
                        Blueprint::Stim => {},
                        Blueprint::Glowstone => {},
                    }
                }
                assert(start.contains_key(token) ==> outfit@ =~= Map::new(
                    |r: Resource|
                        start.contains_key(r) && !(is_token(r) && exists|b: Blueprint|
                            b.key() < i + 1 && data::blueprint_token(b) == r),
                    |r: Resource| start[r],
                ));
                assert(outfit@ =~= Map::new(
                    |r: Resource|
                        start.contains_key(r) && !(is_token(r) && exists|b: Blueprint|
                            b.key() < i + 1 && data::blueprint_token(b) == r),
                    |r: Resource| start[r],
                )) by {
                    assert forall|r: Resource| #[trigger] outfit@.contains_key(r) == (start.contains_key(r)
                        && !(is_token(r) && exists|b: Blueprint|
                            b.key() < i + 1 && data::blueprint_token(b) == r)) by {
                        if r == token {
                            assert(blueprint.key() < i + 1);
                        }
                        if is_token(r) && r != token {
                            if exists|b: Blueprint| b.key() < i + 1 && data::blueprint_token(b) == r {
                                let b = choose|b: Blueprint|
                                    b.key() < i + 1 && data::blueprint_token(b) == r;
                                assert(b.key() < i);
                            }
                        }
                    }
                }
                assert(self.blueprints@ =~= old(self).blueprints@.union(
                    Set::new(|b: Blueprint| b.key() < i + 1 && carries_token(start, b)),
                )) by {
                    assert forall|b: Blueprint| #[trigger] self.blueprints@.contains(b) == old(
                        self,
                    ).blueprints@.union(
                        Set::new(|b: Blueprint| b.key() < i + 1 && carries_token(start, b)),
                    ).contains(b) by {
                        Blueprint::key_injective(b, blueprint);
                    }
                }
                if had {
                    assert(blueprint.key() < i + 1 && carries_token(start, blueprint));
                }
                if exists|b: Blueprint| b.key() < i + 1 && carries_token(start, b) {
                    let b = choose|b: Blueprint| b.key() < i + 1 && carries_token(start, b);
                    Blueprint::key_injective(b, blueprint);
                }
            }
            i = i + 1;
        }
        proof {
            assert forall|b: Blueprint| b.key() < 6 by {
                Blueprint::key_injective(b, b);
            }
            assert(outfit@ =~= without_tokens(start)) by {
                assert forall|r: Resource| is_token(r) implies exists|b: Blueprint|
                    b.key() < 6 && data::blueprint_token(b) == r by {
                    if r == Resource::HypoBlueprint {
                        assert(data::blueprint_token(Blueprint::Hypo) == r);
                    } else if r == Resource::KineticArmourBlueprint {
                        assert(data::blueprint_token(Blueprint::KineticArmour) == r);
                    } else if r == Resource::DisruptorBlueprint {
                        assert(data::blueprint_token(Blueprint::Disruptor) == r);
                    } else if r == Resource::PlasmaRifleBlueprint {
                        assert(data::blueprint_token(Blueprint::PlasmaRifle) == r);
                    } else if r == Resource::StimBlueprint {
                        assert(data::blueprint_token(Blueprint::Stim) == r);
                    } else {
                        assert(data::blueprint_token(Blueprint::Glowstone) == r);
                    }
                }
            }
            assert(self.blueprints@ =~= old(self).blueprints@.union(
                Set::new(|b: Blueprint| carries_token(start, b)),
            ));
        }
        redeemed
    }

    /// Buy one. Refuses whole, same as everything else; the nomads do not
    /// care how cold the room is.
    pub fn buy(&mut self, good: &data::TradeGood) -> (r: BuyOutcome)
        requires
            old(self).wf(),
            cost_nonneg(good.cost@),
            old(self).stock(good.good) < i64::MAX,
        ensures
            final(self).wf(),
            good_bought(*old(self), good.good, good.maximum, good.cost@, r, *final(self)),
    {
        let held = self.store(good.good);
        match good.maximum {
            Some(max) => {
                if held >= max as i64 {
                    return BuyOutcome::AtMaximum(good.good);
                }
            },
            None => {},
        }
        match self.missing(&good.cost) {
            Some(resource) => {
                return BuyOutcome::Missing(resource);
            },
            None => {},
        }
        self.spend(&good.cost);
        proof {
            lemma_spend_all_lowers(old(self).stores@, good.cost@, good.good);
        }
        self.add_store(good.good, 1);
        BuyOutcome::Bought(good.good)
    }

    // ---- the wanderer ----

    pub fn has_perk(&self, perk: Perk) -> (r: bool)
        requires
            self.perks.wf(),
        ensures
            r == self.perk(perk),
    {
        self.perks.contains(&perk)
    }

    /// Learn a perk. Returns whether it is new, so the caller can announce it.
    pub fn add_perk(&mut self, perk: Perk) -> (r: bool)
        requires
            old(self).wf(),
        ensures
            final(self).wf(),
            r == !old(self).perk(perk),
            final(self).perks@ == old(self).perks@.insert(perk),
            *final(self) == (Game { perks: final(self).perks, ..*old(self) }),
    {
        self.perks.insert(perk)
    }

    /// How much health the wanderer sets out with: ten, plus the best armour
    /// in the store room.
    pub fn max_health(&self) -> (r: i64)
        requires
            self.stores.wf(),
        ensures
            r == world_data::BASE_HEALTH + armour_bonus(*self),
    {
        let bonus = if self.store(Resource::SteelArmour) > 0 {
            35
        } else if self.store(Resource::IronArmour) > 0 {
            15
        } else if self.store(Resource::LeatherArmour) > 0 {
            5
        } else {
            0
        };
        world_data::BASE_HEALTH + bonus
    }

    /// What the armour row on the path screen says.
    pub fn armour_label(&self) -> (r: &'static str)
        requires
            self.stores.wf(),
        ensures
            r@ == armour_name(*self),
    {
        if self.store(Resource::SteelArmour) > 0 {
            "steel"
        } else if self.store(Resource::IronArmour) > 0 {
            "iron"
        } else if self.store(Resource::LeatherArmour) > 0 {
            "leather"
        } else {
            "none"
        }
    }

    /// How much water the wanderer sets out with.
    pub fn max_water(&self) -> (r: i64)
        requires
            self.stores.wf(),
        ensures
            r == world_data::BASE_WATER + water_bonus(*self),
    {
        let bonus = if self.store(Resource::WaterTank) > 0 {
            50
        } else if self.store(Resource::Cask) > 0 {
            20
        } else if self.store(Resource::Waterskin) > 0 {
            10
        } else {
            0
        };
        world_data::BASE_WATER + bonus
    }

    /// How much the pack holds, in whole units of weight.
    pub fn capacity(&self) -> (r: i64)
        requires
            self.stores.wf(),
        ensures
            r == world_data::DEFAULT_BAG_SPACE + pack_bonus(*self),
    {
        let bonus = if self.store(Resource::Convoy) > 0 {
            60
        } else if self.store(Resource::Wagon) > 0 {
            30
        } else if self.store(Resource::Rucksack) > 0 {
            10
        } else {
            0
        };
        world_data::DEFAULT_BAG_SPACE + bonus
    }

    /// The odds of a swing landing, in hundredths.
    pub fn hit_chance_pct(&self) -> (r: u64)
        requires
            self.perks.wf(),
        ensures
            r == if self.perk(Perk::Precise) {
                world_data::BASE_HIT_PCT + 10
            } else {
                world_data::BASE_HIT_PCT as int
            },
    {
        if self.has_perk(Perk::Precise) {
            world_data::BASE_HIT_PCT + 10
        } else {
            world_data::BASE_HIT_PCT
        }
    }

    /// What a strip of cured meat is worth in a fight.
    pub fn meat_heal(&self) -> (r: i64)
        requires
            self.perks.wf(),
        ensures
            r == if self.perk(Perk::Gastronome) {
                world_data::MEAT_HEAL * 2
            } else {
                world_data::MEAT_HEAL as int
            },
    {
        if self.has_perk(Perk::Gastronome) {
            world_data::MEAT_HEAL * 2
        } else {
            world_data::MEAT_HEAL
        }
    }

    /// Whether the wanderer can set out: cured meat actually packed (and
    /// still in the store room to take), and no death cooldown running.
    pub fn can_embark(&self) -> (r: bool)
        requires
            self.stores.wf(),
            self.outfit.wf(),
        ensures
            r == (self.embark_cooldown == 0 && held(self.outfit@, Resource::CuredMeat) > 0
                && self.stock(Resource::CuredMeat) > 0),
    {
        let packed = match self.outfit.get(&Resource::CuredMeat) {
            Some(n) => *n,
            None => 0,
        };
        let shelf = self.store(Resource::CuredMeat);
        let takes = if packed < shelf {
            packed
        } else {
            shelf
        };
        self.embark_cooldown == 0 && takes > 0
    }

    /// The tile the map holds at a square, or the barrens beyond its edge.
    pub fn world_tile(&self, x: i32, y: i32) -> (t: Tile)
        ensures
            t == match self.world {
                Some(w) => w.tile_at(x as int, y as int),
                None => Tile::Barrens,
            },
    {
        match &self.world {
            Some(world) => world.tile(x, y),
            None => Tile::Barrens,
        }
    }

    // ---- workers ----

    /// Move villagers onto a trade, up to the number still gathering. Returns
    /// how many moved.
    pub fn assign_worker(&mut self, job: Job, count: u32) -> (moved: u32)
        requires
            old(self).wf(),
            old(self).assigned() <= u32::MAX,
        ensures
            final(self).wf(),
            workers_assigned(*old(self), job, count, moved, *final(self)),
    {
        let free = self.gatherers();
        let moved = if count < free {
            count
        } else {
            free
        };
        if moved > 0 {
            let current = self.worker_count(job);
            self.workers.insert(job, current + moved);
        }
        moved
    }

    /// Move villagers off a trade and back to gathering. Returns how many
    /// moved.
    pub fn unassign_worker(&mut self, job: Job, count: u32) -> (moved: u32)
        requires
            old(self).wf(),
        ensures
            final(self).wf(),
            workers_unassigned(*old(self), job, count, moved, *final(self)),
    {
        let current = self.worker_count(job);
        let moved = if count < current {
            count
        } else {
            current
        };
        if moved > 0 {
            self.workers.insert(job, current - moved);
        }
        moved
    }

    // ---- income ----

    /// How much one worker's yield list moves of a resource, in half units.
    fn yield_of(ys: &Vec<(Resource, i64)>, r: Resource) -> (total: i64)
        requires
            forall|i: int| 0 <= i < ys@.len() ==> -10 <= (#[trigger] ys@[i]).1 <= 10,
            ys@.len() <= 3,
        ensures
            total == yield_for(ys@, r),
            -30 <= total <= 30,
    {
        let mut total: i64 = 0;
        let mut i: usize = 0;
        while i < ys.len()
            invariant
                i <= ys@.len(),
                ys@.len() <= 3,
                forall|k: int| 0 <= k < ys@.len() ==> -10 <= (#[trigger] ys@[k]).1 <= 10,
                total == yield_for(ys@.take(i as int), r),
                -10 * i <= total <= 10 * i,
            decreases ys.len() - i,
        {
            proof {
                assert(ys@.take(i + 1).drop_last() =~= ys@.take(i as int));
            }
            if ys[i].0 == r {
                total = total + ys[i].1;
            }
            i = i + 1;
        }
        proof {
            assert(ys@.take(ys@.len() as int) =~= ys@);
        }
        total
    }

    /// Net movement of one resource per income round, all sources summed, in
    /// half units.
    pub fn income_half_of(&self, r: Resource) -> (total: i64)
        requires
            self.wf(),
            self.assigned() <= u32::MAX,
        ensures
            total == income_half(*self, r),
            -2_000_000_000_000 <= total <= 2_000_000_000_000,
    {
        let mut total: i64 = 0;
        let mut i: usize = 0;
        while i < 9
            invariant
                i <= 9,
                self.wf(),
                total == jobs_income(*self, r, i as nat),
                -(i as int) * 128849018850 <= total <= (i as int) * 128849018850,
            decreases 9 - i,
        {
            let job = Job::from_index(i);
            let ys = job.half_yields();
            proof {
                assert forall|k: int| 0 <= k < ys@.len() implies -10 <= (#[trigger] ys@[k]).1 <= 10 by {
                    match job {
                        Job::Hunter => {},
                        Job::Trapper => {},
                        Job::Tanner => {},
                        Job::Charcutier => {},
                        Job::IronMiner => {},
                        Job::CoalMiner => {},
                        Job::SulphurMiner => {},
                        Job::Steelworker => {},
                        Job::Armourer => {},
                    }
                }
                assert(ys@.len() <= 3) by {
                    match job {
                        Job::Hunter => {},
                        Job::Trapper => {},
                        Job::Tanner => {},
                        Job::Charcutier => {},
                        Job::IronMiner => {},
                        Job::CoalMiner => {},
                        Job::SulphurMiner => {},
                        Job::Steelworker => {},
                        Job::Armourer => {},
                    }
                }
            }
            let per = Game::yield_of(&ys, r);
            let workers = self.worker_count(job) as i64;
            assert(-128849018850 <= workers * per <= 128849018850) by (nonlinear_arith)
                requires
                    0 <= workers <= 4294967295,
                    -30 <= per <= 30,
            ;
            total = total + workers * per;
            i = i + 1;
        }
        if self.builder == Builder::Helping && r == Resource::Wood {
            total = total + 4;
        }
        if r == Resource::Wood {
            total = total + 2 * (self.gatherers() as i64);
        }
        total
    }

    /// Net movement per income round for every resource, all sources summed,
    /// in half units; resources that do not move are left out.
    pub fn income_per_tick(&self) -> (totals: EnumMap<Resource, i64>)
        requires
            self.wf(),
            self.assigned() <= u32::MAX,
        ensures
            totals.wf(),
            forall|r: Resource|
                #![trigger totals@.contains_key(r)]
                totals@.contains_key(r) == (income_half(*self, r) != 0),
            forall|r: Resource| #[trigger] totals@.contains_key(r) ==> totals@[r] == income_half(*self, r),
    {
        let mut totals: EnumMap<Resource, i64> = EnumMap::new();
        let mut i: usize = 0;
        while i < 53
            invariant
                i <= 53,
                self.wf(),
                self.assigned() <= u32::MAX,
                totals.wf(),
                forall|r: Resource|
                    #![trigger totals@.contains_key(r)]
                    totals@.contains_key(r) == (r.key() < i && income_half(*self, r) != 0),
                forall|r: Resource| #[trigger] totals@.contains_key(r) ==> totals@[r] == income_half(*self, r),
            decreases 53 - i,
        {
            let r = Resource::from_index(i);
            let amount = self.income_half_of(r);
            if amount != 0 {
                totals.insert(r, amount);
            }
            proof {
                assert forall|k: Resource| #[trigger] totals@.contains_key(k) == (k.key() < i + 1
                    && income_half(*self, k) != 0) by {
                    Resource::key_injective(k, r);
                }
            }
            i = i + 1;
        }
        proof {
            assert forall|r: Resource| r.key() < 53 by {
                Resource::key_injective(r, r);
            }
        }
        totals
    }
}


/// Building never goes past a ceiling: ten traps, twenty huts, one of
/// anything else. At the ceiling the answer is that it is reached and the
/// save is untouched; below it, whatever happens leaves the count within it.
pub proof fn law_build_stops_at_the_ceiling(g: Game, b: Building, r: BuildOutcome, after: Game)
    requires
        g.wf(),
        building_raised(g, b, r, after),
    ensures
        ({
            let ceiling: int = match b {
                Building::Trap => 10,
                Building::Hut => 20,
                _ => 1,
            };
            &&& g.count(b) >= ceiling ==> after == g && !(r is Built)
            &&& g.count(b) >= ceiling && data::is_builder_built(b) && g.builder == Builder::Helping
                && data::temperature_level(g.temperature) > 1 ==> r == BuildOutcome::AtMaximum(b)
            &&& g.count(b) <= ceiling ==> after.count(b) <= ceiling
            &&& r is Built ==> after.count(b) == g.count(b) + 1
        }),
{
}

/// A stoke that goes through, once wood has been held, burns exactly one
/// log: the wood in the store room goes down by one and nothing else in it
/// moves.
pub proof fn law_a_stoke_burns_one_log(g: Game, r: StokeFire, after: Game)
    requires
        g.wf(),
        fire_stoked(g, r, after),
        g.stores@.contains_key(Resource::Wood),
        r is Stoked,
    ensures
        after.stock(Resource::Wood) == g.stock(Resource::Wood) - 1,
        forall|x: Resource| x != Resource::Wood ==> #[trigger] after.stock(x) == g.stock(x),
{
}

/// Lighting the fire, once wood has been held, burns exactly five logs.
pub proof fn law_lighting_burns_five_logs(g: Game, r: LightFire, after: Game)
    requires
        g.wf(),
        fire_lit(g, r, after),
        g.stores@.contains_key(Resource::Wood),
        r is Lit,
    ensures
        after.stock(Resource::Wood) == g.stock(Resource::Wood) - 5,
        forall|x: Resource| x != Resource::Wood ==> #[trigger] after.stock(x) == g.stock(x),
{
}


/// A cart costs thirty wood, a trap ten more for every trap already
/// standing, a hut fifty more for every hut: building one takes exactly that
/// much wood out of the store room, and refuses when there is less.
pub proof fn law_building_pays_its_wood(g: Game, b: Building, r: BuildOutcome, after: Game)
    requires
        g.wf(),
        building_raised(g, b, r, after),
        b == Building::Cart || b == Building::Trap || b == Building::Hut,
        g.count(b) < 1000,
    ensures
        ({
            let price: int = match b {
                Building::Cart => 30,
                Building::Trap => 10 + 10 * g.count(b),
                _ => 100 + 50 * g.count(b),
            };
            &&& r is Built ==> after.stock(Resource::Wood) == g.stock(Resource::Wood) - price
            &&& r is Built ==> forall|x: Resource| x != Resource::Wood ==> #[trigger] after.stock(x) == g.stock(x)
            &&& r is Missing ==> g.stock(Resource::Wood) < price && after == g
        }),
{
    let cost = data::building_cost(b, g.count(b) as u32);
    let price: int = match b {
        Building::Cart => 30,
        Building::Trap => 10 + 10 * g.count(b),
        _ => 100 + 50 * g.count(b),
    };
    assert(cost.len() == 1 && cost[0] == (Resource::Wood, price as i64));
    assert(cost.drop_last() =~= Seq::<(Resource, i64)>::empty());
    assert(cost.drop_first() =~= Seq::<(Resource, i64)>::empty());
    assert(first_missing(g.stores@, cost.drop_first()) == None::<Resource>);
    assert(spend_all(g.stores@, cost.drop_last()) == g.stores@);
    assert(cost.last() == (Resource::Wood, price as i64));
    assert(first_missing(g.stores@, cost) == if g.stock(Resource::Wood) < price {
        Some(Resource::Wood)
    } else {
        None::<Resource>
    });
    assert(spend_all(g.stores@, cost) == add_held(g.stores@, Resource::Wood, -price));
}


/// Stoking: nothing while the fire cools down, nothing once the wood held
/// has run out; otherwise the fire burns one level hotter (a roaring fire
/// stays roaring) and the stoke goes on its ten-second cooldown.
pub proof fn law_stoking_heats_the_fire_one_level(g: Game, r: StokeFire, after: Game)
    requires
        g.wf(),
        fire_stoked(g, r, after),
    ensures
        g.stoke_cooldown > 0 ==> r == StokeFire::OnCooldown && after == g,
        g.stoke_cooldown == 0 && g.stores@.contains_key(Resource::Wood) && g.stock(Resource::Wood) == 0 ==> r
            == StokeFire::OutOfWood && after == g,
        g.stoke_cooldown == 0 && (!g.stores@.contains_key(Resource::Wood) || g.stock(Resource::Wood) >= 1) ==> {
            &&& r is Stoked
            &&& data::fire_level(after.fire) == if data::fire_level(g.fire) < 4 {
                data::fire_level(g.fire) + 1
            } else {
                4
            }
            &&& after.stoke_cooldown == 10
        },
{
}

} // verus!
