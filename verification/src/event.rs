//! The rules events run on: the conditions that offer an event or a button,
//! what a button costs, the weapons a pack can swing and what perks do to
//! them, and every effect a scene or button can have on the save and the
//! trip. Each effect is a closed enum arm; there is no general-purpose escape
//! hatch.
use rand::rngs::StdRng;
use vstd::prelude::*;
use vstd::view::View as _;

use crate::chance::{self, draw};
use crate::collections::{EnumMap, Keyed};
use crate::data::{self, Building, Job, Perk, Resource};
use crate::model::{
    self, add_held, clamp0, assigned_in, held, held_u, nonneg, Deck, Expedition, Game, PendingReward, Thieves,
    View, WorldMap, GRID,
};
use crate::sim::{say, texts};
use crate::world::{self, on_grid};
use crate::world_data::{self, Damage, Tile, Weapon, WeaponKind};

verus! {

/// A condition on one of the fighters. Setting one clears whatever was
/// there.
#[derive(Clone, Copy, Debug, PartialEq, Eq, Structural)]
pub enum Status {
    /// The next hit taken is absorbed and healed back instead.
    Shield,
    /// Swings on a short clock whatever its own delay is.
    Enraged,
    /// Takes no damage and throws none, banking everything aimed at it, then
    /// returns the whole pile in one swing.
    Meditation,
    /// Its hits bleed afterwards.
    Venomous,
    /// Hits harder.
    Energised,
    /// The stim: attack cooldowns halved.
    Boost,
}

pub open spec fn status_label(s: Status) -> Seq<char> {
    match s {
        Status::Shield => "shield"@,
        Status::Enraged => "enraged"@,
        Status::Meditation => "meditation"@,
        Status::Venomous => "venomous"@,
        Status::Energised => "energised"@,
        Status::Boost => "boost"@,
    }
}

impl Status {
    /// What the fight panel calls it.
    pub fn label(self) -> (r: &'static str)
        ensures
            r@ == status_label(self),
    {
        match self {
            Status::Shield => "shield",
            Status::Enraged => "enraged",
            Status::Meditation => "meditation",
            Status::Venomous => "venomous",
            Status::Energised => "energised",
            Status::Boost => "boost",
        }
    }
}

/// What an enemy's special does. Closed, so a fight cannot invent a new
/// trick.
#[derive(Clone, Copy, Debug, PartialEq, Eq, Structural)]
pub enum SpecialAction {
    /// Put this status on the enemy.
    Take(Status),
    /// One of shield, enraged or meditation at random, never the same one
    /// twice running.
    RotateCommand,
}

/// What a button costs. Out in the world this comes out of the pack; at
/// home, out of the store room.
#[derive(Clone, Copy, Debug, PartialEq, Eq, Structural)]
pub enum Cost {
    Store(Resource, i64),
    Water(i64),
    Hp(i64),
}

/// A condition on an event or a button, matched exhaustively.
#[derive(Clone, Copy, Debug, PartialEq, Eq, Structural)]
pub enum Condition {
    InRoom,
    InOutside,
    /// Either village panel.
    InVillage,
    /// Holding at least one.
    HasStore(Resource),
    StoreAtLeast(Resource, i64),
    StoreBelow(Resource, i64),
    HutsAtLeast(u32),
    HutsBelow(u32),
    PopulationOver(u32),
    PopulationBelow(u32),
    /// The wasteland exists, which is what wakes the scout and the master.
    WorldUnlocked,
    CityCleared,
    ThievesActive,
    LacksPerk(Perk),
    /// There is still map left to uncover.
    MapNotFull,
    HasTrap,
    DistanceAtMost(i32),
    DistanceOver(i32),
    TerrainIs(Tile),
    /// This deck of the battleship has not been picked clean yet.
    DeckPending(Deck),
    /// All three decks report clear, which unlocks the command deck.
    DecksClear,
}

/// How many villagers a disaster takes.
#[derive(Clone, Copy, Debug, PartialEq, Eq, Structural)]
pub enum Kill {
    /// `floor(fraction * (high - low)) + low`.
    Range(u32, u32),
    /// `floor(fraction * floor(population / 2)) + 1`.
    HalfPopulation,
}

/// Everything a scene or button can do beyond moving stores, one arm per
/// kind of consequence.
#[derive(Clone, Copy, Debug, PartialEq, Eq)]
pub enum Effect {
    /// The store room raid: a tenth of the wood becomes a fifth as much of
    /// something else.
    TradeWoodFor(Resource),
    BuildHut,
    WreckTraps,
    DestroyHuts(u32),
    KillVillagers(Kill),
    GrantPerk(Perk),
    /// The thief is dealt with: the skim stops, and either the missing
    /// stores come back or a lesson does.
    SettleThieves { pay_back: bool, perk: Option<Perk> },
    /// The Mysterious Wanderer's return: rolled now (the odds in hundredths),
    /// paid later on wall clock.
    ScheduleReward {
        chance_pct: u32,
        resource: Resource,
        amount: i64,
        delay_secs: u32,
        message: &'static str,
    },
    /// The scout's map: light up a patch of the world at random.
    UncoverMap,
    /// Turn this square into an outpost and run a road home.
    ClearDungeon,
    /// Run a road home without changing the square.
    DrawRoad,
    /// Top the waterskin up from a well.
    RefillWater,
    /// This setpiece is played out; the square stops offering it.
    MarkVisited,
    /// A mine, handed to the village on a safe return.
    GrantBuilding(Building),
    /// The crashed starship: the ship tab opens on a safe return.
    FoundShip,
    /// Drink an outpost dry.
    UseOutpost,
    /// The city falls, and the soldiers come looking.
    ClearCity,
    /// The entrance turret is down and the strange device is taken.
    EnterBattleship,
    /// One of the three decks is picked clean.
    ClearDeck(Deck),
    /// The battleship's regenerative machines: back to full health.
    HealFull,
}

/// One row of the event modal.
#[derive(Clone, Copy, Debug, PartialEq, Eq, Structural)]
pub enum Row {
    Button(usize),
    Attack(Weapon),
    Eat,
    Meds,
    /// A hypo out of the fabricator: the same shape as medicine, more of it.
    Hypo,
    /// A stim: halves attack cooldowns for a few seconds, at a cost in blood.
    Stim,
    /// The kinetic armour's shield: absorb and heal the next hit taken.
    Shield,
    /// Take one of the loot row at this index.
    Take(usize),
    /// Take everything that fits.
    TakeAll,
    /// Drop `count` of `item` from the pack to fit the target loot.
    Drop { item: Resource, count: i64 },
    /// Cancel drop selection.
    DropCancel,
    Leave,
}

/// A rolled loot row waiting to be picked up.
#[derive(Clone, Copy, Debug, PartialEq, Eq, Structural)]
pub struct LootRow {
    pub item: Resource,
    pub left: i64,
}

/// What acting on the modal did.
#[derive(Clone, Copy, Debug, PartialEq, Eq, Structural)]
pub enum Outcome {
    /// The modal stays up.
    Continue,
    /// The modal is finished.
    Done,
    /// The wanderer died out there.
    Died,
}

// ---------------------------------------------------------------------------
// Reading the save
// ---------------------------------------------------------------------------

/// How much of something is to hand: the pack out in the world, the store
/// room at home.
pub open spec fn quantity_of(game: Game, trip: Option<Expedition>, item: Resource) -> int {
    match trip {
        Some(t) => t.carried(item),
        None => game.stock(item),
    }
}

/// How much of something is to hand.
pub fn quantity(game: &Game, trip: &Option<Expedition>, item: Resource) -> (r: i64)
    requires
        game.wf(),
        trip matches Some(t) ==> t.wf(),
    ensures
        r == quantity_of(*game, *trip, item),
{
    match trip {
        Some(t) => t.carrying(item),
        None => game.store(item),
    }
}

/// Whether a condition holds right now.
pub open spec fn holds_spec(condition: Condition, game: Game, trip: Option<Expedition>, view: View) -> bool {
    match condition {
        Condition::InRoom => view == View::Room,
        Condition::InOutside => view == View::Outside,
        Condition::InVillage => view == View::Room || view == View::Outside,
        Condition::HasStore(item) => game.stock(item) > 0,
        Condition::StoreAtLeast(item, n) => game.stock(item) >= n,
        Condition::StoreBelow(item, n) => game.stock(item) < n,
        Condition::HutsAtLeast(n) => game.count(Building::Hut) >= n,
        Condition::HutsBelow(n) => game.count(Building::Hut) < n,
        Condition::PopulationOver(n) => game.population > n,
        Condition::PopulationBelow(n) => game.population < n,
        Condition::WorldUnlocked => game.path_unlocked,
        Condition::CityCleared => game.city_cleared,
        Condition::ThievesActive => game.thieves == Thieves::Active,
        Condition::LacksPerk(perk) => !game.perk(perk),
        Condition::MapNotFull => !game.seen_all_map,
        Condition::HasTrap => game.count(Building::Trap) > 0,
        Condition::DistanceAtMost(n) => trip matches Some(t) && model::distance_from_home(
            t.x as int,
            t.y as int,
        ) <= n,
        Condition::DistanceOver(n) => trip matches Some(t) && model::distance_from_home(
            t.x as int,
            t.y as int,
        ) > n,
        Condition::TerrainIs(tile) => trip matches Some(t) && t.map.tile_at(t.x as int, t.y as int)
            == tile,
        Condition::DeckPending(deck) => trip matches Some(t) && !t.battleship.decks@.contains(deck),
        Condition::DecksClear => trip matches Some(t) && t.battleship.decks@.contains(Deck::Engineering)
            && t.battleship.decks@.contains(Deck::Medical) && t.battleship.decks@.contains(Deck::Martial),
    }
}

/// Whether a condition holds right now.
pub fn holds(condition: Condition, game: &Game, trip: &Option<Expedition>, view: View) -> (r: bool)
    requires
        game.wf(),
        trip matches Some(t) ==> t.wf(),
    ensures
        r == holds_spec(condition, *game, *trip, view),
{
    match condition {
        Condition::InRoom => view == View::Room,
        Condition::InOutside => view == View::Outside,
        Condition::InVillage => view == View::Room || view == View::Outside,
        Condition::HasStore(item) => game.store(item) > 0,
        Condition::StoreAtLeast(item, n) => game.store(item) >= n,
        Condition::StoreBelow(item, n) => game.store(item) < n,
        Condition::HutsAtLeast(n) => game.building_count(Building::Hut) >= n,
        Condition::HutsBelow(n) => game.building_count(Building::Hut) < n,
        Condition::PopulationOver(n) => game.population > n,
        Condition::PopulationBelow(n) => game.population < n,
        Condition::WorldUnlocked => game.path_unlocked,
        Condition::CityCleared => game.city_cleared,
        Condition::ThievesActive => game.thieves == Thieves::Active,
        Condition::LacksPerk(perk) => !game.has_perk(perk),
        Condition::MapNotFull => !game.seen_all_map,
        Condition::HasTrap => game.building_count(Building::Trap) > 0,
        Condition::DistanceAtMost(n) => match trip {
            Some(t) => t.distance_wide() <= n as i64,
            None => false,
        },
        Condition::DistanceOver(n) => match trip {
            Some(t) => t.distance_wide() > n as i64,
            None => false,
        },
        Condition::TerrainIs(tile) => match trip {
            Some(t) => t.map.tile(t.x, t.y) == tile,
            None => false,
        },
        Condition::DeckPending(deck) => match trip {
            Some(t) => !t.battleship.decks.contains(&deck),
            None => false,
        },
        Condition::DecksClear => match trip {
            Some(t) => t.battleship.decks_clear(),
            None => false,
        },
    }
}

/// Whether a cost is waived outright: the glow stone's light never goes
/// out, so anything that would burn a torch is free while it is to hand.
pub open spec fn waived_spec(cost: Cost, game: Game, trip: Option<Expedition>) -> bool {
    (cost matches Cost::Store(item, _) && item == Resource::Torch) && quantity_of(
        game,
        trip,
        Resource::Glowstone,
    ) > 0
}

fn waived(cost: Cost, game: &Game, trip: &Option<Expedition>) -> (r: bool)
    requires
        game.wf(),
        trip matches Some(t) ==> t.wf(),
    ensures
        r == waived_spec(cost, *game, *trip),
{
    match cost {
        Cost::Store(Resource::Torch, _) => quantity(game, trip, Resource::Glowstone) > 0,
        _ => false,
    }
}

/// Whether a cost can be paid. Health must stay above the cost: a cost may
/// never be the killing blow.
pub open spec fn affordable_spec(cost: Cost, game: Game, trip: Option<Expedition>) -> bool {
    waived_spec(cost, game, trip) || match cost {
        Cost::Store(item, amount) => quantity_of(game, trip, item) >= amount,
        Cost::Water(amount) => trip matches Some(t) && t.water >= amount,
        Cost::Hp(amount) => trip matches Some(t) && t.hp > amount,
    }
}

/// Whether a cost can be paid.
pub fn affordable(cost: Cost, game: &Game, trip: &Option<Expedition>) -> (r: bool)
    requires
        game.wf(),
        trip matches Some(t) ==> t.wf(),
    ensures
        r == affordable_spec(cost, *game, *trip),
{
    if waived(cost, game, trip) {
        return true;
    }
    match cost {
        Cost::Store(item, amount) => quantity(game, trip, item) >= amount,
        Cost::Water(amount) => match trip {
            Some(t) => t.water >= amount,
            None => false,
        },
        Cost::Hp(amount) => match trip {
            Some(t) => t.hp > amount,
            None => false,
        },
    }
}

// ---------------------------------------------------------------------------
// Paying and fighting
// ---------------------------------------------------------------------------

/// Pay a cost, out of the pack in the world or the store room at home. A
/// waived cost takes nothing.
pub fn spend(cost: Cost, game: &mut Game, trip: &mut Option<Expedition>)
    requires
        old(game).wf(),
        *old(trip) matches Some(t) ==> t.wf(),
        cost matches Cost::Store(item, amount) ==> model::fits_i64(
            quantity_of(*old(game), *old(trip), item) - amount,
        ),
        cost matches Cost::Water(amount) ==> (*old(trip) matches Some(t) ==> model::fits_i64(t.water - amount)),
        cost matches Cost::Hp(amount) ==> (*old(trip) matches Some(t) ==> model::fits_i64(t.hp - amount)),
    ensures
        final(game).wf(),
        *final(trip) matches Some(t) ==> t.wf(),
        waived_spec(cost, *old(game), *old(trip)) ==> *final(game) == *old(game) && *final(trip) == *old(trip),
        !waived_spec(cost, *old(game), *old(trip)) ==> match cost {
            Cost::Store(item, amount) => match *old(trip) {
                Some(t) => *final(game) == *old(game) && (*final(trip) matches Some(t2) && t2 == (Expedition {
                    outfit: t2.outfit,
                    ..t
                }) && t2.outfit@ == add_held(t.outfit@, item, -amount)),
                None => *final(trip) is None && final(game).stores@ == add_held(
                    old(game).stores@,
                    item,
                    -amount,
                ) && *final(game) == (Game { stores: final(game).stores, ..*old(game) }),
            },
            Cost::Water(amount) => *final(game) == *old(game) && match *old(trip) {
                Some(t) => *final(trip) == Some(
                    Expedition { water: model::clamp0(t.water - amount) as i64, ..t },
                ),
                None => *final(trip) is None,
            },
            Cost::Hp(amount) => *final(game) == *old(game) && match *old(trip) {
                Some(t) => *final(trip) == Some(Expedition { hp: model::clamp0(t.hp - amount) as i64, ..t }),
                None => *final(trip) is None,
            },
        },
{
    if waived(cost, game, trip) {
        return;
    }
    match cost {
        Cost::Store(item, amount) => match trip {
            Some(t) => t.add(item, -amount),
            None => game.add_store(item, -amount),
        },
        Cost::Water(amount) => match trip {
            Some(t) => {
                let left = t.water - amount;
                t.water = if left < 0 {
                    0
                } else {
                    left
                };
            },
            None => {},
        },
        Cost::Hp(amount) => match trip {
            Some(t) => {
                let left = t.hp - amount;
                t.hp = if left < 0 {
                    0
                } else {
                    left
                };
            },
            None => {},
        },
    }
}

/// Whether a weapon has the ammunition to fire.
pub open spec fn loaded(weapon: Weapon, game: Game, trip: Option<Expedition>) -> bool {
    match world_data::weapon_cost(weapon) {
        Some((ammo, amount)) => quantity_of(game, trip, ammo) >= amount,
        None => true,
    }
}

/// Whether a weapon has the ammunition to fire.
pub fn weapon_loaded(weapon: Weapon, game: &Game, trip: &Option<Expedition>) -> (r: bool)
    requires
        game.wf(),
        trip matches Some(t) ==> t.wf(),
    ensures
        r == loaded(weapon, *game, *trip),
{
    match weapon.cost() {
        Some((ammo, amount)) => quantity(game, trip, ammo) >= amount,
        None => true,
    }
}

/// Every weapon, in listing order.
pub open spec fn weapon_list() -> Seq<Weapon> {
    seq![
        Weapon::Fists,
        Weapon::BoneSpear,
        Weapon::IronSword,
        Weapon::SteelSword,
        Weapon::Bayonet,
        Weapon::Rifle,
        Weapon::LaserRifle,
        Weapon::Grenade,
        Weapon::Bolas,
    ]
}

/// Whether a weapon is in the pack (fists never are: they are always there).
pub open spec fn in_hand(w: Weapon, game: Game, trip: Option<Expedition>) -> bool {
    w != Weapon::Fists && (world_data::weapon_item(w) matches Some(item) && quantity_of(game, trip, item) > 0)
}

/// The carried weapons among the first `n` in listing order.
pub open spec fn carried_weapons(game: Game, trip: Option<Expedition>, n: nat) -> Seq<Weapon>
    decreases n,
{
    if n == 0 {
        seq![]
    } else {
        let w = weapon_list()[n - 1];
        let prev = carried_weapons(game, trip, (n - 1) as nat);
        if in_hand(w, game, trip) {
            prev.push(w)
        } else {
            prev
        }
    }
}

/// Whether a weapon does damage and can fire right now.
pub open spec fn strikes(w: Weapon, game: Game, trip: Option<Expedition>) -> bool {
    (world_data::weapon_damage(w) matches Damage::Hits(h) && h > 0) && loaded(w, game, trip)
}

/// The weapons the pack can actually swing: everything carried, and fists
/// last when nothing carried can do damage right now.
pub open spec fn armed(game: Game, trip: Option<Expedition>) -> Seq<Weapon> {
    let ws = carried_weapons(game, trip, 9);
    if exists|i: int| 0 <= i < ws.len() && #[trigger] strikes(ws[i], game, trip) {
        ws
    } else {
        ws.push(Weapon::Fists)
    }
}

fn weapon_at(i: usize) -> (w: Weapon)
    requires
        i < 9,
    ensures
        w == weapon_list()[i as int],
{
    match i {
        0 => Weapon::Fists,
        1 => Weapon::BoneSpear,
        2 => Weapon::IronSword,
        3 => Weapon::SteelSword,
        4 => Weapon::Bayonet,
        5 => Weapon::Rifle,
        6 => Weapon::LaserRifle,
        7 => Weapon::Grenade,
        _ => Weapon::Bolas,
    }
}

/// The weapons the pack can swing, fists last if nothing carried can do
/// damage.
pub fn available_weapons(game: &Game, trip: &Option<Expedition>) -> (r: Vec<Weapon>)
    requires
        game.wf(),
        trip matches Some(t) ==> t.wf(),
    ensures
        r@ == armed(*game, *trip),
{
    let mut weapons: Vec<Weapon> = Vec::new();
    let mut i: usize = 0;
    while i < 9
        invariant
            i <= 9,
            game.wf(),
            trip matches Some(t) ==> t.wf(),
            weapons@ == carried_weapons(*game, *trip, i as nat),
        decreases 9 - i,
    {
        let w = weapon_at(i);
        if w != Weapon::Fists {
            match w.item() {
                Some(item) => {
                    if quantity(game, trip, item) > 0 {
                        weapons.push(w);
                    }
                },
                None => {},
            }
        }
        i = i + 1;
    }
    let mut usable = false;
    let mut k: usize = 0;
    while k < weapons.len()
        invariant
            k <= weapons@.len(),
            game.wf(),
            trip matches Some(t) ==> t.wf(),
            usable == exists|j: int| 0 <= j < k && #[trigger] strikes(weapons@[j], *game, *trip),
        decreases weapons@.len() - k,
    {
        let w = weapons[k];
        let hits = match w.damage() {
            Damage::Hits(h) => h > 0,
            Damage::Stun => false,
        };
        if hits && weapon_loaded(w, game, trip) {
            usable = true;
            assert(strikes(weapons@[k as int], *game, *trip));
        }
        k = k + 1;
    }
    if !usable {
        weapons.push(Weapon::Fists);
    }
    weapons
}

/// The perks that move a hit: the unarmed ones double, triple and double a
/// punch again, and the barbarian adds half to a melee blow.
pub open spec fn perk_damage_spec(base: int, kind: WeaponKind, game: Game) -> int {
    match kind {
        WeaponKind::Unarmed => base * (if game.perk(Perk::Boxer) {
            2int
        } else {
            1int
        }) * (if game.perk(Perk::MartialArtist) {
            3int
        } else {
            1int
        }) * (if game.perk(Perk::UnarmedMaster) {
            2int
        } else {
            1int
        }),
        WeaponKind::Melee => if game.perk(Perk::Barbarian) {
            base + base / 2
        } else {
            base
        },
        WeaponKind::Ranged => base,
    }
}

/// The perks that move a number on the way out.
pub fn perk_damage(base: i64, kind: WeaponKind, game: &Game) -> (r: i64)
    requires
        game.wf(),
        i64::MIN <= perk_damage_spec(base as int, kind, *game) <= i64::MAX,
    ensures
        r == perk_damage_spec(base as int, kind, *game),
{
    let mut damage = base;
    match kind {
        WeaponKind::Unarmed => {
            let ghost b = base as int;
            let ghost f1: int = if game.perk(Perk::Boxer) {
                2
            } else {
                1
            };
            let ghost f2: int = if game.perk(Perk::MartialArtist) {
                3
            } else {
                1
            };
            let ghost f3: int = if game.perk(Perk::UnarmedMaster) {
                2
            } else {
                1
            };
            assert(perk_damage_spec(base as int, kind, *game) == b * f1 * f2 * f3);
            assert(-0x8000_0000_0000_0000 <= b * f1 <= 0x7fff_ffff_ffff_ffff && -0x8000_0000_0000_0000
                <= b * f1 * f2 <= 0x7fff_ffff_ffff_ffff) by (nonlinear_arith)
                requires
                    -0x8000_0000_0000_0000 <= b * f1 * f2 * f3 <= 0x7fff_ffff_ffff_ffff,
                    1 <= f1 <= 3,
                    1 <= f2 <= 3,
                    1 <= f3 <= 3,
            ;
            if game.has_perk(Perk::Boxer) {
                damage = damage * 2;
            }
            if game.has_perk(Perk::MartialArtist) {
                damage = damage * 3;
            }
            if game.has_perk(Perk::UnarmedMaster) {
                damage = damage * 2;
            }
        },
        WeaponKind::Melee => {
            if game.has_perk(Perk::Barbarian) {
                let half = if damage >= 0 {
                    damage / 2
                } else {
                    (damage - 1) / 2
                };
                assert(half == (base as int) / 2);
                damage = damage + half;
            }
        },
        WeaponKind::Ranged => {},
    }
    damage
}

/// The perk a punch count teaches.
pub open spec fn fist_lesson(punches: u32) -> Option<Perk> {
    if punches == 50 {
        Some(Perk::Boxer)
    } else if punches == 150 {
        Some(Perk::MartialArtist)
    } else if punches == 300 {
        Some(Perk::UnarmedMaster)
    } else {
        None
    }
}

/// Throwing enough punches teaches you how to throw them.
pub fn train_fists(game: &mut Game, out: &mut Vec<String>)
    requires
        old(game).wf(),
    ensures
        final(game).wf(),
        ({
            let punches = if old(game).punches < u32::MAX {
                (old(game).punches + 1) as u32
            } else {
                u32::MAX
            };
            &&& *final(game) == (Game { punches, perks: final(game).perks, ..*old(game) })
            &&& final(game).perks@ == match fist_lesson(punches) {
                Some(p) => old(game).perks@.insert(p),
                None => old(game).perks@,
            }
            &&& texts(final(out)@) == texts(old(out)@) + match fist_lesson(punches) {
                Some(p) => if !old(game).perk(p) {
                    seq![data::perk_notify(p)]
                } else {
                    Seq::<Seq<char>>::empty()
                },
                None => Seq::<Seq<char>>::empty(),
            }
        }),
{
    let ghost m0 = texts(old(out)@);
    game.punches = if game.punches < u32::MAX {
        game.punches + 1
    } else {
        u32::MAX
    };
    let learned = if game.punches == 50 {
        Some(Perk::Boxer)
    } else if game.punches == 150 {
        Some(Perk::MartialArtist)
    } else if game.punches == 300 {
        Some(Perk::UnarmedMaster)
    } else {
        None
    };
    match learned {
        Some(perk) => {
            if game.add_perk(perk) {
                say(out, perk.notify());
            } else {
                assert(m0 + Seq::<Seq<char>>::empty() =~= m0);
            }
        },
        None => {
            assert(m0 + Seq::<Seq<char>>::empty() =~= m0);
        },
    }
}

// ---------------------------------------------------------------------------
// Losing villagers
// ---------------------------------------------------------------------------

/// How many villagers work the trades from the `i`-th job on, in key order.
pub open spec fn on_trades_from(w: Map<Job, u32>, i: nat) -> int
    decreases 9 - i,
{
    if i >= 9 {
        0
    } else {
        held_u(w, Job::from_key(i)) + on_trades_from(w, i + 1)
    }
}

/// Take `gap` villagers off the trades, emptying the jobs in key order from
/// the `i`-th and trimming the first one that has more than is still owed.
pub open spec fn drained(w: Map<Job, u32>, gap: int, i: nat) -> Map<Job, u32>
    decreases 9 - i,
{
    if i >= 9 || gap <= 0 {
        w
    } else {
        let j = Job::from_key(i);
        if !w.contains_key(j) {
            drained(w, gap, i + 1)
        } else if w[j] <= gap {
            drained(w.insert(j, 0), gap - w[j], i + 1)
        } else {
            w.insert(j, (w[j] - gap) as u32)
        }
    }
}

proof fn lemma_trades_nonneg(w: Map<Job, u32>, i: nat)
    ensures
        on_trades_from(w, i) >= 0,
    decreases 9 - i,
{
    if i < 9 {
        lemma_trades_nonneg(w, i + 1);
    }
}

proof fn lemma_trades_frame(w1: Map<Job, u32>, w2: Map<Job, u32>, i: nat)
    requires
        forall|k: nat| i <= k < 9 ==> held_u(w1, #[trigger] Job::from_key(k)) == held_u(w2, Job::from_key(k)),
    ensures
        on_trades_from(w1, i) == on_trades_from(w2, i),
    decreases 9 - i,
{
    if i < 9 {
        assert(held_u(w1, Job::from_key(i)) == held_u(w2, Job::from_key(i)));
        lemma_trades_frame(w1, w2, i + 1);
    }
}

proof fn lemma_drained_frame(w: Map<Job, u32>, gap: int, i: nat, k: nat)
    requires
        k < i,
    ensures
        drained(w, gap, i).contains_key(Job::from_key(k)) == w.contains_key(Job::from_key(k)),
        held_u(drained(w, gap, i), Job::from_key(k)) == held_u(w, Job::from_key(k)),
    decreases 9 - i,
{
    if i >= 9 || gap <= 0 {
    } else {
        let j = Job::from_key(i);
        Job::key_roundtrip(k);
        Job::key_roundtrip(i);
        assert(Job::from_key(k) != j);
        if !w.contains_key(j) {
            lemma_drained_frame(w, gap, i + 1, k);
        } else if w[j] <= gap {
            lemma_drained_frame(w.insert(j, 0), gap - w[j], i + 1, k);
        }
    }
}

proof fn lemma_drained_sum(w: Map<Job, u32>, gap: int, i: nat)
    requires
        gap >= 0,
        i <= 9,
    ensures
        on_trades_from(drained(w, gap, i), i) == if on_trades_from(w, i) > gap {
            on_trades_from(w, i) - gap
        } else {
            0
        },
    decreases 9 - i,
{
    lemma_trades_nonneg(w, i);
    lemma_trades_nonneg(w, i + 1);
    if i >= 9 || gap <= 0 {
    } else {
        let j = Job::from_key(i);
        let res = drained(w, gap, i);
        lemma_drained_frame(w, gap, i + 1, i);
        assert forall|k: nat| i + 1 <= k < 9 implies held_u(w.insert(j, 0), #[trigger] Job::from_key(k))
            == held_u(w, Job::from_key(k)) by {
            Job::key_roundtrip(k);
            Job::key_roundtrip(i);
        }
        if !w.contains_key(j) {
            lemma_drained_sum(w, gap, i + 1);
        } else if w[j] <= gap {
            let w1 = w.insert(j, 0);
            lemma_drained_sum(w1, gap - w[j], i + 1);
            lemma_drained_frame(w1, gap - w[j], i + 1, i);
            lemma_trades_frame(w1, w, i + 1);
            lemma_trades_nonneg(w, i + 1);
        } else {
            let w1 = w.insert(j, (w[j] - gap) as u32);
            assert forall|k: nat| i + 1 <= k < 9 implies held_u(w1, #[trigger] Job::from_key(k)) == held_u(
                w,
                Job::from_key(k),
            ) by {
                Job::key_roundtrip(k);
                Job::key_roundtrip(i);
            }
            lemma_trades_frame(w1, w, i + 1);
            assert(res == w1);
            assert(on_trades_from(res, i) == held_u(w1, j) + on_trades_from(w1, i + 1));
        }
    }
}

proof fn lemma_assigned_is_trades(w: Map<Job, u32>)
    ensures
        assigned_in(w) == on_trades_from(w, 0),
{
    reveal_with_fuel(on_trades_from, 10);
}

/// Take `gap` villagers off the trades, first job first.
fn drain_workers(workers: &mut EnumMap<Job, u32>, gap: u32)
    requires
        old(workers).wf(),
    ensures
        final(workers).wf(),
        final(workers)@ == drained(old(workers)@, gap as int, 0),
{
    let ghost target = drained(old(workers)@, gap as int, 0);
    let mut owed = gap;
    let mut i: usize = 0;
    while i < 9
        invariant
            i <= 9,
            workers.wf(),
            target == drained(workers@, owed as int, i as nat),
        decreases 9 - i,
    {
        let job = Job::from_index(i);
        if owed > 0 {
            match workers.get(&job) {
                Some(n) => {
                    let count = *n;
                    if count <= owed {
                        workers.insert(job, 0);
                        owed = owed - count;
                    } else {
                        workers.insert(job, count - owed);
                        owed = 0;
                    }
                },
                None => {},
            }
        }
        i = i + 1;
    }
}

/// Villagers die, and the trades give up whoever is left over. Afterwards no
/// more villagers are on trades than are alive, and nobody was put on one.
pub fn kill_villagers(game: &mut Game, num: u32)
    requires
        old(game).wf(),
        old(game).assigned() <= u32::MAX,
    ensures
        final(game).wf(),
        final(game).population == if old(game).population > num {
            old(game).population - num
        } else {
            0
        },
        final(game).workers@ == drained(
            old(game).workers@,
            old(game).assigned() - final(game).population,
            0,
        ),
        *final(game) == (Game {
            population: final(game).population,
            workers: final(game).workers,
            ..*old(game)
        }),
        final(game).assigned() == if old(game).assigned() <= final(game).population {
            old(game).assigned()
        } else {
            final(game).population as int
        },
{
    let assigned = game.assigned_count();
    let left = if game.population > num {
        game.population - num
    } else {
        0
    };
    game.population = left;
    if assigned > left {
        drain_workers(&mut game.workers, assigned - left);
    }
    proof {
        lemma_assigned_is_trades(old(game).workers@);
        lemma_assigned_is_trades(game.workers@);
        lemma_drained_sum(old(game).workers@, if assigned > left { assigned - left } else { 0 }, 0);
    }
}

// ---------------------------------------------------------------------------
// Effects on the village
// ---------------------------------------------------------------------------

/// The tenth of the wood a raid takes, never less than one.
pub open spec fn wood_taken(wood: int) -> int {
    if wood / 10 >= 1 {
        wood / 10
    } else {
        1
    }
}

/// What a raid leaves in exchange: a fifth of what it took, at least one.
pub open spec fn wood_given(wood: int) -> int {
    if wood_taken(wood) / 5 >= 1 {
        wood_taken(wood) / 5
    } else {
        1
    }
}

/// The store room after a raid that swaps wood for `resource`.
pub open spec fn traded(stores: Map<Resource, i64>, resource: Resource) -> Map<Resource, i64> {
    let wood = held(stores, Resource::Wood);
    add_held(add_held(stores, Resource::Wood, -wood_taken(wood)), resource, wood_given(wood))
}

/// Add to one store of the room (or take from it), never below none.
fn add_to(stores: &mut EnumMap<Resource, i64>, resource: Resource, amount: i64)
    requires
        old(stores).wf(),
        model::fits_i64(held(old(stores)@, resource) + amount),
    ensures
        final(stores).wf(),
        final(stores)@ == add_held(old(stores)@, resource, amount as int),
{
    let have = match stores.get(&resource) {
        Some(n) => *n,
        None => 0,
    };
    let sum = have + amount;
    stores.insert(
        resource,
        if sum < 0 {
            0
        } else {
            sum
        },
    );
}

fn trade_wood(game: &mut Game, resource: Resource)
    requires
        old(game).wf(),
        old(game).stock(resource) + wood_given(old(game).stock(Resource::Wood)) <= i64::MAX,
    ensures
        final(game).wf(),
        final(game).stores@ == traded(old(game).stores@, resource),
        *final(game) == (Game { stores: final(game).stores, ..*old(game) }),
{
    let wood = game.store(Resource::Wood);
    proof {
        if old(game).stores@.contains_key(Resource::Wood) {
            assert(old(game).stores@[Resource::Wood] >= 0);
        }
        if old(game).stores@.contains_key(resource) {
            assert(old(game).stores@[resource] >= 0);
        }
    }
    let tenth: u64 = (wood as u64) / 10;
    let taken: u64 = if tenth >= 1 {
        tenth
    } else {
        1
    };
    let given: u64 = if taken / 5 >= 1 {
        taken / 5
    } else {
        1
    };
    add_to(&mut game.stores, Resource::Wood, -(taken as i64));
    proof {
        assert(held(game.stores@, resource) <= old(game).stock(resource));
    }
    add_to(&mut game.stores, resource, given as i64);
    proof {
        assert(nonneg(game.stores@));
    }
}

/// The huts after one more is put up, up to twenty.
pub open spec fn hut_added(b: Map<Building, u32>) -> Map<Building, u32> {
    if held_u(b, Building::Hut) < 20 {
        b.insert(Building::Hut, (held_u(b, Building::Hut) + 1) as u32)
    } else {
        b
    }
}

/// The traps after a wreck: at least one goes, and on a bad draw all of them.
pub open spec fn traps_wrecked(b: Map<Building, u32>, d: u64) -> Map<Building, u32> {
    let t = held_u(b, Building::Trap);
    if t == 0 {
        b
    } else {
        b.insert(Building::Trap, (t - chance::scaled(d, t) - 1) as u32)
    }
}

fn wreck_traps(game: &mut Game, rng: &mut StdRng)
    requires
        old(game).wf(),
    ensures
        final(game).wf(),
        exists|d: u64| final(game).buildings@ == #[trigger] traps_wrecked(old(game).buildings@, d),
        *final(game) == (Game { buildings: final(game).buildings, ..*old(game) }),
{
    let traps = game.building_count(Building::Trap);
    if traps == 0 {
        assert(game.buildings@ == traps_wrecked(old(game).buildings@, 0));
        return;
    }
    let d = draw(rng);
    let wrecked = chance::draw_scaled(d, traps as u64) + 1;
    game.buildings.insert(Building::Trap, traps - wrecked as u32);
    assert(game.buildings@ == traps_wrecked(old(game).buildings@, d));
}

/// How many villagers a disaster takes on a given draw.
pub open spec fn kill_count(kill: Kill, population: u32, d: u64) -> int {
    match kill {
        Kill::Range(low, high) => chance::scaled(d, high - low) + low,
        Kill::HalfPopulation => chance::scaled(d, (population / 2) as int) + 1,
    }
}

/// `after` is `before` with `n` villagers dead and the trades trimmed to fit.
pub open spec fn killed_by(before: Game, after: Game, n: int) -> bool {
    let left = if before.population > n {
        before.population - n
    } else {
        0
    };
    &&& after.population == left
    &&& after.workers@ == drained(before.workers@, before.assigned() - left, 0)
    &&& after == (Game { population: after.population, workers: after.workers, ..before })
}

fn kill_some(game: &mut Game, kill: Kill, rng: &mut StdRng)
    requires
        old(game).wf(),
        old(game).assigned() <= u32::MAX,
        kill matches Kill::Range(low, high) ==> low <= high,
    ensures
        final(game).wf(),
        exists|d: u64| killed_by(*old(game), *final(game), #[trigger] kill_count(kill, old(game).population, d)),
{
    let d = draw(rng);
    let num: u32 = match kill {
        Kill::Range(low, high) => (chance::draw_scaled(d, (high - low) as u64) as u32) + low,
        Kill::HalfPopulation => (chance::draw_scaled(d, (game.population / 2) as u64) as u32) + 1,
    };
    assert(num == kill_count(kill, old(game).population, d));
    kill_villagers(game, num);
}

/// What a fire reads and changes: the villagers, the huts, and the trades.
pub open spec fn village_of(g: Game) -> (int, int, Map<Job, u32>) {
    (g.population as int, g.count(Building::Hut), g.workers@)
}

/// `n` villagers dead, and the trades trimmed to the living.
pub open spec fn cut_down(v: (int, int, Map<Job, u32>), n: int) -> (int, int, Map<Job, u32>) {
    let left = if v.0 > n {
        v.0 - n
    } else {
        0
    };
    (left, v.1, drained(v.2, assigned_in(v.2) - left, 0))
}

/// Which hut a fire picks on a draw, counting from one over the huts the
/// villagers fill (the last one perhaps partly).
pub open spec fn fire_target(population: int, d: u64) -> int {
    chance::scaled(d, (population + data::HUT_ROOM - 1) / (data::HUT_ROOM as int)) + 1
}

/// Who sleeps in the `target`-th hut: a full hut, the remainder, or nobody.
pub open spec fn asleep_in(population: int, target: int) -> int {
    let full = population / (data::HUT_ROOM as int);
    if target <= full {
        data::HUT_ROOM as int
    } else if target == full + 1 {
        population % (data::HUT_ROOM as int)
    } else {
        0
    }
}

/// A fire has nothing left to take: no villagers, or no huts.
pub open spec fn fire_out(v: (int, int, Map<Job, u32>)) -> bool {
    v.0 == 0 || v.1 == 0
}

/// One hut burns on a draw, with whoever slept in it.
pub open spec fn burn_one(v: (int, int, Map<Job, u32>), d: u64) -> (int, int, Map<Job, u32>) {
    let n = asleep_in(v.0, fire_target(v.0, d));
    let standing = (v.0, v.1 - 1, v.2);
    if n > 0 {
        cut_down(standing, n)
    } else {
        standing
    }
}

/// Huts burn one per draw.
pub open spec fn burn_all(v: (int, int, Map<Job, u32>), ds: Seq<u64>) -> (int, int, Map<Job, u32>)
    decreases ds.len(),
{
    if ds.len() == 0 {
        v
    } else {
        burn_one(burn_all(v, ds.drop_last()), ds.last())
    }
}

/// `after` is `before` once a fire of `count` huts has run on the draws `ds`:
/// one hut per draw, stopping early only when the fire is out.
pub open spec fn burned(before: Game, after: Game, count: int, ds: Seq<u64>) -> bool {
    let v0 = village_of(before);
    &&& ds.len() <= count
    &&& village_of(after) == burn_all(v0, ds)
    &&& forall|i: int| 0 <= i < ds.len() ==> !fire_out(#[trigger] burn_all(v0, ds.take(i)))
    &&& (ds.len() < count ==> fire_out(village_of(after)))
    &&& after.buildings@ == if ds.len() == 0 {
        before.buildings@
    } else {
        before.buildings@.insert(Building::Hut, after.count(Building::Hut) as u32)
    }
    &&& after == (Game {
        population: after.population,
        workers: after.workers,
        buildings: after.buildings,
        ..before
    })
}

/// Fire takes huts, and whoever was asleep in them.
fn destroy_huts(game: &mut Game, count: u32, rng: &mut StdRng)
    requires
        old(game).wf(),
        old(game).assigned() <= u32::MAX,
    ensures
        final(game).wf(),
        exists|ds: Seq<u64>| burned(*old(game), *final(game), count as int, ds),
{
    let ghost v0 = village_of(*old(game));
    let ghost mut ds: Seq<u64> = Seq::empty();
    let mut k: u32 = 0;
    let mut out = false;
    while k < count && !out
        invariant
            k <= count,
            k == ds.len(),
            v0 == village_of(*old(game)),
            game.wf(),
            game.assigned() <= u32::MAX,
            village_of(*game) == burn_all(v0, ds),
            forall|i: int| 0 <= i < ds.len() ==> !fire_out(#[trigger] burn_all(v0, ds.take(i))),
            out ==> fire_out(village_of(*game)),
            game.buildings@ == if ds.len() == 0 {
                old(game).buildings@
            } else {
                old(game).buildings@.insert(Building::Hut, game.count(Building::Hut) as u32)
            },
            *game == (Game {
                population: game.population,
                workers: game.workers,
                buildings: game.buildings,
                ..*old(game)
            }),
        decreases count - k + (if out {
            0int
        } else {
            1int
        }),
    {
        let population = game.population;
        let standing = game.building_count(Building::Hut);
        let full = population / data::HUT_ROOM;
        let huts = if population % data::HUT_ROOM > 0 {
            full + 1
        } else {
            full
        };
        if huts == 0 || standing == 0 {
            out = true;
        } else {
            let ghost before = *game;
            let d = draw(rng);
            let target = chance::draw_scaled(d, huts as u64) + 1;
            assert(huts == (population + data::HUT_ROOM - 1) / (data::HUT_ROOM as int));
            let inhabitants: u32 = if target <= full as u64 {
                data::HUT_ROOM
            } else if target == full as u64 + 1 {
                population % data::HUT_ROOM
            } else {
                0
            };
            assert(inhabitants == asleep_in(population as int, fire_target(population as int, d)));
            game.buildings.insert(Building::Hut, standing - 1);
            if inhabitants > 0 {
                kill_villagers(game, inhabitants);
            }
            proof {
                let ds1 = ds.push(d);
                assert(ds1.drop_last() =~= ds);
                assert forall|i: int| 0 <= i < ds1.len() implies !fire_out(#[trigger] burn_all(v0, ds1.take(i))) by {
                    if i < ds.len() {
                        assert(ds1.take(i) =~= ds.take(i));
                    } else {
                        assert(ds1.take(i) =~= ds);
                    }
                }
                ds = ds1;
            }
            k = k + 1;
        }
    }
    assert(burned(*old(game), *game, count as int, ds));
}

/// Whether no square of the map has been seen yet.
pub open spec fn all_dark(w: WorldMap) -> bool {
    forall|x: int, y: int| on_grid(x, y) ==> !#[trigger] w.seen_at(x, y)
}

/// Whether every square of the map has been seen.
pub open spec fn all_lit(w: WorldMap) -> bool {
    forall|x: int, y: int| on_grid(x, y) ==> #[trigger] w.seen_at(x, y)
}

/// Light a five-square patch around some square still dark, trying a
/// thousand squares at random before giving up. A map with nothing dark
/// left is left alone; on a map still wholly dark the first try lights.
fn light_somewhere(world: &mut WorldMap, rng: &mut StdRng)
    requires
        old(world).wf(),
    ensures
        final(world).wf(),
        *final(world) == *old(world) || exists|x: int, y: int|
            on_grid(x, y) && !old(world).seen_at(x, y) && #[trigger] world::lit(*old(world), *final(world), x, y, 5),
        all_lit(*old(world)) ==> *final(world) == *old(world),
        all_dark(*old(world)) ==> exists|x: int, y: int|
            on_grid(x, y) && #[trigger] world::lit(*old(world), *final(world), x, y, 5),
{
    let mut tries: u32 = 0;
    while tries < 1000
        invariant
            *world == *old(world),
            old(world).wf(),
            all_dark(*old(world)) ==> tries == 0,
        decreases 1000 - tries,
    {
        let x = chance::draw_scaled(draw(rng), GRID as u64) as i32;
        let y = chance::draw_scaled(draw(rng), GRID as u64) as i32;
        if !world.seen(x, y) {
            world::uncover(world, x, y, 5);
            assert(on_grid(x as int, y as int));
            return;
        }
        tries = tries + 1;
    }
}

/// What the scout's map does to the save: a patch of the dark lit, or
/// nothing when the tries all land on known ground, and the note of whether
/// the whole map is known kept up to date.
pub open spec fn map_uncovered(before: Game, after: Game) -> bool {
    match before.world {
        None => after == before,
        Some(w) => after.world matches Some(w2) && (w2 == w || exists|x: int, y: int|
            on_grid(x, y) && !w.seen_at(x, y) && #[trigger] world::lit(w, w2, x, y, 5))
            && after.seen_all_map == w2.all_seen_spec() && after == (Game {
            world: after.world,
            seen_all_map: after.seen_all_map,
            ..before
        }),
    }
}

/// The scout's map: light a five-square patch somewhere still dark.
fn uncover_random(game: &mut Game, rng: &mut StdRng)
    requires
        old(game).wf(),
    ensures
        final(game).wf(),
        map_uncovered(*old(game), *final(game)),
{
    let all = match &mut game.world {
        Some(world) => {
            light_somewhere(world, rng);
            world.all_seen()
        },
        None => {
            return;
        },
    };
    game.seen_all_map = all;
}

/// The store room with everything the thieves took put back.
pub open spec fn repaid(stores: Map<Resource, i64>, stolen: Map<Resource, i64>) -> Map<Resource, i64> {
    Map::new(
        |r: Resource| stores.contains_key(r) || stolen.contains_key(r),
        |r: Resource|
            if stolen.contains_key(r) {
                clamp0(held(stores, r) + stolen[r]) as i64
            } else {
                stores[r]
            },
    )
}

/// Dealing with the thieves: the skim stops for good, the tally is wiped,
/// the stores come back if they are paid back, and a lesson may be learned.
pub open spec fn thieves_settled(before: Game, after: Game, pay_back: bool, perk: Option<Perk>) -> bool {
    &&& after.thieves == Thieves::Dealt
    &&& after.stolen@ == Map::<Resource, i64>::empty()
    &&& after.stores@ == if pay_back {
        repaid(before.stores@, before.stolen@)
    } else {
        before.stores@
    }
    &&& after.perks@ == match perk {
        Some(p) => before.perks@.insert(p),
        None => before.perks@,
    }
    &&& after == (Game {
        thieves: after.thieves,
        stolen: after.stolen,
        stores: after.stores,
        perks: after.perks,
        ..before
    })
}

/// Whether paying the thieves' tally back keeps every store inside `i64`.
pub open spec fn repay_fits(game: Game) -> bool {
    forall|r: Resource| #[trigger] game.stolen@.contains_key(r) ==> model::fits_i64(game.stock(r) + game.stolen@[r])
}

fn pay_back_stolen(game: &mut Game)
    requires
        old(game).wf(),
        repay_fits(*old(game)),
    ensures
        final(game).wf(),
        final(game).stores@ == repaid(old(game).stores@, old(game).stolen@),
        *final(game) == (Game { stores: final(game).stores, ..*old(game) }),
{
    let n = Resource::count();
    let mut i: usize = 0;
    while i < n
        invariant
            i <= n,
            n == Resource::key_count(),
            game.wf(),
            repay_fits(*old(game)),
            *game == (Game { stores: game.stores, ..*old(game) }),
            forall|r: Resource|
                #![trigger game.stores@.contains_key(r)]
                game.stores@.contains_key(r) == (old(game).stores@.contains_key(r) || (
                old(game).stolen@.contains_key(r) && r.key() < i)),
            forall|r: Resource|
                #![trigger game.stores@[r]]
                game.stores@.contains_key(r) ==> game.stores@[r] == if old(game).stolen@.contains_key(r)
                    && r.key() < i {
                    clamp0(held(old(game).stores@, r) + old(game).stolen@[r]) as i64
                } else {
                    old(game).stores@[r]
                },
        decreases n - i,
    {
        let r = Resource::from_index(i);
        let owed = match game.stolen.get(&r) {
            Some(amount) => Some(*amount),
            None => None,
        };
        match owed {
            Some(amount) => {
                proof {
                    assert(old(game).stolen@.contains_key(r));
                    assert(game.stock(r) == old(game).stock(r));
                }
                game.add_store(r, amount);
                proof {
                    assert forall|q: Resource| q != r implies (#[trigger] q.key()) != i by {
                        Resource::key_injective(q, r);
                    }
                }
            },
            None => {
                proof {
                    assert forall|q: Resource| q != r implies (#[trigger] q.key()) != i by {
                        Resource::key_injective(q, r);
                    }
                }
            },
        }
        i = i + 1;
    }
    proof {
        assert forall|r: Resource| #[trigger] r.key() < i by {
            Resource::key_injective(r, r);
        }
        assert(game.stores@ =~= repaid(old(game).stores@, old(game).stolen@));
    }
}

fn settle_thieves(game: &mut Game, pay_back: bool, perk: Option<Perk>, out: &mut Vec<String>)
    requires
        old(game).wf(),
        pay_back ==> repay_fits(*old(game)),
    ensures
        final(game).wf(),
        thieves_settled(*old(game), *final(game), pay_back, perk),
        texts(final(out)@) == texts(old(out)@) + match perk {
            Some(p) => if !old(game).perk(p) {
                seq![data::perk_notify(p)]
            } else {
                Seq::<Seq<char>>::empty()
            },
            None => Seq::<Seq<char>>::empty(),
        },
{
    let ghost m0 = texts(old(out)@);
    game.thieves = Thieves::Dealt;
    if pay_back {
        pay_back_stolen(game);
    }
    game.stolen.clear();
    match perk {
        Some(p) => {
            if game.add_perk(p) {
                say(out, p.notify());
            } else {
                assert(m0 + Seq::<Seq<char>>::empty() =~= m0);
            }
        },
        None => {
            assert(m0 + Seq::<Seq<char>>::empty() =~= m0);
        },
    }
}

/// The wanderer's promise, rolled on a draw: on a win the reward is queued
/// for `delay_secs` from now.
pub open spec fn reward_rolled(
    before: Game,
    after: Game,
    d: u64,
    chance_pct: u32,
    resource: Resource,
    amount: i64,
    due: int,
    message: Seq<char>,
) -> bool {
    &&& after == (Game { pending_rewards: after.pending_rewards, ..before })
    &&& if chance::below(d, chance_pct as int, 100) {
        &&& after.pending_rewards@.len() == before.pending_rewards@.len() + 1
        &&& after.pending_rewards@.drop_last() == before.pending_rewards@
        &&& after.pending_rewards@.last().resource == resource
        &&& after.pending_rewards@.last().amount == amount
        &&& after.pending_rewards@.last().due == due
        &&& after.pending_rewards@.last().message@ == message
    } else {
        after.pending_rewards == before.pending_rewards
    }
}

/// Queue a payoff at the back of the line.
fn queue_reward(rewards: &mut Vec<PendingReward>, resource: Resource, amount: i64, due: i64, message: &str)
    ensures
        final(rewards)@.len() == old(rewards)@.len() + 1,
        final(rewards)@.drop_last() == old(rewards)@,
        final(rewards)@.last().resource == resource,
        final(rewards)@.last().amount == amount,
        final(rewards)@.last().due == due,
        final(rewards)@.last().message@ == message@,
{
    rewards.push(PendingReward { resource, amount, due, message: String::from_str(message) });
    assert(rewards@.drop_last() =~= old(rewards)@);
}

fn schedule_reward(
    game: &mut Game,
    chance_pct: u32,
    resource: Resource,
    amount: i64,
    delay_secs: u32,
    message: &str,
    now: i64,
    rng: &mut StdRng,
)
    requires
        old(game).wf(),
        now + delay_secs <= i64::MAX,
    ensures
        final(game).wf(),
        exists|d: u64|
            #[trigger] reward_rolled(
                *old(game),
                *final(game),
                d,
                chance_pct,
                resource,
                amount,
                now + delay_secs,
                message@,
            ),
{
    let d = draw(rng);
    if chance::draw_below(d, chance_pct as u64, 100) {
        queue_reward(&mut game.pending_rewards, resource, amount, now + delay_secs as i64, message);
    }
    assert(reward_rolled(*old(game), *game, d, chance_pct, resource, amount, now + delay_secs, message@));
}

// ---------------------------------------------------------------------------
// Applying an effect
// ---------------------------------------------------------------------------

/// The lines an effect adds to the log.
pub open spec fn effect_says(effect: Effect, game: Game, trip: Option<Expedition>) -> Seq<Seq<char>> {
    match effect {
        Effect::GrantPerk(p) => if !game.perk(p) {
            seq![data::perk_notify(p)]
        } else {
            Seq::empty()
        },
        Effect::SettleThieves { perk: Some(p), .. } => if !game.perk(p) {
            seq![data::perk_notify(p)]
        } else {
            Seq::empty()
        },
        Effect::RefillWater | Effect::UseOutpost => if trip is Some {
            seq![world_data::MSG_WATER_REPLENISHED@]
        } else {
            Seq::empty()
        },
        _ => Seq::empty(),
    }
}

/// What an effect asks of the save before it can run: room in the numbers
/// it adds to, a sane range of deaths, and a due date that fits the clock.
pub open spec fn effect_fits(effect: Effect, game: Game, now: i64) -> bool {
    match effect {
        Effect::TradeWoodFor(r) => game.stock(r) + wood_given(game.stock(Resource::Wood)) <= i64::MAX,
        Effect::DestroyHuts(_) => game.assigned() <= u32::MAX,
        Effect::KillVillagers(kill) => game.assigned() <= u32::MAX && (kill matches Kill::Range(low, high)
            ==> low <= high),
        Effect::SettleThieves { pay_back, .. } => pay_back ==> repay_fits(game),
        Effect::ScheduleReward { delay_secs, .. } => now + delay_secs <= i64::MAX,
        _ => true,
    }
}

/// Only the trip changed, as `f` says; with no trip, nothing changed.
pub open spec fn on_trip(
    g0: Game,
    t0: Option<Expedition>,
    g1: Game,
    t1: Option<Expedition>,
    f: spec_fn(Expedition, Expedition) -> bool,
) -> bool {
    &&& g1 == g0
    &&& match t0 {
        Some(t) => t1 matches Some(t2) && f(t, t2),
        None => t1 is None,
    }
}

/// What applying an effect does to the save and the trip.
pub open spec fn applied(
    effect: Effect,
    g0: Game,
    t0: Option<Expedition>,
    now: i64,
    g1: Game,
    t1: Option<Expedition>,
) -> bool {
    match effect {
        Effect::TradeWoodFor(r) => t1 == t0 && g1.stores@ == traded(g0.stores@, r) && g1 == (Game {
            stores: g1.stores,
            ..g0
        }),
        Effect::BuildHut => t1 == t0 && g1.buildings@ == hut_added(g0.buildings@) && g1 == (Game {
            buildings: g1.buildings,
            ..g0
        }),
        Effect::WreckTraps => t1 == t0 && (exists|d: u64| g1.buildings@ == #[trigger] traps_wrecked(g0.buildings@, d))
            && g1 == (Game { buildings: g1.buildings, ..g0 }),
        Effect::DestroyHuts(n) => t1 == t0 && exists|ds: Seq<u64>| burned(g0, g1, n as int, ds),
        Effect::KillVillagers(kill) => t1 == t0 && exists|d: u64| killed_by(g0, g1, #[trigger] kill_count(kill, g0.population, d)),
        Effect::GrantPerk(p) => t1 == t0 && g1.perks@ == g0.perks@.insert(p) && g1 == (Game {
            perks: g1.perks,
            ..g0
        }),
        Effect::SettleThieves { pay_back, perk } => t1 == t0 && thieves_settled(g0, g1, pay_back, perk),
        Effect::ScheduleReward { chance_pct, resource, amount, delay_secs, message } => t1 == t0 && exists|d: u64|
            #[trigger] reward_rolled(g0, g1, d, chance_pct, resource, amount, now + delay_secs, message@),
        Effect::UncoverMap => t1 == t0 && map_uncovered(g0, g1),
        Effect::ClearDungeon => on_trip(g0, t0, g1, t1, |a: Expedition, b: Expedition| world::dungeon_cleared(a, b)),
        Effect::DrawRoad => on_trip(g0, t0, g1, t1, |a: Expedition, b: Expedition| world::road_drawn(a, b)),
        Effect::RefillWater => on_trip(
            g0,
            t0,
            g1,
            t1,
            |a: Expedition, b: Expedition| b == (Expedition { water: (world_data::BASE_WATER + model::water_bonus(g0)) as i64, ..a }),
        ),
        Effect::MarkVisited => on_trip(
            g0,
            t0,
            g1,
            t1,
            |a: Expedition, b: Expedition|
                {
                    &&& b == (Expedition { map: b.map, ..a })
                    &&& b.map.wf()
                    &&& b.map.tiles == a.map.tiles
                    &&& b.map.mask == a.map.mask
                    &&& b.map.visited_v() == model::put_cell(a.map.visited_v(), a.x as int, a.y as int, '1')
                },
        ),
        Effect::GrantBuilding(building) => on_trip(
            g0,
            t0,
            g1,
            t1,
            |a: Expedition, b: Expedition| b == (Expedition { cleared: b.cleared, ..a }) && b.cleared@ == a.cleared@.insert(building),
        ),
        Effect::FoundShip => on_trip(g0, t0, g1, t1, |a: Expedition, b: Expedition| b == (Expedition { found_ship: true, ..a })),
        Effect::UseOutpost => on_trip(
            g0,
            t0,
            g1,
            t1,
            |a: Expedition, b: Expedition|
                {
                    &&& b == (Expedition {
                        water: (world_data::BASE_WATER + model::water_bonus(g0)) as i64,
                        used_outposts: b.used_outposts,
                        ..a
                    })
                    &&& b.used_outposts@ == if a.used_outposts@.contains((a.x, a.y)) {
                        a.used_outposts@
                    } else {
                        a.used_outposts@.push((a.x, a.y))
                    }
                },
        ),
        Effect::ClearCity => t1 == t0 && g1 == (Game { city_cleared: true, ..g0 }),
        Effect::EnterBattleship => on_trip(
            g0,
            t0,
            g1,
            t1,
            |a: Expedition, b: Expedition| b == (Expedition { battleship: b.battleship, ..a }) && b.battleship.entered
                && b.battleship.decks == a.battleship.decks,
        ),
        Effect::ClearDeck(deck) => on_trip(
            g0,
            t0,
            g1,
            t1,
            |a: Expedition, b: Expedition|
                b == (Expedition { battleship: b.battleship, ..a }) && b.battleship.entered == a.battleship.entered
                    && b.battleship.decks@ == a.battleship.decks@.insert(deck),
        ),
        Effect::HealFull => on_trip(
            g0,
            t0,
            g1,
            t1,
            |a: Expedition, b: Expedition| b == (Expedition { hp: (world_data::BASE_HEALTH + model::armour_bonus(g0)) as i64, ..a }),
        ),
    }
}

/// Whether an effect works on the trip rather than the village.
pub open spec fn works_on_trip(effect: Effect) -> bool {
    match effect {
        Effect::ClearDungeon | Effect::DrawRoad | Effect::RefillWater | Effect::MarkVisited
        | Effect::GrantBuilding(_) | Effect::FoundShip | Effect::UseOutpost | Effect::EnterBattleship
        | Effect::ClearDeck(_) | Effect::HealFull => true,
        _ => false,
    }
}

fn is_trip_effect(effect: Effect) -> (r: bool)
    ensures
        r == works_on_trip(effect),
{
    match effect {
        Effect::ClearDungeon | Effect::DrawRoad | Effect::RefillWater | Effect::MarkVisited
        | Effect::GrantBuilding(_) | Effect::FoundShip | Effect::UseOutpost | Effect::EnterBattleship
        | Effect::ClearDeck(_) | Effect::HealFull => true,
        _ => false,
    }
}

/// The effects on the village and the save.
#[verifier::rlimit(50)]
fn apply_at_home(effect: Effect, game: &mut Game, trip: &Option<Expedition>, now: i64, rng: &mut StdRng, out: &mut Vec<String>)
    requires
        old(game).wf(),
        !works_on_trip(effect),
        effect_fits(effect, *old(game), now),
    ensures
        final(game).wf(),
        applied(effect, *old(game), *trip, now, *final(game), *trip),
        texts(final(out)@) == texts(old(out)@) + effect_says(effect, *old(game), *trip),
{
    let ghost m0 = texts(old(out)@);
    proof {
        assert(m0 + Seq::<Seq<char>>::empty() =~= m0);
    }
    match effect {
        Effect::TradeWoodFor(resource) => trade_wood(game, resource),
        Effect::BuildHut => {
            let huts = game.building_count(Building::Hut);
            if huts < 20 {
                game.buildings.insert(Building::Hut, huts + 1);
            }
        },
        Effect::WreckTraps => wreck_traps(game, rng),
        Effect::DestroyHuts(count) => destroy_huts(game, count, rng),
        Effect::KillVillagers(kill) => kill_some(game, kill, rng),
        Effect::GrantPerk(perk) => {
            if game.add_perk(perk) {
                say(out, perk.notify());
            }
        },
        Effect::SettleThieves { pay_back, perk } => settle_thieves(game, pay_back, perk, out),
        Effect::ScheduleReward { chance_pct, resource, amount, delay_secs, message } => {
            schedule_reward(game, chance_pct, resource, amount, delay_secs, message, now, rng)
        },
        Effect::UncoverMap => uncover_random(game, rng),
        Effect::ClearCity => {
            game.city_cleared = true;
        },
        _ => {},
    }
}

/// The effects on the trip; at home they do nothing.
#[verifier::rlimit(50)]
fn apply_on_trip(effect: Effect, game: &Game, trip: &mut Option<Expedition>, out: &mut Vec<String>)
    requires
        game.wf(),
        works_on_trip(effect),
        *old(trip) matches Some(t) ==> t.wf() && on_grid(t.x as int, t.y as int),
    ensures
        *final(trip) matches Some(t) ==> t.wf(),
        applied(effect, *game, *old(trip), 0, *game, *final(trip)),
        texts(final(out)@) == texts(old(out)@) + effect_says(effect, *game, *old(trip)),
{
    let ghost m0 = texts(old(out)@);
    proof {
        assert(m0 + Seq::<Seq<char>>::empty() =~= m0);
    }
    let water = game.max_water();
    let max = game.max_health();
    match trip {
        Some(t) => match effect {
            Effect::ClearDungeon => {
                proof {
                    world::lemma_grid_search((t.x, t.y));
                }
                world::clear_dungeon(t)
            },
            Effect::DrawRoad => {
                proof {
                    world::lemma_grid_search((t.x, t.y));
                }
                world::draw_road(t)
            },
            Effect::RefillWater => {
                t.water = water;
                say(out, world_data::MSG_WATER_REPLENISHED);
            },
            Effect::MarkVisited => {
                let (x, y) = (t.x, t.y);
                proof {
                    world::lemma_put_cell(t.map.visited_v(), x as int, y as int, '1', 0, 0);
                }
                t.map.set_visited(x, y);
            },
            Effect::GrantBuilding(building) => {
                t.cleared.insert(building);
            },
            Effect::FoundShip => {
                t.found_ship = true;
            },
            Effect::UseOutpost => {
                t.water = water;
                if !world::outpost_used(&t.used_outposts, t.x, t.y) {
                    t.used_outposts.push((t.x, t.y));
                }
                say(out, world_data::MSG_WATER_REPLENISHED);
            },
            Effect::EnterBattleship => {
                t.battleship.entered = true;
            },
            Effect::ClearDeck(deck) => {
                t.battleship.decks.insert(deck);
            },
            Effect::HealFull => {
                t.hp = max;
            },
            _ => {},
        },
        None => {},
    }
}

/// Apply one effect to the save, the trip if there is one, and the log.
pub fn apply(
    effect: Effect,
    game: &mut Game,
    trip: &mut Option<Expedition>,
    now: i64,
    rng: &mut StdRng,
    out: &mut Vec<String>,
)
    requires
        old(game).wf(),
        *old(trip) matches Some(t) ==> t.wf() && on_grid(t.x as int, t.y as int),
        effect_fits(effect, *old(game), now),
    ensures
        final(game).wf(),
        *final(trip) matches Some(t) ==> t.wf(),
        applied(effect, *old(game), *old(trip), now, *final(game), *final(trip)),
        texts(final(out)@) == texts(old(out)@) + effect_says(effect, *old(game), *old(trip)),
{
    if is_trip_effect(effect) {
        apply_on_trip(effect, game, trip, out);
    } else {
        apply_at_home(effect, game, trip, now, rng, out);
    }
}

/// Minutes between two event rolls: uniform over three, four and five.
pub const EVENT_MINUTES_LOW: u64 = 3;
pub const EVENT_MINUTES_HIGH: u64 = 6;

/// Seconds until the next event roll, for the draw `d`.
pub open spec fn event_delay(d: u64) -> int {
    (chance::scaled(d, (EVENT_MINUTES_HIGH - EVENT_MINUTES_LOW) as int) + EVENT_MINUTES_LOW) * 60
}

/// Seconds until the next event roll.
pub fn next_event_delay(rng: &mut StdRng) -> (r: u64)
    ensures
        exists|d: u64| r == event_delay(d),
        180 <= r <= 300,
{
    let d = draw(rng);
    let minutes = chance::draw_scaled(d, EVENT_MINUTES_HIGH - EVENT_MINUTES_LOW) + EVENT_MINUTES_LOW;
    assert(minutes * 60 == event_delay(d));
    minutes * 60
}


/// The panel conditions: the room is the room, the outside is the outside,
/// and the village is either of them, whatever the save or the trip.
pub proof fn law_the_village_is_the_room_or_the_outside(g: Game, t: Option<Expedition>, v: View)
    ensures
        holds_spec(Condition::InVillage, g, t, v) == (v == View::Room || v == View::Outside),
        holds_spec(Condition::InRoom, g, t, v) == (v == View::Room),
        holds_spec(Condition::InOutside, g, t, v) == (v == View::Outside),
        holds_spec(Condition::InVillage, g, t, v) == (holds_spec(Condition::InRoom, g, t, v) || holds_spec(
            Condition::InOutside,
            g,
            t,
            v,
        )),
{
}


/// The store, hut and population conditions come in complementary pairs,
/// and the distance ones split the wasteland in two: out on a trip exactly
/// one of "at most" and "over" holds, and at home neither does.
pub proof fn law_conditions_come_in_pairs(g: Game, t: Option<Expedition>, v: View, item: Resource, n: i64, k: u32, d: i32)
    ensures
        holds_spec(Condition::HasStore(item), g, t, v) == holds_spec(Condition::StoreAtLeast(item, 1), g, t, v),
        holds_spec(Condition::StoreAtLeast(item, n), g, t, v) == !holds_spec(Condition::StoreBelow(item, n), g, t, v),
        holds_spec(Condition::HutsAtLeast(k), g, t, v) == !holds_spec(Condition::HutsBelow(k), g, t, v),
        holds_spec(Condition::HasTrap, g, t, v) == (g.count(Building::Trap) >= 1),
        t is Some ==> holds_spec(Condition::DistanceAtMost(d), g, t, v) != holds_spec(Condition::DistanceOver(d), g, t, v),
        t is None ==> !holds_spec(Condition::DistanceAtMost(d), g, t, v) && !holds_spec(Condition::DistanceOver(d), g, t, v),
{
}

} // verus!
