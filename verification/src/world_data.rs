//! The wasteland's tables: the tile set, the landmarks, the weapons, what
//! things weigh in the pack, and every constant the world rules step against.
use vstd::prelude::*;

use crate::collections::Keyed;
use crate::data::{Perk, Resource};

verus! {

/// Half the map's width. The grid is `RADIUS * 2 + 1` square.
pub const RADIUS: i32 = 30;

/// The village sits at the exact centre, and every trip starts and ends there.
pub const VILLAGE_X: i32 = 30;
pub const VILLAGE_Y: i32 = 30;

/// How strongly a tile copies its neighbours during generation, in
/// hundredths.
pub const STICKINESS_PCT: u64 = 50;

/// How far the wanderer's lantern reaches (doubled by the scout perk).
pub const LIGHT_RADIUS: i32 = 2;

pub const BASE_WATER: i64 = 10;
pub const BASE_HEALTH: i64 = 10;
/// The odds of a swing landing, in hundredths.
pub const BASE_HIT_PCT: u64 = 80;
pub const MOVES_PER_FOOD: u32 = 2;
pub const MOVES_PER_WATER: u32 = 1;
pub const MEAT_HEAL: i64 = 8;
pub const MEDS_HEAL: i64 = 20;
/// At least three moves between fights.
pub const FIGHT_DELAY: u32 = 3;
/// The odds of a fight on a step, in hundredths.
pub const FIGHT_CHANCE_PCT: u64 = 20;
/// Seconds before another expedition may set out after a death.
pub const DEATH_COOLDOWN: u32 = 120;

/// Terrain odds in hundredths; they sum to a whole.
pub const FOREST_PCT: u64 = 15;
pub const FIELD_PCT: u64 = 35;
pub const BARRENS_PCT: u64 = 50;

/// What a square of the map holds. The glyphs are the save format; the rules
/// match on this closed set.
#[derive(Clone, Copy, Debug, PartialEq, Eq, PartialOrd, Ord, Hash, Structural)]
pub enum Tile {
    Village,
    IronMine,
    CoalMine,
    SulphurMine,
    Forest,
    Field,
    Barrens,
    Road,
    House,
    Cave,
    Town,
    City,
    Outpost,
    Ship,
    Borehole,
    Battlefield,
    Swamp,
    Battleship,
}

/// The glyph a tile is saved as.
pub open spec fn tile_glyph(t: Tile) -> char {
    match t {
        Tile::Village => 'A',
        Tile::IronMine => 'I',
        Tile::CoalMine => 'C',
        Tile::SulphurMine => 'S',
        Tile::Forest => ';',
        Tile::Field => ',',
        Tile::Barrens => '.',
        Tile::Road => '#',
        Tile::House => 'H',
        Tile::Cave => 'V',
        Tile::Town => 'O',
        Tile::City => 'Y',
        Tile::Outpost => 'P',
        Tile::Ship => 'W',
        Tile::Borehole => 'B',
        Tile::Battlefield => 'F',
        Tile::Swamp => 'M',
        Tile::Battleship => 'X',
    }
}

/// The tile a glyph stands for; anything unknown is barrens.
pub open spec fn tile_of_glyph(c: char) -> Tile {
    if c == 'A' {
        Tile::Village
    } else if c == 'I' {
        Tile::IronMine
    } else if c == 'C' {
        Tile::CoalMine
    } else if c == 'S' {
        Tile::SulphurMine
    } else if c == ';' {
        Tile::Forest
    } else if c == ',' {
        Tile::Field
    } else if c == '.' {
        Tile::Barrens
    } else if c == '#' {
        Tile::Road
    } else if c == 'H' {
        Tile::House
    } else if c == 'V' {
        Tile::Cave
    } else if c == 'O' {
        Tile::Town
    } else if c == 'Y' {
        Tile::City
    } else if c == 'P' {
        Tile::Outpost
    } else if c == 'W' {
        Tile::Ship
    } else if c == 'B' {
        Tile::Borehole
    } else if c == 'F' {
        Tile::Battlefield
    } else if c == 'M' {
        Tile::Swamp
    } else if c == 'X' {
        Tile::Battleship
    } else {
        Tile::Barrens
    }
}

/// Whether a landmark may be dropped on a tile.
pub open spec fn is_terrain_tile(t: Tile) -> bool {
    t == Tile::Forest || t == Tile::Field || t == Tile::Barrens
}

/// A landmark's placement rules and the setpiece it runs: how many are
/// scattered, the ring they go in, the scene, and the label.
pub open spec fn landmark_spec(t: Tile) -> Option<(u32, i32, i32, Seq<char>, Seq<char>)> {
    match t {
        Tile::IronMine => Some((1u32, 5i32, 5i32, "ironmine"@, "Iron Mine"@)),
        Tile::CoalMine => Some((1u32, 10i32, 10i32, "coalmine"@, "Coal Mine"@)),
        Tile::SulphurMine => Some((1u32, 20i32, 20i32, "sulphurmine"@, "Sulphur Mine"@)),
        Tile::House => Some((10u32, 0i32, 45i32, "house"@, "An Old House"@)),
        Tile::Cave => Some((5u32, 3i32, 10i32, "cave"@, "A Damp Cave"@)),
        Tile::Town => Some((10u32, 10i32, 20i32, "town"@, "An Abandoned Town"@)),
        Tile::City => Some((20u32, 20i32, 45i32, "city"@, "A Ruined City"@)),
        Tile::Outpost => Some((0u32, 0i32, 0i32, "outpost"@, "An Outpost"@)),
        Tile::Ship => Some((1u32, 28i32, 28i32, "ship"@, "A Crashed Starship"@)),
        Tile::Borehole => Some((10u32, 15i32, 45i32, "borehole"@, "A Borehole"@)),
        Tile::Battlefield => Some((5u32, 18i32, 45i32, "battlefield"@, "A Battlefield"@)),
        Tile::Swamp => Some((1u32, 15i32, 45i32, "swamp"@, "A Murky Swamp"@)),
        Tile::Battleship => Some((1u32, 28i32, 28i32, "executioner"@, "A Ravaged Battleship"@)),
        _ => None,
    }
}

/// A landmark's placement rules and the setpiece it runs.
#[derive(Clone, Copy, Debug, PartialEq, Eq)]
pub struct Landmark {
    /// How many to scatter at generation. The outpost has none: outposts are
    /// made by clearing dungeons.
    pub num: u32,
    pub min_radius: i32,
    pub max_radius: i32,
    pub scene: &'static str,
    pub label: &'static str,
}

impl Tile {
    pub const ALL: [Tile; 18] = [
        Tile::Village,
        Tile::IronMine,
        Tile::CoalMine,
        Tile::SulphurMine,
        Tile::Forest,
        Tile::Field,
        Tile::Barrens,
        Tile::Road,
        Tile::House,
        Tile::Cave,
        Tile::Town,
        Tile::City,
        Tile::Outpost,
        Tile::Ship,
        Tile::Borehole,
        Tile::Battlefield,
        Tile::Swamp,
        Tile::Battleship,
    ];

    pub fn glyph(self) -> (c: char)
        ensures
            c == tile_glyph(self),
    {
        match self {
            Tile::Village => 'A',
            Tile::IronMine => 'I',
            Tile::CoalMine => 'C',
            Tile::SulphurMine => 'S',
            Tile::Forest => ';',
            Tile::Field => ',',
            Tile::Barrens => '.',
            Tile::Road => '#',
            Tile::House => 'H',
            Tile::Cave => 'V',
            Tile::Town => 'O',
            Tile::City => 'Y',
            Tile::Outpost => 'P',
            Tile::Ship => 'W',
            Tile::Borehole => 'B',
            Tile::Battlefield => 'F',
            Tile::Swamp => 'M',
            Tile::Battleship => 'X',
        }
    }

    /// The tile a saved glyph stands for. An unknown glyph is barrens: a save
    /// written by a later version must never strand a session.
    pub fn from_glyph(glyph: char) -> (t: Tile)
        ensures
            t == tile_of_glyph(glyph),
    {
        if glyph == 'A' {
            Tile::Village
        } else if glyph == 'I' {
            Tile::IronMine
        } else if glyph == 'C' {
            Tile::CoalMine
        } else if glyph == 'S' {
            Tile::SulphurMine
        } else if glyph == ';' {
            Tile::Forest
        } else if glyph == ',' {
            Tile::Field
        } else if glyph == '.' {
            Tile::Barrens
        } else if glyph == '#' {
            Tile::Road
        } else if glyph == 'H' {
            Tile::House
        } else if glyph == 'V' {
            Tile::Cave
        } else if glyph == 'O' {
            Tile::Town
        } else if glyph == 'Y' {
            Tile::City
        } else if glyph == 'P' {
            Tile::Outpost
        } else if glyph == 'W' {
            Tile::Ship
        } else if glyph == 'B' {
            Tile::Borehole
        } else if glyph == 'F' {
            Tile::Battlefield
        } else if glyph == 'M' {
            Tile::Swamp
        } else if glyph == 'X' {
            Tile::Battleship
        } else {
            Tile::Barrens
        }
    }

    /// Whether a landmark may be dropped here.
    pub fn is_terrain(self) -> (r: bool)
        ensures
            r == is_terrain_tile(self),
    {
        match self {
            Tile::Forest | Tile::Field | Tile::Barrens => true,
            _ => false,
        }
    }

    /// The odds of generating this tile, in hundredths, for the three that
    /// generation draws.
    pub fn terrain_pct(self) -> (r: u64)
        ensures
            r == (if self == Tile::Forest { FOREST_PCT } else if self == Tile::Field { FIELD_PCT } else if self
                == Tile::Barrens { BARRENS_PCT } else { 0 }),
    {
        match self {
            Tile::Forest => FOREST_PCT,
            Tile::Field => FIELD_PCT,
            Tile::Barrens => BARRENS_PCT,
            _ => 0,
        }
    }

    /// The setpiece this tile starts, and how many are scattered where.
    pub fn landmark(self) -> (r: Option<Landmark>)
        ensures
            r is Some <==> landmark_spec(self) is Some,
            r matches Some(l) ==> l.num == landmark_spec(self)->Some_0.0 && l.min_radius
                == landmark_spec(self)->Some_0.1 && l.max_radius == landmark_spec(self)->Some_0.2
                && l.scene@ == landmark_spec(self)->Some_0.3 && l.label@ == landmark_spec(self)->Some_0.4,
    {
        match self {
            Tile::IronMine => Some(Landmark { num: 1, min_radius: 5, max_radius: 5, scene: "ironmine", label: "Iron Mine" }),
            Tile::CoalMine => Some(Landmark { num: 1, min_radius: 10, max_radius: 10, scene: "coalmine", label: "Coal Mine" }),
            Tile::SulphurMine => Some(Landmark { num: 1, min_radius: 20, max_radius: 20, scene: "sulphurmine", label: "Sulphur Mine" }),
            Tile::House => Some(Landmark { num: 10, min_radius: 0, max_radius: 45, scene: "house", label: "An Old House" }),
            Tile::Cave => Some(Landmark { num: 5, min_radius: 3, max_radius: 10, scene: "cave", label: "A Damp Cave" }),
            Tile::Town => Some(Landmark { num: 10, min_radius: 10, max_radius: 20, scene: "town", label: "An Abandoned Town" }),
            Tile::City => Some(Landmark { num: 20, min_radius: 20, max_radius: 45, scene: "city", label: "A Ruined City" }),
            Tile::Outpost => Some(Landmark { num: 0, min_radius: 0, max_radius: 0, scene: "outpost", label: "An Outpost" }),
            Tile::Ship => Some(Landmark { num: 1, min_radius: 28, max_radius: 28, scene: "ship", label: "A Crashed Starship" }),
            Tile::Borehole => Some(Landmark { num: 10, min_radius: 15, max_radius: 45, scene: "borehole", label: "A Borehole" }),
            Tile::Battlefield => Some(Landmark { num: 5, min_radius: 18, max_radius: 45, scene: "battlefield", label: "A Battlefield" }),
            Tile::Swamp => Some(Landmark { num: 1, min_radius: 15, max_radius: 45, scene: "swamp", label: "A Murky Swamp" }),
            Tile::Battleship => Some(Landmark { num: 1, min_radius: 28, max_radius: 28, scene: "executioner", label: "A Ravaged Battleship" }),
            _ => None,
        }
    }
}

/// How a weapon is swung, which decides which perks touch it.
#[derive(Clone, Copy, Debug, PartialEq, Eq, Structural)]
pub enum WeaponKind {
    Unarmed,
    Melee,
    Ranged,
}

/// What a hit does.
#[derive(Clone, Copy, Debug, PartialEq, Eq, Structural)]
pub enum Damage {
    Hits(i64),
    /// The bolas: no damage, but the enemy stops swinging for a while.
    Stun,
}

/// Everything that can be swung at something.
#[derive(Clone, Copy, Debug, PartialEq, Eq, PartialOrd, Ord, Hash, Structural)]
pub enum Weapon {
    Fists,
    BoneSpear,
    IronSword,
    SteelSword,
    Bayonet,
    Rifle,
    LaserRifle,
    Grenade,
    Bolas,
}

impl Keyed for Weapon {
    open spec fn key(self) -> nat {
        match self {
            Weapon::Fists => 0,
            Weapon::BoneSpear => 1,
            Weapon::IronSword => 2,
            Weapon::SteelSword => 3,
            Weapon::Bayonet => 4,
            Weapon::Rifle => 5,
            Weapon::LaserRifle => 6,
            Weapon::Grenade => 7,
            Weapon::Bolas => 8,
        }
    }

    open spec fn key_count() -> nat {
        9
    }

    open spec fn from_key(i: nat) -> Self {
        if i == 0 {
            Weapon::Fists
        } else if i == 1 {
            Weapon::BoneSpear
        } else if i == 2 {
            Weapon::IronSword
        } else if i == 3 {
            Weapon::SteelSword
        } else if i == 4 {
            Weapon::Bayonet
        } else if i == 5 {
            Weapon::Rifle
        } else if i == 6 {
            Weapon::LaserRifle
        } else if i == 7 {
            Weapon::Grenade
        } else {
            Weapon::Bolas
        }
    }

    fn index(&self) -> (i: usize) {
        match self {
            Weapon::Fists => 0,
            Weapon::BoneSpear => 1,
            Weapon::IronSword => 2,
            Weapon::SteelSword => 3,
            Weapon::Bayonet => 4,
            Weapon::Rifle => 5,
            Weapon::LaserRifle => 6,
            Weapon::Grenade => 7,
            Weapon::Bolas => 8,
        }
    }

    fn from_index(i: usize) -> (k: Self) {
        if i == 0 {
            Weapon::Fists
        } else if i == 1 {
            Weapon::BoneSpear
        } else if i == 2 {
            Weapon::IronSword
        } else if i == 3 {
            Weapon::SteelSword
        } else if i == 4 {
            Weapon::Bayonet
        } else if i == 5 {
            Weapon::Rifle
        } else if i == 6 {
            Weapon::LaserRifle
        } else if i == 7 {
            Weapon::Grenade
        } else {
            Weapon::Bolas
        }
    }

    fn count() -> (n: usize) {
        9
    }

    proof fn key_injective(a: Self, b: Self) {
    }

    proof fn key_roundtrip(i: nat) {
    }
}

/// Hundredths of a second before a weapon can be used again.
pub open spec fn weapon_cooldown(x: Weapon) -> u32 {
    match x {
        Weapon::Fists | Weapon::BoneSpear | Weapon::IronSword | Weapon::SteelSword | Weapon::Bayonet => 200,
        Weapon::Rifle | Weapon::LaserRifle => 100,
        Weapon::Grenade => 500,
        Weapon::Bolas => 1500,
    }
}

pub open spec fn weapon_verb(x: Weapon) -> Seq<char> {
    match x {
        Weapon::Fists => "punch"@,
        Weapon::BoneSpear => "stab"@,
        Weapon::IronSword => "swing"@,
        Weapon::SteelSword => "slash"@,
        Weapon::Bayonet => "thrust"@,
        Weapon::Rifle => "shoot"@,
        Weapon::LaserRifle => "blast"@,
        Weapon::Grenade => "lob"@,
        Weapon::Bolas => "tangle"@,
    }
}

pub open spec fn weapon_kind(x: Weapon) -> WeaponKind {
    match x {
        Weapon::Fists => WeaponKind::Unarmed,
        Weapon::BoneSpear => WeaponKind::Melee,
        Weapon::IronSword => WeaponKind::Melee,
        Weapon::SteelSword => WeaponKind::Melee,
        Weapon::Bayonet => WeaponKind::Melee,
        Weapon::Rifle => WeaponKind::Ranged,
        Weapon::LaserRifle => WeaponKind::Ranged,
        Weapon::Grenade => WeaponKind::Ranged,
        Weapon::Bolas => WeaponKind::Ranged,
    }
}

pub open spec fn weapon_damage(x: Weapon) -> Damage {
    match x {
        Weapon::Fists => Damage::Hits(1),
        Weapon::BoneSpear => Damage::Hits(2),
        Weapon::IronSword => Damage::Hits(4),
        Weapon::SteelSword => Damage::Hits(6),
        Weapon::Bayonet => Damage::Hits(8),
        Weapon::Rifle => Damage::Hits(5),
        Weapon::LaserRifle => Damage::Hits(8),
        Weapon::Grenade => Damage::Hits(15),
        Weapon::Bolas => Damage::Stun,
    }
}

/// What each use spends out of the pack.
pub open spec fn weapon_cost(x: Weapon) -> Option<(Resource, i64)> {
    match x {
        Weapon::Fists => None,
        Weapon::BoneSpear => None,
        Weapon::IronSword => None,
        Weapon::SteelSword => None,
        Weapon::Bayonet => None,
        Weapon::Rifle => Some((Resource::Bullets, 1i64)),
        Weapon::LaserRifle => Some((Resource::EnergyCell, 1i64)),
        Weapon::Grenade => Some((Resource::Grenade, 1i64)),
        Weapon::Bolas => Some((Resource::Bolas, 1i64)),
    }
}

/// What must be in the pack to swing it at all.
pub open spec fn weapon_item(x: Weapon) -> Option<Resource> {
    match x {
        Weapon::Fists => None,
        Weapon::BoneSpear => Some(Resource::BoneSpear),
        Weapon::IronSword => Some(Resource::IronSword),
        Weapon::SteelSword => Some(Resource::SteelSword),
        Weapon::Bayonet => Some(Resource::Bayonet),
        Weapon::Rifle => Some(Resource::Rifle),
        Weapon::LaserRifle => Some(Resource::LaserRifle),
        Weapon::Grenade => Some(Resource::Grenade),
        Weapon::Bolas => Some(Resource::Bolas),
    }
}

impl Weapon {
    pub const ALL: [Weapon; 9] = [
        Weapon::Fists,
        Weapon::BoneSpear,
        Weapon::IronSword,
        Weapon::SteelSword,
        Weapon::Bayonet,
        Weapon::Rifle,
        Weapon::LaserRifle,
        Weapon::Grenade,
        Weapon::Bolas,
    ];

    /// What the attack row says you are doing.
    pub fn verb(self) -> (r: &'static str)
        ensures
            r@ == weapon_verb(self),
    {
        match self {
            Weapon::Fists => "punch",
            Weapon::BoneSpear => "stab",
            Weapon::IronSword => "swing",
            Weapon::SteelSword => "slash",
            Weapon::Bayonet => "thrust",
            Weapon::Rifle => "shoot",
            Weapon::LaserRifle => "blast",
            Weapon::Grenade => "lob",
            Weapon::Bolas => "tangle",
        }
    }

    pub fn kind(self) -> (r: WeaponKind)
        ensures
            r == weapon_kind(self),
    {
        match self {
            Weapon::Fists => WeaponKind::Unarmed,
            Weapon::BoneSpear => WeaponKind::Melee,
            Weapon::IronSword => WeaponKind::Melee,
            Weapon::SteelSword => WeaponKind::Melee,
            Weapon::Bayonet => WeaponKind::Melee,
            Weapon::Rifle => WeaponKind::Ranged,
            Weapon::LaserRifle => WeaponKind::Ranged,
            Weapon::Grenade => WeaponKind::Ranged,
            Weapon::Bolas => WeaponKind::Ranged,
        }
    }

    pub fn damage(self) -> (r: Damage)
        ensures
            r == weapon_damage(self),
    {
        match self {
            Weapon::Fists => Damage::Hits(1),
            Weapon::BoneSpear => Damage::Hits(2),
            Weapon::IronSword => Damage::Hits(4),
            Weapon::SteelSword => Damage::Hits(6),
            Weapon::Bayonet => Damage::Hits(8),
            Weapon::Rifle => Damage::Hits(5),
            Weapon::LaserRifle => Damage::Hits(8),
            Weapon::Grenade => Damage::Hits(15),
            Weapon::Bolas => Damage::Stun,
        }
    }

    /// What each use spends out of the pack.
    pub fn cost(self) -> (r: Option<(Resource, i64)>)
        ensures
            r == weapon_cost(self),
    {
        match self {
            Weapon::Fists => None,
            Weapon::BoneSpear => None,
            Weapon::IronSword => None,
            Weapon::SteelSword => None,
            Weapon::Bayonet => None,
            Weapon::Rifle => Some((Resource::Bullets, 1)),
            Weapon::LaserRifle => Some((Resource::EnergyCell, 1)),
            Weapon::Grenade => Some((Resource::Grenade, 1)),
            Weapon::Bolas => Some((Resource::Bolas, 1)),
        }
    }

    /// Hundredths of a second before this can be used again.
    pub fn cooldown_hundredths(self) -> (r: u32)
        ensures
            r == weapon_cooldown(self),
    {
        match self {
            Weapon::Fists => 200,
            Weapon::BoneSpear => 200,
            Weapon::IronSword => 200,
            Weapon::SteelSword => 200,
            Weapon::Bayonet => 200,
            Weapon::Rifle => 100,
            Weapon::LaserRifle => 100,
            Weapon::Grenade => 500,
            Weapon::Bolas => 1500,
        }
    }

    /// What must be in the pack to swing it at all. Fists always are.
    pub fn item(self) -> (r: Option<Resource>)
        ensures
            r == weapon_item(self),
    {
        match self {
            Weapon::Fists => None,
            Weapon::BoneSpear => Some(Resource::BoneSpear),
            Weapon::IronSword => Some(Resource::IronSword),
            Weapon::SteelSword => Some(Resource::SteelSword),
            Weapon::Bayonet => Some(Resource::Bayonet),
            Weapon::Rifle => Some(Resource::Rifle),
            Weapon::LaserRifle => Some(Resource::LaserRifle),
            Weapon::Grenade => Some(Resource::Grenade),
            Weapon::Bolas => Some(Resource::Bolas),
        }
    }

    /// The weapon a carried item is, if it is one.
    pub fn of(item: Resource) -> (r: Option<Weapon>)
        ensures
            r matches Some(wp) ==> weapon_item(wp) == Some(item),
            r is None ==> forall|wp: Weapon| weapon_item(wp) != Some(item),
    {
        match item {
            Resource::BoneSpear => Some(Weapon::BoneSpear),
            Resource::IronSword => Some(Weapon::IronSword),
            Resource::SteelSword => Some(Weapon::SteelSword),
            Resource::Bayonet => Some(Weapon::Bayonet),
            Resource::Rifle => Some(Weapon::Rifle),
            Resource::LaserRifle => Some(Weapon::LaserRifle),
            Resource::Grenade => Some(Weapon::Grenade),
            Resource::Bolas => Some(Weapon::Bolas),
            _ => None,
        }
    }
}

/// What a unit of something weighs in the pack, in tenths. Everything not
/// listed weighs one whole unit.
pub open spec fn weight_tenths_spec(item: Resource) -> i64 {
    match item {
        Resource::BoneSpear => 20,
        Resource::IronSword => 30,
        Resource::SteelSword | Resource::Rifle | Resource::LaserRifle => 50,
        Resource::Bullets => 1,
        Resource::EnergyCell => 2,
        Resource::Bolas => 5,
        _ => 10,
    }
}

/// Everything weighs something.
pub proof fn lemma_weight_positive(item: Resource)
    ensures
        1 <= weight_tenths_spec(item) <= 50,
{
}

/// What a unit of something weighs in the pack, in tenths of a unit.
pub fn weight_tenths(item: Resource) -> (r: i64)
    ensures
        r == weight_tenths_spec(item),
        1 <= r <= 50,
{
    match item {
        Resource::BoneSpear => 20,
        Resource::IronSword => 30,
        Resource::SteelSword | Resource::Rifle | Resource::LaserRifle => 50,
        Resource::Bullets => 1,
        Resource::EnergyCell => 2,
        Resource::Bolas => 5,
        _ => 10,
    }
}

/// Everything that can go in the pack, in the order the path screen lists it.
pub const CARRYABLE: [Resource; 15] = [
    Resource::CuredMeat,
    Resource::Bullets,
    Resource::Medicine,
    Resource::EnergyCell,
    Resource::Charm,
    Resource::AlienAlloy,
    Resource::Torch,
    Resource::BoneSpear,
    Resource::IronSword,
    Resource::SteelSword,
    Resource::Rifle,
    Resource::LaserRifle,
    Resource::Bolas,
    Resource::Grenade,
    Resource::Bayonet,
];

/// The armour tiers, best first, add 35, 15 and 5 health; the water tiers
/// add 50, 20 and 10; the pack tiers add 60, 30 and 10 units of space.
/// Base pack capacity with nothing but pockets.
pub const DEFAULT_BAG_SPACE: i64 = 10;

/// The line for walking from one kind of ground onto another.
pub open spec fn narrate_move_spec(from: Tile, to: Tile) -> Option<Seq<char>> {
    if from == Tile::Forest && to == Tile::Field {
        Some("the trees yield to dry grass. the yellowed brush rustles in the wind."@)
    } else if from == Tile::Forest && to == Tile::Barrens {
        Some("the trees are gone. parched earth and blowing dust are poor replacements."@)
    } else if from == Tile::Field && to == Tile::Forest {
        Some("trees loom on the horizon. grasses gradually yield to a forest floor of dry branches and fallen leaves."@)
    } else if from == Tile::Field && to == Tile::Barrens {
        Some("the grasses thin. soon, only dust remains."@)
    } else if from == Tile::Barrens && to == Tile::Field {
        Some("the barrens break at a sea of dying grass, swaying in the arid breeze."@)
    } else if from == Tile::Barrens && to == Tile::Forest {
        Some("a wall of gnarled trees rises from the dust. their branches twist into a skeletal canopy overhead."@)
    } else {
        None
    }
}

/// The line for walking from one kind of ground onto another.
pub fn narrate_move(from: Tile, to: Tile) -> (r: Option<&'static str>)
    ensures
        r is Some <==> narrate_move_spec(from, to) is Some,
        r matches Some(s) ==> s@ == narrate_move_spec(from, to)->Some_0,
{
    match (from, to) {
        (Tile::Forest, Tile::Field) => Some("the trees yield to dry grass. the yellowed brush rustles in the wind."),
        (Tile::Forest, Tile::Barrens) => Some("the trees are gone. parched earth and blowing dust are poor replacements."),
        (Tile::Field, Tile::Forest) => Some("trees loom on the horizon. grasses gradually yield to a forest floor of dry branches and fallen leaves."),
        (Tile::Field, Tile::Barrens) => Some("the grasses thin. soon, only dust remains."),
        (Tile::Barrens, Tile::Field) => Some("the barrens break at a sea of dying grass, swaying in the arid breeze."),
        (Tile::Barrens, Tile::Forest) => Some("a wall of gnarled trees rises from the dust. their branches twist into a skeletal canopy overhead."),
        _ => None,
    }
}

pub const MSG_DANGER: &'static str = "dangerous to be this far from the village without proper protection";
pub const MSG_SAFER: &'static str = "safer here";
pub const MSG_MEAT_OUT: &'static str = "the meat has run out";
pub const MSG_STARVING: &'static str = "starvation sets in";
pub const MSG_WATER_OUT: &'static str = "there is no more water";
pub const MSG_THIRST: &'static str = "the thirst becomes unbearable";
pub const MSG_WATER_REPLENISHED: &'static str = "water replenished";
pub const MSG_WORLD_FADES: &'static str = "the world fades";

/// The perk a long enough hunger or thirst eventually teaches.
pub const STARVED_PERK_AT: u32 = 10;
pub const STARVED_PERK: Perk = Perk::SlowMetabolism;
pub const DEHYDRATED_PERK: Perk = Perk::DesertRat;

/// Every weapon that is carried is a weapon in the store room's buckets.
pub proof fn law_weapons_are_weapons(w: Weapon)
    ensures
        weapon_item(w) matches Some(r) ==> crate::data::resource_kind(r) == crate::data::ResourceKind::Weapon,
{
}

} // verus!
