//! The balance tables of the village: the closed resource, building and job
//! sets, their costs and yields, the perks, the fire and the room, and the
//! timing constants the clock steps against. Everything here is a pure table;
//! the rules acting on it live in `model` and the clock in `sim`.
use vstd::prelude::*;

use crate::collections::Keyed;

verus! {

/// The display name of the door.
pub const TITLE: &'static str = "A Dark Room";

/// Everything a player can hold. A closed set: an unknown resource cannot be
/// represented at all.
#[derive(Clone, Copy, Debug, PartialEq, Eq, PartialOrd, Ord, Hash, Structural)]
pub enum Resource {
    Wood,
    Fur,
    Meat,
    Scales,
    Teeth,
    Cloth,
    Charm,
    Bait,
    Leather,
    CuredMeat,
    Iron,
    Coal,
    Sulphur,
    Steel,
    Medicine,
    Bullets,
    EnergyCell,
    AlienAlloy,
    Torch,
    Hypo,
    Stim,
    Glowstone,
    BoneSpear,
    IronSword,
    SteelSword,
    Rifle,
    LaserRifle,
    Bolas,
    Grenade,
    Bayonet,
    PlasmaRifle,
    EnergyBlade,
    Disruptor,
    Waterskin,
    Cask,
    WaterTank,
    FluidRecycler,
    Rucksack,
    Wagon,
    Convoy,
    CargoDrone,
    LeatherArmour,
    IronArmour,
    SteelArmour,
    KineticArmour,
    Compass,
    FleetBeacon,
    HypoBlueprint,
    KineticArmourBlueprint,
    DisruptorBlueprint,
    PlasmaRifleBlueprint,
    StimBlueprint,
    GlowstoneBlueprint,
}

impl Keyed for Resource {
    open spec fn key(self) -> nat {
        match self {
            Resource::Wood => 0,
            Resource::Fur => 1,
            Resource::Meat => 2,
            Resource::Scales => 3,
            Resource::Teeth => 4,
            Resource::Cloth => 5,
            Resource::Charm => 6,
            Resource::Bait => 7,
            Resource::Leather => 8,
            Resource::CuredMeat => 9,
            Resource::Iron => 10,
            Resource::Coal => 11,
            Resource::Sulphur => 12,
            Resource::Steel => 13,
            Resource::Medicine => 14,
            Resource::Bullets => 15,
            Resource::EnergyCell => 16,
            Resource::AlienAlloy => 17,
            Resource::Torch => 18,
            Resource::Hypo => 19,
            Resource::Stim => 20,
            Resource::Glowstone => 21,
            Resource::BoneSpear => 22,
            Resource::IronSword => 23,
            Resource::SteelSword => 24,
            Resource::Rifle => 25,
            Resource::LaserRifle => 26,
            Resource::Bolas => 27,
            Resource::Grenade => 28,
            Resource::Bayonet => 29,
            Resource::PlasmaRifle => 30,
            Resource::EnergyBlade => 31,
            Resource::Disruptor => 32,
            Resource::Waterskin => 33,
            Resource::Cask => 34,
            Resource::WaterTank => 35,
            Resource::FluidRecycler => 36,
            Resource::Rucksack => 37,
            Resource::Wagon => 38,
            Resource::Convoy => 39,
            Resource::CargoDrone => 40,
            Resource::LeatherArmour => 41,
            Resource::IronArmour => 42,
            Resource::SteelArmour => 43,
            Resource::KineticArmour => 44,
            Resource::Compass => 45,
            Resource::FleetBeacon => 46,
            Resource::HypoBlueprint => 47,
            Resource::KineticArmourBlueprint => 48,
            Resource::DisruptorBlueprint => 49,
            Resource::PlasmaRifleBlueprint => 50,
            Resource::StimBlueprint => 51,
            Resource::GlowstoneBlueprint => 52,
        }
    }

    open spec fn key_count() -> nat {
        53
    }

    fn index(&self) -> (i: usize) {
        match self {
            Resource::Wood => 0,
            Resource::Fur => 1,
            Resource::Meat => 2,
            Resource::Scales => 3,
            Resource::Teeth => 4,
            Resource::Cloth => 5,
            Resource::Charm => 6,
            Resource::Bait => 7,
            Resource::Leather => 8,
            Resource::CuredMeat => 9,
            Resource::Iron => 10,
            Resource::Coal => 11,
            Resource::Sulphur => 12,
            Resource::Steel => 13,
            Resource::Medicine => 14,
            Resource::Bullets => 15,
            Resource::EnergyCell => 16,
            Resource::AlienAlloy => 17,
            Resource::Torch => 18,
            Resource::Hypo => 19,
            Resource::Stim => 20,
            Resource::Glowstone => 21,
            Resource::BoneSpear => 22,
            Resource::IronSword => 23,
            Resource::SteelSword => 24,
            Resource::Rifle => 25,
            Resource::LaserRifle => 26,
            Resource::Bolas => 27,
            Resource::Grenade => 28,
            Resource::Bayonet => 29,
            Resource::PlasmaRifle => 30,
            Resource::EnergyBlade => 31,
            Resource::Disruptor => 32,
            Resource::Waterskin => 33,
            Resource::Cask => 34,
            Resource::WaterTank => 35,
            Resource::FluidRecycler => 36,
            Resource::Rucksack => 37,
            Resource::Wagon => 38,
            Resource::Convoy => 39,
            Resource::CargoDrone => 40,
            Resource::LeatherArmour => 41,
            Resource::IronArmour => 42,
            Resource::SteelArmour => 43,
            Resource::KineticArmour => 44,
            Resource::Compass => 45,
            Resource::FleetBeacon => 46,
            Resource::HypoBlueprint => 47,
            Resource::KineticArmourBlueprint => 48,
            Resource::DisruptorBlueprint => 49,
            Resource::PlasmaRifleBlueprint => 50,
            Resource::StimBlueprint => 51,
            Resource::GlowstoneBlueprint => 52,
        }
    }

    open spec fn from_key(i: nat) -> Self {
        if i == 0 {
            Resource::Wood
        } else if i == 1 {
            Resource::Fur
        } else if i == 2 {
            Resource::Meat
        } else if i == 3 {
            Resource::Scales
        } else if i == 4 {
            Resource::Teeth
        } else if i == 5 {
            Resource::Cloth
        } else if i == 6 {
            Resource::Charm
        } else if i == 7 {
            Resource::Bait
        } else if i == 8 {
            Resource::Leather
        } else if i == 9 {
            Resource::CuredMeat
        } else if i == 10 {
            Resource::Iron
        } else if i == 11 {
            Resource::Coal
        } else if i == 12 {
            Resource::Sulphur
        } else if i == 13 {
            Resource::Steel
        } else if i == 14 {
            Resource::Medicine
        } else if i == 15 {
            Resource::Bullets
        } else if i == 16 {
            Resource::EnergyCell
        } else if i == 17 {
            Resource::AlienAlloy
        } else if i == 18 {
            Resource::Torch
        } else if i == 19 {
            Resource::Hypo
        } else if i == 20 {
            Resource::Stim
        } else if i == 21 {
            Resource::Glowstone
        } else if i == 22 {
            Resource::BoneSpear
        } else if i == 23 {
            Resource::IronSword
        } else if i == 24 {
            Resource::SteelSword
        } else if i == 25 {
            Resource::Rifle
        } else if i == 26 {
            Resource::LaserRifle
        } else if i == 27 {
            Resource::Bolas
        } else if i == 28 {
            Resource::Grenade
        } else if i == 29 {
            Resource::Bayonet
        } else if i == 30 {
            Resource::PlasmaRifle
        } else if i == 31 {
            Resource::EnergyBlade
        } else if i == 32 {
            Resource::Disruptor
        } else if i == 33 {
            Resource::Waterskin
        } else if i == 34 {
            Resource::Cask
        } else if i == 35 {
            Resource::WaterTank
        } else if i == 36 {
            Resource::FluidRecycler
        } else if i == 37 {
            Resource::Rucksack
        } else if i == 38 {
            Resource::Wagon
        } else if i == 39 {
            Resource::Convoy
        } else if i == 40 {
            Resource::CargoDrone
        } else if i == 41 {
            Resource::LeatherArmour
        } else if i == 42 {
            Resource::IronArmour
        } else if i == 43 {
            Resource::SteelArmour
        } else if i == 44 {
            Resource::KineticArmour
        } else if i == 45 {
            Resource::Compass
        } else if i == 46 {
            Resource::FleetBeacon
        } else if i == 47 {
            Resource::HypoBlueprint
        } else if i == 48 {
            Resource::KineticArmourBlueprint
        } else if i == 49 {
            Resource::DisruptorBlueprint
        } else if i == 50 {
            Resource::PlasmaRifleBlueprint
        } else if i == 51 {
            Resource::StimBlueprint
        } else {
            Resource::GlowstoneBlueprint
        }
    }

    fn from_index(i: usize) -> (k: Self) {
        if i == 0 {
            Resource::Wood
        } else if i == 1 {
            Resource::Fur
        } else if i == 2 {
            Resource::Meat
        } else if i == 3 {
            Resource::Scales
        } else if i == 4 {
            Resource::Teeth
        } else if i == 5 {
            Resource::Cloth
        } else if i == 6 {
            Resource::Charm
        } else if i == 7 {
            Resource::Bait
        } else if i == 8 {
            Resource::Leather
        } else if i == 9 {
            Resource::CuredMeat
        } else if i == 10 {
            Resource::Iron
        } else if i == 11 {
            Resource::Coal
        } else if i == 12 {
            Resource::Sulphur
        } else if i == 13 {
            Resource::Steel
        } else if i == 14 {
            Resource::Medicine
        } else if i == 15 {
            Resource::Bullets
        } else if i == 16 {
            Resource::EnergyCell
        } else if i == 17 {
            Resource::AlienAlloy
        } else if i == 18 {
            Resource::Torch
        } else if i == 19 {
            Resource::Hypo
        } else if i == 20 {
            Resource::Stim
        } else if i == 21 {
            Resource::Glowstone
        } else if i == 22 {
            Resource::BoneSpear
        } else if i == 23 {
            Resource::IronSword
        } else if i == 24 {
            Resource::SteelSword
        } else if i == 25 {
            Resource::Rifle
        } else if i == 26 {
            Resource::LaserRifle
        } else if i == 27 {
            Resource::Bolas
        } else if i == 28 {
            Resource::Grenade
        } else if i == 29 {
            Resource::Bayonet
        } else if i == 30 {
            Resource::PlasmaRifle
        } else if i == 31 {
            Resource::EnergyBlade
        } else if i == 32 {
            Resource::Disruptor
        } else if i == 33 {
            Resource::Waterskin
        } else if i == 34 {
            Resource::Cask
        } else if i == 35 {
            Resource::WaterTank
        } else if i == 36 {
            Resource::FluidRecycler
        } else if i == 37 {
            Resource::Rucksack
        } else if i == 38 {
            Resource::Wagon
        } else if i == 39 {
            Resource::Convoy
        } else if i == 40 {
            Resource::CargoDrone
        } else if i == 41 {
            Resource::LeatherArmour
        } else if i == 42 {
            Resource::IronArmour
        } else if i == 43 {
            Resource::SteelArmour
        } else if i == 44 {
            Resource::KineticArmour
        } else if i == 45 {
            Resource::Compass
        } else if i == 46 {
            Resource::FleetBeacon
        } else if i == 47 {
            Resource::HypoBlueprint
        } else if i == 48 {
            Resource::KineticArmourBlueprint
        } else if i == 49 {
            Resource::DisruptorBlueprint
        } else if i == 50 {
            Resource::PlasmaRifleBlueprint
        } else if i == 51 {
            Resource::StimBlueprint
        } else {
            Resource::GlowstoneBlueprint
        }
    }

    fn count() -> (n: usize) {
        53
    }

    proof fn key_injective(a: Self, b: Self) {
    }

    proof fn key_roundtrip(i: nat) {
    }
}

pub open spec fn resource_label(x: Resource) -> Seq<char> {
    match x {
        Resource::Wood => "wood"@,
        Resource::Fur => "fur"@,
        Resource::Meat => "meat"@,
        Resource::Scales => "scales"@,
        Resource::Teeth => "teeth"@,
        Resource::Cloth => "cloth"@,
        Resource::Charm => "charm"@,
        Resource::Bait => "bait"@,
        Resource::Leather => "leather"@,
        Resource::CuredMeat => "cured meat"@,
        Resource::Iron => "iron"@,
        Resource::Coal => "coal"@,
        Resource::Sulphur => "sulphur"@,
        Resource::Steel => "steel"@,
        Resource::Medicine => "medicine"@,
        Resource::Bullets => "bullets"@,
        Resource::EnergyCell => "energy cell"@,
        Resource::AlienAlloy => "alien alloy"@,
        Resource::Torch => "torch"@,
        Resource::Hypo => "hypo"@,
        Resource::Stim => "stim"@,
        Resource::Glowstone => "glow stone"@,
        Resource::BoneSpear => "bone spear"@,
        Resource::IronSword => "iron sword"@,
        Resource::SteelSword => "steel sword"@,
        Resource::Rifle => "rifle"@,
        Resource::LaserRifle => "laser rifle"@,
        Resource::Bolas => "bolas"@,
        Resource::Grenade => "grenade"@,
        Resource::Bayonet => "bayonet"@,
        Resource::PlasmaRifle => "plasma rifle"@,
        Resource::EnergyBlade => "energy blade"@,
        Resource::Disruptor => "disruptor"@,
        Resource::Waterskin => "waterskin"@,
        Resource::Cask => "cask"@,
        Resource::WaterTank => "water tank"@,
        Resource::FluidRecycler => "fluid recycler"@,
        Resource::Rucksack => "rucksack"@,
        Resource::Wagon => "wagon"@,
        Resource::Convoy => "convoy"@,
        Resource::CargoDrone => "cargo drone"@,
        Resource::LeatherArmour => "l armour"@,
        Resource::IronArmour => "i armour"@,
        Resource::SteelArmour => "s armour"@,
        Resource::KineticArmour => "kinetic armour"@,
        Resource::Compass => "compass"@,
        Resource::FleetBeacon => "fleet beacon"@,
        Resource::HypoBlueprint => "hypo blueprint"@,
        Resource::KineticArmourBlueprint => "kinetic armour blueprint"@,
        Resource::DisruptorBlueprint => "disruptor blueprint"@,
        Resource::PlasmaRifleBlueprint => "plasma rifle blueprint"@,
        Resource::StimBlueprint => "stim blueprint"@,
        Resource::GlowstoneBlueprint => "glow stone blueprint"@,
    }
}

/// A store's label, told apart from every other by its length and its
/// first and third letters.
pub open spec fn label_code(r: Resource) -> (int, char, char) {
    match r {
        Resource::Wood => (4, 'w', 'o'),
        Resource::Fur => (3, 'f', 'r'),
        Resource::Meat => (4, 'm', 'a'),
        Resource::Scales => (6, 's', 'a'),
        Resource::Teeth => (5, 't', 'e'),
        Resource::Cloth => (5, 'c', 'o'),
        Resource::Charm => (5, 'c', 'a'),
        Resource::Bait => (4, 'b', 'i'),
        Resource::Leather => (7, 'l', 'a'),
        Resource::CuredMeat => (10, 'c', 'r'),
        Resource::Iron => (4, 'i', 'o'),
        Resource::Coal => (4, 'c', 'a'),
        Resource::Sulphur => (7, 's', 'l'),
        Resource::Steel => (5, 's', 'e'),
        Resource::Medicine => (8, 'm', 'd'),
        Resource::Bullets => (7, 'b', 'l'),
        Resource::EnergyCell => (11, 'e', 'e'),
        Resource::AlienAlloy => (11, 'a', 'i'),
        Resource::Torch => (5, 't', 'r'),
        Resource::Hypo => (4, 'h', 'p'),
        Resource::Stim => (4, 's', 'i'),
        Resource::Glowstone => (10, 'g', 'o'),
        Resource::BoneSpear => (10, 'b', 'n'),
        Resource::IronSword => (10, 'i', 'o'),
        Resource::SteelSword => (11, 's', 'e'),
        Resource::Rifle => (5, 'r', 'f'),
        Resource::LaserRifle => (11, 'l', 's'),
        Resource::Bolas => (5, 'b', 'l'),
        Resource::Grenade => (7, 'g', 'e'),
        Resource::Bayonet => (7, 'b', 'y'),
        Resource::PlasmaRifle => (12, 'p', 'a'),
        Resource::EnergyBlade => (12, 'e', 'e'),
        Resource::Disruptor => (9, 'd', 's'),
        Resource::Waterskin => (9, 'w', 't'),
        Resource::Cask => (4, 'c', 's'),
        Resource::WaterTank => (10, 'w', 't'),
        Resource::FluidRecycler => (14, 'f', 'u'),
        Resource::Rucksack => (8, 'r', 'c'),
        Resource::Wagon => (5, 'w', 'g'),
        Resource::Convoy => (6, 'c', 'n'),
        Resource::CargoDrone => (11, 'c', 'r'),
        Resource::LeatherArmour => (8, 'l', 'a'),
        Resource::IronArmour => (8, 'i', 'a'),
        Resource::SteelArmour => (8, 's', 'a'),
        Resource::KineticArmour => (14, 'k', 'n'),
        Resource::Compass => (7, 'c', 'm'),
        Resource::FleetBeacon => (12, 'f', 'e'),
        Resource::HypoBlueprint => (14, 'h', 'p'),
        Resource::KineticArmourBlueprint => (24, 'k', 'n'),
        Resource::DisruptorBlueprint => (19, 'd', 's'),
        Resource::PlasmaRifleBlueprint => (22, 'p', 'a'),
        Resource::StimBlueprint => (14, 's', 'i'),
        Resource::GlowstoneBlueprint => (20, 'g', 'o'),
    }
}

/// The store a label code names.
pub open spec fn store_of_code(c: (int, char, char)) -> Resource {
    if c == (4int, 'w', 'o') {
        Resource::Wood
    } else if c == (3int, 'f', 'r') {
        Resource::Fur
    } else if c == (4int, 'm', 'a') {
        Resource::Meat
    } else if c == (6int, 's', 'a') {
        Resource::Scales
    } else if c == (5int, 't', 'e') {
        Resource::Teeth
    } else if c == (5int, 'c', 'o') {
        Resource::Cloth
    } else if c == (5int, 'c', 'a') {
        Resource::Charm
    } else if c == (4int, 'b', 'i') {
        Resource::Bait
    } else if c == (7int, 'l', 'a') {
        Resource::Leather
    } else if c == (10int, 'c', 'r') {
        Resource::CuredMeat
    } else if c == (4int, 'i', 'o') {
        Resource::Iron
    } else if c == (4int, 'c', 'a') {
        Resource::Coal
    } else if c == (7int, 's', 'l') {
        Resource::Sulphur
    } else if c == (5int, 's', 'e') {
        Resource::Steel
    } else if c == (8int, 'm', 'd') {
        Resource::Medicine
    } else if c == (7int, 'b', 'l') {
        Resource::Bullets
    } else if c == (11int, 'e', 'e') {
        Resource::EnergyCell
    } else if c == (11int, 'a', 'i') {
        Resource::AlienAlloy
    } else if c == (5int, 't', 'r') {
        Resource::Torch
    } else if c == (4int, 'h', 'p') {
        Resource::Hypo
    } else if c == (4int, 's', 'i') {
        Resource::Stim
    } else if c == (10int, 'g', 'o') {
        Resource::Glowstone
    } else if c == (10int, 'b', 'n') {
        Resource::BoneSpear
    } else if c == (10int, 'i', 'o') {
        Resource::IronSword
    } else if c == (11int, 's', 'e') {
        Resource::SteelSword
    } else if c == (5int, 'r', 'f') {
        Resource::Rifle
    } else if c == (11int, 'l', 's') {
        Resource::LaserRifle
    } else if c == (5int, 'b', 'l') {
        Resource::Bolas
    } else if c == (7int, 'g', 'e') {
        Resource::Grenade
    } else if c == (7int, 'b', 'y') {
        Resource::Bayonet
    } else if c == (12int, 'p', 'a') {
        Resource::PlasmaRifle
    } else if c == (12int, 'e', 'e') {
        Resource::EnergyBlade
    } else if c == (9int, 'd', 's') {
        Resource::Disruptor
    } else if c == (9int, 'w', 't') {
        Resource::Waterskin
    } else if c == (4int, 'c', 's') {
        Resource::Cask
    } else if c == (10int, 'w', 't') {
        Resource::WaterTank
    } else if c == (14int, 'f', 'u') {
        Resource::FluidRecycler
    } else if c == (8int, 'r', 'c') {
        Resource::Rucksack
    } else if c == (5int, 'w', 'g') {
        Resource::Wagon
    } else if c == (6int, 'c', 'n') {
        Resource::Convoy
    } else if c == (11int, 'c', 'r') {
        Resource::CargoDrone
    } else if c == (8int, 'l', 'a') {
        Resource::LeatherArmour
    } else if c == (8int, 'i', 'a') {
        Resource::IronArmour
    } else if c == (8int, 's', 'a') {
        Resource::SteelArmour
    } else if c == (14int, 'k', 'n') {
        Resource::KineticArmour
    } else if c == (7int, 'c', 'm') {
        Resource::Compass
    } else if c == (12int, 'f', 'e') {
        Resource::FleetBeacon
    } else if c == (14int, 'h', 'p') {
        Resource::HypoBlueprint
    } else if c == (24int, 'k', 'n') {
        Resource::KineticArmourBlueprint
    } else if c == (19int, 'd', 's') {
        Resource::DisruptorBlueprint
    } else if c == (22int, 'p', 'a') {
        Resource::PlasmaRifleBlueprint
    } else if c == (14int, 's', 'i') {
        Resource::StimBlueprint
    } else if c == (20int, 'g', 'o') {
        Resource::GlowstoneBlueprint
    } else {
        Resource::Wood
    }
}

/// Each label reads as its code and is lowercase throughout.
proof fn lemma_label_code(r: Resource)
    ensures
        resource_label(r).len() == label_code(r).0,
        resource_label(r)[0] == label_code(r).1,
        resource_label(r)[2] == label_code(r).2,
        store_of_code(label_code(r)) == r,
        resource_label(r).len() > 0,
        forall|i: int| 0 <= i < resource_label(r).len() ==> !('A' <= #[trigger] resource_label(r)[i] <= 'Z'),
{
    match r {
        Resource::Wood => {
            reveal_strlit("wood");
        },
        Resource::Fur => {
            reveal_strlit("fur");
        },
        Resource::Meat => {
            reveal_strlit("meat");
        },
        Resource::Scales => {
            reveal_strlit("scales");
        },
        Resource::Teeth => {
            reveal_strlit("teeth");
        },
        Resource::Cloth => {
            reveal_strlit("cloth");
        },
        Resource::Charm => {
            reveal_strlit("charm");
        },
        Resource::Bait => {
            reveal_strlit("bait");
        },
        Resource::Leather => {
            reveal_strlit("leather");
        },
        Resource::CuredMeat => {
            reveal_strlit("cured meat");
        },
        Resource::Iron => {
            reveal_strlit("iron");
        },
        Resource::Coal => {
            reveal_strlit("coal");
        },
        Resource::Sulphur => {
            reveal_strlit("sulphur");
        },
        Resource::Steel => {
            reveal_strlit("steel");
        },
        Resource::Medicine => {
            reveal_strlit("medicine");
        },
        Resource::Bullets => {
            reveal_strlit("bullets");
        },
        Resource::EnergyCell => {
            reveal_strlit("energy cell");
        },
        Resource::AlienAlloy => {
            reveal_strlit("alien alloy");
        },
        Resource::Torch => {
            reveal_strlit("torch");
        },
        Resource::Hypo => {
            reveal_strlit("hypo");
        },
        Resource::Stim => {
            reveal_strlit("stim");
        },
        Resource::Glowstone => {
            reveal_strlit("glow stone");
        },
        Resource::BoneSpear => {
            reveal_strlit("bone spear");
        },
        Resource::IronSword => {
            reveal_strlit("iron sword");
        },
        Resource::SteelSword => {
            reveal_strlit("steel sword");
        },
        Resource::Rifle => {
            reveal_strlit("rifle");
        },
        Resource::LaserRifle => {
            reveal_strlit("laser rifle");
        },
        Resource::Bolas => {
            reveal_strlit("bolas");
        },
        Resource::Grenade => {
            reveal_strlit("grenade");
        },
        Resource::Bayonet => {
            reveal_strlit("bayonet");
        },
        Resource::PlasmaRifle => {
            reveal_strlit("plasma rifle");
        },
        Resource::EnergyBlade => {
            reveal_strlit("energy blade");
        },
        Resource::Disruptor => {
            reveal_strlit("disruptor");
        },
        Resource::Waterskin => {
            reveal_strlit("waterskin");
        },
        Resource::Cask => {
            reveal_strlit("cask");
        },
        Resource::WaterTank => {
            reveal_strlit("water tank");
        },
        Resource::FluidRecycler => {
            reveal_strlit("fluid recycler");
        },
        Resource::Rucksack => {
            reveal_strlit("rucksack");
        },
        Resource::Wagon => {
            reveal_strlit("wagon");
        },
        Resource::Convoy => {
            reveal_strlit("convoy");
        },
        Resource::CargoDrone => {
            reveal_strlit("cargo drone");
        },
        Resource::LeatherArmour => {
            reveal_strlit("l armour");
        },
        Resource::IronArmour => {
            reveal_strlit("i armour");
        },
        Resource::SteelArmour => {
            reveal_strlit("s armour");
        },
        Resource::KineticArmour => {
            reveal_strlit("kinetic armour");
        },
        Resource::Compass => {
            reveal_strlit("compass");
        },
        Resource::FleetBeacon => {
            reveal_strlit("fleet beacon");
        },
        Resource::HypoBlueprint => {
            reveal_strlit("hypo blueprint");
        },
        Resource::KineticArmourBlueprint => {
            reveal_strlit("kinetic armour blueprint");
        },
        Resource::DisruptorBlueprint => {
            reveal_strlit("disruptor blueprint");
        },
        Resource::PlasmaRifleBlueprint => {
            reveal_strlit("plasma rifle blueprint");
        },
        Resource::StimBlueprint => {
            reveal_strlit("stim blueprint");
        },
        Resource::GlowstoneBlueprint => {
            reveal_strlit("glow stone blueprint");
        },
    }
}

/// No two stores share a label, and every label is lowercase and not
/// empty.
pub proof fn law_resource_labels_are_distinct_and_lowercase(a: Resource, b: Resource)
    ensures
        a != b ==> resource_label(a) != resource_label(b),
        resource_label(a).len() > 0,
        forall|i: int| 0 <= i < resource_label(a).len() ==> !('A' <= #[trigger] resource_label(a)[i] <= 'Z'),
{
    lemma_label_code(a);
    lemma_label_code(b);
}

/// Which bucket a resource belongs to.
pub open spec fn resource_kind(r: Resource) -> ResourceKind {
    match r {
        Resource::Wood => ResourceKind::Basic,
        Resource::Fur => ResourceKind::Basic,
        Resource::Meat => ResourceKind::Basic,
        Resource::Scales => ResourceKind::Good,
        Resource::Teeth => ResourceKind::Good,
        Resource::Cloth => ResourceKind::Basic,
        Resource::Charm => ResourceKind::Basic,
        Resource::Bait => ResourceKind::Basic,
        Resource::Leather => ResourceKind::Basic,
        Resource::CuredMeat => ResourceKind::Basic,
        Resource::Iron => ResourceKind::Good,
        Resource::Coal => ResourceKind::Good,
        Resource::Sulphur => ResourceKind::Basic,
        Resource::Steel => ResourceKind::Good,
        Resource::Medicine => ResourceKind::Good,
        Resource::Bullets => ResourceKind::Good,
        Resource::EnergyCell => ResourceKind::Good,
        Resource::AlienAlloy => ResourceKind::Good,
        Resource::Torch => ResourceKind::Tool,
        Resource::Hypo => ResourceKind::Tool,
        Resource::Stim => ResourceKind::Tool,
        Resource::Glowstone => ResourceKind::Tool,
        Resource::BoneSpear => ResourceKind::Weapon,
        Resource::IronSword => ResourceKind::Weapon,
        Resource::SteelSword => ResourceKind::Weapon,
        Resource::Rifle => ResourceKind::Weapon,
        Resource::LaserRifle => ResourceKind::Weapon,
        Resource::Bolas => ResourceKind::Weapon,
        Resource::Grenade => ResourceKind::Weapon,
        Resource::Bayonet => ResourceKind::Weapon,
        Resource::PlasmaRifle => ResourceKind::Weapon,
        Resource::EnergyBlade => ResourceKind::Weapon,
        Resource::Disruptor => ResourceKind::Weapon,
        Resource::Waterskin => ResourceKind::Upgrade,
        Resource::Cask => ResourceKind::Upgrade,
        Resource::WaterTank => ResourceKind::Upgrade,
        Resource::FluidRecycler => ResourceKind::Upgrade,
        Resource::Rucksack => ResourceKind::Upgrade,
        Resource::Wagon => ResourceKind::Upgrade,
        Resource::Convoy => ResourceKind::Upgrade,
        Resource::CargoDrone => ResourceKind::Upgrade,
        Resource::LeatherArmour => ResourceKind::Upgrade,
        Resource::IronArmour => ResourceKind::Upgrade,
        Resource::SteelArmour => ResourceKind::Upgrade,
        Resource::KineticArmour => ResourceKind::Upgrade,
        Resource::Compass => ResourceKind::Special,
        Resource::FleetBeacon => ResourceKind::Special,
        Resource::HypoBlueprint => ResourceKind::Special,
        Resource::KineticArmourBlueprint => ResourceKind::Special,
        Resource::DisruptorBlueprint => ResourceKind::Special,
        Resource::PlasmaRifleBlueprint => ResourceKind::Special,
        Resource::StimBlueprint => ResourceKind::Special,
        Resource::GlowstoneBlueprint => ResourceKind::Special,
    }
}

impl Resource {
    /// Every resource, in the order the stores panel lists them.
    pub const ALL: [Resource; 53] = [
        Resource::Wood,
        Resource::Fur,
        Resource::Meat,
        Resource::Scales,
        Resource::Teeth,
        Resource::Cloth,
        Resource::Charm,
        Resource::Bait,
        Resource::Leather,
        Resource::CuredMeat,
        Resource::Iron,
        Resource::Coal,
        Resource::Sulphur,
        Resource::Steel,
        Resource::Medicine,
        Resource::Bullets,
        Resource::EnergyCell,
        Resource::AlienAlloy,
        Resource::Torch,
        Resource::Hypo,
        Resource::Stim,
        Resource::Glowstone,
        Resource::BoneSpear,
        Resource::IronSword,
        Resource::SteelSword,
        Resource::Rifle,
        Resource::LaserRifle,
        Resource::Bolas,
        Resource::Grenade,
        Resource::Bayonet,
        Resource::PlasmaRifle,
        Resource::EnergyBlade,
        Resource::Disruptor,
        Resource::Waterskin,
        Resource::Cask,
        Resource::WaterTank,
        Resource::FluidRecycler,
        Resource::Rucksack,
        Resource::Wagon,
        Resource::Convoy,
        Resource::CargoDrone,
        Resource::LeatherArmour,
        Resource::IronArmour,
        Resource::SteelArmour,
        Resource::KineticArmour,
        Resource::Compass,
        Resource::FleetBeacon,
        Resource::HypoBlueprint,
        Resource::KineticArmourBlueprint,
        Resource::DisruptorBlueprint,
        Resource::PlasmaRifleBlueprint,
        Resource::StimBlueprint,
        Resource::GlowstoneBlueprint,
    ];

    /// Lowercase label, exactly as the stores panel prints it.
    pub fn label(self) -> (r: &'static str)
        ensures
            r@ == resource_label(self),
    {
        match self {
            Resource::Wood => "wood",
            Resource::Fur => "fur",
            Resource::Meat => "meat",
            Resource::Scales => "scales",
            Resource::Teeth => "teeth",
            Resource::Cloth => "cloth",
            Resource::Charm => "charm",
            Resource::Bait => "bait",
            Resource::Leather => "leather",
            Resource::CuredMeat => "cured meat",
            Resource::Iron => "iron",
            Resource::Coal => "coal",
            Resource::Sulphur => "sulphur",
            Resource::Steel => "steel",
            Resource::Medicine => "medicine",
            Resource::Bullets => "bullets",
            Resource::EnergyCell => "energy cell",
            Resource::AlienAlloy => "alien alloy",
            Resource::Torch => "torch",
            Resource::Hypo => "hypo",
            Resource::Stim => "stim",
            Resource::Glowstone => "glow stone",
            Resource::BoneSpear => "bone spear",
            Resource::IronSword => "iron sword",
            Resource::SteelSword => "steel sword",
            Resource::Rifle => "rifle",
            Resource::LaserRifle => "laser rifle",
            Resource::Bolas => "bolas",
            Resource::Grenade => "grenade",
            Resource::Bayonet => "bayonet",
            Resource::PlasmaRifle => "plasma rifle",
            Resource::EnergyBlade => "energy blade",
            Resource::Disruptor => "disruptor",
            Resource::Waterskin => "waterskin",
            Resource::Cask => "cask",
            Resource::WaterTank => "water tank",
            Resource::FluidRecycler => "fluid recycler",
            Resource::Rucksack => "rucksack",
            Resource::Wagon => "wagon",
            Resource::Convoy => "convoy",
            Resource::CargoDrone => "cargo drone",
            Resource::LeatherArmour => "l armour",
            Resource::IronArmour => "i armour",
            Resource::SteelArmour => "s armour",
            Resource::KineticArmour => "kinetic armour",
            Resource::Compass => "compass",
            Resource::FleetBeacon => "fleet beacon",
            Resource::HypoBlueprint => "hypo blueprint",
            Resource::KineticArmourBlueprint => "kinetic armour blueprint",
            Resource::DisruptorBlueprint => "disruptor blueprint",
            Resource::PlasmaRifleBlueprint => "plasma rifle blueprint",
            Resource::StimBlueprint => "stim blueprint",
            Resource::GlowstoneBlueprint => "glow stone blueprint",
        }
    }

    /// Which bucket this belongs to, which decides where a store is listed
    /// and whether the workshop is needed to make it.
    pub fn kind(self) -> (k: ResourceKind)
        ensures
            k == resource_kind(self),
    {
        match self {
            Resource::Wood => ResourceKind::Basic,
            Resource::Fur => ResourceKind::Basic,
            Resource::Meat => ResourceKind::Basic,
            Resource::Scales => ResourceKind::Good,
            Resource::Teeth => ResourceKind::Good,
            Resource::Cloth => ResourceKind::Basic,
            Resource::Charm => ResourceKind::Basic,
            Resource::Bait => ResourceKind::Basic,
            Resource::Leather => ResourceKind::Basic,
            Resource::CuredMeat => ResourceKind::Basic,
            Resource::Iron => ResourceKind::Good,
            Resource::Coal => ResourceKind::Good,
            Resource::Sulphur => ResourceKind::Basic,
            Resource::Steel => ResourceKind::Good,
            Resource::Medicine => ResourceKind::Good,
            Resource::Bullets => ResourceKind::Good,
            Resource::EnergyCell => ResourceKind::Good,
            Resource::AlienAlloy => ResourceKind::Good,
            Resource::Torch => ResourceKind::Tool,
            Resource::Hypo => ResourceKind::Tool,
            Resource::Stim => ResourceKind::Tool,
            Resource::Glowstone => ResourceKind::Tool,
            Resource::BoneSpear => ResourceKind::Weapon,
            Resource::IronSword => ResourceKind::Weapon,
            Resource::SteelSword => ResourceKind::Weapon,
            Resource::Rifle => ResourceKind::Weapon,
            Resource::LaserRifle => ResourceKind::Weapon,
            Resource::Bolas => ResourceKind::Weapon,
            Resource::Grenade => ResourceKind::Weapon,
            Resource::Bayonet => ResourceKind::Weapon,
            Resource::PlasmaRifle => ResourceKind::Weapon,
            Resource::EnergyBlade => ResourceKind::Weapon,
            Resource::Disruptor => ResourceKind::Weapon,
            Resource::Waterskin => ResourceKind::Upgrade,
            Resource::Cask => ResourceKind::Upgrade,
            Resource::WaterTank => ResourceKind::Upgrade,
            Resource::FluidRecycler => ResourceKind::Upgrade,
            Resource::Rucksack => ResourceKind::Upgrade,
            Resource::Wagon => ResourceKind::Upgrade,
            Resource::Convoy => ResourceKind::Upgrade,
            Resource::CargoDrone => ResourceKind::Upgrade,
            Resource::LeatherArmour => ResourceKind::Upgrade,
            Resource::IronArmour => ResourceKind::Upgrade,
            Resource::SteelArmour => ResourceKind::Upgrade,
            Resource::KineticArmour => ResourceKind::Upgrade,
            Resource::Compass => ResourceKind::Special,
            Resource::FleetBeacon => ResourceKind::Special,
            Resource::HypoBlueprint => ResourceKind::Special,
            Resource::KineticArmourBlueprint => ResourceKind::Special,
            Resource::DisruptorBlueprint => ResourceKind::Special,
            Resource::PlasmaRifleBlueprint => ResourceKind::Special,
            Resource::StimBlueprint => ResourceKind::Special,
            Resource::GlowstoneBlueprint => ResourceKind::Special,
        }
    }
}

/// Where a store is listed and whether the workshop is needed to make it.
#[derive(Clone, Copy, Debug, PartialEq, Eq, PartialOrd, Ord, Hash, Structural)]
pub enum ResourceKind {
    Basic,
    Good,
    Tool,
    Weapon,
    Upgrade,
    Special,
}

impl ResourceKind {
    /// The finer things need the tools.
    pub fn needs_workshop(self) -> (r: bool)
        ensures
            r == (self == ResourceKind::Tool || self == ResourceKind::Weapon || self
                == ResourceKind::Upgrade),
    {
        match self {
            ResourceKind::Tool | ResourceKind::Weapon | ResourceKind::Upgrade => true,
            ResourceKind::Basic | ResourceKind::Good | ResourceKind::Special => false,
        }
    }
}

/// Everything that can stand in the village, the three mines included: those
/// are never offered by the builder, the wasteland hands them over.
#[derive(Clone, Copy, Debug, PartialEq, Eq, PartialOrd, Ord, Hash, Structural)]
pub enum Building {
    Trap,
    Cart,
    Hut,
    Lodge,
    TradingPost,
    Tannery,
    Smokehouse,
    Workshop,
    Steelworks,
    Armoury,
    IronMine,
    CoalMine,
    SulphurMine,
}

impl Keyed for Building {
    open spec fn key(self) -> nat {
        match self {
            Building::Trap => 0,
            Building::Cart => 1,
            Building::Hut => 2,
            Building::Lodge => 3,
            Building::TradingPost => 4,
            Building::Tannery => 5,
            Building::Smokehouse => 6,
            Building::Workshop => 7,
            Building::Steelworks => 8,
            Building::Armoury => 9,
            Building::IronMine => 10,
            Building::CoalMine => 11,
            Building::SulphurMine => 12,
        }
    }

    open spec fn key_count() -> nat {
        13
    }

    fn index(&self) -> (i: usize) {
        match self {
            Building::Trap => 0,
            Building::Cart => 1,
            Building::Hut => 2,
            Building::Lodge => 3,
            Building::TradingPost => 4,
            Building::Tannery => 5,
            Building::Smokehouse => 6,
            Building::Workshop => 7,
            Building::Steelworks => 8,
            Building::Armoury => 9,
            Building::IronMine => 10,
            Building::CoalMine => 11,
            Building::SulphurMine => 12,
        }
    }

    open spec fn from_key(i: nat) -> Self {
        if i == 0 {
            Building::Trap
        } else if i == 1 {
            Building::Cart
        } else if i == 2 {
            Building::Hut
        } else if i == 3 {
            Building::Lodge
        } else if i == 4 {
            Building::TradingPost
        } else if i == 5 {
            Building::Tannery
        } else if i == 6 {
            Building::Smokehouse
        } else if i == 7 {
            Building::Workshop
        } else if i == 8 {
            Building::Steelworks
        } else if i == 9 {
            Building::Armoury
        } else if i == 10 {
            Building::IronMine
        } else if i == 11 {
            Building::CoalMine
        } else {
            Building::SulphurMine
        }
    }

    fn from_index(i: usize) -> (k: Self) {
        if i == 0 {
            Building::Trap
        } else if i == 1 {
            Building::Cart
        } else if i == 2 {
            Building::Hut
        } else if i == 3 {
            Building::Lodge
        } else if i == 4 {
            Building::TradingPost
        } else if i == 5 {
            Building::Tannery
        } else if i == 6 {
            Building::Smokehouse
        } else if i == 7 {
            Building::Workshop
        } else if i == 8 {
            Building::Steelworks
        } else if i == 9 {
            Building::Armoury
        } else if i == 10 {
            Building::IronMine
        } else if i == 11 {
            Building::CoalMine
        } else {
            Building::SulphurMine
        }
    }

    fn count() -> (n: usize) {
        13
    }

    proof fn key_injective(a: Self, b: Self) {
    }

    proof fn key_roundtrip(i: nat) {
    }
}

pub open spec fn building_label(x: Building) -> Seq<char> {
    match x {
        Building::Trap => "trap"@,
        Building::Cart => "cart"@,
        Building::Hut => "hut"@,
        Building::Lodge => "lodge"@,
        Building::TradingPost => "trading post"@,
        Building::Tannery => "tannery"@,
        Building::Smokehouse => "smokehouse"@,
        Building::Workshop => "workshop"@,
        Building::Steelworks => "steelworks"@,
        Building::Armoury => "armoury"@,
        Building::IronMine => "iron mine"@,
        Building::CoalMine => "coal mine"@,
        Building::SulphurMine => "sulphur mine"@,
    }
}

pub open spec fn building_available_msg(x: Building) -> Option<Seq<char>> {
    match x {
        Building::Trap => Some("builder says she can make traps to catch any creatures might still be alive out there"@),
        Building::Cart => Some("builder says she can make a cart for carrying wood"@),
        Building::Hut => Some("builder says there are more wanderers. says they'll work, too."@),
        Building::Lodge => Some("villagers could help hunt, given the means"@),
        Building::TradingPost => Some("a trading post would make commerce easier"@),
        Building::Tannery => Some("builder says leather could be useful. says the villagers could make it."@),
        Building::Smokehouse => Some("should cure the meat, or it'll spoil. builder says she can fix something up."@),
        Building::Workshop => Some("builder says she could make finer things, if she had the tools"@),
        Building::Steelworks => Some("builder says the villagers could make steel, given the tools"@),
        Building::Armoury => Some("builder says it'd be useful to have a steady source of bullets"@),
        Building::IronMine => None,
        Building::CoalMine => None,
        Building::SulphurMine => None,
    }
}

pub open spec fn building_build_msg(x: Building) -> Option<Seq<char>> {
    match x {
        Building::Trap => Some("more traps to catch more creatures"@),
        Building::Cart => Some("the rickety cart will carry more wood from the forest"@),
        Building::Hut => Some("builder puts up a hut, out in the forest. says word will get around."@),
        Building::Lodge => Some("the hunting lodge stands in the forest, a ways out of town"@),
        Building::TradingPost => Some("now the nomads have a place to set up shop, they might stick around a while"@),
        Building::Tannery => Some("tannery goes up quick, on the edge of the village"@),
        Building::Smokehouse => Some("builder finishes the smokehouse. she looks hungry."@),
        Building::Workshop => Some("workshop's finally ready. builder's excited to get to it"@),
        Building::Steelworks => Some("a haze falls over the village as the steelworks fires up"@),
        Building::Armoury => Some("armoury's done, welcoming back the weapons of the past."@),
        Building::IronMine => None,
        Building::CoalMine => None,
        Building::SulphurMine => None,
    }
}

pub open spec fn building_max_msg(x: Building) -> Option<Seq<char>> {
    match x {
        Building::Trap => Some("more traps won't help now"@),
        Building::Cart => None,
        Building::Hut => Some("no more room for huts."@),
        Building::Lodge => None,
        Building::TradingPost => None,
        Building::Tannery => None,
        Building::Smokehouse => None,
        Building::Workshop => None,
        Building::Steelworks => None,
        Building::Armoury => None,
        Building::IronMine => None,
        Building::CoalMine => None,
        Building::SulphurMine => None,
    }
}

/// Whether the builder offers a building at all: the mines only ever arrive
/// from the wasteland.
pub open spec fn is_builder_built(b: Building) -> bool {
    !(b == Building::IronMine || b == Building::CoalMine || b == Building::SulphurMine)
}

/// How many of a building may stand.
pub open spec fn building_maximum(b: Building) -> u32 {
    match b {
        Building::Trap => 10,
        Building::Hut => 20,
        _ => 1,
    }
}

/// The build cost given how many already stand: traps and huts get pricier,
/// the mines have none.
pub open spec fn building_cost(b: Building, built: u32) -> Seq<(Resource, i64)> {
    match b {
        Building::Trap => seq![(Resource::Wood, (10 + built * 10) as i64)],
        Building::Cart => seq![(Resource::Wood, 30i64)],
        Building::Hut => seq![(Resource::Wood, (100 + built * 50) as i64)],
        Building::Lodge => seq![(Resource::Wood, 200i64), (Resource::Fur, 10i64), (Resource::Meat, 5i64)],
        Building::TradingPost => seq![(Resource::Wood, 400i64), (Resource::Fur, 100i64)],
        Building::Tannery => seq![(Resource::Wood, 500i64), (Resource::Fur, 50i64)],
        Building::Smokehouse => seq![(Resource::Wood, 600i64), (Resource::Meat, 50i64)],
        Building::Workshop => seq![(Resource::Wood, 800i64), (Resource::Leather, 100i64), (Resource::Scales, 10i64)],
        Building::Steelworks => seq![(Resource::Wood, 1500i64), (Resource::Iron, 100i64), (Resource::Coal, 100i64)],
        Building::Armoury => seq![(Resource::Wood, 3000i64), (Resource::Steel, 100i64), (Resource::Sulphur, 50i64)],
        Building::IronMine | Building::CoalMine | Building::SulphurMine => Seq::empty(),
    }
}

/// The jobs a building opens up.
pub open spec fn building_jobs(b: Building) -> Seq<Job> {
    match b {
        Building::Lodge => seq![Job::Hunter, Job::Trapper],
        Building::Tannery => seq![Job::Tanner],
        Building::Smokehouse => seq![Job::Charcutier],
        Building::IronMine => seq![Job::IronMiner],
        Building::CoalMine => seq![Job::CoalMiner],
        Building::SulphurMine => seq![Job::SulphurMiner],
        Building::Steelworks => seq![Job::Steelworker],
        Building::Armoury => seq![Job::Armourer],
        _ => Seq::empty(),
    }
}

impl Building {
    pub const ALL: [Building; 13] = [
        Building::Trap,
        Building::Cart,
        Building::Hut,
        Building::Lodge,
        Building::TradingPost,
        Building::Tannery,
        Building::Smokehouse,
        Building::Workshop,
        Building::Steelworks,
        Building::Armoury,
        Building::IronMine,
        Building::CoalMine,
        Building::SulphurMine,
    ];

    pub fn label(self) -> (r: &'static str)
        ensures
            r@ == building_label(self),
    {
        match self {
            Building::Trap => "trap",
            Building::Cart => "cart",
            Building::Hut => "hut",
            Building::Lodge => "lodge",
            Building::TradingPost => "trading post",
            Building::Tannery => "tannery",
            Building::Smokehouse => "smokehouse",
            Building::Workshop => "workshop",
            Building::Steelworks => "steelworks",
            Building::Armoury => "armoury",
            Building::IronMine => "iron mine",
            Building::CoalMine => "coal mine",
            Building::SulphurMine => "sulphur mine",
        }
    }

    /// Whether the builder offers this at all. The mines are the exception:
    /// they only ever arrive from the wasteland, so they carry no cost and no
    /// build line, and never appear as a build row.
    pub fn builder_built(self) -> (r: bool)
        ensures
            r == is_builder_built(self),
    {
        match self {
            Building::IronMine | Building::CoalMine | Building::SulphurMine => false,
            _ => true,
        }
    }

    /// How many of this building may stand. Every building has a ceiling.
    pub fn maximum(self) -> (r: Option<u32>)
        ensures
            r == Some(building_maximum(self)),
    {
        match self {
            Building::Trap => Some(10),
            Building::Hut => Some(20),
            _ => Some(1),
        }
    }

    /// Build cost given how many already stand (traps and huts get pricier).
    /// The mines have none: they are not built, they are found.
    pub fn cost(self, built: u32) -> (r: Vec<(Resource, i64)>)
        ensures
            r@ == building_cost(self, built),
    {
        let n = built as i64;
        let r = match self {
            Building::Trap => vec![(Resource::Wood, 10 + n * 10)],
            Building::Cart => vec![(Resource::Wood, 30)],
            Building::Hut => vec![(Resource::Wood, 100 + n * 50)],
            Building::Lodge => vec![(Resource::Wood, 200), (Resource::Fur, 10), (Resource::Meat, 5)],
            Building::TradingPost => vec![(Resource::Wood, 400), (Resource::Fur, 100)],
            Building::Tannery => vec![(Resource::Wood, 500), (Resource::Fur, 50)],
            Building::Smokehouse => vec![(Resource::Wood, 600), (Resource::Meat, 50)],
            Building::Workshop => vec![(Resource::Wood, 800), (Resource::Leather, 100), (Resource::Scales, 10)],
            Building::Steelworks => vec![(Resource::Wood, 1500), (Resource::Iron, 100), (Resource::Coal, 100)],
            Building::Armoury => vec![(Resource::Wood, 3000), (Resource::Steel, 100), (Resource::Sulphur, 50)],
            Building::IronMine | Building::CoalMine | Building::SulphurMine => Vec::new(),
        };
        assert(r@ =~= building_cost(self, built));
        r
    }

    /// The line the builder says when this first becomes available.
    pub fn available_msg(self) -> (r: Option<&'static str>)
        ensures
            r is Some <==> building_available_msg(self) is Some,
            r matches Some(s) ==> s@ == building_available_msg(self)->Some_0,
    {
        match self {
            Building::Trap => Some("builder says she can make traps to catch any creatures might still be alive out there"),
            Building::Cart => Some("builder says she can make a cart for carrying wood"),
            Building::Hut => Some("builder says there are more wanderers. says they'll work, too."),
            Building::Lodge => Some("villagers could help hunt, given the means"),
            Building::TradingPost => Some("a trading post would make commerce easier"),
            Building::Tannery => Some("builder says leather could be useful. says the villagers could make it."),
            Building::Smokehouse => Some("should cure the meat, or it'll spoil. builder says she can fix something up."),
            Building::Workshop => Some("builder says she could make finer things, if she had the tools"),
            Building::Steelworks => Some("builder says the villagers could make steel, given the tools"),
            Building::Armoury => Some("builder says it'd be useful to have a steady source of bullets"),
            Building::IronMine => None,
            Building::CoalMine => None,
            Building::SulphurMine => None,
        }
    }

    /// The line when one goes up.
    pub fn build_msg(self) -> (r: Option<&'static str>)
        ensures
            r is Some <==> building_build_msg(self) is Some,
            r matches Some(s) ==> s@ == building_build_msg(self)->Some_0,
    {
        match self {
            Building::Trap => Some("more traps to catch more creatures"),
            Building::Cart => Some("the rickety cart will carry more wood from the forest"),
            Building::Hut => Some("builder puts up a hut, out in the forest. says word will get around."),
            Building::Lodge => Some("the hunting lodge stands in the forest, a ways out of town"),
            Building::TradingPost => Some("now the nomads have a place to set up shop, they might stick around a while"),
            Building::Tannery => Some("tannery goes up quick, on the edge of the village"),
            Building::Smokehouse => Some("builder finishes the smokehouse. she looks hungry."),
            Building::Workshop => Some("workshop's finally ready. builder's excited to get to it"),
            Building::Steelworks => Some("a haze falls over the village as the steelworks fires up"),
            Building::Armoury => Some("armoury's done, welcoming back the weapons of the past."),
            Building::IronMine => None,
            Building::CoalMine => None,
            Building::SulphurMine => None,
        }
    }

    /// The line when the maximum is already standing.
    pub fn max_msg(self) -> (r: Option<&'static str>)
        ensures
            r is Some <==> building_max_msg(self) is Some,
            r matches Some(s) ==> s@ == building_max_msg(self)->Some_0,
    {
        match self {
            Building::Trap => Some("more traps won't help now"),
            Building::Cart => None,
            Building::Hut => Some("no more room for huts."),
            Building::Lodge => None,
            Building::TradingPost => None,
            Building::Tannery => None,
            Building::Smokehouse => None,
            Building::Workshop => None,
            Building::Steelworks => None,
            Building::Armoury => None,
            Building::IronMine => None,
            Building::CoalMine => None,
            Building::SulphurMine => None,
        }
    }

    /// Jobs this building opens up.
    pub fn unlocks_jobs(self) -> (r: Vec<Job>)
        ensures
            r@ == building_jobs(self),
    {
        let r = match self {
            Building::Lodge => vec![Job::Hunter, Job::Trapper],
            Building::Tannery => vec![Job::Tanner],
            Building::Smokehouse => vec![Job::Charcutier],
            Building::IronMine => vec![Job::IronMiner],
            Building::CoalMine => vec![Job::CoalMiner],
            Building::SulphurMine => vec![Job::SulphurMiner],
            Building::Steelworks => vec![Job::Steelworker],
            Building::Armoury => vec![Job::Armourer],
            _ => Vec::new(),
        };
        assert(r@ =~= building_jobs(self));
        r
    }
}

/// A villager's assignment. Gatherers are not in this set: everyone not
/// assigned gathers by definition.
#[derive(Clone, Copy, Debug, PartialEq, Eq, PartialOrd, Ord, Hash, Structural)]
pub enum Job {
    Hunter,
    Trapper,
    Tanner,
    Charcutier,
    IronMiner,
    CoalMiner,
    SulphurMiner,
    Steelworker,
    Armourer,
}

impl Keyed for Job {
    open spec fn key(self) -> nat {
        match self {
            Job::Hunter => 0,
            Job::Trapper => 1,
            Job::Tanner => 2,
            Job::Charcutier => 3,
            Job::IronMiner => 4,
            Job::CoalMiner => 5,
            Job::SulphurMiner => 6,
            Job::Steelworker => 7,
            Job::Armourer => 8,
        }
    }

    open spec fn key_count() -> nat {
        9
    }

    fn index(&self) -> (i: usize) {
        match self {
            Job::Hunter => 0,
            Job::Trapper => 1,
            Job::Tanner => 2,
            Job::Charcutier => 3,
            Job::IronMiner => 4,
            Job::CoalMiner => 5,
            Job::SulphurMiner => 6,
            Job::Steelworker => 7,
            Job::Armourer => 8,
        }
    }

    open spec fn from_key(i: nat) -> Self {
        if i == 0 {
            Job::Hunter
        } else if i == 1 {
            Job::Trapper
        } else if i == 2 {
            Job::Tanner
        } else if i == 3 {
            Job::Charcutier
        } else if i == 4 {
            Job::IronMiner
        } else if i == 5 {
            Job::CoalMiner
        } else if i == 6 {
            Job::SulphurMiner
        } else if i == 7 {
            Job::Steelworker
        } else {
            Job::Armourer
        }
    }

    fn from_index(i: usize) -> (k: Self) {
        if i == 0 {
            Job::Hunter
        } else if i == 1 {
            Job::Trapper
        } else if i == 2 {
            Job::Tanner
        } else if i == 3 {
            Job::Charcutier
        } else if i == 4 {
            Job::IronMiner
        } else if i == 5 {
            Job::CoalMiner
        } else if i == 6 {
            Job::SulphurMiner
        } else if i == 7 {
            Job::Steelworker
        } else {
            Job::Armourer
        }
    }

    fn count() -> (n: usize) {
        9
    }

    proof fn key_injective(a: Self, b: Self) {
    }

    proof fn key_roundtrip(i: nat) {
    }
}

pub open spec fn job_label(x: Job) -> Seq<char> {
    match x {
        Job::Hunter => "hunter"@,
        Job::Trapper => "trapper"@,
        Job::Tanner => "tanner"@,
        Job::Charcutier => "charcutier"@,
        Job::IronMiner => "iron miner"@,
        Job::CoalMiner => "coal miner"@,
        Job::SulphurMiner => "sulphur miner"@,
        Job::Steelworker => "steelworker"@,
        Job::Armourer => "armourer"@,
    }
}

/// What one worker of a job moves per income round, in half units. Negative
/// entries are consumed; a payout whose inputs would go negative is skipped
/// whole.
pub open spec fn job_half_yields(j: Job) -> Seq<(Resource, i64)> {
    match j {
        Job::Hunter => seq![(Resource::Fur, 1i64), (Resource::Meat, 1i64)],
        Job::Trapper => seq![(Resource::Meat, -2i64), (Resource::Bait, 2i64)],
        Job::Tanner => seq![(Resource::Fur, -10i64), (Resource::Leather, 2i64)],
        Job::Charcutier => seq![(Resource::Meat, -10i64), (Resource::Wood, -10i64), (Resource::CuredMeat, 2i64)],
        Job::IronMiner => seq![(Resource::CuredMeat, -2i64), (Resource::Iron, 2i64)],
        Job::CoalMiner => seq![(Resource::CuredMeat, -2i64), (Resource::Coal, 2i64)],
        Job::SulphurMiner => seq![(Resource::CuredMeat, -2i64), (Resource::Sulphur, 2i64)],
        Job::Steelworker => seq![(Resource::Iron, -2i64), (Resource::Coal, -2i64), (Resource::Steel, 2i64)],
        Job::Armourer => seq![(Resource::Steel, -2i64), (Resource::Sulphur, -2i64), (Resource::Bullets, 2i64)],
    }
}

impl Job {
    /// In income order, which is the order the workers list uses.
    pub const ALL: [Job; 9] = [
        Job::Hunter,
        Job::Trapper,
        Job::Tanner,
        Job::Charcutier,
        Job::IronMiner,
        Job::CoalMiner,
        Job::SulphurMiner,
        Job::Steelworker,
        Job::Armourer,
    ];

    pub fn label(self) -> (r: &'static str)
        ensures
            r@ == job_label(self),
    {
        match self {
            Job::Hunter => "hunter",
            Job::Trapper => "trapper",
            Job::Tanner => "tanner",
            Job::Charcutier => "charcutier",
            Job::IronMiner => "iron miner",
            Job::CoalMiner => "coal miner",
            Job::SulphurMiner => "sulphur miner",
            Job::Steelworker => "steelworker",
            Job::Armourer => "armourer",
        }
    }

    /// What one worker of this job moves per income round, counted in half
    /// units (a hunter brings in half a fur and half a meat).
    pub fn half_yields(self) -> (r: Vec<(Resource, i64)>)
        ensures
            r@ == job_half_yields(self),
    {
        let r = match self {
            Job::Hunter => vec![(Resource::Fur, 1), (Resource::Meat, 1)],
            Job::Trapper => vec![(Resource::Meat, -2), (Resource::Bait, 2)],
            Job::Tanner => vec![(Resource::Fur, -10), (Resource::Leather, 2)],
            Job::Charcutier => vec![(Resource::Meat, -10), (Resource::Wood, -10), (Resource::CuredMeat, 2)],
            Job::IronMiner => vec![(Resource::CuredMeat, -2), (Resource::Iron, 2)],
            Job::CoalMiner => vec![(Resource::CuredMeat, -2), (Resource::Coal, 2)],
            Job::SulphurMiner => vec![(Resource::CuredMeat, -2), (Resource::Sulphur, 2)],
            Job::Steelworker => vec![(Resource::Iron, -2), (Resource::Coal, -2), (Resource::Steel, 2)],
            Job::Armourer => vec![(Resource::Steel, -2), (Resource::Sulphur, -2), (Resource::Bullets, 2)],
        };
        assert(r@ =~= job_half_yields(self));
        r
    }
}

/// One thing the workshop can make.
pub struct Craftable {
    pub item: Resource,
    /// `None` where the recipe stacks: torches and weapons. Upgrades are one
    /// apiece.
    pub maximum: Option<u32>,
    pub cost: Vec<(Resource, i64)>,
    /// The line when one is made.
    pub build_msg: &'static str,
}

/// How many recipes the workshop knows.
pub const CRAFTABLE_COUNT: usize = 14;

/// The workshop's recipes, in listing order: what each makes, its ceiling,
/// and its cost.
pub open spec fn craft_entry(i: int) -> (Resource, Option<u32>, Seq<(Resource, i64)>) {
    if i == 0 {
        (Resource::Torch, None, seq![(Resource::Wood, 1i64), (Resource::Cloth, 1i64)])
    } else if i == 1 {
        (Resource::Waterskin, Some(1u32), seq![(Resource::Leather, 50i64)])
    } else if i == 2 {
        (Resource::Cask, Some(1u32), seq![(Resource::Leather, 100i64), (Resource::Iron, 20i64)])
    } else if i == 3 {
        (Resource::WaterTank, Some(1u32), seq![(Resource::Iron, 100i64), (Resource::Steel, 50i64)])
    } else if i == 4 {
        (Resource::BoneSpear, None, seq![(Resource::Wood, 100i64), (Resource::Teeth, 5i64)])
    } else if i == 5 {
        (Resource::Rucksack, Some(1u32), seq![(Resource::Leather, 200i64)])
    } else if i == 6 {
        (Resource::Wagon, Some(1u32), seq![(Resource::Wood, 500i64), (Resource::Iron, 100i64)])
    } else if i == 7 {
        (Resource::Convoy, Some(1u32), seq![(Resource::Wood, 1000i64), (Resource::Iron, 200i64), (Resource::Steel, 100i64)])
    } else if i == 8 {
        (Resource::LeatherArmour, Some(1u32), seq![(Resource::Leather, 200i64), (Resource::Scales, 20i64)])
    } else if i == 9 {
        (Resource::IronArmour, Some(1u32), seq![(Resource::Leather, 200i64), (Resource::Iron, 100i64)])
    } else if i == 10 {
        (Resource::SteelArmour, Some(1u32), seq![(Resource::Leather, 200i64), (Resource::Steel, 100i64)])
    } else if i == 11 {
        (Resource::IronSword, None, seq![(Resource::Wood, 200i64), (Resource::Leather, 50i64), (Resource::Iron, 20i64)])
    } else if i == 12 {
        (Resource::SteelSword, None, seq![(Resource::Wood, 500i64), (Resource::Leather, 100i64), (Resource::Steel, 20i64)])
    } else {
        (Resource::Rifle, None, seq![(Resource::Wood, 200i64), (Resource::Steel, 50i64), (Resource::Sulphur, 50i64)])
    }
}

/// The line each recipe prints when one is made, in listing order.
pub open spec fn craft_made(i: int) -> Seq<char> {
    if i == 0 {
        "a torch to keep the dark away"@
    } else if i == 1 {
        "this waterskin'll hold a bit of water, at least"@
    } else if i == 2 {
        "the cask holds enough water for longer expeditions"@
    } else if i == 3 {
        "never go thirsty again"@
    } else if i == 4 {
        "this spear's not elegant, but it's pretty good at stabbing"@
    } else if i == 5 {
        "carrying more means longer expeditions to the wilds"@
    } else if i == 6 {
        "the wagon can carry a lot of supplies"@
    } else if i == 7 {
        "the convoy can haul mostly everything"@
    } else if i == 8 {
        "leather's not strong. better than rags, though."@
    } else if i == 9 {
        "iron's stronger than leather"@
    } else if i == 10 {
        "steel's stronger than iron"@
    } else if i == 11 {
        "sword is sharp. good protection out in the wilds."@
    } else if i == 12 {
        "the steel is strong, and the blade true."@
    } else {
        "black powder and bullets, like the old days."@
    }
}

/// Everything the workshop makes, in listing order.
pub fn craftables() -> (r: Vec<Craftable>)
    ensures
        r.len() == CRAFTABLE_COUNT,
        forall|i: int|
            0 <= i < CRAFTABLE_COUNT ==> (#[trigger] r@[i]).item == craft_entry(i).0 && r@[i].maximum
                == craft_entry(i).1 && r@[i].cost@ == craft_entry(i).2 && r@[i].build_msg@ == craft_made(i),
{
    let r = vec![
        Craftable { item: Resource::Torch, maximum: None, cost: vec![(Resource::Wood, 1), (Resource::Cloth, 1)], build_msg: "a torch to keep the dark away" },
        Craftable { item: Resource::Waterskin, maximum: Some(1), cost: vec![(Resource::Leather, 50)], build_msg: "this waterskin'll hold a bit of water, at least" },
        Craftable { item: Resource::Cask, maximum: Some(1), cost: vec![(Resource::Leather, 100), (Resource::Iron, 20)], build_msg: "the cask holds enough water for longer expeditions" },
        Craftable { item: Resource::WaterTank, maximum: Some(1), cost: vec![(Resource::Iron, 100), (Resource::Steel, 50)], build_msg: "never go thirsty again" },
        Craftable { item: Resource::BoneSpear, maximum: None, cost: vec![(Resource::Wood, 100), (Resource::Teeth, 5)], build_msg: "this spear's not elegant, but it's pretty good at stabbing" },
        Craftable { item: Resource::Rucksack, maximum: Some(1), cost: vec![(Resource::Leather, 200)], build_msg: "carrying more means longer expeditions to the wilds" },
        Craftable { item: Resource::Wagon, maximum: Some(1), cost: vec![(Resource::Wood, 500), (Resource::Iron, 100)], build_msg: "the wagon can carry a lot of supplies" },
        Craftable { item: Resource::Convoy, maximum: Some(1), cost: vec![(Resource::Wood, 1000), (Resource::Iron, 200), (Resource::Steel, 100)], build_msg: "the convoy can haul mostly everything" },
        Craftable { item: Resource::LeatherArmour, maximum: Some(1), cost: vec![(Resource::Leather, 200), (Resource::Scales, 20)], build_msg: "leather's not strong. better than rags, though." },
        Craftable { item: Resource::IronArmour, maximum: Some(1), cost: vec![(Resource::Leather, 200), (Resource::Iron, 100)], build_msg: "iron's stronger than leather" },
        Craftable { item: Resource::SteelArmour, maximum: Some(1), cost: vec![(Resource::Leather, 200), (Resource::Steel, 100)], build_msg: "steel's stronger than iron" },
        Craftable { item: Resource::IronSword, maximum: None, cost: vec![(Resource::Wood, 200), (Resource::Leather, 50), (Resource::Iron, 20)], build_msg: "sword is sharp. good protection out in the wilds." },
        Craftable { item: Resource::SteelSword, maximum: None, cost: vec![(Resource::Wood, 500), (Resource::Leather, 100), (Resource::Steel, 20)], build_msg: "the steel is strong, and the blade true." },
        Craftable { item: Resource::Rifle, maximum: None, cost: vec![(Resource::Wood, 200), (Resource::Steel, 50), (Resource::Sulphur, 50)], build_msg: "black powder and bullets, like the old days." },
    ];
    assert(r@[0].cost@ =~= craft_entry(0).2);
    assert(r@[1].cost@ =~= craft_entry(1).2);
    assert(r@[2].cost@ =~= craft_entry(2).2);
    assert(r@[3].cost@ =~= craft_entry(3).2);
    assert(r@[4].cost@ =~= craft_entry(4).2);
    assert(r@[5].cost@ =~= craft_entry(5).2);
    assert(r@[6].cost@ =~= craft_entry(6).2);
    assert(r@[7].cost@ =~= craft_entry(7).2);
    assert(r@[8].cost@ =~= craft_entry(8).2);
    assert(r@[9].cost@ =~= craft_entry(9).2);
    assert(r@[10].cost@ =~= craft_entry(10).2);
    assert(r@[11].cost@ =~= craft_entry(11).2);
    assert(r@[12].cost@ =~= craft_entry(12).2);
    assert(r@[13].cost@ =~= craft_entry(13).2);
    r
}

/// A fabricator recipe that has to be found before it can be made.
#[derive(Clone, Copy, Debug, PartialEq, Eq, PartialOrd, Ord, Hash, Structural)]
pub enum Blueprint {
    Hypo,
    KineticArmour,
    Disruptor,
    PlasmaRifle,
    Stim,
    Glowstone,
}

impl Keyed for Blueprint {
    open spec fn key(self) -> nat {
        match self {
            Blueprint::Hypo => 0,
            Blueprint::KineticArmour => 1,
            Blueprint::Disruptor => 2,
            Blueprint::PlasmaRifle => 3,
            Blueprint::Stim => 4,
            Blueprint::Glowstone => 5,
        }
    }

    open spec fn key_count() -> nat {
        6
    }

    fn index(&self) -> (i: usize) {
        match self {
            Blueprint::Hypo => 0,
            Blueprint::KineticArmour => 1,
            Blueprint::Disruptor => 2,
            Blueprint::PlasmaRifle => 3,
            Blueprint::Stim => 4,
            Blueprint::Glowstone => 5,
        }
    }

    open spec fn from_key(i: nat) -> Self {
        if i == 0 {
            Blueprint::Hypo
        } else if i == 1 {
            Blueprint::KineticArmour
        } else if i == 2 {
            Blueprint::Disruptor
        } else if i == 3 {
            Blueprint::PlasmaRifle
        } else if i == 4 {
            Blueprint::Stim
        } else {
            Blueprint::Glowstone
        }
    }

    fn from_index(i: usize) -> (k: Self) {
        if i == 0 {
            Blueprint::Hypo
        } else if i == 1 {
            Blueprint::KineticArmour
        } else if i == 2 {
            Blueprint::Disruptor
        } else if i == 3 {
            Blueprint::PlasmaRifle
        } else if i == 4 {
            Blueprint::Stim
        } else {
            Blueprint::Glowstone
        }
    }

    fn count() -> (n: usize) {
        6
    }

    proof fn key_injective(a: Self, b: Self) {
    }

    proof fn key_roundtrip(i: nat) {
    }
}

/// The loot item that redeems into a blueprint.
pub open spec fn blueprint_token(b: Blueprint) -> Resource {
    match b {
        Blueprint::Hypo => Resource::HypoBlueprint,
        Blueprint::KineticArmour => Resource::KineticArmourBlueprint,
        Blueprint::Disruptor => Resource::DisruptorBlueprint,
        Blueprint::PlasmaRifle => Resource::PlasmaRifleBlueprint,
        Blueprint::Stim => Resource::StimBlueprint,
        Blueprint::Glowstone => Resource::GlowstoneBlueprint,
    }
}

/// What holding a blueprint teaches the fabricator to make.
pub open spec fn blueprint_item(b: Blueprint) -> Resource {
    match b {
        Blueprint::Hypo => Resource::Hypo,
        Blueprint::KineticArmour => Resource::KineticArmour,
        Blueprint::Disruptor => Resource::Disruptor,
        Blueprint::PlasmaRifle => Resource::PlasmaRifle,
        Blueprint::Stim => Resource::Stim,
        Blueprint::Glowstone => Resource::Glowstone,
    }
}

impl Blueprint {
    pub const ALL: [Blueprint; 6] = [
        Blueprint::Hypo,
        Blueprint::KineticArmour,
        Blueprint::Disruptor,
        Blueprint::PlasmaRifle,
        Blueprint::Stim,
        Blueprint::Glowstone,
    ];

    /// The loot item that redeems into this blueprint on the way home.
    pub fn token(self) -> (r: Resource)
        ensures
            r == blueprint_token(self),
    {
        match self {
            Blueprint::Hypo => Resource::HypoBlueprint,
            Blueprint::KineticArmour => Resource::KineticArmourBlueprint,
            Blueprint::Disruptor => Resource::DisruptorBlueprint,
            Blueprint::PlasmaRifle => Resource::PlasmaRifleBlueprint,
            Blueprint::Stim => Resource::StimBlueprint,
            Blueprint::Glowstone => Resource::GlowstoneBlueprint,
        }
    }

    /// What holding it teaches the fabricator to make.
    pub fn item(self) -> (r: Resource)
        ensures
            r == blueprint_item(self),
    {
        match self {
            Blueprint::Hypo => Resource::Hypo,
            Blueprint::KineticArmour => Resource::KineticArmour,
            Blueprint::Disruptor => Resource::Disruptor,
            Blueprint::PlasmaRifle => Resource::PlasmaRifle,
            Blueprint::Stim => Resource::Stim,
            Blueprint::Glowstone => Resource::Glowstone,
        }
    }

    /// Named after what it makes.
    pub fn label(self) -> (r: &'static str)
        ensures
            r@ == resource_label(blueprint_item(self)),
    {
        self.item().label()
    }
}

/// One thing the fabricator makes: paid for in alien alloy and gated on a
/// blueprint rather than on a building.
pub struct Fabricable {
    pub item: Resource,
    pub maximum: Option<u32>,
    pub cost: Vec<(Resource, i64)>,
    /// How many one press makes.
    pub quantity: i64,
    /// The blueprint that has to be found first, where one is needed.
    pub blueprint: Option<Blueprint>,
    pub build_msg: &'static str,
}

/// How many recipes the fabricator knows.
pub const FABRICABLE_COUNT: usize = 9;

/// The fabricator's recipes: item, ceiling, cost, batch size, blueprint.
pub open spec fn fab_entry(i: int) -> (Resource, Option<u32>, Seq<(Resource, i64)>, i64, Option<Blueprint>) {
    if i == 0 {
        (Resource::EnergyBlade, None, seq![(Resource::AlienAlloy, 1i64)], 1i64, None)
    } else if i == 1 {
        (Resource::FluidRecycler, Some(1u32), seq![(Resource::AlienAlloy, 2i64)], 1i64, None)
    } else if i == 2 {
        (Resource::CargoDrone, Some(1u32), seq![(Resource::AlienAlloy, 2i64)], 1i64, None)
    } else if i == 3 {
        (Resource::KineticArmour, Some(1u32), seq![(Resource::AlienAlloy, 2i64)], 1i64, Some(Blueprint::KineticArmour))
    } else if i == 4 {
        (Resource::Disruptor, None, seq![(Resource::AlienAlloy, 1i64)], 1i64, Some(Blueprint::Disruptor))
    } else if i == 5 {
        (Resource::Hypo, None, seq![(Resource::AlienAlloy, 1i64)], 5i64, Some(Blueprint::Hypo))
    } else if i == 6 {
        (Resource::Stim, None, seq![(Resource::AlienAlloy, 1i64)], 1i64, Some(Blueprint::Stim))
    } else if i == 7 {
        (Resource::PlasmaRifle, None, seq![(Resource::AlienAlloy, 1i64)], 1i64, Some(Blueprint::PlasmaRifle))
    } else {
        (Resource::Glowstone, None, seq![(Resource::AlienAlloy, 1i64)], 1i64, Some(Blueprint::Glowstone))
    }
}

/// Everything the fabricator makes, in listing order.
pub fn fabricables() -> (r: Vec<Fabricable>)
    ensures
        r.len() == FABRICABLE_COUNT,
        forall|i: int|
            0 <= i < FABRICABLE_COUNT ==> (#[trigger] r@[i]).item == fab_entry(i).0 && r@[i].maximum
                == fab_entry(i).1 && r@[i].cost@ == fab_entry(i).2 && r@[i].quantity == fab_entry(i).3
                && r@[i].blueprint == fab_entry(i).4,
{
    let r = vec![
        Fabricable { item: Resource::EnergyBlade, maximum: None, cost: vec![(Resource::AlienAlloy, 1)], quantity: 1, blueprint: None, build_msg: "the blade hums, charged particles sparking and fizzing." },
        Fabricable { item: Resource::FluidRecycler, maximum: Some(1), cost: vec![(Resource::AlienAlloy, 2)], quantity: 1, blueprint: None, build_msg: "water out, water in. waste not, want not." },
        Fabricable { item: Resource::CargoDrone, maximum: Some(1), cost: vec![(Resource::AlienAlloy, 2)], quantity: 1, blueprint: None, build_msg: "the workhorse of the wanderer fleet." },
        Fabricable { item: Resource::KineticArmour, maximum: Some(1), cost: vec![(Resource::AlienAlloy, 2)], quantity: 1, blueprint: Some(Blueprint::KineticArmour), build_msg: "wanderer soldiers succeed by subverting the enemy's rage." },
        Fabricable { item: Resource::Disruptor, maximum: None, cost: vec![(Resource::AlienAlloy, 1)], quantity: 1, blueprint: Some(Blueprint::Disruptor), build_msg: "somtimes it is best not to fight." },
        Fabricable { item: Resource::Hypo, maximum: None, cost: vec![(Resource::AlienAlloy, 1)], quantity: 5, blueprint: Some(Blueprint::Hypo), build_msg: "a handful of hypos. life in a vial." },
        Fabricable { item: Resource::Stim, maximum: None, cost: vec![(Resource::AlienAlloy, 1)], quantity: 1, blueprint: Some(Blueprint::Stim), build_msg: "sometimes it is best to fight without restraint." },
        Fabricable { item: Resource::PlasmaRifle, maximum: None, cost: vec![(Resource::AlienAlloy, 1)], quantity: 1, blueprint: Some(Blueprint::PlasmaRifle), build_msg: "the peak of wanderer weapons technology, sleek and deadly." },
        Fabricable { item: Resource::Glowstone, maximum: None, cost: vec![(Resource::AlienAlloy, 1)], quantity: 1, blueprint: Some(Blueprint::Glowstone), build_msg: "a smooth, perfect sphere. its light is inextinguishable." },
    ];
    assert(r@[0].cost@ =~= fab_entry(0).2);
    assert(r@[1].cost@ =~= fab_entry(1).2);
    assert(r@[2].cost@ =~= fab_entry(2).2);
    assert(r@[3].cost@ =~= fab_entry(3).2);
    assert(r@[4].cost@ =~= fab_entry(4).2);
    assert(r@[5].cost@ =~= fab_entry(5).2);
    assert(r@[6].cost@ =~= fab_entry(6).2);
    assert(r@[7].cost@ =~= fab_entry(7).2);
    assert(r@[8].cost@ =~= fab_entry(8).2);
    r
}

/// One thing the trading post sells.
pub struct TradeGood {
    pub good: Resource,
    /// Only the compass is limited; the rest stack.
    pub maximum: Option<u32>,
    pub cost: Vec<(Resource, i64)>,
}

/// How many goods the nomads sell.
pub const TRADE_GOOD_COUNT: usize = 13;

/// What the nomads sell: good, ceiling, cost.
pub open spec fn trade_entry(i: int) -> (Resource, Option<u32>, Seq<(Resource, i64)>) {
    if i == 0 {
        (Resource::Scales, None, seq![(Resource::Fur, 150i64)])
    } else if i == 1 {
        (Resource::Teeth, None, seq![(Resource::Fur, 300i64)])
    } else if i == 2 {
        (Resource::Iron, None, seq![(Resource::Fur, 150i64), (Resource::Scales, 50i64)])
    } else if i == 3 {
        (Resource::Coal, None, seq![(Resource::Fur, 200i64), (Resource::Teeth, 50i64)])
    } else if i == 4 {
        (Resource::Steel, None, seq![(Resource::Fur, 300i64), (Resource::Scales, 50i64), (Resource::Teeth, 50i64)])
    } else if i == 5 {
        (Resource::Medicine, None, seq![(Resource::Scales, 50i64), (Resource::Teeth, 30i64)])
    } else if i == 6 {
        (Resource::Bullets, None, seq![(Resource::Scales, 10i64)])
    } else if i == 7 {
        (Resource::EnergyCell, None, seq![(Resource::Scales, 10i64), (Resource::Teeth, 10i64)])
    } else if i == 8 {
        (Resource::Bolas, None, seq![(Resource::Teeth, 10i64)])
    } else if i == 9 {
        (Resource::Grenade, None, seq![(Resource::Scales, 100i64), (Resource::Teeth, 50i64)])
    } else if i == 10 {
        (Resource::Bayonet, None, seq![(Resource::Scales, 500i64), (Resource::Teeth, 250i64)])
    } else if i == 11 {
        (Resource::AlienAlloy, None, seq![(Resource::Fur, 1500i64), (Resource::Scales, 750i64), (Resource::Teeth, 300i64)])
    } else {
        (Resource::Compass, Some(1u32), seq![(Resource::Fur, 400i64), (Resource::Scales, 20i64), (Resource::Teeth, 10i64)])
    }
}

/// Everything the nomads sell, in listing order.
pub fn trade_goods() -> (r: Vec<TradeGood>)
    ensures
        r.len() == TRADE_GOOD_COUNT,
        forall|i: int|
            0 <= i < TRADE_GOOD_COUNT ==> (#[trigger] r@[i]).good == trade_entry(i).0 && r@[i].maximum
                == trade_entry(i).1 && r@[i].cost@ == trade_entry(i).2,
{
    let r = vec![
        TradeGood { good: Resource::Scales, maximum: None, cost: vec![(Resource::Fur, 150)] },
        TradeGood { good: Resource::Teeth, maximum: None, cost: vec![(Resource::Fur, 300)] },
        TradeGood { good: Resource::Iron, maximum: None, cost: vec![(Resource::Fur, 150), (Resource::Scales, 50)] },
        TradeGood { good: Resource::Coal, maximum: None, cost: vec![(Resource::Fur, 200), (Resource::Teeth, 50)] },
        TradeGood { good: Resource::Steel, maximum: None, cost: vec![(Resource::Fur, 300), (Resource::Scales, 50), (Resource::Teeth, 50)] },
        TradeGood { good: Resource::Medicine, maximum: None, cost: vec![(Resource::Scales, 50), (Resource::Teeth, 30)] },
        TradeGood { good: Resource::Bullets, maximum: None, cost: vec![(Resource::Scales, 10)] },
        TradeGood { good: Resource::EnergyCell, maximum: None, cost: vec![(Resource::Scales, 10), (Resource::Teeth, 10)] },
        TradeGood { good: Resource::Bolas, maximum: None, cost: vec![(Resource::Teeth, 10)] },
        TradeGood { good: Resource::Grenade, maximum: None, cost: vec![(Resource::Scales, 100), (Resource::Teeth, 50)] },
        TradeGood { good: Resource::Bayonet, maximum: None, cost: vec![(Resource::Scales, 500), (Resource::Teeth, 250)] },
        TradeGood { good: Resource::AlienAlloy, maximum: None, cost: vec![(Resource::Fur, 1500), (Resource::Scales, 750), (Resource::Teeth, 300)] },
        TradeGood { good: Resource::Compass, maximum: Some(1), cost: vec![(Resource::Fur, 400), (Resource::Scales, 20), (Resource::Teeth, 10)] },
    ];
    assert(r@[0].cost@ =~= trade_entry(0).2);
    assert(r@[1].cost@ =~= trade_entry(1).2);
    assert(r@[2].cost@ =~= trade_entry(2).2);
    assert(r@[3].cost@ =~= trade_entry(3).2);
    assert(r@[4].cost@ =~= trade_entry(4).2);
    assert(r@[5].cost@ =~= trade_entry(5).2);
    assert(r@[6].cost@ =~= trade_entry(6).2);
    assert(r@[7].cost@ =~= trade_entry(7).2);
    assert(r@[8].cost@ =~= trade_entry(8).2);
    assert(r@[9].cost@ =~= trade_entry(9).2);
    assert(r@[10].cost@ =~= trade_entry(10).2);
    assert(r@[11].cost@ =~= trade_entry(11).2);
    assert(r@[12].cost@ =~= trade_entry(12).2);
    r
}

/// What the wanderer has learned. Perks are permanent, and every one of them
/// changes a number in the wasteland rather than unlocking anything.
#[derive(Clone, Copy, Debug, PartialEq, Eq, PartialOrd, Ord, Hash, Structural)]
pub enum Perk {
    Boxer,
    MartialArtist,
    UnarmedMaster,
    Barbarian,
    SlowMetabolism,
    DesertRat,
    Evasive,
    Precise,
    Scout,
    Stealthy,
    Gastronome,
}

impl Keyed for Perk {
    open spec fn key(self) -> nat {
        match self {
            Perk::Boxer => 0,
            Perk::MartialArtist => 1,
            Perk::UnarmedMaster => 2,
            Perk::Barbarian => 3,
            Perk::SlowMetabolism => 4,
            Perk::DesertRat => 5,
            Perk::Evasive => 6,
            Perk::Precise => 7,
            Perk::Scout => 8,
            Perk::Stealthy => 9,
            Perk::Gastronome => 10,
        }
    }

    open spec fn key_count() -> nat {
        11
    }

    fn index(&self) -> (i: usize) {
        match self {
            Perk::Boxer => 0,
            Perk::MartialArtist => 1,
            Perk::UnarmedMaster => 2,
            Perk::Barbarian => 3,
            Perk::SlowMetabolism => 4,
            Perk::DesertRat => 5,
            Perk::Evasive => 6,
            Perk::Precise => 7,
            Perk::Scout => 8,
            Perk::Stealthy => 9,
            Perk::Gastronome => 10,
        }
    }

    open spec fn from_key(i: nat) -> Self {
        if i == 0 {
            Perk::Boxer
        } else if i == 1 {
            Perk::MartialArtist
        } else if i == 2 {
            Perk::UnarmedMaster
        } else if i == 3 {
            Perk::Barbarian
        } else if i == 4 {
            Perk::SlowMetabolism
        } else if i == 5 {
            Perk::DesertRat
        } else if i == 6 {
            Perk::Evasive
        } else if i == 7 {
            Perk::Precise
        } else if i == 8 {
            Perk::Scout
        } else if i == 9 {
            Perk::Stealthy
        } else {
            Perk::Gastronome
        }
    }

    fn from_index(i: usize) -> (k: Self) {
        if i == 0 {
            Perk::Boxer
        } else if i == 1 {
            Perk::MartialArtist
        } else if i == 2 {
            Perk::UnarmedMaster
        } else if i == 3 {
            Perk::Barbarian
        } else if i == 4 {
            Perk::SlowMetabolism
        } else if i == 5 {
            Perk::DesertRat
        } else if i == 6 {
            Perk::Evasive
        } else if i == 7 {
            Perk::Precise
        } else if i == 8 {
            Perk::Scout
        } else if i == 9 {
            Perk::Stealthy
        } else {
            Perk::Gastronome
        }
    }

    fn count() -> (n: usize) {
        11
    }

    proof fn key_injective(a: Self, b: Self) {
    }

    proof fn key_roundtrip(i: nat) {
    }
}

pub open spec fn perk_label(x: Perk) -> Seq<char> {
    match x {
        Perk::Boxer => "boxer"@,
        Perk::MartialArtist => "martial artist"@,
        Perk::UnarmedMaster => "unarmed master"@,
        Perk::Barbarian => "barbarian"@,
        Perk::SlowMetabolism => "slow metabolism"@,
        Perk::DesertRat => "desert rat"@,
        Perk::Evasive => "evasive"@,
        Perk::Precise => "precise"@,
        Perk::Scout => "scout"@,
        Perk::Stealthy => "stealthy"@,
        Perk::Gastronome => "gastronome"@,
    }
}

pub open spec fn perk_desc(x: Perk) -> Seq<char> {
    match x {
        Perk::Boxer => "punches do more damage"@,
        Perk::MartialArtist => "punches do even more damage."@,
        Perk::UnarmedMaster => "punch twice as fast, and with even more force"@,
        Perk::Barbarian => "melee weapons deal more damage"@,
        Perk::SlowMetabolism => "go twice as far without eating"@,
        Perk::DesertRat => "go twice as far without drinking"@,
        Perk::Evasive => "dodge attacks more effectively"@,
        Perk::Precise => "land blows more often"@,
        Perk::Scout => "see farther"@,
        Perk::Stealthy => "better avoid conflict in the wild"@,
        Perk::Gastronome => "restore more health when eating"@,
    }
}

pub open spec fn perk_notify(x: Perk) -> Seq<char> {
    match x {
        Perk::Boxer => "learned to throw punches with purpose"@,
        Perk::MartialArtist => "learned to fight quite effectively without weapons"@,
        Perk::UnarmedMaster => "learned to strike faster without weapons"@,
        Perk::Barbarian => "learned to swing weapons with force"@,
        Perk::SlowMetabolism => "learned how to ignore the hunger"@,
        Perk::DesertRat => "learned to love the dry air"@,
        Perk::Evasive => "learned to be where they're not"@,
        Perk::Precise => "learned to predict their movement"@,
        Perk::Scout => "learned to look ahead"@,
        Perk::Stealthy => "learned how not to be seen"@,
        Perk::Gastronome => "learned to make the most of food"@,
    }
}

impl Perk {
    pub const ALL: [Perk; 11] = [
        Perk::Boxer,
        Perk::MartialArtist,
        Perk::UnarmedMaster,
        Perk::Barbarian,
        Perk::SlowMetabolism,
        Perk::DesertRat,
        Perk::Evasive,
        Perk::Precise,
        Perk::Scout,
        Perk::Stealthy,
        Perk::Gastronome,
    ];

    pub fn label(self) -> (r: &'static str)
        ensures
            r@ == perk_label(self),
    {
        match self {
            Perk::Boxer => "boxer",
            Perk::MartialArtist => "martial artist",
            Perk::UnarmedMaster => "unarmed master",
            Perk::Barbarian => "barbarian",
            Perk::SlowMetabolism => "slow metabolism",
            Perk::DesertRat => "desert rat",
            Perk::Evasive => "evasive",
            Perk::Precise => "precise",
            Perk::Scout => "scout",
            Perk::Stealthy => "stealthy",
            Perk::Gastronome => "gastronome",
        }
    }

    pub fn desc(self) -> (r: &'static str)
        ensures
            r@ == perk_desc(self),
    {
        match self {
            Perk::Boxer => "punches do more damage",
            Perk::MartialArtist => "punches do even more damage.",
            Perk::UnarmedMaster => "punch twice as fast, and with even more force",
            Perk::Barbarian => "melee weapons deal more damage",
            Perk::SlowMetabolism => "go twice as far without eating",
            Perk::DesertRat => "go twice as far without drinking",
            Perk::Evasive => "dodge attacks more effectively",
            Perk::Precise => "land blows more often",
            Perk::Scout => "see farther",
            Perk::Stealthy => "better avoid conflict in the wild",
            Perk::Gastronome => "restore more health when eating",
        }
    }

    /// The line printed the moment it is learned.
    pub fn notify(self) -> (r: &'static str)
        ensures
            r@ == perk_notify(self),
    {
        match self {
            Perk::Boxer => "learned to throw punches with purpose",
            Perk::MartialArtist => "learned to fight quite effectively without weapons",
            Perk::UnarmedMaster => "learned to strike faster without weapons",
            Perk::Barbarian => "learned to swing weapons with force",
            Perk::SlowMetabolism => "learned how to ignore the hunger",
            Perk::DesertRat => "learned to love the dry air",
            Perk::Evasive => "learned to be where they're not",
            Perk::Precise => "learned to predict their movement",
            Perk::Scout => "learned to look ahead",
            Perk::Stealthy => "learned how not to be seen",
            Perk::Gastronome => "learned to make the most of food",
        }
    }
}

/// What an unassigned villager brings in per income round, in half units.
pub const GATHERER_HALF_YIELD: (Resource, i64) = (Resource::Wood, 2);

/// What the builder brings in once she is helping, in half units.
pub const BUILDER_HALF_YIELD: (Resource, i64) = (Resource::Wood, 4);

/// What the thieves take per income round while they are at it.
pub open spec fn thief_skim_spec() -> Seq<(Resource, i64)> {
    seq![(Resource::Wood, -10i64), (Resource::Fur, -5i64), (Resource::Meat, -5i64)]
}

pub fn thief_skim() -> (r: Vec<(Resource, i64)>)
    ensures
        r@ == thief_skim_spec(),
{
    let r = vec![(Resource::Wood, -10), (Resource::Fur, -5), (Resource::Meat, -5)];
    assert(r@ =~= thief_skim_spec());
    r
}

/// How hot the fire is burning.
#[derive(Clone, Copy, Debug, PartialEq, Eq, PartialOrd, Ord, Hash, Default, Structural)]
pub enum Fire {
    #[default]
    Dead,
    Smoldering,
    Flickering,
    Burning,
    Roaring,
}

pub open spec fn fire_text(x: Fire) -> Seq<char> {
    match x {
        Fire::Dead => "dead"@,
        Fire::Smoldering => "smoldering"@,
        Fire::Flickering => "flickering"@,
        Fire::Burning => "burning"@,
        Fire::Roaring => "roaring"@,
    }
}

/// One step hotter, saturating at roaring.
pub open spec fn stoked_fire(f: Fire) -> Fire {
    match f {
        Fire::Dead => Fire::Smoldering,
        Fire::Smoldering => Fire::Flickering,
        Fire::Flickering => Fire::Burning,
        Fire::Burning => Fire::Roaring,
        Fire::Roaring => Fire::Roaring,
    }
}

/// One step cooler, saturating at dead.
pub open spec fn cooled_fire(f: Fire) -> Fire {
    match f {
        Fire::Dead => Fire::Dead,
        Fire::Smoldering => Fire::Dead,
        Fire::Flickering => Fire::Smoldering,
        Fire::Burning => Fire::Flickering,
        Fire::Roaring => Fire::Burning,
    }
}

/// A fire's level, from dead (0) to roaring (4).
pub open spec fn fire_level(f: Fire) -> u8 {
    match f {
        Fire::Dead => 0,
        Fire::Smoldering => 1,
        Fire::Flickering => 2,
        Fire::Burning => 3,
        Fire::Roaring => 4,
    }
}

/// The fire at a level; anything past four roars.
pub open spec fn fire_at(v: u8) -> Fire {
    if v == 0 {
        Fire::Dead
    } else if v == 1 {
        Fire::Smoldering
    } else if v == 2 {
        Fire::Flickering
    } else if v == 3 {
        Fire::Burning
    } else {
        Fire::Roaring
    }
}

impl Fire {
    pub fn text(self) -> (r: &'static str)
        ensures
            r@ == fire_text(self),
    {
        match self {
            Fire::Dead => "dead",
            Fire::Smoldering => "smoldering",
            Fire::Flickering => "flickering",
            Fire::Burning => "burning",
            Fire::Roaring => "roaring",
        }
    }

    pub fn value(self) -> (r: u8)
        ensures
            r == fire_level(self),
    {
        match self {
            Fire::Dead => 0,
            Fire::Smoldering => 1,
            Fire::Flickering => 2,
            Fire::Burning => 3,
            Fire::Roaring => 4,
        }
    }

    pub fn from_value(value: u8) -> (r: Fire)
        ensures
            r == fire_at(value),
    {
        match value {
            0 => Fire::Dead,
            1 => Fire::Smoldering,
            2 => Fire::Flickering,
            3 => Fire::Burning,
            _ => Fire::Roaring,
        }
    }

    /// One step up, saturating at roaring.
    pub fn stoked(self) -> (r: Fire)
        ensures
            r == stoked_fire(self),
    {
        let v = self.value();
        Fire::from_value(if v < 4 { v + 1 } else { 4 })
    }

    /// One step down, saturating at dead.
    pub fn cooled(self) -> (r: Fire)
        ensures
            r == cooled_fire(self),
    {
        let v = self.value();
        Fire::from_value(if v > 0 { v - 1 } else { 0 })
    }
}

/// How warm the room is.
#[derive(Clone, Copy, Debug, PartialEq, Eq, PartialOrd, Ord, Hash, Default, Structural)]
pub enum Temperature {
    #[default]
    Freezing,
    Cold,
    Mild,
    Warm,
    Hot,
}

pub open spec fn temperature_text(x: Temperature) -> Seq<char> {
    match x {
        Temperature::Freezing => "freezing"@,
        Temperature::Cold => "cold"@,
        Temperature::Mild => "mild"@,
        Temperature::Warm => "warm"@,
        Temperature::Hot => "hot"@,
    }
}

/// A temperature's level, from freezing (0) to hot (4).
pub open spec fn temperature_level(t: Temperature) -> u8 {
    match t {
        Temperature::Freezing => 0,
        Temperature::Cold => 1,
        Temperature::Mild => 2,
        Temperature::Warm => 3,
        Temperature::Hot => 4,
    }
}

/// The temperature at a level; anything past four is hot.
pub open spec fn temperature_at(v: u8) -> Temperature {
    if v == 0 {
        Temperature::Freezing
    } else if v == 1 {
        Temperature::Cold
    } else if v == 2 {
        Temperature::Mild
    } else if v == 3 {
        Temperature::Warm
    } else {
        Temperature::Hot
    }
}

impl Temperature {
    pub fn text(self) -> (r: &'static str)
        ensures
            r@ == temperature_text(self),
    {
        match self {
            Temperature::Freezing => "freezing",
            Temperature::Cold => "cold",
            Temperature::Mild => "mild",
            Temperature::Warm => "warm",
            Temperature::Hot => "hot",
        }
    }

    pub fn value(self) -> (r: u8)
        ensures
            r == temperature_level(self),
    {
        match self {
            Temperature::Freezing => 0,
            Temperature::Cold => 1,
            Temperature::Mild => 2,
            Temperature::Warm => 3,
            Temperature::Hot => 4,
        }
    }

    pub fn from_value(value: u8) -> (r: Temperature)
        ensures
            r == temperature_at(value),
    {
        match value {
            0 => Temperature::Freezing,
            1 => Temperature::Cold,
            2 => Temperature::Mild,
            3 => Temperature::Warm,
            _ => Temperature::Hot,
        }
    }
}

/// How many things a sprung trap can hold.
pub const TRAP_DROP_COUNT: usize = 6;

/// What a sprung trap can hold, as cumulative roll thresholds in thousandths
/// of the unit interval, with the line the haul prints.
pub open spec fn trap_drop(i: int) -> (u64, Resource, Seq<char>) {
    if i == 0 {
        (500, Resource::Fur, "scraps of fur"@)
    } else if i == 1 {
        (750, Resource::Meat, "bits of meat"@)
    } else if i == 2 {
        (850, Resource::Scales, "strange scales"@)
    } else if i == 3 {
        (930, Resource::Teeth, "scattered teeth"@)
    } else if i == 4 {
        (995, Resource::Cloth, "tattered cloth"@)
    } else {
        (1000, Resource::Charm, "a crudely made charm"@)
    }
}

/// One row of the trap table.
pub fn trap_drop_at(i: usize) -> (r: (u64, Resource, &'static str))
    requires
        i < TRAP_DROP_COUNT,
    ensures
        r.0 == trap_drop(i as int).0,
        r.1 == trap_drop(i as int).1,
        r.2@ == trap_drop(i as int).2,
{
    if i == 0 {
        (500, Resource::Fur, "scraps of fur")
    } else if i == 1 {
        (750, Resource::Meat, "bits of meat")
    } else if i == 2 {
        (850, Resource::Scales, "strange scales")
    } else if i == 3 {
        (930, Resource::Teeth, "scattered teeth")
    } else if i == 4 {
        (995, Resource::Cloth, "tattered cloth")
    } else {
        (1000, Resource::Charm, "a crudely made charm")
    }
}

// Timing, in whole seconds of the clock the village steps on.

/// Seconds after a stoke before the fire drops a level.
pub const FIRE_COOL_DELAY: u32 = 300;

/// Seconds between room temperature steps.
pub const ROOM_WARM_DELAY: u32 = 30;

/// Seconds between builder state steps.
pub const BUILDER_STATE_DELAY: u32 = 30;

/// Seconds from the stranger arriving to the wood running out.
pub const NEED_WOOD_DELAY: u32 = 15;

/// Cooldown on the light/stoke buttons.
pub const STOKE_COOLDOWN: u32 = 10;

/// Cooldown on gathering wood.
pub const GATHER_DELAY: u32 = 60;

/// Cooldown on checking the traps.
pub const TRAPS_DELAY: u32 = 90;

/// Seconds between income payouts.
pub const INCOME_DELAY: u32 = 10;

/// Villagers one hut sleeps.
pub const HUT_ROOM: u32 = 4;

/// Wood a bare gathering trip brings back, and the same trip with the cart.
pub const GATHER_WOOD: i64 = 10;
pub const GATHER_WOOD_CART: i64 = 50;

/// Wood it takes to light a dead fire, and to stoke a live one.
pub const LIGHT_FIRE_COST: i64 = 5;
pub const STOKE_FIRE_COST: i64 = 1;

/// What the forest holds the moment the wood runs out.
pub const UNLOCK_FOREST_WOOD: i64 = 4;

pub const MSG_NOT_ENOUGH_WOOD: &'static str = "not enough wood to get the fire going";
pub const MSG_WOOD_RUN_OUT: &'static str = "the wood has run out";
pub const MSG_FIRE_SPILLS: &'static str = "the light from the fire spills from the windows, out into the dark";
pub const MSG_BUILDER_SHIVERS: &'static str = "builder just shivers";
pub const MSG_GATHER_WOOD: &'static str = "dry brush and dead branches litter the forest floor";
pub const MSG_SEEN_FOREST: &'static str = "the sky is grey and the wind blows relentlessly";

/// The legends over the three groups of room buttons.
pub const SECTION_BUILD: &'static str = "build:";
pub const SECTION_CRAFT: &'static str = "craft:";
pub const SECTION_BUY: &'static str = "buy:";

pub const FABRICATOR_TITLE: &'static str = "A Whirring Fabricator";
pub const SECTION_FABRICATE: &'static str = "fabricate:";
pub const SECTION_BLUEPRINTS: &'static str = "blueprints";
pub const MSG_FABRICATOR_FOUND: &'static str = "builder knows the strange device when she sees it. takes it for herself real quick. doesn't ask where it came from.";
pub const MSG_FABRICATOR_SEEN: &'static str = "the familiar hum of wanderer machinery coming to life. finally, real tools.";
pub const MSG_BLUEPRINTS_REDEEMED: &'static str = "blueprints feed into the fabricator data port. possibilities grow.";

/// The one building that opens a trade.
pub open spec fn job_building(j: Job) -> Building {
    match j {
        Job::Hunter => Building::Lodge,
        Job::Trapper => Building::Lodge,
        Job::Tanner => Building::Tannery,
        Job::Charcutier => Building::Smokehouse,
        Job::IronMiner => Building::IronMine,
        Job::CoalMiner => Building::CoalMine,
        Job::SulphurMiner => Building::SulphurMine,
        Job::Steelworker => Building::Steelworks,
        Job::Armourer => Building::Armoury,
    }
}

/// Every trade is opened by exactly one building, no building lists a trade
/// twice, and the buildings that open none are the trap, the cart, the hut,
/// the trading post and the workshop.
pub proof fn law_each_trade_has_one_building(j: Job, b: Building)
    ensures
        building_jobs(b).contains(j) <==> b == job_building(j),
        forall|i: int, k: int|
            0 <= i < k < building_jobs(b).len() ==> building_jobs(b)[i] != building_jobs(b)[k],
        building_jobs(b).len() == 0 <==> (b == Building::Trap || b == Building::Cart || b == Building::Hut || b
            == Building::TradingPost || b == Building::Workshop),
        building_jobs(Building::Lodge) == seq![Job::Hunter, Job::Trapper],
{
    if building_jobs(b).contains(j) {
        let i = choose|i: int| 0 <= i < building_jobs(b).len() && building_jobs(b)[i] == j;
        assert(building_jobs(b)[i] == j);
    }
    if b == job_building(j) {
        match j {
            Job::Trapper => assert(building_jobs(b)[1] == j),
            _ => assert(building_jobs(b)[0] == j),
        }
    }
}

/// Each blueprint's token is a special of its own, not the thing it makes,
/// and is labelled as that thing's blueprint.
pub proof fn law_blueprint_tokens(b: Blueprint, c: Blueprint)
    ensures
        b != c ==> blueprint_token(b) != blueprint_token(c),
        resource_kind(blueprint_token(b)) == ResourceKind::Special,
        blueprint_token(b) != blueprint_item(b),
        resource_label(blueprint_token(b)) == resource_label(blueprint_item(b)) + " blueprint"@,
{
    reveal_strlit(" blueprint");
    match b {
        Blueprint::Hypo => {
            reveal_strlit("hypo");
            reveal_strlit("hypo blueprint");
        },
        Blueprint::KineticArmour => {
            reveal_strlit("kinetic armour");
            reveal_strlit("kinetic armour blueprint");
        },
        Blueprint::Disruptor => {
            reveal_strlit("disruptor");
            reveal_strlit("disruptor blueprint");
        },
        Blueprint::PlasmaRifle => {
            reveal_strlit("plasma rifle");
            reveal_strlit("plasma rifle blueprint");
        },
        Blueprint::Stim => {
            reveal_strlit("stim");
            reveal_strlit("stim blueprint");
        },
        Blueprint::Glowstone => {
            reveal_strlit("glow stone");
            reveal_strlit("glow stone blueprint");
        },
    }
    assert(resource_label(blueprint_token(b)) =~= resource_label(blueprint_item(b)) + " blueprint"@);
}

/// Everything the workshop makes needs the workshop: tools, weapons and
/// gear alike.
pub proof fn law_workshop_makes_what_needs_it(k: int)
    requires
        0 <= k < CRAFTABLE_COUNT,
    ensures
        ({
            let kind = resource_kind(craft_entry(k).0);
            kind == ResourceKind::Tool || kind == ResourceKind::Weapon || kind == ResourceKind::Upgrade
        }),
{
}

} // verus!
