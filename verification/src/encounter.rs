//! What jumps out at you in the wasteland. Three tiers by distance from the
//! village, and within a tier the terrain decides what is out there.
use rand::rngs::StdRng;
use vstd::prelude::*;
use vstd::view::View as _;

use crate::chance::{self, draw};
use crate::data::Resource;
use crate::event::{self, holds_spec, Condition};
use crate::fight::{Combat, Loot};
use crate::model::{Expedition, Game, View};
use crate::world_data::Tile;

verus! {

/// How many wandering fights there are.
pub const ENCOUNTER_COUNT: usize = 11;

/// A wandering fight.
#[derive(Debug)]
pub struct Encounter {
    pub key: &'static str,
    pub title: &'static str,
    /// The line the log gets when it jumps out.
    pub notification: &'static str,
    pub enemy: &'static str,
    /// The single character that stands for the enemy on screen.
    pub chara: char,
    pub ranged: bool,
    /// Every condition must hold for it to be met.
    pub available: Vec<Condition>,
    pub combat: Combat,
}

impl Encounter {
    pub open spec fn wf(&self) -> bool {
        self.combat.wf()
    }
}

/// Whether `e` is the `i`-th wandering fight of the table.
pub open spec fn is_encounter(e: Encounter, i: int) -> bool {
    let (key, title, notification, enemy, chara, ranged, death) = encounter_words(i);
    let (health, damage, hit_pct, attack_delay) = encounter_numbers(i);
    &&& e.key@ == key
    &&& e.title@ == title
    &&& e.notification@ == notification
    &&& e.enemy@ == enemy
    &&& e.chara == chara
    &&& e.ranged == ranged
    &&& e.available@ == encounter_conditions(i)
    &&& e.combat.health == health
    &&& e.combat.damage == damage
    &&& e.combat.hit_pct == hit_pct
    &&& e.combat.attack_delay == attack_delay
    &&& e.combat.specials@.len() == 0
    &&& e.combat.at_health@.len() == 0
    &&& e.combat.explosion is None
    &&& e.combat.death_message@ == death
    &&& e.combat.loot@ == encounter_loot(i)
}

/// The wandering fights, in table order: key, title, the line that
/// announces it, the enemy, its character, whether it shoots, its death line.
pub open spec fn encounter_words(i: int) -> (Seq<char>, Seq<char>, Seq<char>, Seq<char>, char, bool, Seq<char>) {
    if i == 0 {
        ("snarling beast"@, "A Snarling Beast"@, "a snarling beast leaps out of the underbrush"@, "snarling beast"@, 'R', false, "the snarling beast is dead"@)
    } else if i == 1 {
        ("gaunt man"@, "A Gaunt Man"@, "a gaunt man approaches, a crazed look in his eye"@, "gaunt man"@, 'E', false, "the gaunt man is dead"@)
    } else if i == 2 {
        ("strange bird"@, "A Strange Bird"@, "a strange looking bird speeds across the plains"@, "strange bird"@, 'R', false, "the strange bird is dead"@)
    } else if i == 3 {
        ("two-headed creature"@, "A Two-Headed Creature"@, "a two-headed creature appears, the smaller head trembling"@, "two-headed creature"@, 'K', false, "the two creatures are dead"@)
    } else if i == 4 {
        ("shivering man"@, "A Shivering Man"@, "a shivering man approaches and attacks with surprising strength"@, "shivering man"@, 'E', false, "the shivering man is dead"@)
    } else if i == 5 {
        ("man-eater"@, "A Man-Eater"@, "a large creature attacks, claws freshly bloodied"@, "man-eater"@, 'T', false, "the man-eater is dead"@)
    } else if i == 6 {
        ("scavenger"@, "A Scavenger"@, "a scavenger draws close, hoping for an easy score"@, "scavenger"@, 'E', false, "the scavenger is dead"@)
    } else if i == 7 {
        ("lizard"@, "A Huge Lizard"@, "the grass thrashes wildly as a huge lizard pushes through"@, "lizard"@, 'T', false, "the lizard is dead"@)
    } else if i == 8 {
        ("feral terror"@, "A Feral Terror"@, "a beast, wilder than imagining, erupts out of the foliage"@, "feral terror"@, 'T', false, "the feral terror is dead"@)
    } else if i == 9 {
        ("soldier"@, "A Soldier"@, "a soldier opens fire from across the desert"@, "soldier"@, 'D', true, "the soldier is dead"@)
    } else {
        ("sniper"@, "A Sniper"@, "a shot rings out, from somewhere in the long grass"@, "sniper"@, 'D', true, "the sniper is dead"@)
    }
}

/// Each wandering fight's numbers: health, damage, odds of landing in
/// hundredths, hundredths between swings.
pub open spec fn encounter_numbers(i: int) -> (i64, i64, u32, u32) {
    if i == 0 {
        (5, 1, 80, 100)
    } else if i == 1 {
        (6, 2, 80, 200)
    } else if i == 2 {
        (4, 3, 80, 200)
    } else if i == 3 {
        (10, 2, 50, 300)
    } else if i == 4 {
        (20, 5, 50, 100)
    } else if i == 5 {
        (25, 3, 80, 100)
    } else if i == 6 {
        (30, 4, 80, 200)
    } else if i == 7 {
        (20, 5, 80, 200)
    } else if i == 8 {
        (45, 6, 80, 100)
    } else if i == 9 {
        (50, 8, 80, 200)
    } else {
        (30, 15, 80, 400)
    }
}

/// What each wandering fight leaves behind.
pub open spec fn encounter_loot(i: int) -> Seq<Loot> {
    if i == 0 {
        seq![Loot { item: Resource::Fur, chance_pct: 100, min: 1, max: 3 }, Loot { item: Resource::Meat, chance_pct: 100, min: 1, max: 3 }, Loot { item: Resource::Teeth, chance_pct: 80, min: 1, max: 3 }]
    } else if i == 1 {
        seq![Loot { item: Resource::Cloth, chance_pct: 80, min: 1, max: 3 }, Loot { item: Resource::Teeth, chance_pct: 80, min: 1, max: 2 }, Loot { item: Resource::Leather, chance_pct: 50, min: 1, max: 2 }]
    } else if i == 2 {
        seq![Loot { item: Resource::Scales, chance_pct: 80, min: 1, max: 3 }, Loot { item: Resource::Teeth, chance_pct: 50, min: 1, max: 2 }, Loot { item: Resource::Meat, chance_pct: 80, min: 1, max: 3 }]
    } else if i == 3 {
        seq![Loot { item: Resource::Fur, chance_pct: 100, min: 2, max: 4 }, Loot { item: Resource::Teeth, chance_pct: 80, min: 2, max: 3 }, Loot { item: Resource::Meat, chance_pct: 80, min: 2, max: 3 }]
    } else if i == 4 {
        seq![Loot { item: Resource::Cloth, chance_pct: 20, min: 1, max: 1 }, Loot { item: Resource::Teeth, chance_pct: 80, min: 1, max: 2 }, Loot { item: Resource::Leather, chance_pct: 20, min: 1, max: 1 }, Loot { item: Resource::Medicine, chance_pct: 70, min: 1, max: 3 }]
    } else if i == 5 {
        seq![Loot { item: Resource::Fur, chance_pct: 100, min: 5, max: 10 }, Loot { item: Resource::Meat, chance_pct: 100, min: 5, max: 10 }, Loot { item: Resource::Teeth, chance_pct: 80, min: 5, max: 10 }]
    } else if i == 6 {
        seq![Loot { item: Resource::Cloth, chance_pct: 80, min: 5, max: 10 }, Loot { item: Resource::Leather, chance_pct: 80, min: 5, max: 10 }, Loot { item: Resource::Iron, chance_pct: 50, min: 1, max: 5 }, Loot { item: Resource::Medicine, chance_pct: 10, min: 1, max: 2 }]
    } else if i == 7 {
        seq![Loot { item: Resource::Scales, chance_pct: 80, min: 5, max: 10 }, Loot { item: Resource::Teeth, chance_pct: 50, min: 5, max: 10 }, Loot { item: Resource::Meat, chance_pct: 80, min: 5, max: 10 }]
    } else if i == 8 {
        seq![Loot { item: Resource::Fur, chance_pct: 100, min: 5, max: 10 }, Loot { item: Resource::Meat, chance_pct: 100, min: 5, max: 10 }, Loot { item: Resource::Teeth, chance_pct: 80, min: 5, max: 10 }]
    } else if i == 9 {
        seq![Loot { item: Resource::Cloth, chance_pct: 80, min: 5, max: 10 }, Loot { item: Resource::Bullets, chance_pct: 50, min: 1, max: 5 }, Loot { item: Resource::Rifle, chance_pct: 20, min: 1, max: 1 }, Loot { item: Resource::Medicine, chance_pct: 10, min: 1, max: 2 }]
    } else {
        seq![Loot { item: Resource::Cloth, chance_pct: 80, min: 5, max: 10 }, Loot { item: Resource::Bullets, chance_pct: 50, min: 1, max: 5 }, Loot { item: Resource::Rifle, chance_pct: 20, min: 1, max: 1 }, Loot { item: Resource::Medicine, chance_pct: 10, min: 1, max: 2 }]
    }
}

/// Where each wandering fight is met: how far out, and on what ground.
pub open spec fn encounter_conditions(i: int) -> Seq<Condition> {
    if i == 0 {
        seq![Condition::DistanceAtMost(10), Condition::TerrainIs(Tile::Forest)]
    } else if i == 1 {
        seq![Condition::DistanceAtMost(10), Condition::TerrainIs(Tile::Barrens)]
    } else if i == 2 {
        seq![Condition::DistanceAtMost(10), Condition::TerrainIs(Tile::Field)]
    } else if i == 3 {
        seq![Condition::DistanceAtMost(10), Condition::TerrainIs(Tile::Field)]
    } else if i == 4 {
        seq![Condition::DistanceOver(10), Condition::DistanceAtMost(20), Condition::TerrainIs(Tile::Barrens)]
    } else if i == 5 {
        seq![Condition::DistanceOver(10), Condition::DistanceAtMost(20), Condition::TerrainIs(Tile::Forest)]
    } else if i == 6 {
        seq![Condition::DistanceOver(10), Condition::DistanceAtMost(20), Condition::TerrainIs(Tile::Barrens)]
    } else if i == 7 {
        seq![Condition::DistanceOver(10), Condition::DistanceAtMost(20), Condition::TerrainIs(Tile::Field)]
    } else if i == 8 {
        seq![Condition::DistanceOver(20), Condition::TerrainIs(Tile::Forest)]
    } else if i == 9 {
        seq![Condition::DistanceOver(20), Condition::TerrainIs(Tile::Barrens)]
    } else {
        seq![Condition::DistanceOver(20), Condition::TerrainIs(Tile::Field)]
    }
}

/// One wandering fight of the table, by its place in it.
pub fn encounter(i: usize) -> (e: Encounter)
    requires
        i < ENCOUNTER_COUNT,
    ensures
        e.wf(),
        is_encounter(e, i as int),
{
    if i == 0 {
        let mut loot: Vec<Loot> = Vec::new();
        loot.push(Loot { item: Resource::Fur, chance_pct: 100, min: 1, max: 3 });
        loot.push(Loot { item: Resource::Meat, chance_pct: 100, min: 1, max: 3 });
        loot.push(Loot { item: Resource::Teeth, chance_pct: 80, min: 1, max: 3 });
        let mut available: Vec<Condition> = Vec::new();
        available.push(Condition::DistanceAtMost(10));
        available.push(Condition::TerrainIs(Tile::Forest));
        let ghost want = encounter_loot(i as int);
        assert(loot@ =~= want);
        assert(available@ =~= encounter_conditions(i as int));
        Encounter {
            key: "snarling beast",
            title: "A Snarling Beast",
            notification: "a snarling beast leaps out of the underbrush",
            enemy: "snarling beast",
            chara: 'R',
            ranged: false,
            available,
            combat: Combat {
                health: 5,
                damage: 1,
                hit_pct: 80,
                attack_delay: 100,
                specials: Vec::new(),
                at_health: Vec::new(),
                explosion: None,
                death_message: "the snarling beast is dead",
                loot,
            },
        }
    } else if i == 1 {
        let mut loot: Vec<Loot> = Vec::new();
        loot.push(Loot { item: Resource::Cloth, chance_pct: 80, min: 1, max: 3 });
        loot.push(Loot { item: Resource::Teeth, chance_pct: 80, min: 1, max: 2 });
        loot.push(Loot { item: Resource::Leather, chance_pct: 50, min: 1, max: 2 });
        let mut available: Vec<Condition> = Vec::new();
        available.push(Condition::DistanceAtMost(10));
        available.push(Condition::TerrainIs(Tile::Barrens));
        let ghost want = encounter_loot(i as int);
        assert(loot@ =~= want);
        assert(available@ =~= encounter_conditions(i as int));
        Encounter {
            key: "gaunt man",
            title: "A Gaunt Man",
            notification: "a gaunt man approaches, a crazed look in his eye",
            enemy: "gaunt man",
            chara: 'E',
            ranged: false,
            available,
            combat: Combat {
                health: 6,
                damage: 2,
                hit_pct: 80,
                attack_delay: 200,
                specials: Vec::new(),
                at_health: Vec::new(),
                explosion: None,
                death_message: "the gaunt man is dead",
                loot,
            },
        }
    } else if i == 2 {
        let mut loot: Vec<Loot> = Vec::new();
        loot.push(Loot { item: Resource::Scales, chance_pct: 80, min: 1, max: 3 });
        loot.push(Loot { item: Resource::Teeth, chance_pct: 50, min: 1, max: 2 });
        loot.push(Loot { item: Resource::Meat, chance_pct: 80, min: 1, max: 3 });
        let mut available: Vec<Condition> = Vec::new();
        available.push(Condition::DistanceAtMost(10));
        available.push(Condition::TerrainIs(Tile::Field));
        let ghost want = encounter_loot(i as int);
        assert(loot@ =~= want);
        assert(available@ =~= encounter_conditions(i as int));
        Encounter {
            key: "strange bird",
            title: "A Strange Bird",
            notification: "a strange looking bird speeds across the plains",
            enemy: "strange bird",
            chara: 'R',
            ranged: false,
            available,
            combat: Combat {
                health: 4,
                damage: 3,
                hit_pct: 80,
                attack_delay: 200,
                specials: Vec::new(),
                at_health: Vec::new(),
                explosion: None,
                death_message: "the strange bird is dead",
                loot,
            },
        }
    } else if i == 3 {
        let mut loot: Vec<Loot> = Vec::new();
        loot.push(Loot { item: Resource::Fur, chance_pct: 100, min: 2, max: 4 });
        loot.push(Loot { item: Resource::Teeth, chance_pct: 80, min: 2, max: 3 });
        loot.push(Loot { item: Resource::Meat, chance_pct: 80, min: 2, max: 3 });
        let mut available: Vec<Condition> = Vec::new();
        available.push(Condition::DistanceAtMost(10));
        available.push(Condition::TerrainIs(Tile::Field));
        let ghost want = encounter_loot(i as int);
        assert(loot@ =~= want);
        assert(available@ =~= encounter_conditions(i as int));
        Encounter {
            key: "two-headed creature",
            title: "A Two-Headed Creature",
            notification: "a two-headed creature appears, the smaller head trembling",
            enemy: "two-headed creature",
            chara: 'K',
            ranged: false,
            available,
            combat: Combat {
                health: 10,
                damage: 2,
                hit_pct: 50,
                attack_delay: 300,
                specials: Vec::new(),
                at_health: Vec::new(),
                explosion: None,
                death_message: "the two creatures are dead",
                loot,
            },
        }
    } else if i == 4 {
        let mut loot: Vec<Loot> = Vec::new();
        loot.push(Loot { item: Resource::Cloth, chance_pct: 20, min: 1, max: 1 });
        loot.push(Loot { item: Resource::Teeth, chance_pct: 80, min: 1, max: 2 });
        loot.push(Loot { item: Resource::Leather, chance_pct: 20, min: 1, max: 1 });
        loot.push(Loot { item: Resource::Medicine, chance_pct: 70, min: 1, max: 3 });
        let mut available: Vec<Condition> = Vec::new();
        available.push(Condition::DistanceOver(10));
        available.push(Condition::DistanceAtMost(20));
        available.push(Condition::TerrainIs(Tile::Barrens));
        let ghost want = encounter_loot(i as int);
        assert(loot@ =~= want);
        assert(available@ =~= encounter_conditions(i as int));
        Encounter {
            key: "shivering man",
            title: "A Shivering Man",
            notification: "a shivering man approaches and attacks with surprising strength",
            enemy: "shivering man",
            chara: 'E',
            ranged: false,
            available,
            combat: Combat {
                health: 20,
                damage: 5,
                hit_pct: 50,
                attack_delay: 100,
                specials: Vec::new(),
                at_health: Vec::new(),
                explosion: None,
                death_message: "the shivering man is dead",
                loot,
            },
        }
    } else if i == 5 {
        let mut loot: Vec<Loot> = Vec::new();
        loot.push(Loot { item: Resource::Fur, chance_pct: 100, min: 5, max: 10 });
        loot.push(Loot { item: Resource::Meat, chance_pct: 100, min: 5, max: 10 });
        loot.push(Loot { item: Resource::Teeth, chance_pct: 80, min: 5, max: 10 });
        let mut available: Vec<Condition> = Vec::new();
        available.push(Condition::DistanceOver(10));
        available.push(Condition::DistanceAtMost(20));
        available.push(Condition::TerrainIs(Tile::Forest));
        let ghost want = encounter_loot(i as int);
        assert(loot@ =~= want);
        assert(available@ =~= encounter_conditions(i as int));
        Encounter {
            key: "man-eater",
            title: "A Man-Eater",
            notification: "a large creature attacks, claws freshly bloodied",
            enemy: "man-eater",
            chara: 'T',
            ranged: false,
            available,
            combat: Combat {
                health: 25,
                damage: 3,
                hit_pct: 80,
                attack_delay: 100,
                specials: Vec::new(),
                at_health: Vec::new(),
                explosion: None,
                death_message: "the man-eater is dead",
                loot,
            },
        }
    } else if i == 6 {
        let mut loot: Vec<Loot> = Vec::new();
        loot.push(Loot { item: Resource::Cloth, chance_pct: 80, min: 5, max: 10 });
        loot.push(Loot { item: Resource::Leather, chance_pct: 80, min: 5, max: 10 });
        loot.push(Loot { item: Resource::Iron, chance_pct: 50, min: 1, max: 5 });
        loot.push(Loot { item: Resource::Medicine, chance_pct: 10, min: 1, max: 2 });
        let mut available: Vec<Condition> = Vec::new();
        available.push(Condition::DistanceOver(10));
        available.push(Condition::DistanceAtMost(20));
        available.push(Condition::TerrainIs(Tile::Barrens));
        let ghost want = encounter_loot(i as int);
        assert(loot@ =~= want);
        assert(available@ =~= encounter_conditions(i as int));
        Encounter {
            key: "scavenger",
            title: "A Scavenger",
            notification: "a scavenger draws close, hoping for an easy score",
            enemy: "scavenger",
            chara: 'E',
            ranged: false,
            available,
            combat: Combat {
                health: 30,
                damage: 4,
                hit_pct: 80,
                attack_delay: 200,
                specials: Vec::new(),
                at_health: Vec::new(),
                explosion: None,
                death_message: "the scavenger is dead",
                loot,
            },
        }
    } else if i == 7 {
        let mut loot: Vec<Loot> = Vec::new();
        loot.push(Loot { item: Resource::Scales, chance_pct: 80, min: 5, max: 10 });
        loot.push(Loot { item: Resource::Teeth, chance_pct: 50, min: 5, max: 10 });
        loot.push(Loot { item: Resource::Meat, chance_pct: 80, min: 5, max: 10 });
        let mut available: Vec<Condition> = Vec::new();
        available.push(Condition::DistanceOver(10));
        available.push(Condition::DistanceAtMost(20));
        available.push(Condition::TerrainIs(Tile::Field));
        let ghost want = encounter_loot(i as int);
        assert(loot@ =~= want);
        assert(available@ =~= encounter_conditions(i as int));
        Encounter {
            key: "lizard",
            title: "A Huge Lizard",
            notification: "the grass thrashes wildly as a huge lizard pushes through",
            enemy: "lizard",
            chara: 'T',
            ranged: false,
            available,
            combat: Combat {
                health: 20,
                damage: 5,
                hit_pct: 80,
                attack_delay: 200,
                specials: Vec::new(),
                at_health: Vec::new(),
                explosion: None,
                death_message: "the lizard is dead",
                loot,
            },
        }
    } else if i == 8 {
        let mut loot: Vec<Loot> = Vec::new();
        loot.push(Loot { item: Resource::Fur, chance_pct: 100, min: 5, max: 10 });
        loot.push(Loot { item: Resource::Meat, chance_pct: 100, min: 5, max: 10 });
        loot.push(Loot { item: Resource::Teeth, chance_pct: 80, min: 5, max: 10 });
        let mut available: Vec<Condition> = Vec::new();
        available.push(Condition::DistanceOver(20));
        available.push(Condition::TerrainIs(Tile::Forest));
        let ghost want = encounter_loot(i as int);
        assert(loot@ =~= want);
        assert(available@ =~= encounter_conditions(i as int));
        Encounter {
            key: "feral terror",
            title: "A Feral Terror",
            notification: "a beast, wilder than imagining, erupts out of the foliage",
            enemy: "feral terror",
            chara: 'T',
            ranged: false,
            available,
            combat: Combat {
                health: 45,
                damage: 6,
                hit_pct: 80,
                attack_delay: 100,
                specials: Vec::new(),
                at_health: Vec::new(),
                explosion: None,
                death_message: "the feral terror is dead",
                loot,
            },
        }
    } else if i == 9 {
        let mut loot: Vec<Loot> = Vec::new();
        loot.push(Loot { item: Resource::Cloth, chance_pct: 80, min: 5, max: 10 });
        loot.push(Loot { item: Resource::Bullets, chance_pct: 50, min: 1, max: 5 });
        loot.push(Loot { item: Resource::Rifle, chance_pct: 20, min: 1, max: 1 });
        loot.push(Loot { item: Resource::Medicine, chance_pct: 10, min: 1, max: 2 });
        let mut available: Vec<Condition> = Vec::new();
        available.push(Condition::DistanceOver(20));
        available.push(Condition::TerrainIs(Tile::Barrens));
        let ghost want = encounter_loot(i as int);
        assert(loot@ =~= want);
        assert(available@ =~= encounter_conditions(i as int));
        Encounter {
            key: "soldier",
            title: "A Soldier",
            notification: "a soldier opens fire from across the desert",
            enemy: "soldier",
            chara: 'D',
            ranged: true,
            available,
            combat: Combat {
                health: 50,
                damage: 8,
                hit_pct: 80,
                attack_delay: 200,
                specials: Vec::new(),
                at_health: Vec::new(),
                explosion: None,
                death_message: "the soldier is dead",
                loot,
            },
        }
    } else {
        let mut loot: Vec<Loot> = Vec::new();
        loot.push(Loot { item: Resource::Cloth, chance_pct: 80, min: 5, max: 10 });
        loot.push(Loot { item: Resource::Bullets, chance_pct: 50, min: 1, max: 5 });
        loot.push(Loot { item: Resource::Rifle, chance_pct: 20, min: 1, max: 1 });
        loot.push(Loot { item: Resource::Medicine, chance_pct: 10, min: 1, max: 2 });
        let mut available: Vec<Condition> = Vec::new();
        available.push(Condition::DistanceOver(20));
        available.push(Condition::TerrainIs(Tile::Field));
        let ghost want = encounter_loot(i as int);
        assert(loot@ =~= want);
        assert(available@ =~= encounter_conditions(i as int));
        Encounter {
            key: "sniper",
            title: "A Sniper",
            notification: "a shot rings out, from somewhere in the long grass",
            enemy: "sniper",
            chara: 'D',
            ranged: true,
            available,
            combat: Combat {
                health: 30,
                damage: 15,
                hit_pct: 80,
                attack_delay: 400,
                specials: Vec::new(),
                at_health: Vec::new(),
                explosion: None,
                death_message: "the sniper is dead",
                loot,
            },
        }
    }
}

/// Whether every one of a list of conditions holds.
pub open spec fn all_hold(cs: Seq<Condition>, game: Game, trip: Option<Expedition>, view: View) -> bool {
    forall|k: int| 0 <= k < cs.len() ==> holds_spec(#[trigger] cs[k], game, trip, view)
}

/// The wandering fights that can be met right now, among the first `n`,
/// by their place in the table.
pub open spec fn possible(game: Game, trip: Option<Expedition>, view: View, n: nat) -> Seq<usize>
    decreases n,
{
    if n == 0 {
        Seq::empty()
    } else {
        let rest = possible(game, trip, view, (n - 1) as nat);
        if all_hold(encounter_conditions(n - 1), game, trip, view) {
            rest.push((n - 1) as usize)
        } else {
            rest
        }
    }
}

/// The wandering fight a draw picks out of the possible ones, uniformly; none
/// when nothing can be met.
pub open spec fn picked(game: Game, trip: Option<Expedition>, view: View, d: u64) -> Option<usize> {
    let p = possible(game, trip, view, ENCOUNTER_COUNT as nat);
    if p.len() == 0 {
        None
    } else {
        Some(p[chance::scaled(d, p.len() as int)])
    }
}

fn conditions_hold(cs: &Vec<Condition>, game: &Game, trip: &Option<Expedition>, view: View) -> (r: bool)
    requires
        game.wf(),
        trip matches Some(t) ==> t.wf(),
    ensures
        r == all_hold(cs@, *game, *trip, view),
{
    let mut k: usize = 0;
    while k < cs.len()
        invariant
            k <= cs@.len(),
            game.wf(),
            trip matches Some(t) ==> t.wf(),
            forall|j: int| 0 <= j < k ==> holds_spec(#[trigger] cs@[j], *game, *trip, view),
        decreases cs@.len() - k,
    {
        if !event::holds(cs[k], game, trip, view) {
            return false;
        }
        k = k + 1;
    }
    true
}

/// Pick a wandering fight that can be met here, or none if none can.
pub fn pick(game: &Game, trip: &Option<Expedition>, view: View, rng: &mut StdRng) -> (r: Option<usize>)
    requires
        game.wf(),
        trip matches Some(t) ==> t.wf(),
    ensures
        possible(*game, *trip, view, ENCOUNTER_COUNT as nat).len() == 0 ==> r is None,
        possible(*game, *trip, view, ENCOUNTER_COUNT as nat).len() > 0 ==> exists|d: u64| r == picked(*game, *trip, view, d),
        r matches Some(i) ==> i < ENCOUNTER_COUNT,
{
    let mut found: Vec<usize> = Vec::new();
    let mut i: usize = 0;
    while i < ENCOUNTER_COUNT
        invariant
            i <= ENCOUNTER_COUNT,
            game.wf(),
            trip matches Some(t) ==> t.wf(),
            found@ == possible(*game, *trip, view, i as nat),
            forall|j: int| 0 <= j < found@.len() ==> found@[j] < i,
            found@.len() <= i,
        decreases ENCOUNTER_COUNT - i,
    {
        let e = encounter(i);
        if conditions_hold(&e.available, game, trip, view) {
            found.push(i);
        }
        i = i + 1;
    }
    if found.len() == 0 {
        return None;
    }
    let d = draw(rng);
    let k = chance::draw_scaled(d, found.len() as u64);
    let r = Some(found[k as usize]);
    assert(r == picked(*game, *trip, view, d));
    r
}

/// The wandering fight a table key names, if any does.
pub fn by_key(key: &str) -> (r: Option<usize>)
    ensures
        r matches Some(i) ==> i < ENCOUNTER_COUNT && encounter_words(i as int).0 == key@,
        r is None ==> forall|i: int| 0 <= i < ENCOUNTER_COUNT ==> #[trigger] encounter_words(i).0 != key@,
{
    let mut i: usize = 0;
    while i < ENCOUNTER_COUNT
        invariant
            i <= ENCOUNTER_COUNT,
            forall|j: int| 0 <= j < i ==> #[trigger] encounter_words(j).0 != key@,
        decreases ENCOUNTER_COUNT - i,
    {
        let e = encounter(i);
        if crate::world::str_eq(e.key, key) {
            return Some(i);
        }
        i = i + 1;
    }
    None
}

} // verus!
