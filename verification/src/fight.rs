//! The fight: the enemy's swing, the cooldowns, the statuses riding on each
//! fighter, and what each row of the fight panel does. Every clock here
//! counts hundredths of a second and is stepped by [`Fight::tick`] from the
//! session's wall clock; every roll is one draw of the generator, compared in
//! whole numbers.
use rand::rngs::StdRng;
use vstd::prelude::*;

use crate::chance::{self, draw};
use crate::collections::{EnumMap, Keyed};
use crate::event::{self, quantity_of, LootRow, Outcome, Row, SpecialAction, Status};
use crate::sim::say;
use crate::model::{Expedition, Game};
use crate::data::{Perk, Resource};
use crate::model::{add_held, clamp0, held, load_of, nonneg};
use crate::sim::texts;
use crate::world_data::{Damage, WeaponKind};
use crate::world_data::Weapon;

verus! {

// ---------------------------------------------------------------------------
// Tuning, in hundredths of a second
// ---------------------------------------------------------------------------

/// How long an enraged enemy stays enraged.
pub const ENRAGE_DURATION: u32 = 400;

/// How long an enemy meditates, banking the damage aimed at it.
pub const MEDITATE_DURATION: u32 = 500;

/// How long a stim's boost lasts.
pub const BOOST_DURATION: u32 = 300;

/// What an enraged enemy swings on, whatever its own delay is.
pub const ENRAGE_ATTACK_DELAY: u32 = 50;

/// The gap between two ticks of a venom bleed.
pub const DOT_TICK: u32 = 100;

/// How long a dying automaton winds up before it goes off.
pub const EXPLOSION_DELAY: u32 = 300;

/// Cooldowns of the fight panel's rows.
pub const EAT_COOLDOWN: u32 = 500;
pub const MEDS_COOLDOWN: u32 = 700;
pub const STIM_COOLDOWN: u32 = 1000;
pub const SHIELD_COOLDOWN: u32 = 1000;

/// How long the bolas keep an enemy from swinging.
pub const STUN_DURATION: u32 = 400;

/// How long the spoils stand before the leave row opens.
pub const LEAVE_COOLDOWN: u32 = 100;

/// What a stim costs in blood.
pub const BOOST_DAMAGE: i64 = 10;

/// What a hypo heals.
pub const HYPO_HEAL: i64 = 30;

/// How much harder an energised enemy hits.
pub const ENERGISE_MULTIPLIER: i64 = 4;

/// The largest health, damage or banked hit a fight deals in.
pub const FIGHT_CAP: i64 = 1_000_000_000;

// ---------------------------------------------------------------------------
// The shape of a fight
// ---------------------------------------------------------------------------

/// How long a status lasts on its own; `None` for the ones that last until
/// they are spent (the shield) or until the fight ends.
pub open spec fn duration(s: Status) -> Option<u32> {
    match s {
        Status::Enraged => Some(ENRAGE_DURATION),
        Status::Meditation => Some(MEDITATE_DURATION),
        Status::Boost => Some(BOOST_DURATION),
        Status::Shield | Status::Venomous | Status::Energised => None,
    }
}

/// A status riding on a fighter, with the clock that takes it off again.
#[derive(Clone, Copy, Debug, PartialEq, Eq, Structural)]
pub struct Affliction {
    pub status: Status,
    /// Tenths left, for the statuses that wear off on their own.
    pub remaining: Option<u32>,
}

pub open spec fn afflicted(s: Status) -> Affliction {
    Affliction { status: s, remaining: duration(s) }
}

/// A fresh status, with its whole clock.
pub fn afflict(s: Status) -> (a: Affliction)
    ensures
        a == afflicted(s),
{
    let remaining = match s {
        Status::Enraged => Some(ENRAGE_DURATION),
        Status::Meditation => Some(MEDITATE_DURATION),
        Status::Boost => Some(BOOST_DURATION),
        Status::Shield => None,
        Status::Venomous => None,
        Status::Energised => None,
    };
    Affliction { status: s, remaining }
}

/// Whether a fighter is under a given status.
pub open spec fn under(held: Option<Affliction>, s: Status) -> bool {
    held matches Some(a) && a.status == s
}

fn is_under(held: Option<Affliction>, s: Status) -> (r: bool)
    ensures
        r == under(held, s),
{
    match held {
        Some(a) => a.status == s,
        None => false,
    }
}

/// Something the enemy does to itself on a timer, over and over.
#[derive(Clone, Copy, Debug, PartialEq, Eq, Structural)]
pub struct Special {
    /// Tenths between firings.
    pub delay: u32,
    pub action: SpecialAction,
}

/// A fight's stat line.
#[derive(Clone, Debug)]
pub struct Combat {
    pub health: i64,
    pub damage: i64,
    /// The odds of the enemy's swing landing, in hundredths.
    pub hit_pct: u32,
    /// Tenths between the enemy's swings.
    pub attack_delay: u32,
    /// Tricks the enemy pulls on a timer.
    pub specials: Vec<Special>,
    /// Statuses the enemy takes the first time its health crosses a
    /// threshold downwards.
    pub at_health: Vec<(i64, Status)>,
    /// What the enemy does to the wanderer when it dies, if it goes off
    /// instead of falling over.
    pub explosion: Option<i64>,
    /// The line the log gets when it falls; empty for none.
    pub death_message: &'static str,
    /// What it leaves behind.
    pub loot: Vec<Loot>,
}

/// A row of loot, rolled when the enemy falls.
#[derive(Clone, Copy, Debug, PartialEq, Eq, Structural)]
pub struct Loot {
    pub item: Resource,
    /// The odds of the row turning up at all, in hundredths.
    pub chance_pct: u32,
    pub min: i64,
    pub max: i64,
}

/// The largest count a loot row names.
pub const LOOT_CAP: i64 = 1_000_000;

pub open spec fn loot_wf(l: Loot) -> bool {
    0 <= l.min <= LOOT_CAP && 0 <= l.max <= LOOT_CAP && l.chance_pct <= 100
}

impl Combat {
    /// Every number of the stat line within what a fight deals in.
    pub open spec fn wf(&self) -> bool {
        &&& 0 <= self.health <= FIGHT_CAP
        &&& 0 <= self.damage <= FIGHT_CAP
        &&& self.hit_pct <= 100
        &&& (self.explosion matches Some(x) ==> 0 <= x)
        &&& forall|i: int| 0 <= i < self.loot@.len() ==> loot_wf(#[trigger] self.loot@[i])
    }
}

/// The last thing that happened, shown beside the fighters.
#[derive(Clone, Copy, Debug, PartialEq, Eq, Structural)]
pub enum Hit {
    Miss,
    Stunned,
    /// A status went on.
    Took(Status),
    /// Damage dealt.
    Damage(i64),
    /// Damage turned into healing.
    Healed(i64),
    /// Damage a meditating enemy banked.
    Banked(i64),
}

/// A venom bleed on the wanderer.
#[derive(Clone, Copy, Debug, PartialEq, Eq, Structural)]
pub struct Bleed {
    /// Damage a tick.
    pub damage: i64,
    /// Tenths until the next tick.
    pub timer: i64,
}

/// The plain numbers of a live fight: health, clocks, statuses.
#[derive(Clone, Copy, Debug, PartialEq, Eq, Structural)]
pub struct Duel {
    pub enemy_hp: i64,
    pub enemy_max: i64,
    /// Tenths until the enemy swings again.
    pub enemy_timer: i64,
    /// Tenths left of a bolas tangle.
    pub stun: u32,
    pub eat_cooldown: u32,
    pub meds_cooldown: u32,
    pub hypo_cooldown: u32,
    pub stim_cooldown: u32,
    pub shield_cooldown: u32,
    /// What the enemy is under, and what the wanderer is.
    pub enemy_status: Option<Affliction>,
    pub player_status: Option<Affliction>,
    /// The last status the command rotation picked.
    pub last_special: Option<Status>,
    /// Damage a meditating enemy has banked and will throw back.
    pub banked: i64,
    /// A venom bleed on the wanderer: damage a tick, and hundredths until the
    /// next one.
    pub bleed: Option<Bleed>,
    pub last_hit: Option<Hit>,
}

/// A live fight.
#[derive(Debug)]
pub struct Fight {
    pub combat: Combat,
    pub duel: Duel,
    /// Tenths left on each weapon that has been swung.
    pub weapon_cooldown: EnumMap<Weapon, u32>,
    /// Tenths until each of the stat line's specials fires again.
    pub special_timers: Vec<i64>,
    /// Health thresholds that have already fired, so each fires once.
    pub triggered: Vec<i64>,
}

impl Fight {
    pub open spec fn wf(&self) -> bool {
        &&& self.combat.wf()
        &&& self.weapon_cooldown.wf()
        &&& self.duel.enemy_max == self.combat.health
        &&& -FIGHT_CAP <= self.duel.enemy_hp <= FIGHT_CAP
        &&& 0 <= self.duel.banked
        &&& (self.duel.bleed matches Some(b) ==> 0 <= b.damage)
    }

    /// A fight at its first frame, with the enemy at the given health.
    pub fn start(combat: Combat, enemy_hp: i64) -> (f: Fight)
        requires
            combat.wf(),
            -FIGHT_CAP <= enemy_hp <= FIGHT_CAP,
        ensures
            f.wf(),
            f.combat == combat,
            f.duel == (Duel {
                enemy_hp,
                enemy_max: combat.health,
                enemy_timer: combat.attack_delay as i64,
                stun: 0,
                eat_cooldown: 0,
                meds_cooldown: 0,
                hypo_cooldown: 0,
                stim_cooldown: 0,
                shield_cooldown: 0,
                enemy_status: None,
                player_status: None,
                last_special: None,
                banked: 0,
                bleed: None,
                last_hit: None,
            }),
            f.weapon_cooldown@ == Map::<Weapon, u32>::empty(),
            f.special_timers@ == combat.specials@.map_values(|s: Special| s.delay as i64),
            f.triggered@ == Seq::<i64>::empty(),
    {
        let mut timers: Vec<i64> = Vec::new();
        let mut i: usize = 0;
        while i < combat.specials.len()
            invariant
                i <= combat.specials@.len(),
                timers@ == combat.specials@.subrange(0, i as int).map_values(|s: Special| s.delay as i64),
            decreases combat.specials@.len() - i,
        {
            timers.push(combat.specials[i].delay as i64);
            i = i + 1;
            assert(timers@ =~= combat.specials@.subrange(0, i as int).map_values(|s: Special| s.delay as i64));
        }
        assert(combat.specials@.subrange(0, i as int) =~= combat.specials@);
        let duel = Duel {
            enemy_hp,
            enemy_max: combat.health,
            enemy_timer: combat.attack_delay as i64,
            stun: 0,
            eat_cooldown: 0,
            meds_cooldown: 0,
            hypo_cooldown: 0,
            stim_cooldown: 0,
            shield_cooldown: 0,
            enemy_status: None,
            player_status: None,
            last_special: None,
            banked: 0,
            bleed: None,
            last_hit: None,
        };
        Fight { combat, duel, weapon_cooldown: EnumMap::new(), special_timers: timers, triggered: Vec::new() }
    }
}

// ---------------------------------------------------------------------------
// Statuses and hits
// ---------------------------------------------------------------------------

/// A status goes on the enemy. Going enraged restarts its swing clock on the
/// short delay, and starting to meditate empties whatever it was holding.
pub open spec fn took(d: Duel, s: Status) -> Duel {
    Duel {
        enemy_status: Some(afflicted(s)),
        enemy_timer: if s == Status::Enraged {
            ENRAGE_ATTACK_DELAY as i64
        } else {
            d.enemy_timer
        },
        banked: if s == Status::Meditation {
            0
        } else {
            d.banked
        },
        last_hit: Some(Hit::Took(s)),
        ..d
    }
}

fn take_status(d: &mut Duel, s: Status)
    ensures
        *final(d) == took(*old(d), s),
{
    d.enemy_status = Some(afflict(s));
    match s {
        Status::Enraged => {
            d.enemy_timer = ENRAGE_ATTACK_DELAY as i64;
        },
        Status::Meditation => {
            d.banked = 0;
        },
        Status::Shield => {},
        Status::Venomous => {},
        Status::Energised => {},
        Status::Boost => {},
    }
    d.last_hit = Some(Hit::Took(s));
}

/// A sum that stops at the top of `i64` instead of wrapping.
pub open spec fn sat_add(a: i64, b: i64) -> i64 {
    if a + b > i64::MAX {
        i64::MAX
    } else {
        (a + b) as i64
    }
}

fn add_sat(a: i64, b: i64) -> (r: i64)
    requires
        0 <= a,
        0 <= b,
    ensures
        r == sat_add(a, b),
{
    if a > i64::MAX - b {
        i64::MAX
    } else {
        a + b
    }
}

/// A clock run down by `s` hundredths, stopping at the bottom of `i64`.
pub open spec fn run_down(t: i64, s: u32) -> i64 {
    if t - s < i64::MIN {
        i64::MIN
    } else {
        (t - s) as i64
    }
}

fn run_clock(t: i64, s: u32) -> (r: i64)
    ensures
        r == run_down(t, s),
{
    if t < i64::MIN + (s as i64) {
        i64::MIN
    } else {
        t - (s as i64)
    }
}

/// The thresholds a hit from `before` down to `hp` crosses that have not
/// fired yet, among the first `n` of the stat line's, in order.
pub open spec fn crossed(at: Seq<(i64, Status)>, hp: i64, before: i64, fired: Seq<i64>, n: nat) -> Seq<
    (i64, Status),
>
    decreases n,
{
    if n == 0 {
        Seq::empty()
    } else {
        let rest = crossed(at, hp, before, fired, (n - 1) as nat);
        let p = at[n - 1];
        if hp <= p.0 && before > p.0 && !fired.contains(p.0) {
            rest.push(p)
        } else {
            rest
        }
    }
}

/// Each crossed threshold's status goes on, in order.
pub open spec fn took_all(d: Duel, ps: Seq<(i64, Status)>) -> Duel
    decreases ps.len(),
{
    if ps.len() == 0 {
        d
    } else {
        took(took_all(d, ps.drop_last()), ps.last().1)
    }
}

/// The wanderer lands a hit of `damage` on the enemy: a meditating enemy
/// banks it, a shielded one heals it back and drops the shield, anything else
/// takes it and crosses whatever thresholds it crosses.
pub open spec fn struck(d: Duel, at: Seq<(i64, Status)>, fired: Seq<i64>, damage: i64) -> (Duel, Seq<i64>) {
    if under(d.enemy_status, Status::Meditation) {
        (Duel { banked: sat_add(d.banked, damage), last_hit: Some(Hit::Banked(damage)), ..d }, fired)
    } else if under(d.enemy_status, Status::Shield) {
        let hp = if d.enemy_hp + damage < d.enemy_max {
            (d.enemy_hp + damage) as i64
        } else {
            d.enemy_max
        };
        (Duel { enemy_status: None, enemy_hp: hp, last_hit: Some(Hit::Healed(damage)), ..d }, fired)
    } else {
        let hp = if d.enemy_hp - damage > 0 {
            (d.enemy_hp - damage) as i64
        } else {
            0i64
        };
        let ps = crossed(at, hp, d.enemy_hp, fired, at.len());
        (
            took_all(Duel { enemy_hp: hp, last_hit: Some(Hit::Damage(damage)), ..d }, ps),
            fired + ps.map_values(|p: (i64, Status)| p.0),
        )
    }
}

impl Fight {
    /// The wanderer lands a hit.
    pub fn strike(&mut self, damage: i64)
        requires
            old(self).wf(),
            0 <= damage <= FIGHT_CAP,
        ensures
            final(self).wf(),
            final(self).combat == old(self).combat,
            final(self).weapon_cooldown == old(self).weapon_cooldown,
            final(self).special_timers == old(self).special_timers,
            (final(self).duel, final(self).triggered@) == struck(
                old(self).duel,
                old(self).combat.at_health@,
                old(self).triggered@,
                damage,
            ),
    {
        if is_under(self.duel.enemy_status, Status::Meditation) {
            self.duel.banked = add_sat(self.duel.banked, damage);
            self.duel.last_hit = Some(Hit::Banked(damage));
            return ;
        }
        if is_under(self.duel.enemy_status, Status::Shield) {
            self.duel.enemy_status = None;
            self.duel.enemy_hp = if self.duel.enemy_hp + damage < self.duel.enemy_max {
                self.duel.enemy_hp + damage
            } else {
                self.duel.enemy_max
            };
            self.duel.last_hit = Some(Hit::Healed(damage));
            return ;
        }
        let before = self.duel.enemy_hp;
        self.duel.enemy_hp = if before - damage > 0 {
            before - damage
        } else {
            0
        };
        self.duel.last_hit = Some(Hit::Damage(damage));
        let hp = self.duel.enemy_hp;
        let ghost d0 = self.duel;
        let ghost fired = self.triggered@;
        let ghost at = self.combat.at_health@;
        let mut pending: Vec<(i64, Status)> = Vec::new();
        let mut i: usize = 0;
        while i < self.combat.at_health.len()
            invariant
                i <= at.len(),
                at == self.combat.at_health@,
                fired == self.triggered@,
                pending@ == crossed(at, hp, before, fired, i as nat),
                self.combat == old(self).combat,
                self.weapon_cooldown == old(self).weapon_cooldown,
                self.special_timers == old(self).special_timers,
                self.duel == d0,
            decreases at.len() - i,
        {
            let p = self.combat.at_health[i];
            let mut seen = false;
            let mut j: usize = 0;
            while j < self.triggered.len()
                invariant
                    j <= fired.len(),
                    fired == self.triggered@,
                    seen == exists|m: int| 0 <= m < j && fired[m] == p.0,
                decreases fired.len() - j,
            {
                if self.triggered[j] == p.0 {
                    seen = true;
                }
                j = j + 1;
            }
            if hp <= p.0 && before > p.0 && !seen {
                pending.push(p);
            }
            i = i + 1;
        }
        let mut k: usize = 0;
        while k < pending.len()
            invariant
                k <= pending@.len(),
                pending@ == crossed(at, hp, before, fired, at.len()),
                self.combat.at_health@ == at,
                self.duel == took_all(d0, pending@.subrange(0, k as int)),
                self.triggered@ == fired + pending@.subrange(0, k as int).map_values(|p: (i64, Status)| p.0),
                self.combat.wf(),
                self.weapon_cooldown.wf(),
                self.duel.enemy_max == self.combat.health,
                self.duel.enemy_hp == hp,
                0 <= self.duel.banked,
                self.duel.bleed == d0.bleed,
                self.combat == old(self).combat,
                self.weapon_cooldown == old(self).weapon_cooldown,
                self.special_timers == old(self).special_timers,
            decreases pending@.len() - k,
        {
            let p = pending[k];
            self.triggered.push(p.0);
            take_status(&mut self.duel, p.1);
            k = k + 1;
            assert(pending@.subrange(0, k as int).drop_last() =~= pending@.subrange(0, k - 1));
            assert(self.triggered@ =~= fired + pending@.subrange(0, k as int).map_values(
                |p: (i64, Status)| p.0,
            ));
        }
        assert(pending@.subrange(0, k as int) =~= pending@);
    }
}

// ---------------------------------------------------------------------------
// The clock
// ---------------------------------------------------------------------------

/// A cooldown run down by `s` hundredths, stopping at nothing.
pub open spec fn cool(c: u32, s: u32) -> u32 {
    if c > s {
        (c - s) as u32
    } else {
        0
    }
}

fn cool_by(c: u32, s: u32) -> (r: u32)
    ensures
        r == cool(c, s),
{
    if c > s {
        c - s
    } else {
        0
    }
}

/// A status's clock run down, taking it off when it runs out. The ones with
/// no clock stay until they are used up or the fight ends.
pub open spec fn expired(held: Option<Affliction>, s: u32) -> Option<Affliction> {
    match held {
        Some(a) => match a.remaining {
            Some(r) => if r > s {
                Some(Affliction { remaining: Some((r - s) as u32), ..a })
            } else {
                None
            },
            None => held,
        },
        None => None,
    }
}

fn expire(held: Option<Affliction>, s: u32) -> (r: Option<Affliction>)
    ensures
        r == expired(held, s),
{
    match held {
        Some(a) => match a.remaining {
            Some(r) => if r > s {
                Some(Affliction { status: a.status, remaining: Some(r - s) })
            } else {
                None
            },
            None => held,
        },
        None => None,
    }
}

/// Every cooldown, the tangle and both statuses run down.
pub open spec fn cooled(d: Duel, s: u32) -> Duel {
    Duel {
        stun: cool(d.stun, s),
        eat_cooldown: cool(d.eat_cooldown, s),
        meds_cooldown: cool(d.meds_cooldown, s),
        hypo_cooldown: cool(d.hypo_cooldown, s),
        stim_cooldown: cool(d.stim_cooldown, s),
        shield_cooldown: cool(d.shield_cooldown, s),
        enemy_status: expired(d.enemy_status, s),
        player_status: expired(d.player_status, s),
        ..d
    }
}

/// Whether a special's clock runs out in this step.
pub open spec fn fires(t: i64, s: u32) -> bool {
    run_down(t, s) <= 0
}

/// A special's clock after a step: run down, and wound again by its delay
/// when it fired.
pub open spec fn next_timer(t: i64, s: u32, sp: Special) -> i64 {
    if fires(t, s) {
        (run_down(t, s) + sp.delay) as i64
    } else {
        run_down(t, s)
    }
}

/// Every special's clock after a step; a clock with no special stands still.
pub open spec fn stepped_timers(t: Seq<i64>, sp: Seq<Special>, s: u32) -> Seq<i64> {
    Seq::new(t.len(), |i: int| if i < sp.len() { next_timer(t[i], s, sp[i]) } else { t[i] })
}

/// What the command rotation may pick: shield, enraged or meditation, never
/// the one it picked last.
pub open spec fn rotation(last: Option<Status>) -> Seq<Status> {
    match last {
        Some(Status::Shield) => seq![Status::Enraged, Status::Meditation],
        Some(Status::Enraged) => seq![Status::Shield, Status::Meditation],
        Some(Status::Meditation) => seq![Status::Shield, Status::Enraged],
        _ => seq![Status::Shield, Status::Enraged, Status::Meditation],
    }
}

/// The status a special puts on, given the draw it is handed.
pub open spec fn chosen(a: SpecialAction, last: Option<Status>, d: u64) -> Status {
    match a {
        SpecialAction::Take(st) => st,
        SpecialAction::RotateCommand => rotation(last)[chance::scaled(d, rotation(last).len() as int)],
    }
}

fn choose_status(a: SpecialAction, last: Option<Status>, rng: &mut StdRng) -> (r: (Status, u64))
    ensures
        r.0 == chosen(a, last, r.1),
{
    match a {
        SpecialAction::Take(st) => (st, 0),
        SpecialAction::RotateCommand => {
            let d = draw(rng);
            let n: u64 = match last {
                Some(Status::Shield) => 2,
                Some(Status::Enraged) => 2,
                Some(Status::Meditation) => 2,
                _ => 3,
            };
            let k = chance::draw_scaled(d, n);
            let st = match last {
                Some(Status::Shield) => if k == 0 {
                    Status::Enraged
                } else {
                    Status::Meditation
                },
                Some(Status::Enraged) => if k == 0 {
                    Status::Shield
                } else {
                    Status::Meditation
                },
                Some(Status::Meditation) => if k == 0 {
                    Status::Shield
                } else {
                    Status::Enraged
                },
                _ => if k == 0 {
                    Status::Shield
                } else if k == 1 {
                    Status::Enraged
                } else {
                    Status::Meditation
                },
            };
            (st, d)
        },
    }
}

/// The first `n` specials, in order, each that fires putting its status on
/// the enemy; `ds[i]` is the draw handed to the `i`-th.
pub open spec fn specials_fired(d: Duel, t: Seq<i64>, sp: Seq<Special>, s: u32, ds: Seq<u64>, n: nat) -> Duel
    decreases n,
{
    if n == 0 {
        d
    } else {
        let prev = specials_fired(d, t, sp, s, ds, (n - 1) as nat);
        let i = n - 1;
        if i < sp.len() && fires(t[i], s) {
            let st = chosen(sp[i].action, prev.last_special, ds[i]);
            took(Duel { last_special: Some(st), ..prev }, st)
        } else {
            prev
        }
    }
}

/// Health after a hit, never below nothing.
pub open spec fn wounded(h: i64, dmg: i64) -> i64 {
    if h - dmg > 0 {
        (h - dmg) as i64
    } else {
        0
    }
}

/// Health after healing, never above the most there is.
pub open spec fn mended(h: i64, amount: i64, max: i64) -> i64 {
    if h + amount < max {
        (h + amount) as i64
    } else {
        max
    }
}

fn wound(h: i64, dmg: i64) -> (r: i64)
    requires
        0 <= dmg,
    ensures
        r == wounded(h, dmg),
{
    if h > dmg {
        h - dmg
    } else {
        0
    }
}

fn mend(h: i64, amount: i64, max: i64) -> (r: i64)
    requires
        0 <= amount,
        0 <= max <= FIGHT_CAP,
    ensures
        r == mended(h, amount, max),
{
    if h < max - amount {
        h + amount
    } else {
        max
    }
}

/// A venom bleed runs down and, when its clock runs out, bites: the new
/// state, the wanderer's health, and whether that bite killed them.
pub open spec fn bled(d: Duel, s: u32, hp: Option<i64>) -> (Duel, Option<i64>, bool) {
    match d.bleed {
        None => (d, hp, false),
        Some(b) => {
            let t = run_down(b.timer, s);
            if t > 0 {
                (Duel { bleed: Some(Bleed { timer: t, ..b }), ..d }, hp, false)
            } else {
                let d1 = Duel {
                    bleed: Some(Bleed { timer: (t + DOT_TICK) as i64, ..b }),
                    last_hit: Some(Hit::Damage(b.damage)),
                    ..d
                };
                match hp {
                    Some(h) => (d1, Some(wounded(h, b.damage)), wounded(h, b.damage) == 0),
                    None => (d1, hp, false),
                }
            }
        },
    }
}

/// Whether a draw lands a swing whose odds are `p / q`.
pub open spec fn landed(d: u64, p: int, q: int) -> bool {
    chance::unit(d) * q <= p * (chance::UNIT as int)
}

fn lands(d: u64, p: u64, q: u64) -> (r: bool)
    requires
        p <= 0xFFFF_FFFF,
        q <= 0xFFFF_FFFF,
    ensures
        r == landed(d, p as int, q as int),
{
    {
        let u = chance::unit_of(d);
        assert((u as int) * (q as int) <= 0x20_0000_0000_0000 * 0xFFFF_FFFF) by (nonlinear_arith)
            requires
                u < 0x20_0000_0000_0000,
                q <= 0xFFFF_FFFF,
        ;
        assert((p as int) * 0x20_0000_0000_0000 <= 0xFFFF_FFFF * 0x20_0000_0000_0000) by (nonlinear_arith)
            requires
                p <= 0xFFFF_FFFF,
        ;
        (u as u128) * (q as u128) <= (p as u128) * (chance::UNIT as u128)
    }
}

/// A hit made harder by an energised enemy, stopping at the top of `i64`.
pub open spec fn energised(x: i64) -> i64 {
    if x > i64::MAX / ENERGISE_MULTIPLIER {
        i64::MAX
    } else {
        (x * ENERGISE_MULTIPLIER) as i64
    }
}

/// The odds of the enemy's swing landing, as a fraction over 500: the
/// evasive perk takes a fifth off them.
pub open spec fn swing_odds(c: Combat, evasive: bool) -> int {
    c.hit_pct * (if evasive {
        4int
    } else {
        5int
    })
}

/// The enemy's clock runs down and, when it runs out, the enemy swings: the
/// new state, the wanderer's health, and what came of it.
pub open spec fn swung(d: Duel, c: Combat, s: u32, evasive: bool, max: i64, hp: Option<i64>, draw: u64) -> (
    Duel,
    Option<i64>,
    Outcome,
) {
    let t = run_down(d.enemy_timer, s);
    if t > 0 {
        (Duel { enemy_timer: t, ..d }, hp, Outcome::Continue)
    } else {
        let d1 = Duel {
            enemy_timer: if under(d.enemy_status, Status::Enraged) {
                ENRAGE_ATTACK_DELAY as i64
            } else {
                c.attack_delay as i64
            },
            ..d
        };
        if d1.stun > 0 || under(d1.enemy_status, Status::Meditation) {
            (d1, hp, Outcome::Continue)
        } else if d1.banked <= 0 && !landed(draw, swing_odds(c, evasive), 500) {
            (Duel { last_hit: Some(Hit::Miss), ..d1 }, hp, Outcome::Continue)
        } else {
            let base = if d1.banked > 0 {
                d1.banked
            } else {
                c.damage
            };
            let d2 = Duel { banked: 0, ..d1 };
            let dmg = if under(d2.enemy_status, Status::Energised) {
                energised(base)
            } else {
                base
            };
            if under(d2.player_status, Status::Shield) {
                (
                    Duel { player_status: None, last_hit: Some(Hit::Healed(dmg)), ..d2 },
                    match hp {
                        Some(h) => Some(mended(h, dmg, max)),
                        None => None,
                    },
                    Outcome::Continue,
                )
            } else {
                let d3 = Duel {
                    bleed: if under(d2.enemy_status, Status::Venomous) {
                        Some(Bleed { damage: (dmg / 2) as i64, timer: DOT_TICK as i64 })
                    } else {
                        d2.bleed
                    },
                    last_hit: Some(Hit::Damage(dmg)),
                    ..d2
                };
                match hp {
                    Some(h) => (
                        d3,
                        Some(wounded(h, dmg)),
                        if wounded(h, dmg) == 0 {
                            Outcome::Died
                        } else {
                            Outcome::Continue
                        },
                    ),
                    None => (d3, hp, Outcome::Continue),
                }
            }
        }
    }
}

/// One step of the fight's clock: cooldowns and statuses run down, the
/// specials fire, the bleed bites, the enemy swings. `ds[i]` is the draw the
/// `i`-th special is handed, and the one after them all the swing's.
pub open spec fn fight_ticked(
    d: Duel,
    c: Combat,
    t: Seq<i64>,
    s: u32,
    evasive: bool,
    max: i64,
    hp: Option<i64>,
    ds: Seq<u64>,
) -> (Duel, Option<i64>, Outcome) {
    let d2 = specials_fired(cooled(d, s), t, c.specials@, s, ds, t.len());
    let (d3, hp3, died) = bled(d2, s, hp);
    if died {
        (d3, hp3, Outcome::Died)
    } else {
        swung(d3, c, s, evasive, max, hp3, ds[t.len() as int])
    }
}

/// The wanderer's health, if there is a trip.
pub open spec fn health(trip: Option<Expedition>) -> Option<i64> {
    match trip {
        Some(e) => Some(e.hp),
        None => None,
    }
}

/// The trip with the wanderer's health set.
pub open spec fn with_health(trip: Option<Expedition>, hp: Option<i64>) -> Option<Expedition> {
    match (trip, hp) {
        (Some(e), Some(h)) => Some(Expedition { hp: h, ..e }),
        _ => trip,
    }
}

/// The weapon cooldowns after `s` hundredths.
pub open spec fn weapons_cooled(m: Map<Weapon, u32>, s: u32) -> Map<Weapon, u32> {
    Map::new(|w: Weapon| m.contains_key(w), |w: Weapon| cool(m[w], s))
}

/// The most health the wanderer can have: ten, plus the best armour in the
/// store room.
pub open spec fn max_hp(g: Game) -> i64 {
    (crate::world_data::BASE_HEALTH + crate::model::armour_bonus(g)) as i64
}

/// Two draw sequences that agree on the first `n` give the same specials.
proof fn lemma_specials_prefix(d: Duel, t: Seq<i64>, sp: Seq<Special>, s: u32, a: Seq<u64>, b: Seq<u64>, n: nat)
    requires
        n <= a.len(),
        n <= b.len(),
        forall|i: int| 0 <= i < n ==> a[i] == b[i],
    ensures
        specials_fired(d, t, sp, s, a, n) == specials_fired(d, t, sp, s, b, n),
    decreases n,
{
    if n > 0 {
        lemma_specials_prefix(d, t, sp, s, a, b, (n - 1) as nat);
    }
}

fn bleed_step(d: &mut Duel, s: u32, trip: &mut Option<Expedition>) -> (died: bool)
    requires
        old(d).bleed matches Some(b) ==> 0 <= b.damage,
    ensures
        (*final(d), health(*final(trip)), died) == bled(*old(d), s, health(*old(trip))),
        *final(trip) == with_health(*old(trip), health(*final(trip))),
{
    match d.bleed {
        Some(b) => {
            let t = run_clock(b.timer, s);
            if t > 0 {
                d.bleed = Some(Bleed { damage: b.damage, timer: t });
                false
            } else {
                d.bleed = Some(Bleed { damage: b.damage, timer: t + DOT_TICK as i64 });
                d.last_hit = Some(Hit::Damage(b.damage));
                match trip {
                    Some(e) => {
                        e.hp = wound(e.hp, b.damage);
                        e.hp == 0
                    },
                    None => false,
                }
            }
        },
        None => false,
    }
}

fn swing_step(
    d: &mut Duel,
    c: &Combat,
    s: u32,
    evasive: bool,
    max: i64,
    trip: &mut Option<Expedition>,
    rng: &mut StdRng,
) -> (r: (Outcome, Ghost<u64>))
    requires
        c.wf(),
        0 <= old(d).banked,
        0 <= max <= FIGHT_CAP,
    ensures
        (*final(d), health(*final(trip)), r.0) == swung(*old(d), *c, s, evasive, max, health(*old(trip)), r.1@),
        *final(trip) == with_health(*old(trip), health(*final(trip))),
{
    let t = run_clock(d.enemy_timer, s);
    if t > 0 {
        d.enemy_timer = t;
        return (Outcome::Continue, Ghost(0));
    }
    d.enemy_timer = if is_under(d.enemy_status, Status::Enraged) {
        ENRAGE_ATTACK_DELAY as i64
    } else {
        c.attack_delay as i64
    };
    if d.stun > 0 || is_under(d.enemy_status, Status::Meditation) {
        return (Outcome::Continue, Ghost(0));
    }
    let mut roll: u64 = 0;
    let base = if d.banked > 0 {
        d.banked
    } else {
        roll = draw(rng);
        let odds: u64 = (c.hit_pct as u64) * (if evasive {
            4u64
        } else {
            5u64
        });
        if !lands(roll, odds, 500) {
            d.last_hit = Some(Hit::Miss);
            return (Outcome::Continue, Ghost(roll));
        }
        c.damage
    };
    d.banked = 0;
    let dmg = if is_under(d.enemy_status, Status::Energised) {
        if base > i64::MAX / ENERGISE_MULTIPLIER {
            i64::MAX
        } else {
            base * ENERGISE_MULTIPLIER
        }
    } else {
        base
    };
    if is_under(d.player_status, Status::Shield) {
        d.player_status = None;
        d.last_hit = Some(Hit::Healed(dmg));
        match trip {
            Some(e) => {
                e.hp = mend(e.hp, dmg, max);
            },
            None => {},
        }
        return (Outcome::Continue, Ghost(roll));
    }
    if is_under(d.enemy_status, Status::Venomous) {
        d.bleed = Some(Bleed { damage: dmg / 2, timer: DOT_TICK as i64 });
    }
    d.last_hit = Some(Hit::Damage(dmg));
    match trip {
        Some(e) => {
            e.hp = wound(e.hp, dmg);
            if e.hp == 0 {
                (Outcome::Died, Ghost(roll))
            } else {
                (Outcome::Continue, Ghost(roll))
            }
        },
        None => (Outcome::Continue, Ghost(roll)),
    }
}

/// What one step of the fight's clock does, for some run of draws.
pub open spec fn fight_stepped(
    f0: Fight,
    f1: Fight,
    s: u32,
    game: Game,
    t0: Option<Expedition>,
    t1: Option<Expedition>,
    r: Outcome,
) -> bool {
    &&& f1.wf()
    &&& f1.combat == f0.combat
    &&& f1.triggered == f0.triggered
    &&& f1.weapon_cooldown@ == weapons_cooled(f0.weapon_cooldown@, s)
    &&& f1.special_timers@ == stepped_timers(f0.special_timers@, f0.combat.specials@, s)
    &&& exists|ds: Seq<u64>|
        #[trigger] fight_ticked(
            f0.duel,
            f0.combat,
            f0.special_timers@,
            s,
            game.perk(Perk::Evasive),
            max_hp(game),
            health(t0),
            ds,
        ) == (f1.duel, health(t1), r)
    &&& t1 == with_health(t0, health(t1))
}

impl Fight {
    fn cool_weapons(&mut self, s: u32)
        requires
            old(self).weapon_cooldown.wf(),
        ensures
            final(self).weapon_cooldown.wf(),
            final(self).weapon_cooldown@ == weapons_cooled(old(self).weapon_cooldown@, s),
            final(self).combat == old(self).combat,
            final(self).duel == old(self).duel,
            final(self).special_timers == old(self).special_timers,
            final(self).triggered == old(self).triggered,
    {
        let ghost m0 = self.weapon_cooldown@;
        let mut i: usize = 0;
        while i < 9
            invariant
                i <= 9,
                self.weapon_cooldown.wf(),
                self.weapon_cooldown@.dom() == m0.dom(),
                forall|w: Weapon|
                    #[trigger] m0.contains_key(w) ==> self.weapon_cooldown@[w] == if w.key() < i {
                        cool(m0[w], s)
                    } else {
                        m0[w]
                    },
                self.combat == old(self).combat,
                self.duel == old(self).duel,
                self.special_timers == old(self).special_timers,
                self.triggered == old(self).triggered,
            decreases 9 - i,
        {
            let w = Weapon::from_index(i);
            let got = match self.weapon_cooldown.get(&w) {
                Some(c) => Some(*c),
                None => None,
            };
            match got {
                Some(c) => {
                    self.weapon_cooldown.insert(w, cool_by(c, s));
                },
                None => {},
            }
            proof {
                assert forall|v: Weapon| #[trigger] m0.contains_key(v) implies self.weapon_cooldown@[v]
                    == if v.key() < i + 1 {
                    cool(m0[v], s)
                } else {
                    m0[v]
                } by {
                    Weapon::key_injective(v, w);
                }
                assert(self.weapon_cooldown@.dom() =~= m0.dom());
            }
            i = i + 1;
        }
        proof {
            assert forall|w: Weapon| #[trigger] m0.contains_key(w) implies w.key() < 9 by {
                Weapon::key_injective(w, w);
            }
        }
        assert(self.weapon_cooldown@ =~= weapons_cooled(m0, s));
    }

    fn fire_specials(&mut self, s: u32, rng: &mut StdRng) -> (ds: Ghost<Seq<u64>>)
        requires
            old(self).wf(),
        ensures
            final(self).wf(),
            final(self).combat == old(self).combat,
            final(self).weapon_cooldown == old(self).weapon_cooldown,
            final(self).triggered == old(self).triggered,
            ds@.len() == old(self).special_timers@.len(),
            final(self).duel == specials_fired(
                old(self).duel,
                old(self).special_timers@,
                old(self).combat.specials@,
                s,
                ds@,
                old(self).special_timers@.len(),
            ),
            final(self).special_timers@ == stepped_timers(old(self).special_timers@, old(self).combat.specials@, s),
    {
        let ghost t0 = self.special_timers@;
        let ghost d0 = self.duel;
        let ghost sp = self.combat.specials@;
        let ghost mut ds: Seq<u64> = Seq::empty();
        let mut k: usize = 0;
        while k < self.special_timers.len()
            invariant
                k <= t0.len(),
                self.special_timers@.len() == t0.len(),
                sp == self.combat.specials@,
                forall|j: int| 0 <= j < k ==> self.special_timers@[j] == stepped_timers(t0, sp, s)[j],
                forall|j: int| k <= j < t0.len() ==> self.special_timers@[j] == t0[j],
                ds.len() == k,
                self.duel == specials_fired(d0, t0, sp, s, ds, k as nat),
                self.wf(),
                self.combat == old(self).combat,
                self.weapon_cooldown == old(self).weapon_cooldown,
                self.triggered == old(self).triggered,
            decreases t0.len() - k,
        {
            let ghost before = ds;
            if k < self.combat.specials.len() {
                let special = self.combat.specials[k];
                let t = run_clock(self.special_timers[k], s);
                if t > 0 {
                    self.special_timers.set(k, t);
                    proof {
                        ds = ds.push(0);
                    }
                } else {
                    self.special_timers.set(k, t + special.delay as i64);
                    let (st, d) = choose_status(special.action, self.duel.last_special, rng);
                    self.duel.last_special = Some(st);
                    take_status(&mut self.duel, st);
                    proof {
                        ds = ds.push(d);
                    }
                }
            } else {
                proof {
                    ds = ds.push(0);
                }
            }
            proof {
                lemma_specials_prefix(d0, t0, sp, s, before, ds, k as nat);
            }
            k = k + 1;
        }
        Ghost(ds)
    }

    /// One step of the fight's clock, `hundredths` long.
    pub fn tick(&mut self, hundredths: u32, game: &Game, trip: &mut Option<Expedition>, rng: &mut StdRng) -> (r: Outcome)
        requires
            old(self).wf(),
            game.wf(),
        ensures
            fight_stepped(*old(self), *final(self), hundredths, *game, *old(trip), *final(trip), r),
    {
        let ghost d0 = self.duel;
        let ghost trip0 = *trip;
        self.cool_weapons(hundredths);
        self.duel.stun = cool_by(self.duel.stun, hundredths);
        self.duel.eat_cooldown = cool_by(self.duel.eat_cooldown, hundredths);
        self.duel.meds_cooldown = cool_by(self.duel.meds_cooldown, hundredths);
        self.duel.hypo_cooldown = cool_by(self.duel.hypo_cooldown, hundredths);
        self.duel.stim_cooldown = cool_by(self.duel.stim_cooldown, hundredths);
        self.duel.shield_cooldown = cool_by(self.duel.shield_cooldown, hundredths);
        self.duel.enemy_status = expire(self.duel.enemy_status, hundredths);
        self.duel.player_status = expire(self.duel.player_status, hundredths);
        assert(self.duel == cooled(d0, hundredths));
        let ghost d1 = self.duel;
        let ghost t0 = self.special_timers@;
        let ds = self.fire_specials(hundredths, rng);
        let ghost d2 = self.duel;
        let died = bleed_step(&mut self.duel, hundredths, trip);
        if died {
            let ghost all = ds@.push(0);
            proof {
                lemma_specials_prefix(d1, t0, self.combat.specials@, hundredths, ds@, all, t0.len());
                assert(fight_ticked(
                    d0,
                    self.combat,
                    t0,
                    hundredths,
                    game.perk(Perk::Evasive),
                    max_hp(*game),
                    health(trip0),
                    all,
                ) == (self.duel, health(*trip), Outcome::Died));
            }
            return Outcome::Died;
        }
        let evasive = game.has_perk(Perk::Evasive);
        let max = game.max_health();
        let ghost trip3 = *trip;
        let (r, roll) = swing_step(&mut self.duel, &self.combat, hundredths, evasive, max, trip, rng);
        let ghost all = ds@.push(roll@);
        proof {
            lemma_specials_prefix(d1, t0, self.combat.specials@, hundredths, ds@, all, t0.len());
            assert(all[t0.len() as int] == roll@);
            assert(fight_ticked(
                d0,
                self.combat,
                t0,
                hundredths,
                evasive,
                max_hp(*game),
                health(trip0),
                all,
            ) == (self.duel, health(*trip), r));
        }
        r
    }
}

// ---------------------------------------------------------------------------
// The fight panel's rows
// ---------------------------------------------------------------------------

/// Tenths left on a weapon; one never swung has none.
pub open spec fn weapon_wait(m: Map<Weapon, u32>, w: Weapon) -> u32 {
    if m.contains_key(w) {
        m[w]
    } else {
        0
    }
}

/// The odds of the wanderer's swing landing, in hundredths.
pub open spec fn hit_odds(g: Game) -> int {
    if g.perk(Perk::Precise) {
        crate::world_data::BASE_HIT_PCT + 10
    } else {
        crate::world_data::BASE_HIT_PCT as int
    }
}

/// Whether a fight row can be pressed right now. The stim refuses at the
/// point where its cost in blood would be what killed the wanderer; the
/// shield is the armour's, read off the store room whether or not it was
/// packed.
pub open spec fn fight_ready(f: Fight, row: Row, game: Game, trip: Option<Expedition>) -> bool {
    let d = f.duel;
    match row {
        Row::Attack(w) => weapon_wait(f.weapon_cooldown@, w) == 0 && event::loaded(w, game, trip),
        Row::Eat => d.eat_cooldown == 0 && quantity_of(game, trip, Resource::CuredMeat) > 0,
        Row::Meds => d.meds_cooldown == 0 && quantity_of(game, trip, Resource::Medicine) > 0,
        Row::Hypo => d.hypo_cooldown == 0 && quantity_of(game, trip, Resource::Hypo) > 0,
        Row::Stim => d.stim_cooldown == 0 && quantity_of(game, trip, Resource::Stim) > 0 && (trip matches Some(
            t,
        ) && t.hp > BOOST_DAMAGE),
        Row::Shield => d.shield_cooldown == 0 && game.stock(Resource::KineticArmour) > 0,
        Row::Leave => true,
        _ => false,
    }
}

/// How long a swing puts a weapon away: the unarmed master punches twice as
/// fast, and a stim halves it again for as long as it lasts.
pub open spec fn swing_cooldown(w: Weapon, master: bool, boosted: bool) -> u32 {
    let c0 = crate::world_data::weapon_cooldown(w);
    let c1 = if crate::world_data::weapon_kind(w) == WeaponKind::Unarmed && master {
        c0 / 2
    } else {
        c0
    };
    if boosted {
        c1 / 2
    } else {
        c1
    }
}

/// What a swing does to the enemy: a miss, a tangle, or a hit worth the
/// weapon's damage as the perks move it.
pub open spec fn swung_at(d: Duel, at: Seq<(i64, Status)>, fired: Seq<i64>, w: Weapon, hit: bool, game: Game) -> (
    Duel,
    Seq<i64>,
) {
    if !hit {
        (Duel { last_hit: Some(Hit::Miss), ..d }, fired)
    } else {
        match crate::world_data::weapon_damage(w) {
            Damage::Stun => (Duel { stun: STUN_DURATION, last_hit: Some(Hit::Stunned), ..d }, fired),
            Damage::Hits(base) => struck(
                d,
                at,
                fired,
                event::perk_damage_spec(base as int, crate::world_data::weapon_kind(w), game) as i64,
            ),
        }
    }
}

/// The ammunition a swing takes, out of the pack in the world or the store
/// room at home.
pub open spec fn ammo_spent(w: Weapon, g0: Game, t0: Option<Expedition>, g1: Game, t1: Option<Expedition>) -> bool {
    match crate::world_data::weapon_cost(w) {
        None => g1 == g0 && t1 == t0,
        Some((ammo, amount)) => match t0 {
            Some(t) => g1 == g0 && (t1 matches Some(t2) && t2 == (Expedition { outfit: t2.outfit, ..t })
                && t2.outfit@ == add_held(t.outfit@, ammo, -amount)),
            None => t1 is None && g1.stores@ == add_held(g0.stores@, ammo, -amount) && g1 == (Game {
                stores: g1.stores,
                ..g0
            }),
        },
    }
}

/// A punch thrown: the count goes up, and a round number teaches a perk.
pub open spec fn punched(g0: Game, g1: Game) -> bool {
    let punches = if g0.punches < u32::MAX {
        (g0.punches + 1) as u32
    } else {
        u32::MAX
    };
    &&& g1 == (Game { punches, perks: g1.perks, ..g0 })
    &&& g1.perks@ == match event::fist_lesson(punches) {
        Some(p) => g0.perks@.insert(p),
        None => g0.perks@,
    }
}

/// What the lesson of a punch says: the perk it teaches, once.
pub open spec fn punch_says(g0: Game) -> Seq<Seq<char>> {
    let punches = if g0.punches < u32::MAX {
        (g0.punches + 1) as u32
    } else {
        u32::MAX
    };
    match event::fist_lesson(punches) {
        Some(p) => if !g0.perk(p) {
            seq![crate::data::perk_notify(p)]
        } else {
            Seq::<Seq<char>>::empty()
        },
        None => Seq::<Seq<char>>::empty(),
    }
}

/// What a swing with `w` did, `roll` being the draw that decided it.
pub open spec fn attack_done(
    f0: Fight,
    f1: Fight,
    w: Weapon,
    g0: Game,
    g1: Game,
    t0: Option<Expedition>,
    t1: Option<Expedition>,
    roll: u64,
    o0: Seq<Seq<char>>,
    o1: Seq<Seq<char>>,
) -> bool {
    &&& f1.wf()
    &&& g1.wf()
    &&& (t1 matches Some(t) ==> t.wf())
    &&& f1.combat == f0.combat
    &&& f1.special_timers == f0.special_timers
    &&& f1.weapon_cooldown@ == f0.weapon_cooldown@.insert(
        w,
        swing_cooldown(w, g0.perk(Perk::UnarmedMaster), under(f0.duel.player_status, Status::Boost)),
    )
    &&& (f1.duel, f1.triggered@) == swung_at(
        f0.duel,
        f0.combat.at_health@,
        f0.triggered@,
        w,
        landed(roll, hit_odds(g0), 100),
        g0,
    )
    &&& crate::world_data::weapon_kind(w) == WeaponKind::Unarmed ==> punched(g0, g1) && t1 == t0 && o1 == o0
        + punch_says(g0)
    &&& crate::world_data::weapon_kind(w) != WeaponKind::Unarmed ==> ammo_spent(w, g0, t0, g1, t1) && o1 == o0
}

/// What eating, medicine or a hypo did.
pub open spec fn heal_done(
    f0: Fight,
    f1: Fight,
    item: Resource,
    amount: i64,
    game: Game,
    t0: Option<Expedition>,
    t1: Option<Expedition>,
) -> bool {
    &&& f1.wf()
    &&& f1.combat == f0.combat
    &&& f1.weapon_cooldown == f0.weapon_cooldown
    &&& f1.special_timers == f0.special_timers
    &&& f1.triggered == f0.triggered
    &&& (t1 matches Some(t) ==> t.wf())
    &&& !heal_takes(item, game, t0) ==> f1.duel == f0.duel && t1 == t0
    &&& heal_takes(item, game, t0) ==> (t0 matches Some(e0) && t1 matches Some(e1) && used_one(
        e0,
        e1,
        item,
        mended(e0.hp, amount, max_hp(game)),
    )) && f1.duel == if item == Resource::CuredMeat {
        Duel { eat_cooldown: EAT_COOLDOWN, last_hit: Some(Hit::Healed(amount)), ..f0.duel }
    } else {
        Duel { meds_cooldown: MEDS_COOLDOWN, last_hit: Some(Hit::Healed(amount)), ..f0.duel }
    }
}

/// What a stim did.
pub open spec fn stim_done(f0: Fight, f1: Fight, t0: Option<Expedition>, t1: Option<Expedition>, r: Outcome) -> bool {
    &&& f1.wf()
    &&& f1.combat == f0.combat
    &&& f1.weapon_cooldown == f0.weapon_cooldown
    &&& f1.special_timers == f0.special_timers
    &&& f1.triggered == f0.triggered
    &&& f1.duel == (Duel {
        stim_cooldown: STIM_COOLDOWN,
        player_status: Some(afflicted(Status::Boost)),
        last_hit: Some(Hit::Damage(BOOST_DAMAGE)),
        ..f0.duel
    })
    &&& match t0 {
        Some(e0) => t1 matches Some(e1) && e1.wf() && used_one(e0, e1, Resource::Stim, wounded(e0.hp, BOOST_DAMAGE))
            && r == if wounded(e0.hp, BOOST_DAMAGE) == 0 {
            Outcome::Died
        } else {
            Outcome::Continue
        },
        None => t1 is None && r == Outcome::Continue,
    }
}

/// What raising the shield did.
pub open spec fn shield_done(f0: Fight, f1: Fight) -> bool {
    &&& f1.wf()
    &&& f1.combat == f0.combat
    &&& f1.weapon_cooldown == f0.weapon_cooldown
    &&& f1.special_timers == f0.special_timers
    &&& f1.triggered == f0.triggered
    &&& f1.duel == (Duel {
        shield_cooldown: SHIELD_COOLDOWN,
        player_status: Some(afflicted(Status::Shield)),
        last_hit: Some(Hit::Took(Status::Shield)),
        ..f0.duel
    })
}

impl Fight {
    /// Whether a fight row can be pressed right now.
    pub fn ready(&self, row: Row, game: &Game, trip: &Option<Expedition>) -> (r: bool)
        requires
            self.wf(),
            game.wf(),
            trip matches Some(t) ==> t.wf(),
        ensures
            r == fight_ready(*self, row, *game, *trip),
    {
        match row {
            Row::Attack(w) => {
                let wait = match self.weapon_cooldown.get(&w) {
                    Some(c) => *c,
                    None => 0,
                };
                wait == 0 && event::weapon_loaded(w, game, trip)
            },
            Row::Eat => self.duel.eat_cooldown == 0 && event::quantity(game, trip, Resource::CuredMeat) > 0,
            Row::Meds => self.duel.meds_cooldown == 0 && event::quantity(game, trip, Resource::Medicine) > 0,
            Row::Hypo => self.duel.hypo_cooldown == 0 && event::quantity(game, trip, Resource::Hypo) > 0,
            Row::Stim => self.duel.stim_cooldown == 0 && event::quantity(game, trip, Resource::Stim) > 0 && match trip {
                Some(t) => t.hp > BOOST_DAMAGE,
                None => false,
            },
            Row::Shield => self.duel.shield_cooldown == 0 && game.store(Resource::KineticArmour) > 0,
            Row::Leave => true,
            _ => false,
        }
    }

    /// A swing: the ammunition goes, the weapon goes on cooldown, the draw
    /// decides whether it lands, and a punch counts toward the unarmed perks.
    pub fn attack(
        &mut self,
        w: Weapon,
        game: &mut Game,
        trip: &mut Option<Expedition>,
        rng: &mut StdRng,
        out: &mut Vec<String>,
    ) -> (roll: Ghost<u64>)
        requires
            old(self).wf(),
            old(game).wf(),
            *old(trip) matches Some(t) ==> t.wf(),
            event::loaded(w, *old(game), *old(trip)),
        ensures
            attack_done(
                *old(self),
                *final(self),
                w,
                *old(game),
                *final(game),
                *old(trip),
                *final(trip),
                roll@,
                texts(old(out)@),
                texts(final(out)@),
            ),
    {
        let master = game.has_perk(Perk::UnarmedMaster);
        let boosted = is_under(self.duel.player_status, Status::Boost);
        match w.cost() {
            Some((ammo, amount)) => match trip {
                Some(t) => t.add(ammo, -amount),
                None => game.add_store(ammo, -amount),
            },
            None => {},
        }
        let unarmed = w.kind() == WeaponKind::Unarmed;
        let mut cd = w.cooldown_hundredths();
        if unarmed && master {
            cd = cd / 2;
        }
        if boosted {
            cd = cd / 2;
        }
        self.weapon_cooldown.insert(w, cd);
        let roll = draw(rng);
        let pct = game.hit_chance_pct();
        if !lands(roll, pct, 100) {
            self.duel.last_hit = Some(Hit::Miss);
        } else {
            match w.damage() {
                Damage::Stun => {
                    self.duel.stun = STUN_DURATION;
                    self.duel.last_hit = Some(Hit::Stunned);
                },
                Damage::Hits(base) => {
                    let dmg = event::perk_damage(base, w.kind(), game);
                    self.strike(dmg);
                },
            }
        }
        if unarmed {
            event::train_fists(game, out);
        }
        Ghost(roll)
    }
}

/// The trip after one of `item` comes out of the pack and health is set.
pub open spec fn used_one(t0: Expedition, t1: Expedition, item: Resource, hp: i64) -> bool {
    &&& t1 == (Expedition { outfit: t1.outfit, hp, ..t0 })
    &&& t1.outfit@ == add_held(t0.outfit@, item, -1)
}

/// Whether a heal takes: something to eat, a trip to heal on, and health
/// short of the most there is.
pub open spec fn heal_takes(item: Resource, game: Game, trip: Option<Expedition>) -> bool {
    quantity_of(game, trip, item) > 0 && (trip matches Some(t) && t.hp < max_hp(game))
}

impl Fight {
    /// Eat, take medicine or a hypo: one comes out of the pack, health comes
    /// back up to at most the most there is, and the row goes on cooldown
    /// (meat on its own clock, medicine and hypos on the other).
    pub fn heal(&mut self, item: Resource, amount: i64, game: &Game, trip: &mut Option<Expedition>)
        requires
            old(self).wf(),
            game.wf(),
            *old(trip) matches Some(t) ==> t.wf(),
            0 <= amount <= FIGHT_CAP,
        ensures
            heal_done(*old(self), *final(self), item, amount, *game, *old(trip), *final(trip)),
    {
        if event::quantity(game, trip, item) <= 0 {
            return ;
        }
        let max = game.max_health();
        match trip {
            Some(t) => {
                if t.hp >= max {
                    return ;
                }
                t.add(item, -1);
                t.hp = mend(t.hp, amount, max);
            },
            None => {
                return ;
            },
        }
        if item == Resource::CuredMeat {
            self.duel.eat_cooldown = EAT_COOLDOWN;
        } else {
            self.duel.meds_cooldown = MEDS_COOLDOWN;
        }
        self.duel.last_hit = Some(Hit::Healed(amount));
    }

    /// A stim: the boost goes on and the wanderer pays for it in blood on
    /// the spot.
    pub fn stim(&mut self, trip: &mut Option<Expedition>) -> (r: Outcome)
        requires
            old(self).wf(),
            *old(trip) matches Some(t) ==> t.wf() && t.carried(Resource::Stim) >= 1,
        ensures
            stim_done(*old(self), *final(self), *old(trip), *final(trip), r),
    {
        self.duel.stim_cooldown = STIM_COOLDOWN;
        self.duel.player_status = Some(afflict(Status::Boost));
        self.duel.last_hit = Some(Hit::Damage(BOOST_DAMAGE));
        match trip {
            Some(t) => {
                t.add(Resource::Stim, -1);
                t.hp = wound(t.hp, BOOST_DAMAGE);
                if t.hp == 0 {
                    Outcome::Died
                } else {
                    Outcome::Continue
                }
            },
            None => Outcome::Continue,
        }
    }

    /// The kinetic armour's shield: it costs nothing but the cooldown.
    pub fn shield(&mut self)
        requires
            old(self).wf(),
        ensures
            shield_done(*old(self), *final(self)),
    {
        self.duel.shield_cooldown = SHIELD_COOLDOWN;
        self.duel.player_status = Some(afflict(Status::Shield));
        self.duel.last_hit = Some(Hit::Took(Status::Shield));
    }
}

// ---------------------------------------------------------------------------
// The spoils
// ---------------------------------------------------------------------------

/// The first `n` rows of a loot table rolled: `ds[2i]` decides whether the
/// `i`-th turns up, `ds[2i + 1]` how many, and a row of none is dropped.
pub open spec fn rolled(table: Seq<Loot>, ds: Seq<u64>, n: nat) -> Seq<LootRow>
    decreases n,
{
    if n == 0 {
        Seq::empty()
    } else {
        let rest = rolled(table, ds, (n - 1) as nat);
        let l = table[n - 1];
        let i = n - 1;
        if chance::below(ds[2 * i], l.chance_pct as int, 100) {
            let count = chance::scaled(ds[2 * i + 1], clamp0(l.max - l.min)) + l.min;
            if count > 0 {
                rest.push(LootRow { item: l.item, left: count as i64 })
            } else {
                rest
            }
        } else {
            rest
        }
    }
}

proof fn lemma_rolled_prefix(table: Seq<Loot>, a: Seq<u64>, b: Seq<u64>, n: nat)
    requires
        2 * n <= a.len(),
        2 * n <= b.len(),
        forall|i: int| 0 <= i < 2 * n ==> a[i] == b[i],
    ensures
        rolled(table, a, n) == rolled(table, b, n),
    decreases n,
{
    if n > 0 {
        lemma_rolled_prefix(table, a, b, (n - 1) as nat);
    }
}

/// Roll a loot table into rows.
pub fn roll_loot(table: &Vec<Loot>, rng: &mut StdRng) -> (r: (Vec<LootRow>, Ghost<Seq<u64>>))
    requires
        forall|i: int| 0 <= i < table@.len() ==> loot_wf(#[trigger] table@[i]),
    ensures
        r.1@.len() == 2 * table@.len(),
        r.0@ == rolled(table@, r.1@, table@.len()),
        forall|j: int| 0 <= j < r.0@.len() ==> 0 < (#[trigger] r.0@[j]).left <= LOOT_CAP,
{
    let mut rows: Vec<LootRow> = Vec::new();
    let ghost mut ds: Seq<u64> = Seq::empty();
    let mut i: usize = 0;
    while i < table.len()
        invariant
            i <= table@.len(),
            forall|j: int| 0 <= j < table@.len() ==> loot_wf(#[trigger] table@[j]),
            ds.len() == 2 * i,
            rows@ == rolled(table@, ds, i as nat),
            forall|j: int| 0 <= j < rows@.len() ==> 0 < (#[trigger] rows@[j]).left <= LOOT_CAP,
        decreases table@.len() - i,
    {
        let l = table[i];
        assert(loot_wf(table@[i as int]));
        let ghost before = ds;
        let d1 = draw(rng);
        let mut d2: u64 = 0;
        if chance::draw_below(d1, l.chance_pct as u64, 100) {
            d2 = draw(rng);
            let span: u64 = if l.max > l.min {
                (l.max - l.min) as u64
            } else {
                0
            };
            let k = chance::draw_scaled(d2, span);
            let count = (k as i64) + l.min;
            if count > 0 {
                rows.push(LootRow { item: l.item, left: count });
            }
        }
        proof {
            ds = ds.push(d1).push(d2);
            lemma_rolled_prefix(table@, before, ds, i as nat);
        }
        i = i + 1;
    }
    (rows, Ghost(ds))
}

// ---------------------------------------------------------------------------
// The fight within the event modal
// ---------------------------------------------------------------------------

/// Which part of a scene is on screen.
#[derive(Debug)]
pub enum Phase {
    Story,
    Fighting(Fight),
    /// The enemy is dead but has not finished dying: an unstable automaton
    /// winds up and then goes off in the wanderer's face.
    Exploding { timer: u32, damage: i64, combat: Combat },
    /// The enemy is down: the loot rows and a way out.
    Spoils { leave_cooldown: u32 },
    /// Choosing something in the pack to drop to fit a loot row.
    DropFor { loot_index: usize },
}

impl Phase {
    pub open spec fn wf(&self) -> bool {
        match self {
            Phase::Fighting(f) => f.wf(),
            Phase::Exploding { damage, combat, .. } => combat.wf() && 0 <= *damage,
            _ => true,
        }
    }
}

/// The trip once a fight is over: nothing left parked to resume.
pub open spec fn unparked(t: Option<Expedition>, hp: Option<i64>) -> Option<Expedition> {
    match (t, hp) {
        (Some(e), Some(h)) => Some(Expedition { hp: h, combat: None, ..e }),
        (Some(e), None) => Some(Expedition { combat: None, ..e }),
        _ => t,
    }
}

/// The enemy has fallen: its line goes to the log, its loot is rolled, and
/// the spoils stand a moment before the way out opens.
pub open spec fn won(
    c: Combat,
    ds: Seq<u64>,
    p1: Phase,
    loot1: Seq<LootRow>,
    says: Seq<Seq<char>>,
) -> bool {
    &&& p1 == Phase::Spoils { leave_cooldown: LEAVE_COOLDOWN }
    &&& loot1 == rolled(c.loot@, ds, c.loot@.len())
    &&& says == if c.death_message@.len() == 0 {
        Seq::<Seq<char>>::empty()
    } else {
        seq![c.death_message@]
    }
}

/// The enemy has fallen and its loot was rolled, for some run of draws.
pub open spec fn won_some(c: Combat, p1: Phase, loot1: Seq<LootRow>, says: Seq<Seq<char>>) -> bool {
    exists|ds: Seq<u64>| won(c, ds, p1, loot1, says)
}

fn win(
    c: Combat,
    phase: &mut Phase,
    loot: &mut Vec<LootRow>,
    rng: &mut StdRng,
    out: &mut Vec<String>,
) -> (ds: Ghost<Seq<u64>>)
    requires
        c.wf(),
    ensures
        won(c, ds@, *final(phase), final(loot)@, texts(final(out)@).subrange(texts(old(out)@).len() as int, texts(final(out)@).len() as int)),
        texts(final(out)@).subrange(0, texts(old(out)@).len() as int) == texts(old(out)@),
{
    let ghost m0 = texts(out@);
    if c.death_message.unicode_len() > 0 {
        say(out, c.death_message);
    }
    let (rows, ds) = roll_loot(&c.loot, rng);
    *loot = rows;
    *phase = Phase::Spoils { leave_cooldown: LEAVE_COOLDOWN };
    assert(texts(out@).subrange(0, m0.len() as int) =~= m0);
    proof {
        if c.death_message@.len() == 0 {
            assert(texts(out@).subrange(m0.len() as int, texts(out@).len() as int) =~= Seq::<Seq<char>>::empty());
        } else {
            assert(texts(out@).subrange(m0.len() as int, texts(out@).len() as int) =~= seq![c.death_message@]);
        }
    }
    ds
}

/// What a step of the clock does to the part of the modal a fight runs in.
pub open spec fn phase_ticked(
    p0: Phase,
    p1: Phase,
    s: u32,
    game: Game,
    t0: Option<Expedition>,
    t1: Option<Expedition>,
    loot0: Seq<LootRow>,
    loot1: Seq<LootRow>,
    o0: Seq<Seq<char>>,
    o1: Seq<Seq<char>>,
    r: Outcome,
) -> bool {
    match p0 {
        Phase::Fighting(f0) => (p1 matches Phase::Fighting(f1) && fight_stepped(f0, f1, s, game, t0, t1, r))
            && loot1 == loot0 && o1 == o0,
        Phase::Spoils { leave_cooldown } => p1 == Phase::Spoils { leave_cooldown: cool(leave_cooldown, s) }
            && t1 == t0 && loot1 == loot0 && o1 == o0 && r == Outcome::Continue,
        Phase::Exploding { timer, damage, combat } => if timer > s {
            p1 == Phase::Exploding { timer: (timer - s) as u32, damage, combat } && t1 == t0 && loot1 == loot0
                && o1 == o0 && r == Outcome::Continue
        } else {
            match t0 {
                Some(e) if wounded(e.hp, damage) == 0 => p1 == Phase::Exploding { timer: 0, damage, combat } && t1
                    == Some(Expedition { hp: 0, ..e }) && loot1 == loot0 && o1 == o0 && r == Outcome::Died,
                _ => won_some(combat, p1, loot1, o1.subrange(o0.len() as int, o1.len() as int))
                    && o1.subrange(0, o0.len() as int) == o0 && t1 == unparked(
                    t0,
                    match t0 {
                        Some(e) => Some(wounded(e.hp, damage)),
                        None => None,
                    },
                ) && r == Outcome::Continue,
            }
        },
        _ => p1 == p0 && t1 == t0 && loot1 == loot0 && o1 == o0 && r == Outcome::Continue,
    }
}

impl Phase {
    /// One step of the wall clock, `hundredths` long: the enemy swings and
    /// the cooldowns run down, a dying automaton's fuse burns, the spoils'
    /// way out opens.
    pub fn tick(
        &mut self,
        hundredths: u32,
        game: &Game,
        trip: &mut Option<Expedition>,
        loot: &mut Vec<LootRow>,
        rng: &mut StdRng,
        out: &mut Vec<String>,
    ) -> (r: Outcome)
        requires
            old(self).wf(),
            game.wf(),
        ensures
            final(self).wf(),
            phase_ticked(
                *old(self),
                *final(self),
                hundredths,
                *game,
                *old(trip),
                *final(trip),
                old(loot)@,
                final(loot)@,
                texts(old(out)@),
                texts(final(out)@),
                r,
            ),
    {
        let mut p = Phase::Story;
        std::mem::swap(&mut p, self);
        match p {
            Phase::Story => {
                *self = Phase::Story;
                Outcome::Continue
            },
            Phase::DropFor { loot_index } => {
                *self = Phase::DropFor { loot_index };
                Outcome::Continue
            },
            Phase::Spoils { leave_cooldown } => {
                *self = Phase::Spoils { leave_cooldown: cool_by(leave_cooldown, hundredths) };
                Outcome::Continue
            },
            Phase::Fighting(f) => {
                let mut f = f;
                let r = f.tick(hundredths, game, trip, rng);
                *self = Phase::Fighting(f);
                r
            },
            Phase::Exploding { timer, damage, combat } => {
                if timer > hundredths {
                    *self = Phase::Exploding { timer: timer - hundredths, damage, combat };
                    return Outcome::Continue;
                }
                match trip {
                    Some(e) => {
                        e.hp = wound(e.hp, damage);
                        if e.hp == 0 {
                            *self = Phase::Exploding { timer: 0, damage, combat };
                            return Outcome::Died;
                        }
                        e.combat = None;
                    },
                    None => {},
                }
                let ghost o0 = texts(out@);
                let ds = win(combat, self, loot, rng, out);
                assert(won(combat, ds@, *self, loot@, texts(out@).subrange(o0.len() as int, texts(out@).len() as int)));
                Outcome::Continue
            },
        }
    }
}

/// What pressing a row does while a fight is on.
pub open spec fn fight_pressed(
    f0: Fight,
    p1: Phase,
    row: Row,
    g0: Game,
    g1: Game,
    t0: Option<Expedition>,
    t1: Option<Expedition>,
    loot0: Seq<LootRow>,
    loot1: Seq<LootRow>,
    o0: Seq<Seq<char>>,
    o1: Seq<Seq<char>>,
    r: Outcome,
) -> bool {
    if !fight_ready(f0, row, g0, t0) {
        p1 == Phase::Fighting(f0) && g1 == g0 && t1 == t0 && loot1 == loot0 && o1 == o0 && r == Outcome::Continue
    } else {
        match row {
            Row::Attack(w) => r == Outcome::Continue && exists|
                fm: Fight,
                tm: Option<Expedition>,
                om: Seq<Seq<char>>,
                roll: u64,
            |
                #[trigger] attack_done(f0, fm, w, g0, g1, t0, tm, roll, o0, om) && if fm.duel.enemy_hp <= 0 {
                    t1 == unparked(tm, None) && match f0.combat.explosion {
                        Some(x) => p1 == Phase::Exploding { timer: EXPLOSION_DELAY, damage: x, combat: fm.combat }
                            && loot1 == loot0 && o1 == om,
                        None => won_some(fm.combat, p1, loot1, o1.subrange(om.len() as int, o1.len() as int))
                            && o1.subrange(0, om.len() as int) == om,
                    }
                } else {
                    p1 == Phase::Fighting(fm) && t1 == tm && loot1 == loot0 && o1 == om
                },
            Row::Eat => (p1 matches Phase::Fighting(f1) && heal_done(
                f0,
                f1,
                Resource::CuredMeat,
                crate::world::meat_heal_of(g0) as i64,
                g0,
                t0,
                t1,
            )) && g1 == g0 && loot1 == loot0 && o1 == o0 && r == Outcome::Continue,
            Row::Meds => (p1 matches Phase::Fighting(f1) && heal_done(
                f0,
                f1,
                Resource::Medicine,
                crate::world_data::MEDS_HEAL,
                g0,
                t0,
                t1,
            )) && g1 == g0 && loot1 == loot0 && o1 == o0 && r == Outcome::Continue,
            Row::Hypo => (p1 matches Phase::Fighting(f1) && heal_done(f0, f1, Resource::Hypo, HYPO_HEAL, g0, t0, t1))
                && g1 == g0 && loot1 == loot0 && o1 == o0 && r == Outcome::Continue,
            Row::Stim => (p1 matches Phase::Fighting(f1) && stim_done(f0, f1, t0, t1, r)) && g1 == g0 && loot1
                == loot0 && o1 == o0,
            Row::Shield => (p1 matches Phase::Fighting(f1) && shield_done(f0, f1)) && g1 == g0 && t1 == t0 && loot1
                == loot0 && o1 == o0 && r == Outcome::Continue,
            _ => p1 == Phase::Fighting(f0) && g1 == g0 && t1 == t0 && loot1 == loot0 && o1 == o0 && r
                == Outcome::Done,
        }
    }
}

/// A swing, its draw and what followed it make a press of the attack row.
proof fn lemma_attack_pressed(
    f0: Fight,
    p1: Phase,
    w: Weapon,
    g0: Game,
    g1: Game,
    t0: Option<Expedition>,
    t1: Option<Expedition>,
    loot0: Seq<LootRow>,
    loot1: Seq<LootRow>,
    o0: Seq<Seq<char>>,
    o1: Seq<Seq<char>>,
    fm: Fight,
    tm: Option<Expedition>,
    om: Seq<Seq<char>>,
    roll: u64,
)
    requires
        fight_ready(f0, Row::Attack(w), g0, t0),
        attack_done(f0, fm, w, g0, g1, t0, tm, roll, o0, om),
        if fm.duel.enemy_hp <= 0 {
            t1 == unparked(tm, None) && match f0.combat.explosion {
                Some(x) => p1 == Phase::Exploding { timer: EXPLOSION_DELAY, damage: x, combat: fm.combat } && loot1
                    == loot0 && o1 == om,
                None => won_some(fm.combat, p1, loot1, o1.subrange(om.len() as int, o1.len() as int))
                    && o1.subrange(0, om.len() as int) == om,
            }
        } else {
            p1 == Phase::Fighting(fm) && t1 == tm && loot1 == loot0 && o1 == om
        },
    ensures
        fight_pressed(f0, p1, Row::Attack(w), g0, g1, t0, t1, loot0, loot1, o0, o1, Outcome::Continue),
{
}

impl Phase {
    /// Act on a row of the fight panel. A row that is not ready does nothing;
    /// a swing that drops the enemy ends the fight, in a blast if it goes off
    /// and in the spoils otherwise; leaving walks away from the fight.
    pub fn press(
        &mut self,
        row: Row,
        game: &mut Game,
        trip: &mut Option<Expedition>,
        loot: &mut Vec<LootRow>,
        rng: &mut StdRng,
        out: &mut Vec<String>,
    ) -> (r: Outcome)
        requires
            old(self).wf(),
            *old(self) is Fighting,
            old(game).wf(),
            *old(trip) matches Some(t) ==> t.wf(),
        ensures
            final(self).wf(),
            final(game).wf(),
            *final(trip) matches Some(t) ==> t.wf(),
            match *old(self) {
                Phase::Fighting(f0) => fight_pressed(
                    f0,
                    *final(self),
                    row,
                    *old(game),
                    *final(game),
                    *old(trip),
                    *final(trip),
                    old(loot)@,
                    final(loot)@,
                    texts(old(out)@),
                    texts(final(out)@),
                    r,
                ),
                _ => false,
            },
    {
        let mut p = Phase::Story;
        std::mem::swap(&mut p, self);
        let mut f = match p {
            Phase::Fighting(f) => f,
            _ => {
                return Outcome::Continue;
            },
        };
        if !f.ready(row, game, trip) {
            *self = Phase::Fighting(f);
            return Outcome::Continue;
        }
        match row {
            Row::Attack(w) => {
                let ghost f0 = f;
                let ghost g0 = *game;
                let ghost t0 = *trip;
                let ghost o0 = texts(out@);
                let roll = f.attack(w, game, trip, rng, out);
                let ghost om = texts(out@);
                let ghost tm = *trip;
                let ghost fa = f;
                assert(attack_done(f0, f, w, g0, *game, t0, tm, roll@, o0, om));
                if f.duel.enemy_hp <= 0 {
                    match trip {
                        Some(e) => {
                            e.combat = None;
                        },
                        None => {},
                    }
                    let ghost fm = f;
                    let Fight { combat, .. } = f;
                    match combat.explosion {
                        Some(x) => {
                            *self = Phase::Exploding { timer: EXPLOSION_DELAY, damage: x, combat };
                        },
                        None => {
                            let ds = win(combat, self, loot, rng, out);
                            assert(won(fm.combat, ds@, *self, loot@, texts(out@).subrange(om.len() as int, texts(out@).len() as int)));
                        },
                    }
                } else {
                    *self = Phase::Fighting(f);
                }
                proof {
                    assert(attack_done(f0, fa, w, g0, *game, t0, tm, roll@, o0, om) && if fa.duel.enemy_hp <= 0 {
                        *trip == unparked(tm, None) && match f0.combat.explosion {
                            Some(x) => *self == Phase::Exploding { timer: EXPLOSION_DELAY, damage: x, combat: fa.combat }
                                && loot@ == old(loot)@ && texts(out@) == om,
                            None => won_some(fa.combat, *self, loot@, texts(out@).subrange(om.len() as int, texts(out@).len() as int))
                                && texts(out@).subrange(0, om.len() as int) == om,
                        }
                    } else {
                        *self == Phase::Fighting(fa) && *trip == tm && loot@ == old(loot)@ && texts(out@) == om
                    });
                    lemma_attack_pressed(f0, *self, w, g0, *game, t0, *trip, old(loot)@, loot@, o0, texts(out@), fa, tm, om, roll@);
                }
                Outcome::Continue
            },
            Row::Eat => {
                let amount = game.meat_heal();
                f.heal(Resource::CuredMeat, amount, game, trip);
                *self = Phase::Fighting(f);
                Outcome::Continue
            },
            Row::Meds => {
                f.heal(Resource::Medicine, crate::world_data::MEDS_HEAL, game, trip);
                *self = Phase::Fighting(f);
                Outcome::Continue
            },
            Row::Hypo => {
                f.heal(Resource::Hypo, HYPO_HEAL, game, trip);
                *self = Phase::Fighting(f);
                Outcome::Continue
            },
            Row::Stim => {
                let r = f.stim(trip);
                *self = Phase::Fighting(f);
                r
            },
            Row::Shield => {
                f.shield();
                *self = Phase::Fighting(f);
                Outcome::Continue
            },
            _ => {
                *self = Phase::Fighting(f);
                Outcome::Done
            },
        }
    }
}

impl Phase {
    /// A fight at its first frame, with the enemy at the given health.
    pub fn fight(combat: Combat, enemy_hp: i64) -> (p: Phase)
        requires
            combat.wf(),
            -FIGHT_CAP <= enemy_hp <= FIGHT_CAP,
        ensures
            p.wf(),
            p matches Phase::Fighting(f) && f.combat == combat && f.duel.enemy_hp == enemy_hp && f.duel.enemy_timer
                == combat.attack_delay && f.duel.last_hit is None && f.weapon_cooldown@ == Map::<
                Weapon,
                u32,
            >::empty(),
    {
        Phase::Fighting(Fight::start(combat, enemy_hp))
    }

    /// Whether the way out is open: not while a blast is on its way, and not
    /// until the spoils have stood a moment.
    pub fn can_leave(&self) -> (r: bool)
        ensures
            r == match self {
                Phase::Spoils { leave_cooldown } => *leave_cooldown == 0,
                Phase::Exploding { .. } => false,
                _ => true,
            },
    {
        match self {
            Phase::Spoils { leave_cooldown } => *leave_cooldown == 0,
            Phase::Exploding { .. } => false,
            _ => true,
        }
    }
}

// ---------------------------------------------------------------------------
// Taking the spoils
// ---------------------------------------------------------------------------

/// Room left in the pack, in tenths; none at home, where nothing binds.
pub open spec fn room(game: Game, trip: Option<Expedition>) -> Option<int> {
    match trip {
        Some(t) => Some((crate::world_data::DEFAULT_BAG_SPACE + crate::model::pack_bonus(game)) * 10 - load_of(
            t.outfit@,
            53,
        )),
        None => None,
    }
}

/// Whether one more of `item` fits.
pub open spec fn fits(item: Resource, game: Game, trip: Option<Expedition>) -> bool {
    match room(game, trip) {
        Some(r) => crate::world_data::weight_tenths_spec(item) <= r,
        None => true,
    }
}

/// A pack light enough to weigh.
pub open spec fn weighable(trip: Option<Expedition>) -> bool {
    trip matches Some(t) ==> forall|i: Resource| #[trigger] t.carried(i) < 1_000_000_000_000
}

/// One of the `i`-th loot row picked up: into the pack in the world, the
/// store room at home.
pub open spec fn took_one(
    loot0: Seq<LootRow>,
    loot1: Seq<LootRow>,
    i: int,
    g0: Game,
    g1: Game,
    t0: Option<Expedition>,
    t1: Option<Expedition>,
) -> bool {
    if 0 <= i < loot0.len() && loot0[i].left > 0 {
        let item = loot0[i].item;
        &&& loot1 == loot0.update(i, LootRow { left: (loot0[i].left - 1) as i64, ..loot0[i] })
        &&& match t0 {
            Some(t) => g1 == g0 && (t1 matches Some(t2) && t2 == (Expedition { outfit: t2.outfit, ..t })
                && t2.outfit@ == add_held(t.outfit@, item, 1)),
            None => t1 is None && g1.stores@ == add_held(g0.stores@, item, 1) && g1 == (Game {
                stores: g1.stores,
                ..g0
            }),
        }
    } else {
        loot1 == loot0 && g1 == g0 && t1 == t0
    }
}

/// Whether a loot row can be taken: something left of it, and room for it,
/// or something else in the pack heavy enough that dropping it makes room.
pub open spec fn take_ready(loot: Seq<LootRow>, i: int, game: Game, trip: Option<Expedition>) -> bool {
    0 <= i < loot.len() && loot[i].left > 0 && (fits(loot[i].item, game, trip) || (trip matches Some(t) && exists|
        k: int,
    |
        0 <= k < 15 && #[trigger] t.carried(crate::world_data::CARRYABLE@[k]) > 0 && crate::world_data::CARRYABLE@[k]
            != loot[i].item && t.carried(crate::world_data::CARRYABLE@[k]) * crate::world_data::weight_tenths_spec(
            crate::world_data::CARRYABLE@[k],
        ) + room(game, trip)->Some_0 >= crate::world_data::weight_tenths_spec(loot[i].item)))
}

/// A pack holding nothing negative weighs nothing negative.
proof fn lemma_load_nonneg(m: Map<Resource, i64>, n: nat)
    requires
        nonneg(m),
    ensures
        load_of(m, n) >= 0,
    decreases n,
{
    if n > 0 {
        lemma_load_nonneg(m, (n - 1) as nat);
        let r = Resource::from_key((n - 1) as nat);
        let h = held(m, r);
        let w = crate::world_data::weight_tenths_spec(r);
        assert(h >= 0);
        assert(w >= 1) by {
            crate::world_data::lemma_weight_positive(r);
        }
        assert(h * w >= 0) by (nonlinear_arith)
            requires
                h >= 0,
                w >= 1,
        ;
    }
}

fn room_of(game: &Game, trip: &Option<Expedition>) -> (r: Option<i64>)
    requires
        game.wf(),
        trip matches Some(t) ==> t.wf(),
        weighable(*trip),
    ensures
        match room(*game, *trip) {
            Some(x) => r matches Some(v) && v == x,
            None => r is None,
        },
{
    match trip {
        Some(t) => {
            let load = t.load_tenths();
            proof {
                lemma_load_nonneg(t.outfit@, 53);
            }
            Some(game.capacity() * 10 - load)
        },
        None => None,
    }
}

fn take_one(loot: &mut Vec<LootRow>, i: usize, game: &mut Game, trip: &mut Option<Expedition>)
    requires
        old(game).wf(),
        *old(trip) matches Some(t) ==> t.wf(),
        weighable(*old(trip)),
        forall|r: Resource| #[trigger] old(game).stock(r) < i64::MAX,
    ensures
        final(game).wf(),
        *final(trip) matches Some(t) ==> t.wf(),
        took_one(old(loot)@, final(loot)@, i as int, *old(game), *final(game), *old(trip), *final(trip)),
{
    if i >= loot.len() {
        return ;
    }
    let row = loot[i];
    if row.left <= 0 {
        return ;
    }
    loot.set(i, LootRow { item: row.item, left: row.left - 1 });
    match trip {
        Some(t) => t.add(row.item, 1),
        None => game.add_store(row.item, 1),
    }
}

fn can_take(loot: &Vec<LootRow>, i: usize, game: &Game, trip: &Option<Expedition>) -> (r: bool)
    requires
        game.wf(),
        trip matches Some(t) ==> t.wf(),
        weighable(*trip),
    ensures
        r == take_ready(loot@, i as int, *game, *trip),
{
    if i >= loot.len() {
        return false;
    }
    let row = loot[i];
    if row.left <= 0 {
        return false;
    }
    let w = crate::world_data::weight_tenths(row.item);
    let free = room_of(game, trip);
    let free = match free {
        None => {
            return true;
        },
        Some(x) => x,
    };
    if w <= free {
        return true;
    }
    let t = match trip {
        Some(t) => t,
        None => {
            return false;
        },
    };
    let mut k: usize = 0;
    while k < 15
        invariant
            k <= 15,
            t.wf(),
            weighable(Some(*t)),
            *trip == Some(*t),
            free == room(*game, *trip)->Some_0,
            w == crate::world_data::weight_tenths_spec(row.item),
            i < loot@.len(),
            row == loot@[i as int],
            row.left > 0,
            w > free,
            forall|j: int|
                0 <= j < k ==> !(#[trigger] t.carried(crate::world_data::CARRYABLE@[j]) > 0
                    && crate::world_data::CARRYABLE@[j] != row.item && t.carried(crate::world_data::CARRYABLE@[j])
                    * crate::world_data::weight_tenths_spec(crate::world_data::CARRYABLE@[j]) + free >= w),
        decreases 15 - k,
    {
        let item = crate::world_data::CARRYABLE[k];
        let count = t.carrying(item);
        if count > 0 && item != row.item {
            let iw = crate::world_data::weight_tenths(item);
            assert((count as int) * (iw as int) <= 1_000_000_000_000 * 50) by (nonlinear_arith)
                requires
                    0 < count < 1_000_000_000_000,
                    1 <= iw <= 50,
            ;
            if (count as i128) * (iw as i128) + (free as i128) >= (w as i128) {
                assert(t.carried(crate::world_data::CARRYABLE@[k as int]) > 0 && crate::world_data::CARRYABLE@[k as int]
                    != loot@[i as int].item && t.carried(crate::world_data::CARRYABLE@[k as int])
                    * crate::world_data::weight_tenths_spec(crate::world_data::CARRYABLE@[k as int]) + room(*game, *trip)->Some_0
                    >= crate::world_data::weight_tenths_spec(loot@[i as int].item));
                return true;
            }
        }
        k = k + 1;
    }
    false
}

/// What pressing a row of the spoils does.
pub open spec fn spoils_pressed(
    p0: Phase,
    p1: Phase,
    row: Row,
    g0: Game,
    g1: Game,
    t0: Option<Expedition>,
    t1: Option<Expedition>,
    loot0: Seq<LootRow>,
    loot1: Seq<LootRow>,
    r: Outcome,
) -> bool {
    match row {
        Row::Take(i) => r == Outcome::Continue && if !take_ready(loot0, i as int, g0, t0) {
            p1 == p0 && g1 == g0 && t1 == t0 && loot1 == loot0
        } else if fits(loot0[i as int].item, g0, t0) {
            p1 == p0 && took_one(loot0, loot1, i as int, g0, g1, t0, t1)
        } else {
            p1 == Phase::DropFor { loot_index: i } && g1 == g0 && t1 == t0 && loot1 == loot0
        },
        Row::TakeAll => r == Outcome::Continue && p1 == p0 && {
            let (l, m) = gathered(loot0, holding(g0, t0), bag_cap(g0, t0), loot0.len());
            &&& loot1 == l
            &&& match t0 {
                Some(t) => g1 == g0 && (t1 matches Some(t2) && t2 == (Expedition { outfit: t2.outfit, ..t })
                    && t2.outfit@ == m),
                None => t1 is None && g1.stores@ == m && g1 == (Game { stores: g1.stores, ..g0 }),
            }
        },
        Row::DropCancel => r == Outcome::Continue && g1 == g0 && t1 == t0 && loot1 == loot0 && p1 == if p0 is DropFor {
            Phase::Spoils { leave_cooldown: 0 }
        } else {
            p0
        },
        Row::Leave => g1 == g0 && t1 == t0 && loot1 == loot0 && p1 == p0 && r == match p0 {
            Phase::Spoils { leave_cooldown } => if leave_cooldown == 0 {
                Outcome::Done
            } else {
                Outcome::Continue
            },
            _ => Outcome::Done,
        },
        _ => p1 == p0 && g1 == g0 && t1 == t0 && loot1 == loot0 && r == Outcome::Continue,
    }
}

impl Phase {
    /// Act on a row once the enemy is down: take a loot row (or, when it
    /// does not fit, start choosing what to drop for it), stop choosing, or
    /// walk away once the spoils have stood their moment.
    pub fn press_spoils(
        &mut self,
        row: Row,
        game: &mut Game,
        trip: &mut Option<Expedition>,
        loot: &mut Vec<LootRow>,
    ) -> (r: Outcome)
        requires
            old(self).wf(),
            !(*old(self) is Fighting),
            !(*old(self) is Exploding),
            old(game).wf(),
            *old(trip) matches Some(t) ==> t.wf(),
            weighable(*old(trip)),
            forall|j: int| 0 <= j < old(loot)@.len() ==> (#[trigger] old(loot)@[j]).left <= LOOT_CAP,
            forall|x: Resource| #[trigger] old(game).stock(x) <= i64::MAX - LOOT_CAP * old(loot)@.len(),
        ensures
            final(self).wf(),
            final(game).wf(),
            *final(trip) matches Some(t) ==> t.wf(),
            spoils_pressed(
                *old(self),
                *final(self),
                row,
                *old(game),
                *final(game),
                *old(trip),
                *final(trip),
                old(loot)@,
                final(loot)@,
                r,
            ),
    {
        match row {
            Row::Take(i) => {
                if !can_take(loot, i, game, trip) {
                    return Outcome::Continue;
                }
                let item = loot[i].item;
                let w = crate::world_data::weight_tenths(item);
                let fits_now = match room_of(game, trip) {
                    Some(x) => w <= x,
                    None => true,
                };
                if fits_now {
                    take_one(loot, i, game, trip);
                } else {
                    *self = Phase::DropFor { loot_index: i };
                }
                Outcome::Continue
            },
            Row::TakeAll => {
                take_all(loot, game, trip);
                Outcome::Continue
            },
            Row::DropCancel => {
                let choosing = match self {
                    Phase::DropFor { .. } => true,
                    _ => false,
                };
                if choosing {
                    *self = Phase::Spoils { leave_cooldown: 0 };
                }
                Outcome::Continue
            },
            Row::Leave => {
                if self.can_leave() {
                    Outcome::Done
                } else {
                    Outcome::Continue
                }
            },
            _ => Outcome::Continue,
        }
    }
}

/// The rows of the fight modal, in display order: while the fight is on,
/// every weapon the pack can swing and whatever there is to heal with or to
/// raise; nothing while a blast is on its way; the loot rows and the way out
/// once the enemy is down; only the way back while choosing what to drop.
pub open spec fn rows_of(p: Phase, loot_len: nat, game: Game, trip: Option<Expedition>) -> Seq<Row> {
    match p {
        Phase::Fighting(_) => event::armed(game, trip).map_values(|w: Weapon| Row::Attack(w)) + (if quantity_of(
            game,
            trip,
            Resource::CuredMeat,
        ) > 0 {
            seq![Row::Eat]
        } else {
            Seq::empty()
        }) + (if quantity_of(game, trip, Resource::Medicine) > 0 {
            seq![Row::Meds]
        } else {
            Seq::empty()
        }) + (if quantity_of(game, trip, Resource::Hypo) > 0 {
            seq![Row::Hypo]
        } else {
            Seq::empty()
        }) + (if quantity_of(game, trip, Resource::Stim) > 0 {
            seq![Row::Stim]
        } else {
            Seq::empty()
        }) + (if game.stock(Resource::KineticArmour) > 0 {
            seq![Row::Shield]
        } else {
            Seq::empty()
        }),
        Phase::Exploding { .. } => Seq::empty(),
        Phase::DropFor { .. } => seq![Row::DropCancel],
        _ => Seq::new(loot_len, |i: int| Row::Take(i as usize)) + (if loot_len > 0 {
            seq![Row::TakeAll]
        } else {
            Seq::empty()
        }) + seq![Row::Leave],
    }
}

fn push_if(rows: &mut Vec<Row>, row: Row, yes: bool)
    ensures
        final(rows)@ == old(rows)@ + if yes {
            seq![row]
        } else {
            Seq::<Row>::empty()
        },
{
    if yes {
        rows.push(row);
    } else {
        assert(old(rows)@ + Seq::<Row>::empty() =~= old(rows)@);
    }
}

impl Phase {
    /// The rows of the fight modal, in display order.
    pub fn rows(&self, loot: &Vec<LootRow>, game: &Game, trip: &Option<Expedition>) -> (r: Vec<Row>)
        requires
            game.wf(),
            trip matches Some(t) ==> t.wf(),
        ensures
            r@ == rows_of(*self, loot@.len(), *game, *trip),
    {
        match self {
            Phase::Fighting(_) => {
                let weapons = event::available_weapons(game, trip);
                let mut rows: Vec<Row> = Vec::new();
                let mut i: usize = 0;
                while i < weapons.len()
                    invariant
                        i <= weapons@.len(),
                        rows@ == weapons@.subrange(0, i as int).map_values(|w: Weapon| Row::Attack(w)),
                    decreases weapons@.len() - i,
                {
                    rows.push(Row::Attack(weapons[i]));
                    i = i + 1;
                    assert(rows@ =~= weapons@.subrange(0, i as int).map_values(|w: Weapon| Row::Attack(w)));
                }
                assert(weapons@.subrange(0, i as int) =~= weapons@);
                push_if(&mut rows, Row::Eat, event::quantity(game, trip, Resource::CuredMeat) > 0);
                push_if(&mut rows, Row::Meds, event::quantity(game, trip, Resource::Medicine) > 0);
                push_if(&mut rows, Row::Hypo, event::quantity(game, trip, Resource::Hypo) > 0);
                push_if(&mut rows, Row::Stim, event::quantity(game, trip, Resource::Stim) > 0);
                push_if(&mut rows, Row::Shield, game.store(Resource::KineticArmour) > 0);
                rows
            },
            Phase::Exploding { .. } => Vec::new(),
            Phase::DropFor { .. } => {
                let mut rows: Vec<Row> = Vec::new();
                rows.push(Row::DropCancel);
                assert(rows@ =~= seq![Row::DropCancel]);
                rows
            },
            _ => {
                let mut rows: Vec<Row> = Vec::new();
                let mut i: usize = 0;
                while i < loot.len()
                    invariant
                        i <= loot@.len(),
                        rows@ == Seq::new(i as nat, |j: int| Row::Take(j as usize)),
                    decreases loot@.len() - i,
                {
                    rows.push(Row::Take(i));
                    i = i + 1;
                    assert(rows@ =~= Seq::new(i as nat, |j: int| Row::Take(j as usize)));
                }
                push_if(&mut rows, Row::TakeAll, loot.len() > 0);
                let ghost before = rows@;
                rows.push(Row::Leave);
                assert(rows@ =~= before + seq![Row::Leave]);
                rows
            },
        }
    }
}

impl Phase {
    /// The enemy's health, for parking the fight with the trip: only a fight
    /// still going is worth resuming, and [`Phase::fight`] picks it back up
    /// with the enemy where it was.
    pub fn parked_health(&self) -> (r: Option<i64>)
        ensures
            r == match self {
                Phase::Fighting(f) => Some(f.duel.enemy_hp),
                _ => None,
            },
    {
        match self {
            Phase::Fighting(f) => Some(f.duel.enemy_hp),
            _ => None,
        }
    }
}

/// A pack holds at least what any one thing in it weighs.
proof fn lemma_load_covers(m: Map<Resource, i64>, n: nat, r: Resource)
    requires
        nonneg(m),
        r.key() < n,
        n <= 53,
    ensures
        load_of(m, n) >= held(m, r) * crate::world_data::weight_tenths_spec(r),
    decreases n,
{
    let q = Resource::from_key((n - 1) as nat);
    Resource::key_injective(r, q);
    Resource::key_roundtrip((n - 1) as nat);
    lemma_load_nonneg(m, (n - 1) as nat);
    if r.key() < n - 1 {
        lemma_load_covers(m, (n - 1) as nat, r);
    }
    let h = held(m, q);
    let w = crate::world_data::weight_tenths_spec(q);
    crate::world_data::lemma_weight_positive(q);
    assert(h * w >= 0) by (nonlinear_arith)
        requires
            h >= 0,
            w >= 1,
    ;
}

/// How many of a row taking everything picks up: all of it at home, and out
/// there as many as the room left holds.
pub open spec fn grab(left: i64, w: int, room: Option<int>) -> int {
    if left <= 0 {
        0
    } else {
        match room {
            None => left as int,
            Some(r) => if r < w {
                0
            } else if left <= r / w {
                left as int
            } else {
                r / w
            },
        }
    }
}

/// The pack's size in tenths, out in the world; none at home.
pub open spec fn bag_cap(game: Game, trip: Option<Expedition>) -> Option<int> {
    match trip {
        Some(_) => Some((crate::world_data::DEFAULT_BAG_SPACE + crate::model::pack_bonus(game)) * 10),
        None => None,
    }
}

/// What the loot goes into: the pack in the world, the store room at home.
pub open spec fn holding(game: Game, trip: Option<Expedition>) -> Map<Resource, i64> {
    match trip {
        Some(t) => t.outfit@,
        None => game.stores@,
    }
}

/// The first `n` loot rows taken in order, each as far as the room left by
/// the ones before it allows.
pub open spec fn gathered(loot: Seq<LootRow>, m: Map<Resource, i64>, cap: Option<int>, n: nat) -> (
    Seq<LootRow>,
    Map<Resource, i64>,
)
    decreases n,
{
    if n == 0 {
        (loot, m)
    } else {
        let (l, mm) = gathered(loot, m, cap, (n - 1) as nat);
        let i = n - 1;
        let row = l[i];
        let room = match cap {
            Some(c) => Some(c - load_of(mm, 53)),
            None => None,
        };
        let k = grab(row.left, crate::world_data::weight_tenths_spec(row.item) as int, room);
        (l.update(i, LootRow { left: (row.left - k) as i64, ..row }), add_held(mm, row.item, k))
    }
}

fn take_all(loot: &mut Vec<LootRow>, game: &mut Game, trip: &mut Option<Expedition>)
    requires
        old(game).wf(),
        *old(trip) matches Some(t) ==> t.wf(),
        weighable(*old(trip)),
        forall|j: int| 0 <= j < old(loot)@.len() ==> (#[trigger] old(loot)@[j]).left <= LOOT_CAP,
        forall|x: Resource| #[trigger] old(game).stock(x) <= i64::MAX - LOOT_CAP * old(loot)@.len(),
    ensures
        final(game).wf(),
        *final(trip) matches Some(t) ==> t.wf(),
        ({
            let (l, m) = gathered(old(loot)@, holding(*old(game), *old(trip)), bag_cap(*old(game), *old(trip)), old(loot)@.len());
            &&& final(loot)@ == l
            &&& match *old(trip) {
                Some(t) => *final(game) == *old(game) && (*final(trip) matches Some(t2) && t2 == (Expedition {
                    outfit: t2.outfit,
                    ..t
                }) && t2.outfit@ == m),
                None => *final(trip) is None && final(game).stores@ == m && *final(game) == (Game {
                    stores: final(game).stores,
                    ..*old(game)
                }),
            }
        }),
{
    let ghost l0 = loot@;
    let ghost g0 = *game;
    let ghost t0 = *trip;
    let ghost m0 = holding(g0, t0);
    let ghost cap = bag_cap(g0, t0);
    let n = loot.len();
    let mut i: usize = 0;
    while i < n
        invariant
            i <= n,
            n == l0.len(),
            loot@.len() == n,
            game.wf(),
            *trip matches Some(t) ==> t.wf(),
            weighable(*trip),
            forall|j: int| i <= j < n ==> loot@[j] == #[trigger] l0[j],
            forall|j: int| 0 <= j < n ==> (#[trigger] l0[j]).left <= LOOT_CAP,
            (loot@, holding(*game, *trip)) == gathered(l0, m0, cap, i as nat),
            cap == bag_cap(*game, *trip),
            match t0 {
                Some(t) => *game == g0 && (*trip matches Some(t2) && t2 == (Expedition { outfit: t2.outfit, ..t })),
                None => *trip is None && *game == (Game { stores: game.stores, ..g0 }),
            },
            t0 is None ==> forall|x: Resource| #[trigger] game.stock(x) <= i64::MAX - LOOT_CAP * (n - i),
        decreases n - i,
    {
        let row = loot[i];
        assert(row == l0[i as int]);
        assert(row.left <= LOOT_CAP);
        let w = crate::world_data::weight_tenths(row.item);
        let room = room_of(game, trip);
        let k: i64 = if row.left <= 0 {
            0
        } else {
            match room {
                None => row.left,
                Some(r) => if r < w {
                    0
                } else if row.left <= r / w {
                    row.left
                } else {
                    r / w
                },
            }
        };
        proof {
            if *trip is None {
                assert(game.stock(row.item) <= i64::MAX - LOOT_CAP * (n - i));
                assert(k <= LOOT_CAP);
            }
            if *trip is Some {
                let t = (*trip)->Some_0;
                lemma_load_nonneg(t.outfit@, 53);
                Resource::key_injective(row.item, row.item);
                lemma_load_covers(t.outfit@, 53, row.item);
                let h = held(t.outfit@, row.item);
                assert(h * w >= h) by (nonlinear_arith)
                    requires
                        h >= 0,
                        w >= 1,
                ;
                assert(crate::model::pack_bonus(*game) <= 60);
                assert(k >= 0);
                if k > 0 {
                    let rr: int = room->Some_0 as int;
                    let ww: int = w as int;
                    assert(k <= rr / ww);
                    assert(rr / ww <= rr) by (nonlinear_arith)
                        requires
                            rr >= 0,
                            ww >= 1,
                    ;
                    assert(rr == (crate::world_data::DEFAULT_BAG_SPACE + crate::model::pack_bonus(*game)) * 10 - load_of(t.outfit@, 53));
                    assert(load_of(t.outfit@, 53) >= h);
                    assert(k <= rr);
                }
                assert(k == 0 || h + k <= 700);
            }
        }
        loot.set(i, LootRow { item: row.item, left: row.left - k });
        let ghost before = *game;
        let ghost before_trip = *trip;
        match trip {
            Some(t) => t.add(row.item, k),
            None => game.add_store(row.item, k),
        }
        proof {
            assert(loot@ =~= gathered(l0, m0, cap, (i + 1) as nat).0);
            if t0 is Some {
                let tb = before_trip->Some_0;
                let ta = (*trip)->Some_0;
                assert(k == 0 || held(tb.outfit@, row.item) + k <= 700);
                assert forall|x: Resource| #[trigger] ta.carried(x) < 1_000_000_000_000 by {
                    assert(tb.carried(x) < 1_000_000_000_000);
                    assert(tb.carried(x) >= 0);
                }
            }
            if t0 is None {
                assert forall|x: Resource| #[trigger] game.stock(x) <= i64::MAX - LOOT_CAP * (n - (i + 1)) by {
                    assert(before.stock(x) <= i64::MAX - LOOT_CAP * (n - i));
                    assert(0 <= k <= LOOT_CAP);
                }
            }
        }
        i = i + 1;
    }
}

} // verus!
