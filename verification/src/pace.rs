//! Pacing: how much village time a player may accrue, and how much slower the
//! village runs than the room.
//!
//! 1. Credit accrues while the session is connected; time between sessions is
//!    worth nothing.
//! 2. The village runs at [`SLOWDOWN`] times the room's delays.
//! 3. At most [`DAILY_CREDIT_SECS`] of village time lands per UTC day.
//! 4. The first grant of a UTC day credits at least the floor the caller asks
//!    for, counted against the same daily cap.
use vstd::prelude::*;

verus! {

/// How much slower the village runs than the room.
pub const SLOWDOWN: u32 = 5;

/// Village time credited per UTC day, in seconds (3 hours).
pub const DAILY_CREDIT_SECS: u32 = 10800;

/// The least village time the first settle of a UTC day yields once the
/// village stands (45 minutes), counted against [`DAILY_CREDIT_SECS`].
pub const DAILY_CREDIT_FLOOR_SECS: u32 = 2700;

/// Seconds in a day, for the UTC day number the cap resets on.
pub const SECS_PER_DAY: i64 = 86400;

/// The daily credit counter, persisted with the save.
#[derive(Clone, Copy, Debug, PartialEq, Eq)]
pub struct Pace {
    /// UTC day number `spent` belongs to. A different day zeroes the counter.
    pub day: i64,
    /// Village seconds already credited on `day`.
    pub spent: u32,
    /// Whether `day`'s floor has been applied.
    pub floored: bool,
}

/// The UTC day a Unix second falls on.
pub open spec fn day_of(secs: int) -> int {
    secs / (SECS_PER_DAY as int)
}

/// The counter as it stands on `day`: the same day keeps it, any other day
/// starts fresh.
pub open spec fn on_day(p: Pace, day: int) -> Pace {
    if p.day == day {
        p
    } else {
        Pace { day: day as i64, spent: 0, floored: false }
    }
}

/// Whether the counter is sound on `day`: today's spend never exceeds the cap.
pub open spec fn sound_on(p: Pace, day: int) -> bool {
    p.day == day ==> p.spent <= DAILY_CREDIT_SECS
}

/// What a grant of `elapsed` seconds with floor `floor` yields on `day`, and
/// the counter it leaves.
pub open spec fn grant_spec(p: Pace, day: int, elapsed: u32, floor: u32) -> (Pace, u32) {
    let q = on_day(p, day);
    let apply_floor = floor > 0 && !q.floored;
    let want: u32 = if apply_floor && floor > elapsed { floor } else { elapsed };
    let left = DAILY_CREDIT_SECS - q.spent;
    let granted: u32 = if want < left { want } else { left as u32 };
    (Pace { day: q.day, spent: (q.spent + granted) as u32, floored: q.floored || apply_floor }, granted)
}

/// Village seconds left on `day`.
pub open spec fn remaining_spec(p: Pace, day: int) -> u32 {
    if p.day != day {
        DAILY_CREDIT_SECS
    } else {
        (DAILY_CREDIT_SECS - p.spent) as u32
    }
}

/// The UTC day number of a Unix second: floor division by a day.
pub fn day_number(secs: i64) -> (d: i64)
    ensures
        d as int == day_of(secs as int),
{
    if secs >= 0 {
        secs / SECS_PER_DAY
    } else {
        let back = -(secs + 1);
        let d = -(back / SECS_PER_DAY) - 1;
        assert(d as int == day_of(secs as int)) by (nonlinear_arith)
            requires
                back == -(secs + 1),
                back >= 0,
                d == -(back / 86400) - 1,
                SECS_PER_DAY == 86400,
        ;
        d
    }
}

impl Pace {
    /// A fresh counter: nothing spent, no floor yet, on the epoch's day.
    pub fn new() -> (p: Pace)
        ensures
            p == (Pace { day: 0, spent: 0, floored: false }),
    {
        Pace { day: 0, spent: 0, floored: false }
    }

    /// Grant up to `elapsed` seconds of village time at Unix second `now`,
    /// capped by what is left in today's allowance. The first grant of a day
    /// with a non-zero `floor_secs` is topped up to that floor. Returns what
    /// the clock may actually advance.
    pub fn grant(&mut self, now: i64, elapsed: u32, floor_secs: u32) -> (granted: u32)
        requires
            sound_on(*old(self), day_of(now as int)),
        ensures
            (*final(self), granted) == grant_spec(*old(self), day_of(now as int), elapsed, floor_secs),
            sound_on(*final(self), day_of(now as int)),
            granted <= DAILY_CREDIT_SECS,
    {
        let today = day_number(now);
        if self.day != today {
            self.day = today;
            self.spent = 0;
            self.floored = false;
        }
        let want = if floor_secs > 0 && !self.floored {
            self.floored = true;
            if floor_secs > elapsed {
                floor_secs
            } else {
                elapsed
            }
        } else {
            elapsed
        };
        let left = DAILY_CREDIT_SECS - self.spent;
        let granted = if want < left {
            want
        } else {
            left
        };
        self.spent = self.spent + granted;
        granted
    }

    /// Village seconds left in the allowance of the day holding Unix second
    /// `now`.
    pub fn remaining(&self, now: i64) -> (r: u32)
        requires
            sound_on(*self, day_of(now as int)),
        ensures
            r == remaining_spec(*self, day_of(now as int)),
    {
        if self.day != day_number(now) {
            DAILY_CREDIT_SECS
        } else {
            DAILY_CREDIT_SECS - self.spent
        }
    }

    /// Whether the allowance of the day holding Unix second `now` is used up.
    pub fn exhausted(&self, now: i64) -> (r: bool)
        requires
            sound_on(*self, day_of(now as int)),
        ensures
            r == (remaining_spec(*self, day_of(now as int)) == 0),
    {
        self.remaining(now) == 0
    }
}

impl Default for Pace {
    fn default() -> (p: Pace)
        ensures
            p == (Pace { day: 0, spent: 0, floored: false }),
    {
        Pace::new()
    }
}

/// Slow a village delay down by [`SLOWDOWN`].
pub fn slowed(delay_secs: u32) -> (r: u32)
    requires
        delay_secs * SLOWDOWN <= u32::MAX,
    ensures
        r == delay_secs * SLOWDOWN,
{
    delay_secs * SLOWDOWN
}

/// Village seconds a run of grants at Unix second `now` lands, each ask an
/// `(elapsed, floor)` pair taken in order.
pub open spec fn granted_over(p: Pace, now: i64, asks: Seq<(u32, u32)>) -> int
    decreases asks.len(),
{
    if asks.len() == 0 {
        0
    } else {
        let (q, g) = grant_spec(p, day_of(now as int), asks[0].0, asks[0].1);
        g + granted_over(q, now, asks.drop_first())
    }
}

proof fn lemma_day_fits(now: i64)
    ensures
        i64::MIN <= day_of(now as int) <= i64::MAX,
{
}

/// However a day's grants are asked for, and whatever floors they ask,
/// together they land no more than what was left of that day's allowance.
pub proof fn law_a_day_never_lands_more_than_its_allowance(p: Pace, now: i64, asks: Seq<(u32, u32)>)
    requires
        sound_on(p, day_of(now as int)),
    ensures
        granted_over(p, now, asks) <= remaining_spec(p, day_of(now as int)),
    decreases asks.len(),
{
    lemma_day_fits(now);
    if asks.len() > 0 {
        let (q, g) = grant_spec(p, day_of(now as int), asks[0].0, asks[0].1);
        law_a_day_never_lands_more_than_its_allowance(q, now, asks.drop_first());
    }
}

/// The floor tops up only the first grant of a day: once one grant has asked
/// for it, every later grant that day lands its elapsed time, as far as the
/// allowance goes.
pub proof fn law_the_floor_tops_up_only_the_first_grant_of_a_day(
    p: Pace,
    now: i64,
    first: u32,
    first_floor: u32,
    elapsed: u32,
    floor: u32,
)
    requires
        sound_on(p, day_of(now as int)),
        first_floor > 0,
    ensures
        ({
            let (q, _) = grant_spec(p, day_of(now as int), first, first_floor);
            let (_, g) = grant_spec(q, day_of(now as int), elapsed, floor);
            g == if elapsed < remaining_spec(q, day_of(now as int)) {
                elapsed
            } else {
                remaining_spec(q, day_of(now as int))
            }
        }),
{
    lemma_day_fits(now);
}

/// A new UTC day restores the allowance in full, whatever the last one
/// spent.
pub proof fn law_a_new_day_restores_the_allowance(p: Pace, now: i64)
    requires
        p.day != day_of(now as int),
    ensures
        remaining_spec(p, day_of(now as int)) == DAILY_CREDIT_SECS,
        sound_on(p, day_of(now as int)),
{
}

/// Whether today's allowance ran out while the player was here: some real
/// time was withheld and nothing is left, so the page can say so plainly.
pub fn credit_exhausted(withheld_today: u32, remaining: u32) -> (r: bool)
    ensures
        r == (withheld_today > 0 && remaining == 0),
{
    withheld_today > 0 && remaining == 0
}

} // verus!
