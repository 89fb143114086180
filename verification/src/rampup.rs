//! Ramp-up: growing or shrinking a base allowance over calendar days.
//!
//! A ramp-up rule turns a base daily allowance into today's effective
//! allowance, given how many whole days have passed since the rule's start
//! date. Growth is either linear (a signed number of seconds per day) or
//! compound (a percentage per day). All arithmetic saturates: an allowance
//! never leaves `0 ..= MAX_ALLOWANCE`.

use vstd::prelude::*;
use vstd::arithmetic::div_mod::lemma_div_multiples_vanish_fancy;
use vstd::arithmetic::mul::lemma_mul_inequality;
use vstd::arithmetic::mul::lemma_mul_nonnegative;

verus! {

/// Largest allowance, in seconds, the calculator works with. Budgets above
/// this (roughly 136 years) are out of range for the arithmetic.
pub const MAX_ALLOWANCE: u64 = 0xFFFF_FFFF;

/// How an allowance changes per elapsed day.
#[derive(Clone, Copy, Debug, PartialEq, Eq, Structural)]
pub enum Speed {
    /// Linear growth: this many seconds are added per day; a negative value
    /// shrinks the allowance, floored at zero.
    ConstantSeconds(i32),
    /// Compound growth: the allowance changes by this many percent per day,
    /// compounded. Meaningful over `-100 ..= 100`; configurations are
    /// clamped into that range before any arithmetic is done.
    Percentage(i32),
}

/// A ramp-up rule: a speed and the date growth is counted from.
#[derive(Clone, Copy, Debug, PartialEq, Eq, Structural)]
pub struct Rampup {
    pub speed: Speed,
    /// Day number (days since 1970-01-01) of the date growth starts.
    pub start_date: u64,
}

/// A percentage forced into `-100 ..= 100`.
pub open spec fn spec_clamp(p: int) -> int {
    if p < -100 {
        -100
    } else if p > 100 {
        100
    } else {
        p
    }
}

/// A speed with its percentage clamped; a constant-seconds speed is kept as
/// it is.
pub open spec fn spec_clamp_speed(s: Speed) -> Speed {
    match s {
        Speed::Percentage(p) => Speed::Percentage(spec_clamp(p as int) as i32),
        Speed::ConstantSeconds(_) => s,
    }
}

impl Rampup {
    /// The same rule with its percentage clamped into `-100 ..= 100`.
    pub fn clamp_percentage(self) -> (r: Self)
        ensures
            r.start_date == self.start_date,
            r.speed == spec_clamp_speed(self.speed),
    {
        match self.speed {
            Speed::Percentage(p) => {
                let clamped: i32 = if p < -100 {
                    -100
                } else if p > 100 {
                    100
                } else {
                    p
                };
                Rampup { speed: Speed::Percentage(clamped), start_date: self.start_date }
            },
            Speed::ConstantSeconds(_) => self,
        }
    }
}

/// One day of compound growth at `p` percent: multiply by `100 + p`, divide
/// by 100 rounding half away from zero, and saturate at `MAX_ALLOWANCE`.
pub open spec fn spec_step(x: int, p: int) -> int {
    let grown = (x * (100 + p) + 50) / 100;
    if grown > MAX_ALLOWANCE {
        MAX_ALLOWANCE as int
    } else {
        grown
    }
}

/// `n` days of compound growth at `p` percent, day by day.
pub open spec fn spec_compound(base: int, p: int, n: nat) -> int
    decreases n,
{
    if n == 0 {
        base
    } else {
        spec_step(spec_compound(base, p, (n - 1) as nat), p)
    }
}

/// `n` days of linear growth at `s` seconds per day, saturated into
/// `0 ..= MAX_ALLOWANCE`.
pub open spec fn spec_linear(base: int, s: int, n: int) -> int {
    let raw = base + n * s;
    if raw < 0 {
        0
    } else if raw > MAX_ALLOWANCE {
        MAX_ALLOWANCE as int
    } else {
        raw
    }
}

/// Today's effective allowance under a ramp-up speed: the base allowance
/// until the start date has passed, then `today - start_date` days of
/// growth applied to it.
pub open spec fn spec_effective_allowance(base: int, start_date: int, today: int, speed: Speed) -> int {
    if today <= start_date {
        base
    } else {
        match speed {
            Speed::ConstantSeconds(s) => spec_linear(base, s as int, today - start_date),
            Speed::Percentage(p) => spec_compound(base, p as int, (today - start_date) as nat),
        }
    }
}

/// If one day of growth leaves the allowance unchanged, every further day
/// leaves it unchanged too.
proof fn lemma_compound_fixpoint(base: int, p: int, i: nat, n: nat)
    requires
        i <= n,
        spec_step(spec_compound(base, p, i), p) == spec_compound(base, p, i),
    ensures
        spec_compound(base, p, n) == spec_compound(base, p, i),
    decreases n - i,
{
    if i < n {
        lemma_compound_fixpoint(base, p, i, (n - 1) as nat);
    }
}

fn step(x: u64, p: i32) -> (r: u64)
    requires
        x <= MAX_ALLOWANCE,
        -100 <= p <= 100,
    ensures
        r == spec_step(x as int, p as int),
        r <= MAX_ALLOWANCE,
{
    let factor: u64 = (100 + p) as u64;
    assert(x * factor <= 0xFFFF_FFFF * 200) by (nonlinear_arith)
        requires
            x <= 0xFFFF_FFFF,
            factor <= 200,
    ;
    let grown: u64 = (x * factor + 50) / 100;
    if grown > MAX_ALLOWANCE {
        MAX_ALLOWANCE
    } else {
        grown
    }
}

fn linear_allowance(base: u64, s: i32, n_days: u64) -> (r: u64)
    requires
        base <= MAX_ALLOWANCE,
    ensures
        r == spec_linear(base as int, s as int, n_days as int),
        r <= MAX_ALLOWANCE,
{
    assert(-0x8000_0000 * 0xFFFF_FFFF_FFFF_FFFF <= (n_days as int) * (s as int)
        <= 0x8000_0000 * 0xFFFF_FFFF_FFFF_FFFF) by (nonlinear_arith)
        requires
            n_days <= 0xFFFF_FFFF_FFFF_FFFFu64,
            -0x8000_0000 <= s <= 0x7FFF_FFFF,
    ;
    let raw: i128 = base as i128 + (n_days as i128) * (s as i128);
    if raw < 0 {
        0
    } else if raw > MAX_ALLOWANCE as i128 {
        MAX_ALLOWANCE
    } else {
        raw as u64
    }
}

fn compound_allowance(base: u64, p: i32, n_days: u64) -> (r: u64)
    requires
        base <= MAX_ALLOWANCE,
        -100 <= p <= 100,
    ensures
        r == spec_compound(base as int, p as int, n_days as nat),
        r <= MAX_ALLOWANCE,
{
    let mut x = base;
    let mut i: u64 = 0;
    while i < n_days
        invariant
            i <= n_days,
            x <= MAX_ALLOWANCE,
            base <= MAX_ALLOWANCE,
            -100 <= p <= 100,
            x == spec_compound(base as int, p as int, i as nat),
        decreases n_days - i,
    {
        let next = step(x, p);
        if next == x {
            // Growth has reached a fixed point (for example at zero, or at
            // the saturation cap); the remaining days cannot change it.
            proof {
                lemma_compound_fixpoint(base as int, p as int, i as nat, n_days as nat);
            }
            i = n_days;
        } else {
            x = next;
            i = i + 1;
        }
    }
    x
}

/// Today's effective allowance in seconds: `base` until the start date has
/// passed, afterwards `today - start_date` days of growth applied to it.
/// Linear speeds add their seconds per day; percentage speeds compound per
/// day with rounding half away from zero. The result always saturates into
/// `0 ..= MAX_ALLOWANCE` and never errors.
pub fn effective_allowance(base: u64, start_date: u64, today: u64, speed: Speed) -> (r: u64)
    requires
        base <= MAX_ALLOWANCE,
        speed matches Speed::Percentage(p) ==> -100 <= p <= 100,
    ensures
        r == spec_effective_allowance(base as int, start_date as int, today as int, speed),
        r <= MAX_ALLOWANCE,
{
    if today <= start_date {
        return base;
    }
    match speed {
        Speed::ConstantSeconds(s) => linear_allowance(base, s, today - start_date),
        Speed::Percentage(p) => compound_allowance(base, p, today - start_date),
    }
}

/// Clamping lands in `-100 ..= 100` for every input, and clamping a second
/// time changes nothing.
pub proof fn lemma_clamp_bounds_idempotent(p: int)
    ensures
        -100 <= spec_clamp(p) <= 100,
        spec_clamp(spec_clamp(p)) == spec_clamp(p),
{
}

/// Compounding at zero percent never moves the allowance.
proof fn lemma_compound_zero(base: int, n: nat)
    requires
        0 <= base <= MAX_ALLOWANCE,
    ensures
        spec_compound(base, 0, n) == base,
    decreases n,
{
    if n > 0 {
        lemma_compound_zero(base, (n - 1) as nat);
        lemma_div_multiples_vanish_fancy(base, 50, 100);
        assert(100 * base == base * 100);
    }
}

/// Zero percentage growth is a no-op: whatever the dates, the effective
/// allowance under `Percentage(0)` is the base allowance itself.
pub proof fn lemma_percentage_zero_is_identity(base: u64, start_date: u64, today: u64)
    requires
        base <= MAX_ALLOWANCE,
    ensures
        spec_effective_allowance(
            base as int,
            start_date as int,
            today as int,
            Speed::Percentage(0),
        ) == base,
{
    if today > start_date {
        lemma_compound_zero(base as int, (today - start_date) as nat);
    }
}

/// Under a non-negative constant speed the effective allowance never
/// shrinks as days pass: it is monotonic non-decreasing in `today`.
pub proof fn lemma_constant_speed_monotonic(
    base: u64,
    start_date: u64,
    s: i32,
    t1: u64,
    t2: u64,
)
    requires
        base <= MAX_ALLOWANCE,
        s >= 0,
        t1 <= t2,
    ensures
        spec_effective_allowance(base as int, start_date as int, t1 as int, Speed::ConstantSeconds(s))
            <= spec_effective_allowance(
            base as int,
            start_date as int,
            t2 as int,
            Speed::ConstantSeconds(s),
        ),
{
    let start = start_date as int;
    if t2 > start_date {
        let n2 = t2 as int - start;
        if t1 <= start_date {
            lemma_mul_nonnegative(n2, s as int);
        } else {
            let n1 = t1 as int - start;
            lemma_mul_nonnegative(n1, s as int);
            lemma_mul_inequality(n1, n2, s as int);
        }
    }
}

} // verus!
