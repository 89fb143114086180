//! Recurring time-of-day windows and their containment rule.

use vstd::prelude::*;
use vstd::std_specs::cmp::PartialEqSpec;

verus! {

/// A recurring time-of-day window with an optional duration attached.
///
/// In a configuration the attached duration is the budget allotted to the
/// window; in the usage ledger the same shape carries the time spent inside
/// the window so far today. Two slots are equal (`==`) when their windows
/// are equal; the attached duration is ignored by equality.
#[derive(Clone, Copy, Debug)]
pub struct TimeSlot {
    /// Start of the window, in seconds since midnight.
    pub start: u32,
    /// End of the window, in seconds since midnight. An `end` below `start`
    /// means the window wraps past midnight.
    pub end: u32,
    /// The duration attached to the window, in seconds: allotted budget in a
    /// configuration, spent time in a ledger. `None` means no sub-budget.
    pub time: Option<u64>,
}

impl TimeSlot {
    /// Whether the time of day `t` (seconds since midnight) falls inside the
    /// window, boundaries included.
    ///
    /// When the window does not wrap (`end >= start`), `t` is inside iff
    /// `start <= t <= end`. When it wraps (`end < start`), `t` is inside iff
    /// `t <= start || t >= end` — a rule that admits every moment at or
    /// before the start together with every moment at or after the end, and
    /// on a wrapped window that is every moment of the day. Surprising but
    /// deliberate: the rule is kept exactly as the enforcement has always
    /// behaved, and tests pin it.
    pub open spec fn spec_contains(self, t: u32) -> bool {
        if self.end >= self.start {
            self.start <= t && t <= self.end
        } else {
            t <= self.start || t >= self.end
        }
    }

    /// Window equality: `start` and `end` alone; the attached duration does
    /// not take part.
    pub open spec fn same_window(self, other: TimeSlot) -> bool {
        self.start == other.start && self.end == other.end
    }

    pub fn contains(&self, time_of_day: u32) -> (r: bool)
        ensures
            r == self.spec_contains(time_of_day),
    {
        if self.end >= self.start {
            self.start <= time_of_day && time_of_day <= self.end
        } else {
            time_of_day <= self.start || time_of_day >= self.end
        }
    }

    /// The same window with the attached duration reset to zero: how a
    /// configured slot is turned into a fresh ledger slot.
    pub fn zero_time(self) -> (r: Self)
        ensures
            r.start == self.start,
            r.end == self.end,
            r.time == Some(0u64),
    {
        TimeSlot { start: self.start, end: self.end, time: Some(0u64) }
    }
}

/// The full-day slot: the whole clock face, with a whole day allotted.
impl Default for TimeSlot {
    fn default() -> (r: Self)
        ensures
            r.start == 0u32,
            r.end == 86399u32,
            r.time == Some(86400u64),
    {
        TimeSlot { start: 0, end: 86399, time: Some(86400u64) }
    }
}

impl PartialEq for TimeSlot {
    fn eq(&self, other: &Self) -> (r: bool) {
        self.start == other.start && self.end == other.end
    }
}

impl vstd::std_specs::cmp::PartialEqSpecImpl for TimeSlot {
    open spec fn obeys_eq_spec() -> bool {
        true
    }

    open spec fn eq_spec(&self, other: &Self) -> bool {
        self.same_window(*other)
    }
}

/// Slot equality ignores the attached duration: two slots over the same
/// window compare equal whatever amounts either one carries.
pub proof fn lemma_eq_ignores_time(a: TimeSlot, b: TimeSlot)
    requires
        a.same_window(b),
    ensures
        a.eq_spec(&b),
{
}

} // verus!
