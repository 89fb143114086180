//! The status query surface, consumed by a reporting tool rather than the
//! enforcement loop: today's spent and remaining time for one user.

use vstd::prelude::*;
use vstd::arithmetic::div_mod::lemma_fundamental_div_mod;

use crate::run::spec_time_left;
use crate::search::spec_has_name;
use crate::tracker::Tracker;
use crate::tracker::TrackerModel;
use crate::tracker::spec_counter_of;

verus! {

/// Today's tracked spend of one user: zero when the ledger covers another
/// day, and `u64::MAX` when the ledger does not know the user at all —
/// the sentinel the reporting tool shows as an error.
pub open spec fn spec_spent(t: TrackerModel, user: Seq<char>, today: u64) -> u64 {
    if t.date != today {
        0
    } else if !spec_has_name(t.counter, user) {
        u64::MAX
    } else {
        spec_counter_of(t.counter, user).total_spent
    }
}

/// Today's tracked spend of one user, in seconds: zero when the ledger is
/// outdated, `u64::MAX` when the ledger does not know the user.
pub fn get_spent(tracker: &Tracker, user: &str, today: u64) -> (r: u64)
    ensures
        r == spec_spent(tracker@, user@, today),
{
    if tracker.is_outdated(today) {
        return 0;
    }
    if !tracker.contains_user(user) {
        return u64::MAX;
    }
    tracker.user_counter(user).total_spent
}

/// The seconds left of an allowance after some spending, floored at zero.
pub fn remaining(allowed: u64, spent: u64) -> (r: u64)
    ensures
        r == spec_time_left(allowed, spent),
{
    if spent >= allowed {
        0
    } else {
        allowed - spent
    }
}

/// A duration split into whole hours, minutes and seconds, for display as
/// `HH:MM:SS`: minutes and seconds lie below 60, and the three parts
/// reassemble to the duration exactly.
pub fn hms_parts(total_seconds: u64) -> (r: (u64, u64, u64))
    ensures
        r.0 == total_seconds / 3600,
        r.1 == total_seconds % 3600 / 60,
        r.2 == total_seconds % 3600 % 60,
        r.1 < 60,
        r.2 < 60,
        r.0 * 3600 + r.1 * 60 + r.2 == total_seconds,
{
    let hours = total_seconds / 3600;
    let rem = total_seconds % 3600;
    let minutes = rem / 60;
    let seconds = rem % 60;
    proof {
        lemma_fundamental_div_mod(total_seconds as int, 3600);
        lemma_fundamental_div_mod(rem as int, 60);
    }
    (hours, minutes, seconds)
}

} // verus!
