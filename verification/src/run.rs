//! Per-tick enforcement decisions.
//!
//! The surrounding daemon runs the loop: once per interval it reads the
//! clocks, asks the session layer which users are active and how long the
//! machine has been idle, and calls in here for each user. Everything that
//! is decided — what counts, when a user is logged out, when a warning
//! fires — is decided by the functions of this module.

use vstd::prelude::*;

use crate::config::Config;
use crate::config::UserConfig;
use crate::config::UserModel;
use crate::config::Weekday;
use crate::config::spec_now_within;
use crate::config::spec_todays_budget;
use crate::config::spec_user_of;
use crate::config::spec_weekday_of;
use crate::search::spec_has_name;
use crate::search::spec_name_idx;
use crate::search::lemma_name_idx;
use crate::search::lemma_name_idx_is;
use crate::tracker::CounterModel;
use crate::tracker::Tracker;
use crate::tracker::spec_add;
use crate::tracker::spec_counter_of;
use crate::tracker::spec_slot_over;

verus! {

/// What one tick decides for one counted user.
#[derive(Clone, Copy, Debug, PartialEq, Eq, Structural)]
pub enum TickOutcome {
    /// The user is out of budget, over a window's budget, or outside
    /// every window: log the user out and skip further handling this
    /// tick.
    Logout,
    /// Exactly a warning threshold of seconds is left: notify the user.
    Warn(u64),
    /// Nothing to do beyond persisting the ledger.
    Continue,
}

/// The seconds left of an allowance after some spending, floored at zero.
pub open spec fn spec_time_left(allowed: u64, spent: u64) -> u64 {
    if spent >= allowed {
        0
    } else {
        (allowed - spent) as u64
    }
}

/// The warning owed right now, if any: `Some` of the time left exactly
/// when it equals the short or the long warning threshold.
pub open spec fn spec_warning(u: UserModel, spent: u64, wd: Weekday) -> Option<u64> {
    let left = spec_time_left(spec_todays_budget(u, wd).total_allowed, spent);
    if left == u.short_warning || left == u.long_warning {
        Some(left)
    } else {
        None
    }
}

/// The outcome of a tick for one counted user, read off the ledger after
/// the tick's elapsed time was added. The checks come in order: the daily
/// total spent, then a window's budget spent, then the moment outside
/// every window — each one a logout; otherwise a warning exactly at a
/// threshold; otherwise carry on.
pub open spec fn spec_outcome(u: UserModel, c: CounterModel, wd: Weekday, tod: u32) -> TickOutcome {
    let day = spec_todays_budget(u, wd);
    if c.total_spent >= day.total_allowed {
        TickOutcome::Logout
    } else if spec_slot_over(day.time_slots, c.time_slots) {
        TickOutcome::Logout
    } else if !spec_now_within(u, wd, tod) {
        TickOutcome::Logout
    } else {
        match spec_warning(u, c.total_spent, wd) {
            Some(left) => TickOutcome::Warn(left),
            None => TickOutcome::Continue,
        }
    }
}

/// The warning to issue for the user right now, if any: the seconds left
/// of today's allowance, exactly when they equal the short or the long
/// warning threshold.
pub fn issue_warnings(tracker: &Tracker, user_config: &UserConfig, user: &str, weekday: Weekday) -> (r:
    Option<u64>)
    requires
        spec_has_name(tracker@.counter, user@),
    ensures
        r == spec_warning(
            user_config@,
            spec_counter_of(tracker@.counter, user@).total_spent,
            weekday,
        ),
{
    let allowed = user_config.total_allowed_today(weekday);
    let spent = tracker.user_counter(user).total_spent;
    let left: u64 = if spent >= allowed {
        0
    } else {
        allowed - spent
    };
    if left == user_config.short_warning || left == user_config.long_warning {
        Some(left)
    } else {
        None
    }
}

/// One enforcement tick for one user. A user is counted when active with
/// the machine's idle time below the threshold; an uncounted user's
/// ledger is untouched and nothing is decided. For a counted user the
/// elapsed seconds are added to the ledger — total and containing
/// windows — and the outcome is read off the updated ledger.
pub fn tick_user(
    tracker: &mut Tracker,
    config: &Config,
    user: &str,
    active: bool,
    idle_time: u64,
    idle_threshold: u64,
    elapsed: u64,
    today: u64,
    time_of_day: u32,
) -> (r: Option<TickOutcome>)
    requires
        spec_has_name(config@, user@),
        spec_has_name(old(tracker)@.counter, user@),
    ensures
        !(active && idle_time < idle_threshold) ==> final(tracker)@ == old(tracker)@ && r is None,
        (active && idle_time < idle_threshold) ==> ({
            let added = spec_add(old(tracker)@, user@, elapsed, time_of_day);
            &&& final(tracker)@ == added
            &&& r == Some(
                spec_outcome(
                    spec_user_of(config@, user@),
                    spec_counter_of(added.counter, user@),
                    spec_weekday_of(today),
                    time_of_day,
                ),
            )
        }),
{
    if !(active && idle_time < idle_threshold) {
        return None;
    }
    let ghost pre = tracker@;
    let weekday = Weekday::from_day(today);
    tracker.add(user, elapsed, time_of_day);
    proof {
        lemma_name_idx(pre.counter, user@);
        let k = spec_name_idx(pre.counter, user@);
        lemma_name_idx_is(tracker@.counter, user@, k);
    }
    let user_config = config.user(user);
    let spent = tracker.user_counter(user).total_spent;
    let allowed = user_config.total_allowed_today(weekday);
    if spent >= allowed {
        return Some(TickOutcome::Logout);
    }
    if tracker.timeslot_over_time(config, user, weekday) {
        return Some(TickOutcome::Logout);
    }
    if !user_config.now_within_timeslot(weekday, time_of_day) {
        return Some(TickOutcome::Logout);
    }
    match issue_warnings(tracker, user_config, user, weekday) {
        Some(left) => Some(TickOutcome::Warn(left)),
        None => Some(TickOutcome::Continue),
    }
}

/// What the loop does with one idle-time reading: a successful reading is
/// used as it is; a failed one counts as zero idle, so the user stays
/// counted — enforcement fails open rather than under-enforce. A failure
/// is logged only while fewer than three have been, so a broken
/// connection cannot flood the log while the loop keeps retrying it
/// every tick. Returns the idle time to use, whether to log, and the
/// updated count of logged failures.
pub fn resolve_idle_reading(reading: Option<u64>, retries: u64) -> (r: (u64, bool, u64))
    ensures
        (match reading {
            Some(t) => r == (t, false, retries),
            None => r == (
                0u64,
                retries < 3,
                if retries < 3 {
                    (retries + 1) as u64
                } else {
                    retries
                },
            ),
        }),
{
    match reading {
        Some(t) => (t, false, retries),
        None => {
            if retries < 3 {
                (0, true, retries + 1)
            } else {
                (0, false, retries)
            }
        },
    }
}

} // verus!
