//! The persisted usage ledger: per-user time spent today, total and per
//! time slot, with day-rollover and reconciliation semantics.

use vstd::prelude::*;

use crate::config::Config;
use crate::config::UserConfig;
use crate::config::UserModel;
use crate::config::Weekday;
use crate::config::spec_todays_budget;
use crate::config::spec_user_of;
use crate::config::spec_weekday_of;
use crate::search::lemma_name_idx;
use crate::search::lemma_name_idx_is;
use crate::search::spec_has_name;
use crate::search::spec_name_idx;
use crate::search::str_eq;
use crate::time_slot::TimeSlot;

verus! {

/// Saturating addition of two durations in seconds.
pub open spec fn spec_sat_add(a: u64, b: u64) -> u64 {
    if a + b > u64::MAX {
        u64::MAX
    } else {
        (a + b) as u64
    }
}

/// One user's tally for the current day: the total spent, and — when
/// today's budget is windowed — the time spent inside each window, carried
/// in the slot's duration field.
#[derive(Clone, Debug)]
pub struct UserCounter {
    /// Seconds spent today in total.
    pub total_spent: u64,
    /// Today's slots with spent time in their duration field, mirroring
    /// the configured windows; `None` when today's budget has no
    /// windowing.
    pub time_slots: Option<Vec<TimeSlot>>,
}

/// The mathematical value of a `UserCounter`.
#[verifier::ext_equal]
pub struct CounterModel {
    pub total_spent: u64,
    pub time_slots: Option<Seq<TimeSlot>>,
}

impl View for UserCounter {
    type V = CounterModel;

    open spec fn view(&self) -> CounterModel {
        CounterModel {
            total_spent: self.total_spent,
            time_slots: match self.time_slots {
                Some(v) => Some(v@),
                None => None,
            },
        }
    }
}

/// The same slots with their duration fields reset to zero spent time.
pub open spec fn spec_zero_slots(o: Option<Seq<TimeSlot>>) -> Option<Seq<TimeSlot>> {
    match o {
        Some(s) => Some(
            s.map_values(|t: TimeSlot| TimeSlot { start: t.start, end: t.end, time: Some(0u64) }),
        ),
        None => None,
    }
}

/// A fresh counter for one user: nothing spent, and today's configured
/// windows mirrored with zero spent time.
pub open spec fn spec_fresh_counter(u: UserModel, wd: Weekday) -> CounterModel {
    CounterModel {
        total_spent: 0,
        time_slots: spec_zero_slots(spec_todays_budget(u, wd).time_slots),
    }
}

/// One slot after `d` seconds pass at time of day `tod`: a window
/// containing `tod` accrues `d` into its duration field; any other window
/// is untouched.
pub open spec fn spec_accrue_slot(s: TimeSlot, tod: u32, d: u64) -> TimeSlot {
    if s.spec_contains(tod) {
        TimeSlot {
            start: s.start,
            end: s.end,
            time: match s.time {
                Some(t) => Some(spec_sat_add(t, d)),
                None => None,
            },
        }
    } else {
        s
    }
}

/// Every slot after `d` seconds pass at time of day `tod`; overlapping
/// windows all accrue.
pub open spec fn spec_accrue_slots(o: Option<Seq<TimeSlot>>, tod: u32, d: u64) -> Option<
    Seq<TimeSlot>,
> {
    match o {
        Some(s) => Some(s.map_values(|t: TimeSlot| spec_accrue_slot(t, tod, d))),
        None => None,
    }
}

impl UserCounter {
    /// A fresh counter seeded from the user's configuration: nothing
    /// spent, today's windows mirrored with zero spent time.
    pub fn new(user_config: &UserConfig, weekday: Weekday) -> (r: Self)
        ensures
            r@ == spec_fresh_counter(user_config@, weekday),
    {
        let slots = user_config.timeslots_today(weekday);
        let time_slots = match slots {
            Some(v) => {
                let mut out: Vec<TimeSlot> = Vec::new();
                let mut i: usize = 0;
                while i < v.len()
                    invariant
                        i <= v@.len(),
                        out@.len() == i,
                        forall|j: int| 0 <= j < i ==> #[trigger] out@[j] == (TimeSlot {
                            start: v@[j].start,
                            end: v@[j].end,
                            time: Some(0u64),
                        }),
                    decreases v@.len() - i,
                {
                    out.push(v[i].zero_time());
                    i = i + 1;
                }
                proof {
                    assert(out@ =~= spec_zero_slots(Some(v@)).unwrap());
                }
                Some(out)
            },
            None => None,
        };
        let r = UserCounter { total_spent: 0, time_slots };
        proof {
            assert(r@ =~~= spec_fresh_counter(user_config@, weekday));
        }
        r
    }

    /// Add `duration` seconds to the total spent today, saturating.
    pub fn add_to_total_spent(&mut self, duration: u64)
        ensures
            final(self)@.total_spent == spec_sat_add(old(self)@.total_spent, duration),
            final(self)@.time_slots == old(self)@.time_slots,
    {
        self.total_spent = self.total_spent.saturating_add(duration);
    }

    /// Add `duration` seconds of spent time to every window containing
    /// the present time of day; overlapping windows all accrue.
    pub fn add_to_current_timeslots(&mut self, duration: u64, time_of_day: u32)
        ensures
            final(self)@.total_spent == old(self)@.total_spent,
            final(self)@.time_slots == spec_accrue_slots(
                old(self)@.time_slots,
                time_of_day,
                duration,
            ),
    {
        let time_slots = match &self.time_slots {
            Some(v) => {
                let mut out: Vec<TimeSlot> = Vec::new();
                let mut i: usize = 0;
                while i < v.len()
                    invariant
                        i <= v@.len(),
                        out@.len() == i,
                        forall|j: int| 0 <= j < i ==> #[trigger] out@[j] == spec_accrue_slot(
                            v@[j],
                            time_of_day,
                            duration,
                        ),
                    decreases v@.len() - i,
                {
                    let s = v[i];
                    let accrued = if s.contains(time_of_day) {
                        TimeSlot {
                            start: s.start,
                            end: s.end,
                            time: match s.time {
                                Some(t) => Some(t.saturating_add(duration)),
                                None => None,
                            },
                        }
                    } else {
                        s
                    };
                    out.push(accrued);
                    i = i + 1;
                }
                proof {
                    assert(out@ =~= spec_accrue_slots(Some(v@), time_of_day, duration).unwrap());
                }
                Some(out)
            },
            None => None,
        };
        self.time_slots = time_slots;
    }
}

/// The ledger of one calendar day: the date it covers, and one counter
/// per user.
#[derive(Clone, Debug)]
pub struct Tracker {
    /// Day number (days since 1970-01-01) this ledger covers.
    pub date: u64,
    /// Per-user counters, keyed by user name.
    pub counter: Vec<(String, UserCounter)>,
}

/// The mathematical value of a `Tracker`.
#[verifier::ext_equal]
pub struct TrackerModel {
    pub date: u64,
    pub counter: Seq<(Seq<char>, CounterModel)>,
}

/// The mathematical value of a list of named counters.
pub open spec fn spec_counter_entries(v: Seq<(String, UserCounter)>) -> Seq<
    (Seq<char>, CounterModel),
> {
    v.map_values(|e: (String, UserCounter)| (e.0@, e.1@))
}

impl View for Tracker {
    type V = TrackerModel;

    open spec fn view(&self) -> TrackerModel {
        TrackerModel { date: self.date, counter: spec_counter_entries(self.counter@) }
    }
}

/// A fresh ledger for `today`: every configured user with a fresh
/// counter, in configuration order.
pub open spec fn spec_fresh_tracker(cfg: Seq<(Seq<char>, UserModel)>, today: u64) -> TrackerModel {
    TrackerModel {
        date: today,
        counter: cfg.map_values(
            |e: (Seq<char>, UserModel)| (e.0, spec_fresh_counter(e.1, spec_weekday_of(today))),
        ),
    }
}

/// Fresh counters for the configured users absent from `existing`, in
/// configuration order: what reconciliation appends to a loaded ledger.
pub open spec fn spec_missing_entries(
    cfg: Seq<(Seq<char>, UserModel)>,
    existing: Seq<(Seq<char>, CounterModel)>,
    today: u64,
) -> Seq<(Seq<char>, CounterModel)>
    decreases cfg.len(),
{
    if cfg.len() == 0 {
        Seq::empty()
    } else {
        let rest = spec_missing_entries(cfg.drop_last(), existing, today);
        if spec_has_name(existing, cfg.last().0) {
            rest
        } else {
            rest.push((cfg.last().0, spec_fresh_counter(cfg.last().1, spec_weekday_of(today))))
        }
    }
}

/// A loaded same-day ledger reconciled against the configuration: every
/// loaded count kept, and users the configuration added since the ledger
/// was written appended with fresh counters.
pub open spec fn spec_reconciled(
    t: TrackerModel,
    cfg: Seq<(Seq<char>, UserModel)>,
    today: u64,
) -> TrackerModel {
    TrackerModel { date: t.date, counter: t.counter + spec_missing_entries(cfg, t.counter, today) }
}

/// One counter after `d` seconds pass at time of day `tod`.
pub open spec fn spec_add_counter(c: CounterModel, d: u64, tod: u32) -> CounterModel {
    CounterModel {
        total_spent: spec_sat_add(c.total_spent, d),
        time_slots: spec_accrue_slots(c.time_slots, tod, d),
    }
}

/// The ledger after `d` seconds pass for the named user at time of day
/// `tod`: that user's counter accrues, everything else is untouched.
pub open spec fn spec_add(t: TrackerModel, name: Seq<char>, d: u64, tod: u32) -> TrackerModel {
    let k = spec_name_idx(t.counter, name);
    TrackerModel {
        date: t.date,
        counter: t.counter.update(k, (name, spec_add_counter(t.counter[k].1, d, tod))),
    }
}

/// Whether some configured window's budget is spent: a configured slot
/// and a tracked slot over the same window, both carrying durations, with
/// at least as much spent as allotted. Without windowing on either side
/// the check is vacuously false.
pub open spec fn spec_slot_over(
    allowed: Option<Seq<TimeSlot>>,
    spent: Option<Seq<TimeSlot>>,
) -> bool {
    match (allowed, spent) {
        (Some(a), Some(s)) => exists|i: int, j: int|
            0 <= i < a.len() && 0 <= j < s.len() && (#[trigger] a[i]).same_window(#[trigger] s[j])
                && a[i].time is Some && s[j].time is Some && s[j].time.unwrap()
                >= a[i].time.unwrap(),
        _ => false,
    }
}

/// The counter an entry list holds under `name`.
pub open spec fn spec_counter_of(
    entries: Seq<(Seq<char>, CounterModel)>,
    name: Seq<char>,
) -> CounterModel {
    entries[spec_name_idx(entries, name)].1
}

fn has_counter_entry(entries: &Vec<(String, UserCounter)>, name: &str) -> (r: bool)
    ensures
        r == spec_has_name(spec_counter_entries(entries@), name@),
{
    let mut i: usize = 0;
    while i < entries.len()
        invariant
            i <= entries@.len(),
            forall|j: int| 0 <= j < i ==> #[trigger] spec_counter_entries(entries@)[j].0 != name@,
        decreases entries@.len() - i,
    {
        if str_eq(entries[i].0.as_str(), name) {
            proof {
                lemma_name_idx_is(spec_counter_entries(entries@), name@, i as int);
            }
            return true;
        }
        i = i + 1;
    }
    proof {
        lemma_name_idx(spec_counter_entries(entries@), name@);
    }
    false
}

impl Tracker {
    /// A fresh ledger for `today`, seeded from the configuration: every
    /// user starts at zero, with today's windows mirrored.
    pub fn new(config: &Config, today: u64) -> (r: Self)
        ensures
            r@ == spec_fresh_tracker(config@, today),
    {
        let weekday = Weekday::from_day(today);
        let mut counter: Vec<(String, UserCounter)> = Vec::new();
        let mut i: usize = 0;
        while i < config.0.len()
            invariant
                i <= config.0@.len(),
                weekday == spec_weekday_of(today),
                counter@.len() == i,
                forall|j: int| 0 <= j < i ==> #[trigger] spec_counter_entries(counter@)[j] == (
                    config@[j].0,
                    spec_fresh_counter(config@[j].1, spec_weekday_of(today)),
                ),
            decreases config.0@.len() - i,
        {
            let name = config.0[i].0.clone();
            let uc = UserCounter::new(&config.0[i].1, weekday);
            let ghost prev = counter@;
            counter.push((name, uc));
            proof {
                assert forall|j: int| 0 <= j < i + 1 implies #[trigger] spec_counter_entries(
                    counter@,
                )[j] == ((config@[j].0, spec_fresh_counter(config@[j].1, spec_weekday_of(today)))) by {
                    if j < i {
                        assert(counter@[j] == prev[j]);
                        assert(spec_counter_entries(prev)[j] == (
                            config@[j].0,
                            spec_fresh_counter(config@[j].1, spec_weekday_of(today)),
                        ));
                    } else {
                        assert(counter@[j] == (name, uc));
                    }
                }
            }
            i = i + 1;
        }
        let r = Tracker { date: today, counter };
        proof {
            assert(r@.counter =~= spec_fresh_tracker(config@, today).counter);
            assert(r@ =~~= spec_fresh_tracker(config@, today));
        }
        r
    }

    /// Whether this ledger covers a day other than `today` — the single
    /// trigger for a full day reset.
    pub fn is_outdated(&self, today: u64) -> (r: bool)
        ensures
            r == (self@.date != today),
    {
        self.date != today
    }

    /// The ledger to run with, given what (if anything) was loaded from
    /// storage: a loaded same-day ledger is kept and reconciled — users
    /// the configuration has since added are appended at zero without
    /// touching the loaded counts; a ledger from another day, or none at
    /// all, is replaced by a fresh one. The caller persists the result
    /// immediately either way.
    pub fn initialize(config: &Config, loaded: Option<Tracker>, today: u64) -> (r: Tracker)
        ensures
            (match loaded {
                Some(t) => (if t@.date != today {
                    r@ == spec_fresh_tracker(config@, today)
                } else {
                    r@ == spec_reconciled(t@, config@, today)
                }),
                None => r@ == spec_fresh_tracker(config@, today),
            }),
    {
        match loaded {
            None => Tracker::new(config, today),
            Some(t) => {
                if t.is_outdated(today) {
                    Tracker::new(config, today)
                } else {
                    let ghost loaded_model = t@;
                    let weekday = Weekday::from_day(today);
                    let mut additions: Vec<(String, UserCounter)> = Vec::new();
                    let mut i: usize = 0;
                    while i < config.0.len()
                        invariant
                            i <= config.0@.len(),
                            weekday == spec_weekday_of(today),
                            spec_counter_entries(additions@) =~= spec_missing_entries(
                                config@.take(i as int),
                                loaded_model.counter,
                                today,
                            ),
                            t@ == loaded_model,
                        decreases config.0@.len() - i,
                    {
                        proof {
                            assert(config@.take(i + 1).drop_last() =~= config@.take(i as int));
                            assert(config@.take(i + 1).last() == config@[i as int]);
                        }
                        let name = config.0[i].0.clone();
                        if !has_counter_entry(&t.counter, name.as_str()) {
                            let uc = UserCounter::new(&config.0[i].1, weekday);
                            additions.push((name, uc));
                        }
                        i = i + 1;
                    }
                    proof {
                        assert(config@.take(config@.len() as int) =~= config@);
                    }
                    let mut t = t;
                    t.counter.append(&mut additions);
                    proof {
                        assert(spec_counter_entries(t.counter@) =~= spec_reconciled(
                            loaded_model,
                            config@,
                            today,
                        ).counter);
                        assert(t@ =~~= spec_reconciled(loaded_model, config@, today));
                    }
                    t
                }
            },
        }
    }

    /// The named user's counter.
    pub fn user_counter(&self, user: &str) -> (r: &UserCounter)
        requires
            spec_has_name(self@.counter, user@),
        ensures
            r@ == spec_counter_of(self@.counter, user@),
    {
        let mut i: usize = 0;
        while i < self.counter.len()
            invariant
                i <= self.counter@.len(),
                spec_has_name(self@.counter, user@),
                forall|j: int| 0 <= j < i ==> #[trigger] self@.counter[j].0 != user@,
            decreases self.counter@.len() - i,
        {
            if str_eq(self.counter[i].0.as_str(), user) {
                proof {
                    lemma_name_idx_is(self@.counter, user@, i as int);
                }
                return &self.counter[i].1;
            }
            i = i + 1;
        }
        proof {
            lemma_name_idx(self@.counter, user@);
        }
        unreached()
    }

    /// Whether the ledger knows the named user.
    pub fn contains_user(&self, user: &str) -> (r: bool)
        ensures
            r == spec_has_name(self@.counter, user@),
    {
        has_counter_entry(&self.counter, user)
    }

    /// `duration` seconds pass for the named user at the present time of
    /// day: the user's total accrues, and so does every one of the
    /// user's windows containing that moment. The user must be in the
    /// ledger; reconciliation put every configured user there.
    pub fn add(&mut self, user: &str, duration: u64, time_of_day: u32)
        requires
            spec_has_name(old(self)@.counter, user@),
        ensures
            final(self)@ == spec_add(old(self)@, user@, duration, time_of_day),
    {
        let mut i: usize = 0;
        let n = self.counter.len();
        while i < n
            invariant
                i <= self.counter@.len(),
                n == self.counter@.len(),
                spec_has_name(self@.counter, user@),
                self@ == old(self)@,
                forall|j: int| 0 <= j < i ==> #[trigger] self@.counter[j].0 != user@,
            decreases self.counter@.len() - i,
        {
            if str_eq(self.counter[i].0.as_str(), user) {
                proof {
                    lemma_name_idx_is(self@.counter, user@, i as int);
                }
                let ghost pre = self@;
                let entry = &mut self.counter[i];
                entry.1.add_to_total_spent(duration);
                entry.1.add_to_current_timeslots(duration, time_of_day);
                proof {
                    assert(self@.counter =~= spec_add(pre, user@, duration, time_of_day).counter);
                    assert(self@ =~~= spec_add(pre, user@, duration, time_of_day));
                }
                return ;
            }
            i = i + 1;
        }
        proof {
            lemma_name_idx(self@.counter, user@);
            assert(false);
        }
    }

    /// Whether the named user has exhausted some window's budget: a
    /// configured slot and a tracked slot over the same window, both
    /// carrying durations, with at least as much spent as allotted.
    /// Without windowing on either side this is vacuously false and only
    /// the daily total constrains the user.
    pub fn timeslot_over_time(&self, config: &Config, user: &str, weekday: Weekday) -> (r: bool)
        requires
            spec_has_name(config@, user@),
            spec_has_name(self@.counter, user@),
        ensures
            r == spec_slot_over(
                spec_todays_budget(spec_user_of(config@, user@), weekday).time_slots,
                spec_counter_of(self@.counter, user@).time_slots,
            ),
    {
        let allowed = match config.user(user).timeslots_today(weekday) {
            Some(v) => v,
            None => {
                return false;
            },
        };
        let spent = match &self.user_counter(user).time_slots {
            Some(v) => v,
            None => {
                return false;
            },
        };
        let ghost aseq = spec_todays_budget(spec_user_of(config@, user@), weekday).time_slots.unwrap();
        let ghost sseq = spec_counter_of(self@.counter, user@).time_slots.unwrap();
        let mut i: usize = 0;
        while i < allowed.len()
            invariant
                i <= allowed@.len(),
                allowed@ == aseq,
                spent@ == sseq,
                spec_todays_budget(spec_user_of(config@, user@), weekday).time_slots == Some(aseq),
                spec_counter_of(self@.counter, user@).time_slots == Some(sseq),
                forall|i2: int, j2: int|
                    0 <= i2 < i && 0 <= j2 < sseq.len() ==> !((#[trigger] aseq[i2]).same_window(
                        #[trigger] sseq[j2],
                    ) && aseq[i2].time is Some && sseq[j2].time is Some && sseq[j2].time.unwrap()
                        >= aseq[i2].time.unwrap()),
            decreases allowed@.len() - i,
        {
            let mut j: usize = 0;
            while j < spent.len()
                invariant
                    i < allowed@.len(),
                    j <= spent@.len(),
                    allowed@ == aseq,
                    spent@ == sseq,
                    spec_todays_budget(spec_user_of(config@, user@), weekday).time_slots == Some(
                        aseq,
                    ),
                    spec_counter_of(self@.counter, user@).time_slots == Some(sseq),
                    forall|j2: int| 0 <= j2 < j ==> !((#[trigger] aseq[i as int]).same_window(
                        sseq[j2],
                    ) && aseq[i as int].time is Some && (#[trigger] sseq[j2]).time is Some
                        && sseq[j2].time.unwrap() >= aseq[i as int].time.unwrap()),
                decreases spent@.len() - j,
            {
                let a = allowed[i];
                let s = spent[j];
                let over: bool = match (a.time, s.time) {
                    (Some(at), Some(st)) => a == s && st >= at,
                    _ => false,
                };
                if over {
                    proof {
                        assert((#[trigger] aseq[i as int]).same_window(#[trigger] sseq[j as int])
                            && aseq[i as int].time is Some && sseq[j as int].time is Some
                            && sseq[j as int].time.unwrap() >= aseq[i as int].time.unwrap());
                    }
                    return true;
                }
                j = j + 1;
            }
            i = i + 1;
        }
        false
    }
}

} // verus!
