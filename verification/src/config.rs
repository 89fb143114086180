//! The validated in-memory configuration: per-user budgets keyed by
//! weekday groups, with optional time slots and an optional ramp-up rule.

use vstd::prelude::*;

use crate::rampup::MAX_ALLOWANCE;
use crate::rampup::Rampup;
use crate::rampup::Speed;
use crate::rampup::spec_clamp_speed;
use crate::rampup::spec_effective_allowance;
use crate::rampup::effective_allowance;
use crate::search::lemma_name_idx;
use crate::search::lemma_name_idx_is;
use crate::search::spec_has_name;
use crate::search::spec_name_idx;
use crate::search::spec_names;
use crate::search::str_eq;
use crate::time_slot::TimeSlot;
use vstd::string::StringExecFns;

verus! {

/// A day of the week.
#[derive(Clone, Copy, Debug, Hash, PartialEq, Eq, Structural)]
pub enum Weekday {
    Monday,
    Tuesday,
    Wednesday,
    Thursday,
    Friday,
    Saturday,
    Sunday,
}

/// The weekday of a day number. Day 0 is 1970-01-01, a Thursday.
pub open spec fn spec_weekday_of(day: u64) -> Weekday {
    let i = ((day as int) % 7 + 3) % 7;
    if i == 0 {
        Weekday::Monday
    } else if i == 1 {
        Weekday::Tuesday
    } else if i == 2 {
        Weekday::Wednesday
    } else if i == 3 {
        Weekday::Thursday
    } else if i == 4 {
        Weekday::Friday
    } else if i == 5 {
        Weekday::Saturday
    } else {
        Weekday::Sunday
    }
}

impl Weekday {
    /// The weekday of a day number (days since 1970-01-01).
    pub fn from_day(day: u64) -> (r: Weekday)
        ensures
            r == spec_weekday_of(day),
    {
        let i = (day % 7 + 3) % 7;
        if i == 0 {
            Weekday::Monday
        } else if i == 1 {
            Weekday::Tuesday
        } else if i == 2 {
            Weekday::Wednesday
        } else if i == 3 {
            Weekday::Thursday
        } else if i == 4 {
            Weekday::Friday
        } else if i == 5 {
            Weekday::Saturday
        } else {
            Weekday::Sunday
        }
    }

    /// All seven weekdays, Monday first.
    pub fn all() -> (r: Vec<Weekday>)
        ensures
            r@ =~= seq![
                Weekday::Monday,
                Weekday::Tuesday,
                Weekday::Wednesday,
                Weekday::Thursday,
                Weekday::Friday,
                Weekday::Saturday,
                Weekday::Sunday,
            ],
    {
        let mut v: Vec<Weekday> = Vec::new();
        v.push(Weekday::Monday);
        v.push(Weekday::Tuesday);
        v.push(Weekday::Wednesday);
        v.push(Weekday::Thursday);
        v.push(Weekday::Friday);
        v.push(Weekday::Saturday);
        v.push(Weekday::Sunday);
        proof {
            assert(v@ =~= seq![
                Weekday::Monday,
                Weekday::Tuesday,
                Weekday::Wednesday,
                Weekday::Thursday,
                Weekday::Friday,
                Weekday::Saturday,
                Weekday::Sunday,
            ]);
        }
        v
    }
}

/// The budget of one calendar day: a daily total, and optionally a list of
/// time-of-day windows the budget is split over. `None` slots mean the
/// whole day is one pool.
#[derive(Clone, Debug)]
pub struct DayConfig {
    /// Seconds allowed over the whole day.
    pub total_allowed: u64,
    /// Time-of-day windows with their own sub-budgets, or `None` for no
    /// windowing at all.
    pub time_slots: Option<Vec<TimeSlot>>,
}

/// The mathematical value of a `DayConfig`.
#[verifier::ext_equal]
pub struct DayModel {
    pub total_allowed: u64,
    pub time_slots: Option<Seq<TimeSlot>>,
}

impl View for DayConfig {
    type V = DayModel;

    open spec fn view(&self) -> DayModel {
        DayModel {
            total_allowed: self.total_allowed,
            time_slots: match self.time_slots {
                Some(v) => Some(v@),
                None => None,
            },
        }
    }
}

/// The day budget used when no weekday group matches: a full day, in one
/// full-day slot — no restriction at all.
pub open spec fn spec_default_day() -> DayModel {
    DayModel {
        total_allowed: 86400,
        time_slots: Some(seq![TimeSlot { start: 0, end: 86399, time: Some(86400u64) }]),
    }
}

pub fn copy_slots(v: &Vec<TimeSlot>) -> (r: Vec<TimeSlot>)
    ensures
        r@ == v@,
{
    let mut r: Vec<TimeSlot> = Vec::new();
    let mut i: usize = 0;
    while i < v.len()
        invariant
            i <= v.len(),
            r@ == v@.take(i as int),
        decreases v.len() - i,
    {
        r.push(v[i]);
        proof {
            assert(r@ =~= v@.take(i + 1));
        }
        i = i + 1;
    }
    proof {
        assert(v@.take(v@.len() as int) =~= v@);
    }
    r
}

impl DayConfig {
    /// An identical day budget, freshly allocated.
    pub fn duplicate(&self) -> (r: DayConfig)
        ensures
            r@ == self@,
    {
        let r = match &self.time_slots {
            Some(v) => DayConfig { total_allowed: self.total_allowed, time_slots: Some(copy_slots(v)) },
            None => DayConfig { total_allowed: self.total_allowed, time_slots: None },
        };
        proof {
            assert(r@ =~~= self@);
        }
        r
    }
}

/// The unrestricted day: a whole day allowed, in one full-day slot.
impl Default for DayConfig {
    fn default() -> (r: Self)
        ensures
            r@ == spec_default_day(),
    {
        let slots = vec![TimeSlot { start: 0, end: 86399, time: Some(86400u64) }];
        let r = DayConfig { total_allowed: 86400, time_slots: Some(slots) };
        proof {
            assert(r@.time_slots.unwrap() =~= spec_default_day().time_slots.unwrap());
            assert(r@ =~~= spec_default_day());
        }
        r
    }
}

/// One user's configuration: warning thresholds, an optional ramp-up rule,
/// and day budgets keyed by groups of weekdays.
#[derive(Clone, Debug)]
pub struct UserConfig {
    /// Seconds before exhaustion at which the short warning fires.
    pub short_warning: u64,
    /// Seconds before exhaustion at which the long warning fires.
    pub long_warning: u64,
    /// How the allowance grows over calendar time, if at all.
    pub rampup: Option<Rampup>,
    /// Day budgets, each keyed by the set of weekdays it covers. The groups
    /// need not partition the week: the first group containing today's
    /// weekday wins.
    pub days: Vec<(Vec<Weekday>, DayConfig)>,
}

/// The mathematical value of a `UserConfig`.
#[verifier::ext_equal]
pub struct UserModel {
    pub short_warning: u64,
    pub long_warning: u64,
    pub rampup: Option<Rampup>,
    pub days: Seq<(Seq<Weekday>, DayModel)>,
}

impl View for UserConfig {
    type V = UserModel;

    open spec fn view(&self) -> UserModel {
        UserModel {
            short_warning: self.short_warning,
            long_warning: self.long_warning,
            rampup: self.rampup,
            days: self.days@.map_values(|e: (Vec<Weekday>, DayConfig)| (e.0@, e.1@)),
        }
    }
}

/// Index of the first day group containing `wd`, or `-1` when none does.
pub open spec fn spec_match_idx(days: Seq<(Seq<Weekday>, DayModel)>, wd: Weekday) -> int
    decreases days.len(),
{
    if days.len() == 0 {
        -1
    } else if days[0].0.contains(wd) {
        0
    } else if spec_match_idx(days.drop_first(), wd) == -1 {
        -1
    } else {
        spec_match_idx(days.drop_first(), wd) + 1
    }
}

/// What `spec_match_idx` returns: `-1` exactly when no group contains the
/// weekday; otherwise the first in-range index whose group contains it.
pub proof fn lemma_match_idx(days: Seq<(Seq<Weekday>, DayModel)>, wd: Weekday)
    ensures
        spec_match_idx(days, wd) == -1 <==> (forall|i: int|
            0 <= i < days.len() ==> !(#[trigger] days[i].0).contains(wd)),
        spec_match_idx(days, wd) != -1 ==> 0 <= spec_match_idx(days, wd) < days.len()
            && days[spec_match_idx(days, wd)].0.contains(wd),
        forall|j: int| 0 <= j < spec_match_idx(days, wd) ==> !(#[trigger] days[j].0).contains(wd),
    decreases days.len(),
{
    if days.len() > 0 {
        let rest = days.drop_first();
        lemma_match_idx(rest, wd);
        if !days[0].0.contains(wd) {
            if spec_match_idx(rest, wd) == -1 {
                assert forall|i: int| 0 <= i < days.len() implies !(#[trigger] days[i].0).contains(
                    wd,
                ) by {
                    if i > 0 {
                        assert(rest[i - 1] == days[i]);
                    }
                }
            } else {
                let k = spec_match_idx(rest, wd);
                assert(rest[k] == days[k + 1]);
                assert forall|j: int| 0 <= j < k + 1 implies !(#[trigger] days[j].0).contains(
                    wd,
                ) by {
                    if j > 0 {
                        assert(rest[j - 1] == days[j]);
                    }
                }
            }
        }
    }
}

/// The converse: a group containing the weekday, with no earlier group
/// containing it, sits at the index `spec_match_idx` returns.
pub proof fn lemma_match_idx_is(days: Seq<(Seq<Weekday>, DayModel)>, wd: Weekday, i: int)
    requires
        0 <= i < days.len(),
        days[i].0.contains(wd),
        forall|j: int| 0 <= j < i ==> !(#[trigger] days[j].0).contains(wd),
    ensures
        spec_match_idx(days, wd) == i,
    decreases days.len(),
{
    if i > 0 {
        let rest = days.drop_first();
        assert(forall|j: int| 0 <= j < rest.len() ==> rest[j] == days[j + 1]);
        lemma_match_idx_is(rest, wd, i - 1);
    }
}

/// The day budget in force on weekday `wd`: the first group containing
/// `wd`, or the unrestricted default when no group does.
pub open spec fn spec_todays_budget(u: UserModel, wd: Weekday) -> DayModel {
    let i = spec_match_idx(u.days, wd);
    if i >= 0 {
        u.days[i].1
    } else {
        spec_default_day()
    }
}

/// How many day groups contain `wd`; more than one means the
/// configuration is ambiguous for that weekday and only the first group
/// is used.
pub open spec fn spec_match_count(days: Seq<(Seq<Weekday>, DayModel)>, wd: Weekday) -> nat
    decreases days.len(),
{
    if days.len() == 0 {
        0
    } else {
        spec_match_count(days.drop_last(), wd) + if days.last().0.contains(wd) {
            1nat
        } else {
            0nat
        }
    }
}

/// A user configuration whose ramp-up percentage has been clamped into
/// `-100 ..= 100`.
pub open spec fn spec_clamp_user(u: UserModel) -> UserModel {
    UserModel {
        rampup: match u.rampup {
            Some(r) => Some(Rampup { speed: spec_clamp_speed(r.speed), start_date: r.start_date }),
            None => None,
        },
        ..u
    }
}

fn weekdays_contain(v: &Vec<Weekday>, wd: Weekday) -> (r: bool)
    ensures
        r == v@.contains(wd),
{
    let mut i: usize = 0;
    while i < v.len()
        invariant
            i <= v.len(),
            forall|j: int| 0 <= j < i ==> v@[j] != wd,
        decreases v.len() - i,
    {
        if v[i] == wd {
            return true;
        }
        i = i + 1;
    }
    proof {
        assert(!v@.contains(wd));
    }
    false
}

pub fn copy_weekdays(v: &Vec<Weekday>) -> (r: Vec<Weekday>)
    ensures
        r@ == v@,
{
    let mut r: Vec<Weekday> = Vec::new();
    let mut i: usize = 0;
    while i < v.len()
        invariant
            i <= v.len(),
            r@ == v@.take(i as int),
        decreases v.len() - i,
    {
        r.push(v[i]);
        proof {
            assert(r@ =~= v@.take(i + 1));
        }
        i = i + 1;
    }
    proof {
        assert(v@.take(v@.len() as int) =~= v@);
    }
    r
}

impl UserConfig {
    /// An identical user configuration, freshly allocated.
    pub fn duplicate(&self) -> (r: UserConfig)
        ensures
            r@ == self@,
    {
        let mut days: Vec<(Vec<Weekday>, DayConfig)> = Vec::new();
        let mut i: usize = 0;
        while i < self.days.len()
            invariant
                i <= self.days@.len(),
                days@.len() == i,
                forall|j: int| 0 <= j < i ==> #[trigger] days@[j].0@ == self.days@[j].0@
                    && days@[j].1@ == self.days@[j].1@,
            decreases self.days@.len() - i,
        {
            let group = copy_weekdays(&self.days[i].0);
            let day = self.days[i].1.duplicate();
            days.push((group, day));
            i = i + 1;
        }
        let r = UserConfig {
            short_warning: self.short_warning,
            long_warning: self.long_warning,
            rampup: self.rampup,
            days,
        };
        proof {
            assert(r@.days =~~= self@.days);
            assert(r@ =~~= self@);
        }
        r
    }

    /// The same configuration with the ramp-up percentage clamped into
    /// `-100 ..= 100`; done once right after a configuration is read,
    /// before any arithmetic sees it.
    pub fn clamp_rampup(self) -> (r: Self)
        ensures
            r@ == spec_clamp_user(self@),
    {
        let rampup = match self.rampup {
            Some(r) => Some(r.clamp_percentage()),
            None => None,
        };
        let r = UserConfig {
            short_warning: self.short_warning,
            long_warning: self.long_warning,
            rampup,
            days: self.days,
        };
        proof {
            assert(r@ =~~= spec_clamp_user(self@));
        }
        r
    }

    /// The day budget in force on `weekday`: the first matching weekday
    /// group, or the unrestricted default when none matches.
    pub fn todays_config(&self, weekday: Weekday) -> (r: DayConfig)
        ensures
            r@ == spec_todays_budget(self@, weekday),
    {
        let mut i: usize = 0;
        while i < self.days.len()
            invariant
                i <= self.days@.len(),
                forall|j: int| 0 <= j < i ==> !(#[trigger] self@.days[j].0).contains(weekday),
            decreases self.days@.len() - i,
        {
            if weekdays_contain(&self.days[i].0, weekday) {
                proof {
                    assert(self@.days[i as int].0.contains(weekday));
                    lemma_match_idx_is(self@.days, weekday, i as int);
                }
                return self.days[i].1.duplicate();
            }
            i = i + 1;
        }
        proof {
            lemma_match_idx(self@.days, weekday);
        }
        DayConfig::default()
    }

    /// How many weekday groups contain `weekday`. A result above one is
    /// worth a diagnostic: the groups overlap and only the first in the
    /// list is used.
    pub fn matching_day_groups(&self, weekday: Weekday) -> (r: usize)
        ensures
            r == spec_match_count(self@.days, weekday),
    {
        let mut count: usize = 0;
        let mut i: usize = 0;
        while i < self.days.len()
            invariant
                i <= self.days@.len(),
                count == spec_match_count(self@.days.take(i as int), weekday),
                count <= i,
            decreases self.days@.len() - i,
        {
            proof {
                assert(self@.days.take(i + 1).drop_last() =~= self@.days.take(i as int));
                assert(self@.days.take(i + 1).last() == self@.days[i as int]);
            }
            if weekdays_contain(&self.days[i].0, weekday) {
                count = count + 1;
            }
            i = i + 1;
        }
        proof {
            assert(self@.days.take(self@.days.len() as int) =~= self@.days);
        }
        count
    }

    /// Today's total allowance in seconds, before any ramp-up.
    pub fn total_allowed_today(&self, weekday: Weekday) -> (r: u64)
        ensures
            r == spec_todays_budget(self@, weekday).total_allowed,
    {
        self.todays_config(weekday).total_allowed
    }

    /// Today's time slots, or `None` when today's budget has no windowing.
    pub fn timeslots_today(&self, weekday: Weekday) -> (r: Option<Vec<TimeSlot>>)
        ensures
            (match r {
                Some(v) => spec_todays_budget(self@, weekday).time_slots == Some(v@),
                None => spec_todays_budget(self@, weekday).time_slots is None,
            }),
    {
        self.todays_config(weekday).time_slots
    }

    /// Whether the present moment lies inside some slot of today's budget.
    /// A budget without windowing contains every moment.
    pub fn now_within_timeslot(&self, weekday: Weekday, time_of_day: u32) -> (r: bool)
        ensures
            r == spec_now_within(self@, weekday, time_of_day),
    {
        let day = self.todays_config(weekday);
        match &day.time_slots {
            None => true,
            Some(slots) => {
                let mut i: usize = 0;
                while i < slots.len()
                    invariant
                        i <= slots@.len(),
                        spec_todays_budget(self@, weekday).time_slots == Some(slots@),
                        forall|j: int| 0 <= j < i ==> !(#[trigger] slots@[j]).spec_contains(
                            time_of_day,
                        ),
                    decreases slots@.len() - i,
                {
                    if slots[i].contains(time_of_day) {
                        proof {
                            let sb = spec_todays_budget(self@, weekday).time_slots.unwrap();
                            assert(sb == slots@);
                            assert((#[trigger] sb[i as int]).spec_contains(time_of_day));
                            assert(spec_now_within(self@, weekday, time_of_day));
                        }
                        return true;
                    }
                    i = i + 1;
                }
                false
            },
        }
    }
}

/// Whether the time of day lies inside some slot of the day budget in
/// force on `wd`; a budget without windowing contains every moment.
pub open spec fn spec_now_within(u: UserModel, wd: Weekday, time_of_day: u32) -> bool {
    match spec_todays_budget(u, wd).time_slots {
        None => true,
        Some(slots) => exists|i: int|
            0 <= i < slots.len() && (#[trigger] slots[i]).spec_contains(time_of_day),
    }
}

/// Whether two optional slot lists read the same, slot by slot; slots are
/// compared by their windows alone, as slot equality always is.
pub open spec fn spec_slots_like(a: Option<Seq<TimeSlot>>, b: Option<Seq<TimeSlot>>) -> bool {
    match (a, b) {
        (None, None) => true,
        (Some(x), Some(y)) => x.len() == y.len() && (forall|i: int|
            0 <= i < x.len() ==> (#[trigger] x[i]).same_window(y[i])),
        _ => false,
    }
}

/// Whether two day budgets read the same.
pub open spec fn spec_day_like(a: DayModel, b: DayModel) -> bool {
    a.total_allowed == b.total_allowed && spec_slots_like(a.time_slots, b.time_slots)
}

/// Whether two user configurations read the same.
pub open spec fn spec_user_like(a: UserModel, b: UserModel) -> bool {
    &&& a.short_warning == b.short_warning
    &&& a.long_warning == b.long_warning
    &&& a.rampup == b.rampup
    &&& a.days.len() == b.days.len()
    &&& forall|i: int|
        0 <= i < a.days.len() ==> (#[trigger] a.days[i]).0 == b.days[i].0 && spec_day_like(
            a.days[i].1,
            b.days[i].1,
        )
}

/// Whether two configurations read the same: same users in the same
/// order, each configured the same.
pub open spec fn spec_config_like(
    a: Seq<(Seq<char>, UserModel)>,
    b: Seq<(Seq<char>, UserModel)>,
) -> bool {
    a.len() == b.len() && (forall|i: int|
        0 <= i < a.len() ==> (#[trigger] a[i]).0 == b[i].0 && spec_user_like(a[i].1, b[i].1))
}

/// The default settings of one user: half a minute and five minutes of
/// warning, one second of ramp-up per day since 2024-05-01 (day number
/// 19844), and an unrestricted budget on every weekday.
pub open spec fn spec_default_user() -> UserModel {
    UserModel {
        short_warning: 30,
        long_warning: 300,
        rampup: Some(Rampup { speed: Speed::ConstantSeconds(1), start_date: 19844 }),
        days: seq![
            (
                seq![
                    Weekday::Monday,
                    Weekday::Tuesday,
                    Weekday::Wednesday,
                    Weekday::Thursday,
                    Weekday::Friday,
                    Weekday::Saturday,
                    Weekday::Sunday,
                ],
                spec_default_day(),
            ),
        ],
    }
}

/// Today's effective allowance of one user: the ramp-up rule applied to
/// the total of today's day budget; without a rule, that total unchanged.
pub open spec fn spec_user_effective(u: UserModel, today: u64) -> int {
    let base = spec_todays_budget(u, spec_weekday_of(today)).total_allowed;
    match u.rampup {
        None => base as int,
        Some(rp) => spec_effective_allowance(
            base as int,
            rp.start_date as int,
            today as int,
            rp.speed,
        ),
    }
}

/// What the ramp-up arithmetic asks of one user on one day: today's total
/// within range, and any percentage already clamped — both hold of every
/// configuration that went through `fix_values` with totals in range.
pub open spec fn spec_rampup_ready(u: UserModel, today: u64) -> bool {
    &&& spec_todays_budget(u, spec_weekday_of(today)).total_allowed <= MAX_ALLOWANCE
    &&& match u.rampup {
        Some(rp) => match rp.speed {
            Speed::Percentage(p) => -100 <= p <= 100,
            Speed::ConstantSeconds(_) => true,
        },
        None => true,
    }
}

fn day_like(a: &DayConfig, b: &DayConfig) -> (r: bool)
    ensures
        r == spec_day_like(a@, b@),
{
    if a.total_allowed != b.total_allowed {
        return false;
    }
    match (&a.time_slots, &b.time_slots) {
        (None, None) => true,
        (Some(x), Some(y)) => {
            proof {
                assert(a@.time_slots == Some(x@));
                assert(b@.time_slots == Some(y@));
            }
            if x.len() != y.len() {
                return false;
            }
            let mut i: usize = 0;
            while i < x.len()
                invariant
                    i <= x@.len(),
                    x@.len() == y@.len(),
                    a@.total_allowed == b@.total_allowed,
                    a@.time_slots == Some(x@),
                    b@.time_slots == Some(y@),
                    forall|j: int| 0 <= j < i ==> (#[trigger] x@[j]).same_window(y@[j]),
                decreases x@.len() - i,
            {
                if !(x[i] == y[i]) {
                    proof {
                        assert(!(#[trigger] x@[i as int]).same_window(y@[i as int]));
                    }
                    return false;
                }
                i = i + 1;
            }
            true
        },
        _ => false,
    }
}

fn weekdays_eq(a: &Vec<Weekday>, b: &Vec<Weekday>) -> (r: bool)
    ensures
        r == (a@ == b@),
{
    if a.len() != b.len() {
        return false;
    }
    let mut i: usize = 0;
    while i < a.len()
        invariant
            i <= a@.len(),
            a@.len() == b@.len(),
            forall|j: int| 0 <= j < i ==> a@[j] == b@[j],
        decreases a@.len() - i,
    {
        if !(a[i] == b[i]) {
            return false;
        }
        i = i + 1;
    }
    proof {
        assert(a@ =~= b@);
    }
    true
}

fn user_like(a: &UserConfig, b: &UserConfig) -> (r: bool)
    ensures
        r == spec_user_like(a@, b@),
{
    if a.short_warning != b.short_warning || a.long_warning != b.long_warning {
        return false;
    }
    let ramp_eq: bool = match (&a.rampup, &b.rampup) {
        (None, None) => true,
        (Some(x), Some(y)) => *x == *y,
        _ => false,
    };
    if !ramp_eq {
        return false;
    }
    if a.days.len() != b.days.len() {
        return false;
    }
    let mut i: usize = 0;
    while i < a.days.len()
        invariant
            i <= a.days@.len(),
            a@.days.len() == b@.days.len(),
            i <= a@.days.len(),
            forall|j: int| 0 <= j < i ==> (#[trigger] a@.days[j]).0 == b@.days[j].0
                && spec_day_like(a@.days[j].1, b@.days[j].1),
        decreases a.days@.len() - i,
    {
        if !weekdays_eq(&a.days[i].0, &b.days[i].0) {
            proof {
                assert(!((#[trigger] a@.days[i as int]).0 == b@.days[i as int].0));
            }
            return false;
        }
        if !day_like(&a.days[i].1, &b.days[i].1) {
            proof {
                assert(!spec_day_like(a@.days[i as int].1, b@.days[i as int].1));
            }
            return false;
        }
        i = i + 1;
    }
    true
}

fn default_user_config() -> (r: UserConfig)
    ensures
        r@ == spec_default_user(),
{
    let mut days: Vec<(Vec<Weekday>, DayConfig)> = Vec::new();
    days.push((Weekday::all(), DayConfig::default()));
    let r = UserConfig {
        short_warning: 30,
        long_warning: 300,
        rampup: Some(Rampup { speed: Speed::ConstantSeconds(1), start_date: 19844 }),
        days,
    };
    proof {
        assert(r@.days =~~= spec_default_user().days);
        assert(r@ =~~= spec_default_user());
    }
    r
}

/// A reason a loaded configuration is rejected.
#[derive(Debug, Clone)]
pub enum Error {
    /// The named user does not exist on this machine.
    UserDoesntExist(String),
}

impl Error {
    /// The rejection in words.
    pub fn message(&self) -> (r: String)
        ensures
            (match self {
                Error::UserDoesntExist(n) => r@ == "User "@ + n@ + " doesn't exist"@,
            }),
    {
        match self {
            Error::UserDoesntExist(n) => {
                let mut s = String::from_str("User ");
                s.append(n.as_str());
                s.append(" doesn't exist");
                s
            },
        }
    }
}

/// The whole configuration: per-user settings keyed by user name. A name
/// is looked up as the first entry carrying it.
#[derive(Clone, Debug)]
pub struct Config(pub Vec<(String, UserConfig)>);

impl View for Config {
    type V = Seq<(Seq<char>, UserModel)>;

    open spec fn view(&self) -> Seq<(Seq<char>, UserModel)> {
        self.0@.map_values(|e: (String, UserConfig)| (e.0@, e.1@))
    }
}

/// The user configuration an entry list holds under `name`.
pub open spec fn spec_user_of(entries: Seq<(Seq<char>, UserModel)>, name: Seq<char>) -> UserModel {
    entries[spec_name_idx(entries, name)].1
}

/// The entries a configuration keeps after loading: the entry for root is
/// dropped (root is never guarded), and every ramp-up percentage is
/// clamped into `-100 ..= 100`.
pub open spec fn spec_fix_entries(s: Seq<(Seq<char>, UserModel)>) -> Seq<(Seq<char>, UserModel)>
    decreases s.len(),
{
    if s.len() == 0 {
        Seq::empty()
    } else {
        let rest = spec_fix_entries(s.drop_last());
        if s.last().0 == "root"@ {
            rest
        } else {
            rest.push((s.last().0, spec_clamp_user(s.last().1)))
        }
    }
}

/// Whether every configured user name appears among `existing`, the
/// account names present on the machine.
pub open spec fn spec_all_exist(
    entries: Seq<(Seq<char>, UserModel)>,
    existing: Seq<Seq<char>>,
) -> bool {
    forall|i: int| 0 <= i < entries.len() ==> existing.contains(#[trigger] entries[i].0)
}

/// Index of the first entry whose name is not among `existing`, or `-1`
/// when every name is.
pub open spec fn spec_first_missing(
    entries: Seq<(Seq<char>, UserModel)>,
    existing: Seq<Seq<char>>,
) -> int
    decreases entries.len(),
{
    if entries.len() == 0 {
        -1
    } else if !existing.contains(entries[0].0) {
        0
    } else if spec_first_missing(entries.drop_first(), existing) == -1 {
        -1
    } else {
        spec_first_missing(entries.drop_first(), existing) + 1
    }
}

/// An entry whose name is missing, with every earlier name present, sits
/// at the index `spec_first_missing` returns.
proof fn lemma_first_missing_is(
    entries: Seq<(Seq<char>, UserModel)>,
    existing: Seq<Seq<char>>,
    i: int,
)
    requires
        0 <= i < entries.len(),
        !existing.contains(entries[i].0),
        forall|j: int| 0 <= j < i ==> existing.contains(#[trigger] entries[j].0),
    ensures
        spec_first_missing(entries, existing) == i,
    decreases entries.len(),
{
    if i > 0 {
        let rest = entries.drop_first();
        assert(forall|j: int| 0 <= j < rest.len() ==> rest[j] == entries[j + 1]);
        lemma_first_missing_is(rest, existing, i - 1);
    }
}

fn name_listed(list: &Vec<String>, name: &str) -> (r: bool)
    ensures
        r == spec_names(list@).contains(name@),
{
    let mut i: usize = 0;
    while i < list.len()
        invariant
            i <= list@.len(),
            forall|j: int| 0 <= j < i ==> spec_names(list@)[j] != name@,
        decreases list@.len() - i,
    {
        if str_eq(list[i].as_str(), name) {
            proof {
                assert(spec_names(list@)[i as int] == name@);
            }
            return true;
        }
        i = i + 1;
    }
    proof {
        assert(!spec_names(list@).contains(name@));
    }
    false
}

impl Config {
    /// The configured user names, in configuration order.
    pub fn users(&self) -> (r: Vec<String>)
        ensures
            r@.len() == self@.len(),
            forall|i: int| 0 <= i < self@.len() ==> #[trigger] r@[i]@ == self@[i].0,
    {
        let mut r: Vec<String> = Vec::new();
        let mut i: usize = 0;
        while i < self.0.len()
            invariant
                i <= self.0@.len(),
                r@.len() == i,
                forall|j: int| 0 <= j < i ==> #[trigger] r@[j]@ == self@[j].0,
            decreases self.0@.len() - i,
        {
            r.push(self.0[i].0.clone());
            i = i + 1;
        }
        r
    }

    /// Whether some entry is configured under `name`.
    pub fn contains_user(&self, name: &str) -> (r: bool)
        ensures
            r == spec_has_name(self@, name@),
    {
        let mut i: usize = 0;
        while i < self.0.len()
            invariant
                i <= self.0@.len(),
                forall|j: int| 0 <= j < i ==> #[trigger] self@[j].0 != name@,
            decreases self.0@.len() - i,
        {
            if str_eq(self.0[i].0.as_str(), name) {
                proof {
                    lemma_name_idx_is(self@, name@, i as int);
                }
                return true;
            }
            i = i + 1;
        }
        proof {
            lemma_name_idx(self@, name@);
        }
        false
    }

    /// The configuration of the named user.
    pub fn user(&self, name: &str) -> (r: &UserConfig)
        requires
            spec_has_name(self@, name@),
        ensures
            r@ == spec_user_of(self@, name@),
    {
        let mut i: usize = 0;
        while i < self.0.len()
            invariant
                i <= self.0@.len(),
                spec_has_name(self@, name@),
                forall|j: int| 0 <= j < i ==> #[trigger] self@[j].0 != name@,
            decreases self.0@.len() - i,
        {
            if str_eq(self.0[i].0.as_str(), name) {
                proof {
                    lemma_name_idx_is(self@, name@, i as int);
                }
                return &self.0[i].1;
            }
            i = i + 1;
        }
        proof {
            lemma_name_idx(self@, name@);
        }
        unreached()
    }

    /// The entries themselves, for walking all users.
    pub fn iter(&self) -> (r: &Vec<(String, UserConfig)>)
        ensures
            r == &self.0,
    {
        &self.0
    }

    /// The entries themselves, by value.
    pub fn into_iter(self) -> (r: Vec<(String, UserConfig)>)
        ensures
            r == self.0,
    {
        self.0
    }

    /// Today's total allowance of the named user, in seconds.
    pub fn allowed(&self, user: &str, weekday: Weekday) -> (r: u64)
        requires
            spec_has_name(self@, user@),
        ensures
            r == spec_todays_budget(spec_user_of(self@, user@), weekday).total_allowed,
    {
        self.user(user).total_allowed_today(weekday)
    }

    /// The adjustments every freshly read configuration goes through:
    /// the entry for root is dropped, and ramp-up percentages are clamped
    /// into `-100 ..= 100` before any arithmetic sees them.
    pub fn fix_values(self) -> (r: Self)
        ensures
            r@ == spec_fix_entries(self@),
    {
        let mut out: Vec<(String, UserConfig)> = Vec::new();
        let mut i: usize = 0;
        while i < self.0.len()
            invariant
                i <= self.0@.len(),
                ({
                    let fixed = spec_fix_entries(self@.take(i as int));
                    out@.len() == fixed.len() && forall|j: int|
                        0 <= j < out@.len() ==> (#[trigger] out@[j].0@, out@[j].1@) == fixed[j]
                }),
            decreases self.0@.len() - i,
        {
            proof {
                assert(self@.take(i + 1).drop_last() =~= self@.take(i as int));
                assert(self@.take(i + 1).last() == self@[i as int]);
            }
            let name = self.0[i].0.clone();
            if !str_eq(name.as_str(), "root") {
                let user = self.0[i].1.duplicate().clamp_rampup();
                out.push((name, user));
            }
            i = i + 1;
        }
        proof {
            assert(self@.take(self@.len() as int) =~= self@);
        }
        let r = Config(out);
        proof {
            assert(r@ =~= spec_fix_entries(self@));
        }
        r
    }

    /// Whether every configured user exists on the machine; the first
    /// configured name not among `existing` is reported as the rejection.
    pub fn check_correct(&self, existing: &Vec<String>) -> (r: Result<(), Error>)
        ensures
            r is Ok <==> spec_all_exist(self@, spec_names(existing@)),
            r matches Err(e) ==> (e matches Error::UserDoesntExist(n) && ({
                let k = spec_first_missing(self@, spec_names(existing@));
                0 <= k < self@.len() && n@ == self@[k].0
            })),
    {
        let mut i: usize = 0;
        while i < self.0.len()
            invariant
                i <= self.0@.len(),
                forall|j: int| 0 <= j < i ==> spec_names(existing@).contains(
                    #[trigger] self@[j].0,
                ),
            decreases self.0@.len() - i,
        {
            if !name_listed(existing, self.0[i].0.as_str()) {
                proof {
                    lemma_first_missing_is(self@, spec_names(existing@), i as int);
                }
                return Err(Error::UserDoesntExist(self.0[i].0.clone()));
            }
            i = i + 1;
        }
        Ok(())
    }

    /// Whether this configuration reads as `other`: same users in the same
    /// order, same warnings, ramp-up rules and day groups, with slots
    /// compared by their windows alone, as slot equality always is.
    pub fn same_as(&self, other: &Config) -> (r: bool)
        ensures
            r == spec_config_like(self@, other@),
    {
        if self.0.len() != other.0.len() {
            return false;
        }
        let mut i: usize = 0;
        while i < self.0.len()
            invariant
                i <= self.0@.len(),
                self@.len() == other@.len(),
                forall|j: int| 0 <= j < i ==> (#[trigger] self@[j]).0 == other@[j].0
                    && spec_user_like(self@[j].1, other@[j].1),
            decreases self.0@.len() - i,
        {
            if !str_eq(self.0[i].0.as_str(), other.0[i].0.as_str()) {
                proof {
                    assert(!((#[trigger] self@[i as int]).0 == other@[i as int].0
                        && spec_user_like(self@[i as int].1, other@[i as int].1)));
                }
                return false;
            }
            if !user_like(&self.0[i].1, &other.0[i].1) {
                proof {
                    assert(!((#[trigger] self@[i as int]).0 == other@[i as int].0
                        && spec_user_like(self@[i as int].1, other@[i as int].1)));
                }
                return false;
            }
            i = i + 1;
        }
        true
    }

    /// Whether the template file must be rewritten: it must whenever no
    /// stored template loaded, or the stored one does not read as the
    /// computed default.
    pub fn template_needs_rewrite(stored: Option<&Config>, default_config: &Config) -> (r: bool)
        ensures
            (match stored {
                Some(c) => r == !spec_config_like(c@, default_config@),
                None => r == true,
            }),
    {
        match stored {
            Some(c) => !c.same_as(default_config),
            None => true,
        }
    }

    /// The startup fallback chain: the primary configuration when it
    /// loaded, else the previous known-good one, else the bundled
    /// fallback.
    pub fn choose_startup_config(
        primary: Option<Config>,
        previous: Option<Config>,
        fallback: Config,
    ) -> (r: Config)
        ensures
            primary matches Some(c) ==> r == c,
            primary is None ==> (previous matches Some(c) ==> r == c),
            primary is None && previous is None ==> r == fallback,
    {
        match primary {
            Some(c) => c,
            None => match previous {
                Some(c) => c,
                None => fallback,
            },
        }
    }

    /// A steady-state reload: a configuration that loaded replaces the
    /// current one, and the replaced one is handed back to be stored in
    /// the previous known-good slot; a failed load keeps the current
    /// configuration and stores nothing. A reload is never fatal.
    pub fn choose_reloaded(current: Config, attempt: Option<Config>) -> (r: (Config, Option<Config>))
        ensures
            attempt matches Some(c) ==> r.0 == c && r.1 == Some(current),
            attempt is None ==> r.0 == current && r.1 is None,
    {
        match attempt {
            Some(c) => (c, Some(current)),
            None => (current, None),
        }
    }

    /// The default configuration over the given user names: every user
    /// gets the default settings, with every weekday unrestricted.
    pub fn default_for(users: &Vec<String>) -> (r: Config)
        ensures
            r@.len() == users@.len(),
            forall|i: int| 0 <= i < users@.len() ==> (#[trigger] r@[i]).0 == users@[i]@
                && r@[i].1 == spec_default_user(),
    {
        let mut out: Vec<(String, UserConfig)> = Vec::new();
        let mut i: usize = 0;
        while i < users.len()
            invariant
                i <= users@.len(),
                out@.len() == i,
                forall|j: int| 0 <= j < i ==> (#[trigger] out@[j].0@) == users@[j]@
                    && out@[j].1@ == spec_default_user(),
            decreases users@.len() - i,
        {
            out.push((users[i].clone(), default_user_config()));
            i = i + 1;
        }
        let r = Config(out);
        r
    }

    /// Whether ramp-up arithmetic can be applied to every user today:
    /// today's totals are in range for it, and every percentage is
    /// already clamped, as `fix_values` leaves them.
    pub fn can_apply_rampup(&self, today: u64) -> (r: bool)
        ensures
            r == (forall|i: int|
                0 <= i < self@.len() ==> spec_rampup_ready(#[trigger] self@[i].1, today)),
    {
        let weekday = Weekday::from_day(today);
        let mut i: usize = 0;
        while i < self.0.len()
            invariant
                i <= self.0@.len(),
                weekday == spec_weekday_of(today),
                forall|j: int| 0 <= j < i ==> spec_rampup_ready(#[trigger] self@[j].1, today),
            decreases self.0@.len() - i,
        {
            if self.0[i].1.total_allowed_today(weekday) > MAX_ALLOWANCE {
                proof {
                    assert(!spec_rampup_ready(self@[i as int].1, today));
                }
                return false;
            }
            match &self.0[i].1.rampup {
                Some(rp) => match rp.speed {
                    Speed::Percentage(p) => {
                        if p < -100 || p > 100 {
                            proof {
                                assert(!spec_rampup_ready(self@[i as int].1, today));
                            }
                            return false;
                        }
                    },
                    Speed::ConstantSeconds(_) => {},
                },
                None => {},
            }
            proof {
                assert(spec_rampup_ready(self@[i as int].1, today));
            }
            i = i + 1;
        }
        true
    }

    /// A snapshot of this configuration for `today` with every user's
    /// allowance passed through the ramp-up calculator. Each user keeps
    /// the warnings, rule and today's slots; the day budgets collapse to
    /// the single day the snapshot is for. The configuration itself is
    /// not changed: tomorrow is resolved from a fresh reload.
    pub fn apply_rampup(self, today: u64) -> (r: Self)
        requires
            forall|i: int| 0 <= i < self@.len() ==> spec_rampup_ready(#[trigger] self@[i].1, today),
        ensures
            r@.len() == self@.len(),
            forall|i: int|
                #![trigger r@[i]]
                0 <= i < self@.len() ==> ({
                    let wd = spec_weekday_of(today);
                    let u = r@[i].1;
                    &&& r@[i].0 == self@[i].0
                    &&& u.short_warning == self@[i].1.short_warning
                    &&& u.long_warning == self@[i].1.long_warning
                    &&& u.rampup == self@[i].1.rampup
                    &&& u.days.len() == 1
                    &&& u.days[0].0 == seq![wd]
                    &&& u.days[0].1.time_slots == spec_todays_budget(self@[i].1, wd).time_slots
                    &&& u.days[0].1.total_allowed == spec_user_effective(self@[i].1, today)
                    &&& spec_todays_budget(u, wd) == u.days[0].1
                }),
    {
        let weekday = Weekday::from_day(today);
        let mut out: Vec<(String, UserConfig)> = Vec::new();
        let mut i: usize = 0;
        while i < self.0.len()
            invariant
                i <= self.0@.len(),
                weekday == spec_weekday_of(today),
                forall|k: int| 0 <= k < self@.len() ==> spec_rampup_ready(
                    #[trigger] self@[k].1,
                    today,
                ),
                out@.len() == i,
                forall|j: int|
                    #![trigger out@[j]]
                    0 <= j < i ==> ({
                        let u = out@[j].1@;
                        &&& out@[j].0@ == self@[j].0
                        &&& u.short_warning == self@[j].1.short_warning
                        &&& u.long_warning == self@[j].1.long_warning
                        &&& u.rampup == self@[j].1.rampup
                        &&& u.days.len() == 1
                        &&& u.days[0].0 == seq![weekday]
                        &&& u.days[0].1.time_slots == spec_todays_budget(self@[j].1, weekday).time_slots
                        &&& u.days[0].1.total_allowed == spec_user_effective(self@[j].1, today)
                        &&& spec_todays_budget(u, weekday) == u.days[0].1
                    }),
            decreases self.0@.len() - i,
        {
            let name = self.0[i].0.clone();
            let uc = &self.0[i].1;
            proof {
                assert(spec_rampup_ready(self@[i as int].1, today));
                assert(uc@ == self@[i as int].1);
            }
            let day = uc.todays_config(weekday);
            let base = day.total_allowed;
            let eff: u64 = match &uc.rampup {
                None => base,
                Some(rp) => effective_allowance(base, rp.start_date, today, rp.speed),
            };
            let mut group: Vec<Weekday> = Vec::new();
            group.push(weekday);
            let new_day = DayConfig { total_allowed: eff, time_slots: day.time_slots };
            let mut days: Vec<(Vec<Weekday>, DayConfig)> = Vec::new();
            days.push((group, new_day));
            let nu = UserConfig {
                short_warning: uc.short_warning,
                long_warning: uc.long_warning,
                rampup: uc.rampup,
                days,
            };
            proof {
                assert(nu@.days.len() == 1);
                assert(nu@.days[0].0 =~= seq![weekday]);
                assert(nu@.days[0].0.contains(weekday)) by {
                    assert(nu@.days[0].0[0] == weekday);
                }
                lemma_match_idx_is(nu@.days, weekday, 0);
            }
            out.push((name, nu));
            i = i + 1;
        }
        let r = Config(out);
        r
    }

    /// The checks a configuration passes right after being read: drop the
    /// root entry, clamp ramp-up percentages, then reject the whole
    /// configuration if any remaining user is unknown to the machine.
    pub fn validate(self, existing: &Vec<String>) -> (r: Result<Config, Error>)
        ensures
            r is Ok <==> spec_all_exist(spec_fix_entries(self@), spec_names(existing@)),
            r matches Ok(c) ==> c@ == spec_fix_entries(self@),
            r matches Err(e) ==> (e matches Error::UserDoesntExist(n) && ({
                let fixed = spec_fix_entries(self@);
                let k = spec_first_missing(fixed, spec_names(existing@));
                0 <= k < fixed.len() && n@ == fixed[k].0
            })),
    {
        let fixed = self.fix_values();
        match fixed.check_correct(existing) {
            Ok(()) => Ok(fixed),
            Err(e) => Err(e),
        }
    }
}

} // verus!
