//! Calendar dates, wall-clock timestamps, reference-date selection and
//! time aggregation.
//!
//! A [`Date`] is a proleptic Gregorian calendar day; a [`Timestamp`] is a
//! date plus a second-precision time of day (local wall clock, no time
//! zone).  The mathematical model of a date is [`day_number`], the number of
//! days since the calendar's first day (year 1, January 1st — a Monday), and
//! the model of a timestamp is [`spec_total_seconds`].  Reports pick their
//! reference date with [`get_today`], [`get_week_start`] and
//! [`get_month_start`]; [`aggregate_session_times`] sums elapsed time over a
//! session list.

use vstd::prelude::*;

use crate::db::WorktimeSession;

verus! {

/// A calendar date.
#[derive(Debug, Clone, Copy, PartialEq, Eq, Structural)]
pub struct Date {
    pub year: u16,
    pub month: u8,
    pub day: u8,
}

/// A wall-clock timestamp with second precision.
#[derive(Debug, Clone, Copy, PartialEq, Eq, Structural)]
pub struct Timestamp {
    pub date: Date,
    pub hour: u8,
    pub minute: u8,
    pub second: u8,
}

/// Gregorian leap-year rule.
pub open spec fn spec_is_leap_year(y: int) -> bool {
    (y % 4 == 0 && y % 100 != 0) || y % 400 == 0
}

/// Length in days of month `m` of year `y` (months outside 1..=12 are given
/// the default length 31; valid dates never use them).
pub open spec fn spec_days_in_month(y: int, m: int) -> int {
    if m == 2 {
        if spec_is_leap_year(y) {
            29
        } else {
            28
        }
    } else if m == 4 || m == 6 || m == 9 || m == 11 {
        30
    } else {
        31
    }
}

/// Days contained in the months of year `y` that precede month `m`.
pub open spec fn spec_days_before_month(y: int, m: int) -> int
    decreases m,
{
    if m <= 1 {
        0
    } else {
        spec_days_before_month(y, m - 1) + spec_days_in_month(y, m - 1)
    }
}

/// Length in days of year `y`.
pub open spec fn spec_days_in_year(y: int) -> int {
    spec_days_before_month(y, 13)
}

/// Days contained in the years that precede year `y`, counting from year 1.
pub open spec fn spec_days_before_year(y: int) -> int
    decreases y,
{
    if y <= 1 {
        0
    } else {
        spec_days_before_year(y - 1) + spec_days_in_year(y - 1)
    }
}

/// The day number of a date: days elapsed since year 1, January 1st.
/// That first day has number 0 and is a Monday.
pub open spec fn day_number(d: Date) -> int {
    spec_days_before_year(d.year as int) + spec_days_before_month(d.year as int, d.month as int)
        + d.day - 1
}

/// A date the calendar accepts: year 1..=9999 and a day that exists in its
/// month.
pub open spec fn valid_date(d: Date) -> bool {
    &&& 1 <= d.year <= 9999
    &&& 1 <= d.month <= 12
    &&& 1 <= d.day <= spec_days_in_month(d.year as int, d.month as int)
}

impl Timestamp {
    /// A timestamp the calendar and the clock accept.
    pub open spec fn valid(self) -> bool {
        &&& valid_date(self.date)
        &&& self.hour <= 23
        &&& self.minute <= 59
        &&& self.second <= 59
    }

    /// Checks [`Timestamp::valid`].
    pub fn is_valid(self) -> (r: bool)
        ensures
            r == self.valid(),
    {
        date_valid(self.date) && self.hour <= 23 && self.minute <= 59 && self.second <= 59
    }
}

/// Checks [`valid_date`].
pub fn date_valid(d: Date) -> (r: bool)
    ensures
        r == valid_date(d),
{
    d.year >= 1 && d.year <= 9999 && d.month >= 1 && d.month <= 12 && d.day >= 1 && d.day
        <= days_in_month(d.year, d.month)
}

/// The model of a timestamp: seconds elapsed since year 1, January 1st,
/// midnight.
pub open spec fn spec_total_seconds(t: Timestamp) -> int {
    day_number(t.date) * 86400 + t.hour * 3600 + t.minute * 60 + t.second
}

/// `a` on or before `b`, comparing calendar dates.
pub open spec fn spec_date_le(a: Date, b: Date) -> bool {
    if a.year != b.year {
        a.year < b.year
    } else if a.month != b.month {
        a.month < b.month
    } else {
        a.day <= b.day
    }
}

/// Whether `y` is a leap year.
pub fn is_leap_year(y: u16) -> (r: bool)
    ensures
        r == spec_is_leap_year(y as int),
{
    (y % 4 == 0 && y % 100 != 0) || y % 400 == 0
}

/// Length in days of month `m` of year `y`.
pub fn days_in_month(y: u16, m: u8) -> (r: u8)
    ensures
        r == spec_days_in_month(y as int, m as int),
{
    if m == 2 {
        if is_leap_year(y) {
            29
        } else {
            28
        }
    } else if m == 4 || m == 6 || m == 9 || m == 11 {
        30
    } else {
        31
    }
}

/// Length in days of year `y`.
fn days_in_year(y: u16) -> (r: u16)
    ensures
        r == spec_days_in_year(y as int),
        365 <= r <= 366,
{
    proof {
        reveal_with_fuel(spec_days_before_month, 14);
    }
    if is_leap_year(y) {
        366
    } else {
        365
    }
}

/// Bounds of the day number that follow from the field types alone.
pub proof fn lemma_day_number_bounds(d: Date)
    ensures
        -1 <= day_number(d) < 25_000_000,
        valid_date(d) ==> 0 <= day_number(d),
{
    lemma_days_before_month_bounds(d.year as int, d.month as int);
    lemma_days_before_year_bounds(d.year as int);
}

proof fn lemma_days_before_month_bounds(y: int, m: int)
    ensures
        0 <= spec_days_before_month(y, m),
        m >= 1 ==> spec_days_before_month(y, m) <= 31 * (m - 1),
    decreases m,
{
    if m > 1 {
        lemma_days_before_month_bounds(y, m - 1);
    }
}

proof fn lemma_days_before_year_bounds(y: int)
    ensures
        0 <= spec_days_before_year(y),
        y >= 1 ==> spec_days_before_year(y) <= 372 * (y - 1),
    decreases y,
{
    if y > 1 {
        lemma_days_before_year_bounds(y - 1);
        lemma_days_before_month_bounds(y - 1, 13);
    }
}

/// Computes the day number of a date.
pub fn exec_day_number(d: Date) -> (r: i64)
    ensures
        r == day_number(d),
        -1 <= r < 25_000_000,
{
    let mut years: u32 = 0;
    let mut y: u16 = 1;
    while y < d.year
        invariant
            1 <= y,
            y == 1 || y <= d.year,
            years == spec_days_before_year(y as int),
            years <= 366 * (y - 1),
        decreases d.year as int - y as int,
    {
        years = years + days_in_year(y) as u32;
        y = y + 1;
    }
    assert(years == spec_days_before_year(d.year as int));
    let mut months: u32 = 0;
    let mut m: u8 = 1;
    while m < d.month
        invariant
            1 <= m,
            m == 1 || m <= d.month,
            months == spec_days_before_month(d.year as int, m as int),
            months <= 31 * (m - 1),
        decreases d.month as int - m as int,
    {
        months = months + days_in_month(d.year, m) as u32;
        m = m + 1;
    }
    assert(months == spec_days_before_month(d.year as int, d.month as int));
    years as i64 + months as i64 + d.day as i64 - 1
}

/// Computes the model of a timestamp in seconds.
pub fn total_seconds(t: Timestamp) -> (r: i64)
    ensures
        r == spec_total_seconds(t),
        -86400 <= r < 2_200_000_000_000,
{
    let days: i64 = exec_day_number(t.date);
    days * 86400 + t.hour as i64 * 3600 + t.minute as i64 * 60 + t.second as i64
}

/// `a` on or before `b`, comparing calendar dates.
pub fn date_le(a: Date, b: Date) -> (r: bool)
    ensures
        r == spec_date_le(a, b),
{
    if a.year != b.year {
        a.year < b.year
    } else if a.month != b.month {
        a.month < b.month
    } else {
        a.day <= b.day
    }
}

/// Weekday index of a date: 0 is Monday, 6 is Sunday.
pub open spec fn spec_weekday(d: Date) -> int {
    day_number(d) % 7
}

/// The calendar day before `d`: the previous day of the month, the last
/// day of the previous month, or December 31st of the previous year.
pub open spec fn spec_prev_day(d: Date) -> Date {
    if d.day > 1 {
        Date { year: d.year, month: d.month, day: (d.day - 1) as u8 }
    } else if d.month > 1 {
        Date {
            year: d.year,
            month: (d.month - 1) as u8,
            day: spec_days_in_month(d.year as int, d.month - 1) as u8,
        }
    } else {
        Date { year: (d.year - 1) as u16, month: 12u8, day: 31u8 }
    }
}

/// `d` moved `k` calendar days into the past.
pub open spec fn spec_back_days(d: Date, k: nat) -> Date
    decreases k,
{
    if k == 0 {
        d
    } else {
        spec_prev_day(spec_back_days(d, (k - 1) as nat))
    }
}

/// The Monday on or before `d`: `d` moved back by its weekday index.
pub open spec fn spec_week_start(d: Date) -> Date {
    spec_back_days(d, spec_weekday(d) as nat)
}

/// The calendar day before `d`.
pub fn prev_day(d: Date) -> (r: Date)
    requires
        valid_date(d),
        day_number(d) >= 1,
    ensures
        r == spec_prev_day(d),
        valid_date(r),
        day_number(r) == day_number(d) - 1,
{
    if d.day > 1 {
        Date { year: d.year, month: d.month, day: d.day - 1 }
    } else if d.month > 1 {
        let pm: u8 = d.month - 1;
        Date { year: d.year, month: pm, day: days_in_month(d.year, pm) }
    } else {
        Date { year: d.year - 1, month: 12, day: 31 }
    }
}

/// The calendar date of `now`.
pub fn get_today(now: Timestamp) -> (r: Date)
    ensures
        r == now.date,
{
    now.date
}

/// The Monday on or before `now`'s date.
///
/// The result is the unique Monday `m` with `m <= today < m + 7 days`; in
/// particular a Wednesday maps to the Monday two days earlier and a Sunday
/// maps to the Monday six days earlier, never forward to the next week.
pub fn get_week_start(now: Timestamp) -> (r: Date)
    requires
        now.valid(),
    ensures
        r == spec_week_start(now.date),
        valid_date(r),
        day_number(r) == day_number(now.date) - spec_weekday(now.date),
        spec_weekday(r) == 0,
{
    let dn: i64 = exec_day_number(now.date);
    proof {
        lemma_day_number_bounds(now.date);
    }
    let dnu: u32 = dn as u32;
    let offset: u32 = dnu % 7;
    let ghost dn0: int = day_number(now.date);
    let mut cur: Date = now.date;
    let mut k: u32 = 0;
    while k < offset
        invariant
            k <= offset,
            offset == dn0 % 7,
            dn0 == day_number(now.date),
            dn0 >= 0,
            valid_date(cur),
            day_number(cur) == dn0 - k,
            cur == spec_back_days(now.date, k as nat),
        decreases offset - k,
    {
        proof {
            assert(dn0 % 7 <= dn0) by {
                vstd::arithmetic::div_mod::lemma_fundamental_div_mod(dn0, 7);
                vstd::arithmetic::div_mod::lemma_div_pos_is_pos(dn0, 7);
            }
        }
        cur = prev_day(cur);
        k = k + 1;
    }
    proof {
        assert(day_number(cur) % 7 == 0) by {
            vstd::arithmetic::div_mod::lemma_fundamental_div_mod(dn0, 7);
            vstd::arithmetic::div_mod::lemma_mod_multiples_basic(dn0 / 7, 7);
        }
    }
    cur
}

/// The first day of `now`'s month.
pub fn get_month_start(now: Timestamp) -> (r: Date)
    requires
        now.valid(),
    ensures
        valid_date(r),
        r == (Date { year: now.date.year, month: now.date.month, day: 1u8 }),
{
    Date { year: now.date.year, month: now.date.month, day: 1 }
}

/// The end a session counts up to: its own end if closed, `now` if open.
pub open spec fn effective_end(s: WorktimeSession, now: Timestamp) -> Timestamp {
    match s.end {
        Some(e) => e,
        None => now,
    }
}

/// Seconds one session contributes to a report evaluated at `now`.
pub open spec fn session_seconds(s: WorktimeSession, now: Timestamp) -> int {
    spec_total_seconds(effective_end(s, now)) - spec_total_seconds(s.start)
}

/// Seconds a session list contributes to a report evaluated at `now`: the
/// plain sum over the list, in any order, with no overlap assumption.
pub open spec fn spec_aggregate(sessions: Seq<WorktimeSession>, now: Timestamp) -> int
    decreases sessions.len(),
{
    if sessions.len() == 0 {
        0
    } else {
        spec_aggregate(sessions.drop_last(), now) + session_seconds(sessions.last(), now)
    }
}

/// Sums `(end or now) - start` over the sessions, in seconds.  An open
/// session contributes `now - start`, so a report gives partial credit for
/// a session that has not stopped yet.
pub fn aggregate_session_times(sessions: &Vec<WorktimeSession>, now: Timestamp) -> (r: i128)
    ensures
        r == spec_aggregate(sessions@, now),
        -3_000_000_000_000 * (sessions@.len() as int) <= r <= 3_000_000_000_000 * (
        sessions@.len() as int),
{
    let mut acc: i128 = 0;
    let mut i: usize = 0;
    while i < sessions.len()
        invariant
            i <= sessions@.len(),
            acc == spec_aggregate(sessions@.subrange(0, i as int), now),
            -3_000_000_000_000 * (i as int) <= acc <= 3_000_000_000_000 * (i as int),
        decreases sessions@.len() - i,
    {
        let s: WorktimeSession = sessions[i];
        let start_secs: i64 = total_seconds(s.start);
        let end_secs: i64 = match s.end {
            Some(e) => total_seconds(e),
            None => total_seconds(now),
        };
        proof {
            assert(sessions@.subrange(0, i + 1).drop_last() =~= sessions@.subrange(0, i as int));
            assert(sessions@.subrange(0, i + 1).last() == sessions@[i as int]);
        }
        acc = acc + (end_secs as i128 - start_secs as i128);
        i = i + 1;
    }
    proof {
        assert(sessions@.subrange(0, sessions@.len() as int) =~= sessions@);
    }
    acc
}

/// Whole minutes of a signed duration in seconds, truncated toward zero,
/// as report balances are shown.
pub open spec fn spec_trunc_minutes(secs: int) -> int {
    if secs >= 0 {
        secs / 60
    } else {
        -((-secs) / 60)
    }
}

/// Aggregation is additive: summing the concatenation of two session lists
/// equals the sum of aggregating each separately, for the same `now`.
pub proof fn lemma_aggregate_additive(a: Seq<WorktimeSession>, b: Seq<WorktimeSession>, now: Timestamp)
    ensures
        spec_aggregate(a + b, now) == spec_aggregate(a, now) + spec_aggregate(b, now),
    decreases b.len(),
{
    if b.len() == 0 {
        assert(a + b =~= a);
    } else {
        lemma_aggregate_additive(a, b.drop_last(), now);
        assert((a + b).drop_last() =~= a + b.drop_last());
        assert((a + b).last() == b.last());
    }
}

/// Overwriting one session changes the aggregate by exactly the
/// difference the rewritten session makes.
pub proof fn lemma_aggregate_update(
    s: Seq<WorktimeSession>,
    i: int,
    x: WorktimeSession,
    now: Timestamp,
)
    requires
        0 <= i < s.len(),
    ensures
        spec_aggregate(s.update(i, x), now) == spec_aggregate(s, now) - session_seconds(s[i], now)
            + session_seconds(x, now),
    decreases s.len(),
{
    let t = s.update(i, x);
    if i == s.len() - 1 {
        assert(t.drop_last() =~= s.drop_last());
        assert(t.last() == x);
    } else {
        assert(t.drop_last() =~= s.drop_last().update(i, x));
        lemma_aggregate_update(s.drop_last(), i, x, now);
        assert(t.last() == s.last());
    }
}

/// Minutes elapsed since midnight of the timestamp's day.
pub fn minutes_of_day(t: &Timestamp) -> (r: u32)
    ensures
        r == t.hour * 60 + t.minute,
{
    t.hour as u32 * 60 + t.minute as u32
}

/// A single open session `{start = S, end = None}` aggregated at `now = N`
/// contributes exactly `N - S` seconds, for `N >= S`.
pub proof fn lemma_aggregate_single_open(s: WorktimeSession, now: Timestamp)
    requires
        s.end is None,
        spec_total_seconds(now) >= spec_total_seconds(s.start),
    ensures
        spec_aggregate(seq![s], now) == spec_total_seconds(now) - spec_total_seconds(s.start),
{
    let one: Seq<WorktimeSession> = seq![s];
    assert(one.len() == 1);
    assert(one.last() == s);
    assert(one.drop_last() =~= Seq::<WorktimeSession>::empty());
    assert(spec_aggregate(one.drop_last(), now) == 0);
}

} // verus!
