//! Calendar timestamps at microsecond resolution.
//!
//! A `Timestamp` holds wall-clock fields (year through microsecond).  The
//! normalizer reads them as UTC fields; the schedule engine reads them as
//! wall-clock fields of the configured timezone.  The module also provides
//! the minute-successor function and the lexicographic ordering that the
//! schedule engine's search is proved against.

use vstd::prelude::*;

verus! {

/// A calendar instant: wall-clock fields with microsecond precision.
#[derive(Clone, Copy, PartialEq, Eq, Structural, Debug)]
pub struct Timestamp {
    pub year: u16,
    pub month: u8,
    pub day: u8,
    pub hour: u8,
    pub minute: u8,
    pub second: u8,
    pub micro: u32,
}

pub open spec fn is_leap_year(y: int) -> bool {
    y % 4 == 0 && (y % 100 != 0 || y % 400 == 0)
}

pub open spec fn days_in_month(y: int, m: int) -> int {
    if m == 2 {
        if is_leap_year(y) {
            29
        } else {
            28
        }
    } else if m == 4 || m == 6 || m == 9 || m == 11 {
        30
    } else {
        31
    }
}

pub fn leap_year(y: u16) -> (r: bool)
    ensures
        r == is_leap_year(y as int),
{
    y % 4 == 0 && (y % 100 != 0 || y % 400 == 0)
}

pub fn month_days(y: u16, m: u8) -> (r: u8)
    ensures
        r as int == days_in_month(y as int, m as int),
{
    if m == 2 {
        if leap_year(y) {
            29
        } else {
            28
        }
    } else if m == 4 || m == 6 || m == 9 || m == 11 {
        30
    } else {
        31
    }
}

/// Day of week, 0 = Sunday .. 6 = Saturday, by Zeller's congruence
/// (with the year shifted by one 400-year Gregorian cycle so that all
/// intermediate quantities stay non-negative).
pub open spec fn day_of_week_spec(y: int, m: int, d: int) -> int {
    let zm = if m <= 2 {
        m + 12
    } else {
        m
    };
    let zy = if m <= 2 {
        y + 399
    } else {
        y + 400
    };
    let k = zy % 100;
    let j = zy / 100;
    (d + (13 * (zm + 1)) / 5 + k + k / 4 + j / 4 + 5 * j + 6) % 7
}

pub fn day_of_week(y: u16, m: u8, d: u8) -> (r: u8)
    ensures
        r as int == day_of_week_spec(y as int, m as int, d as int),
        r <= 6,
{
    let yy: u32 = y as u32;
    let mm: u32 = m as u32;
    let dd: u32 = d as u32;
    let zm: u32 = if mm <= 2 {
        mm + 12
    } else {
        mm
    };
    let zy: u32 = if mm <= 2 {
        yy + 399
    } else {
        yy + 400
    };
    let k: u32 = zy % 100;
    let j: u32 = zy / 100;
    ((dd + (13 * (zm + 1)) / 5 + k + k / 4 + j / 4 + 5 * j + 6) % 7) as u8
}

impl Timestamp {
    /// The fields form a real calendar instant.  The microsecond bound
    /// admits leap-second encodings (up to 1_999_999), as the source of
    /// wall-clock readings does.
    pub open spec fn wf(self) -> bool {
        1 <= self.month <= 12 && 1 <= self.day
            && self.day as int <= days_in_month(self.year as int, self.month as int)
            && self.hour <= 23 && self.minute <= 59 && self.second <= 59 && self.micro
            <= 1_999_999
    }

    /// Seconds and microseconds are zero: the resolution at which the
    /// schedule engine enumerates candidate fire times.
    pub open spec fn minute_aligned(self) -> bool {
        self.second == 0 && self.micro == 0
    }

    pub fn check_wf(&self) -> (r: bool)
        ensures
            r == self.wf(),
    {
        let dim = month_days(self.year, self.month);
        1 <= self.month && self.month <= 12 && 1 <= self.day && self.day <= dim && self.hour <= 23
            && self.minute <= 59 && self.second <= 59 && self.micro <= 1_999_999
    }
}

/// Strict lexicographic order on the calendar fields: `a` is earlier than `b`.
pub open spec fn ts_lt(a: Timestamp, b: Timestamp) -> bool {
    if a.year != b.year {
        a.year < b.year
    } else if a.month != b.month {
        a.month < b.month
    } else if a.day != b.day {
        a.day < b.day
    } else if a.hour != b.hour {
        a.hour < b.hour
    } else if a.minute != b.minute {
        a.minute < b.minute
    } else if a.second != b.second {
        a.second < b.second
    } else {
        a.micro < b.micro
    }
}

pub open spec fn ts_le(a: Timestamp, b: Timestamp) -> bool {
    ts_lt(a, b) || a == b
}

pub proof fn lemma_ts_lt_trans(a: Timestamp, b: Timestamp, c: Timestamp)
    requires
        ts_lt(a, b),
        ts_lt(b, c),
    ensures
        ts_lt(a, c),
{
}

/// The same instant with seconds and microseconds dropped.
pub open spec fn trunc_minute_spec(t: Timestamp) -> Timestamp {
    Timestamp { second: 0, micro: 0, ..t }
}

pub fn trunc_minute(t: &Timestamp) -> (r: Timestamp)
    ensures
        r == trunc_minute_spec(*t),
{
    Timestamp { second: 0, micro: 0, ..*t }
}

/// The next minute boundary after `t`, rolling fields over as the calendar
/// requires.  Seconds and microseconds are preserved (callers apply it to
/// minute-aligned values only).
pub open spec fn succ_minute_spec(t: Timestamp) -> Timestamp {
    if t.minute < 59 {
        Timestamp { minute: (t.minute + 1) as u8, ..t }
    } else if t.hour < 23 {
        Timestamp { minute: 0, hour: (t.hour + 1) as u8, ..t }
    } else if (t.day as int) < days_in_month(t.year as int, t.month as int) {
        Timestamp { minute: 0, hour: 0, day: (t.day + 1) as u8, ..t }
    } else if t.month < 12 {
        Timestamp { minute: 0, hour: 0, day: 1, month: (t.month + 1) as u8, ..t }
    } else {
        Timestamp { minute: 0, hour: 0, day: 1, month: 1, year: (t.year + 1) as u16, ..t }
    }
}

pub fn succ_minute(t: &Timestamp) -> (r: Timestamp)
    requires
        t.year < 65535,
    ensures
        r == succ_minute_spec(*t),
{
    if t.minute < 59 {
        Timestamp { minute: t.minute + 1, ..*t }
    } else if t.hour < 23 {
        Timestamp { minute: 0, hour: t.hour + 1, ..*t }
    } else if t.day < month_days(t.year, t.month) {
        Timestamp { minute: 0, hour: 0, day: t.day + 1, ..*t }
    } else if t.month < 12 {
        Timestamp { minute: 0, hour: 0, day: 1, month: t.month + 1, ..*t }
    } else {
        Timestamp { minute: 0, hour: 0, day: 1, month: 1, year: t.year + 1, ..*t }
    }
}

/// `n` applications of the minute successor.
pub open spec fn succ_n(t: Timestamp, n: nat) -> Timestamp
    decreases n,
{
    if n == 0 {
        t
    } else {
        succ_minute_spec(succ_n(t, (n - 1) as nat))
    }
}

pub proof fn lemma_succ_gt(t: Timestamp)
    requires
        t.year < 65535,
    ensures
        ts_lt(t, succ_minute_spec(t)),
{
}

pub proof fn lemma_succ_wf(t: Timestamp)
    requires
        t.wf(),
        t.minute_aligned(),
        t.year < 65535,
    ensures
        succ_minute_spec(t).wf(),
        succ_minute_spec(t).minute_aligned(),
{
}

/// Any instant within a minute is earlier than the next minute boundary.
pub proof fn lemma_lt_succ_of_trunc(t: Timestamp)
    requires
        t.year < 65535,
    ensures
        ts_lt(t, succ_minute_spec(trunc_minute_spec(t))),
{
}

/// Days in all years before year `y` (year 0 is day 0).
pub open spec fn days_before_year(y: int) -> int
    decreases y,
{
    if y <= 0 {
        0
    } else {
        days_before_year(y - 1) + if is_leap_year(y - 1) {
            366int
        } else {
            365int
        }
    }
}

/// Days in the months of year `y` before month `m`.
pub open spec fn days_before_month(y: int, m: int) -> int
    decreases m,
{
    if m <= 1 {
        0
    } else {
        days_before_month(y, m - 1) + days_in_month(y, m - 1)
    }
}

/// Absolute day number of the instant's date.
pub open spec fn day_index(t: Timestamp) -> int {
    days_before_year(t.year as int) + days_before_month(t.year as int, t.month as int) + t.day - 1
}

/// Absolute minute number of the instant: the position of its minute
/// boundary in the calendar.
pub open spec fn minute_index(t: Timestamp) -> int {
    day_index(t) * 1440 + t.hour * 60 + t.minute
}

pub proof fn lemma_year_days(y: int)
    ensures
        days_before_month(y, 13) == if is_leap_year(y) {
            366int
        } else {
            365int
        },
{
    reveal_with_fuel(days_before_month, 14);
}

pub proof fn lemma_dbm_monotone(y: int, m1: int, m2: int)
    requires
        m1 <= m2,
    ensures
        days_before_month(y, m1) <= days_before_month(y, m2),
    decreases m2 - m1,
{
    if m1 < m2 {
        lemma_dbm_monotone(y, m1, m2 - 1);
    }
}

pub proof fn lemma_dby_monotone(y1: int, y2: int)
    requires
        0 <= y1 <= y2,
    ensures
        days_before_year(y1) <= days_before_year(y2),
    decreases y2 - y1,
{
    if y1 < y2 {
        lemma_dby_monotone(y1, y2 - 1);
    }
}

pub proof fn lemma_trunc_le(t: Timestamp)
    ensures
        ts_le(trunc_minute_spec(t), t),
{
}

/// The minute successor advances the absolute minute number by exactly one.
pub proof fn lemma_minute_index_succ(t: Timestamp)
    requires
        t.wf(),
        t.minute_aligned(),
        t.year < 65535,
    ensures
        minute_index(succ_minute_spec(t)) == minute_index(t) + 1,
{
    let s = succ_minute_spec(t);
    if t.minute < 59 {
    } else if t.hour < 23 {
    } else if (t.day as int) < days_in_month(t.year as int, t.month as int) {
    } else if t.month < 12 {
        assert(days_before_month(t.year as int, t.month as int + 1) == days_before_month(
            t.year as int,
            t.month as int,
        ) + days_in_month(t.year as int, t.month as int));
    } else {
        lemma_year_days(t.year as int);
        assert(days_before_year(t.year as int + 1) == days_before_year(t.year as int)
            + if is_leap_year(t.year as int) {
            366int
        } else {
            365int
        });
    }
}

/// The absolute minute number orders minute-aligned instants exactly as the
/// lexicographic field order does.
pub proof fn lemma_minute_index_lt(a: Timestamp, b: Timestamp)
    requires
        a.wf(),
        b.wf(),
        a.minute_aligned(),
        b.minute_aligned(),
        ts_lt(a, b),
    ensures
        minute_index(a) < minute_index(b),
{
    if a.year != b.year {
        // `a` lies before the end of its year, which is at or before the
        // start of `b`'s year.
        lemma_year_days(a.year as int);
        lemma_dbm_monotone(a.year as int, a.month as int + 1, 13);
        assert(days_before_month(a.year as int, a.month as int + 1) == days_before_month(
            a.year as int,
            a.month as int,
        ) + days_in_month(a.year as int, a.month as int));
        assert(day_index(a) < days_before_year(a.year as int + 1));
        lemma_dby_monotone(a.year as int + 1, b.year as int);
        assert(days_before_year(b.year as int) <= day_index(b)) by {
            lemma_dbm_monotone(b.year as int, 1, b.month as int);
        }
    } else if a.month != b.month {
        assert(days_before_month(a.year as int, a.month as int + 1) == days_before_month(
            a.year as int,
            a.month as int,
        ) + days_in_month(a.year as int, a.month as int));
        lemma_dbm_monotone(a.year as int, a.month as int + 1, b.month as int);
        assert(day_index(a) < day_index(b));
    } else if a.day != b.day {
        assert(day_index(a) < day_index(b));
    }
}

/// Two minute-aligned instants with the same absolute minute number are the
/// same instant.
pub proof fn lemma_minute_index_injective(a: Timestamp, b: Timestamp)
    requires
        a.wf(),
        b.wf(),
        a.minute_aligned(),
        b.minute_aligned(),
        minute_index(a) == minute_index(b),
    ensures
        a == b,
{
    if a != b {
        if ts_lt(a, b) {
            lemma_minute_index_lt(a, b);
        } else {
            assert(ts_lt(b, a));
            lemma_minute_index_lt(b, a);
        }
    }
}

pub proof fn lemma_succ_n_shift(t: Timestamp, n: nat)
    requires
        n >= 1,
    ensures
        succ_n(t, n) == succ_n(succ_minute_spec(t), (n - 1) as nat),
    decreases n,
{
    let v = succ_minute_spec(t);
    if n == 1 {
        assert(succ_n(t, 1) == succ_minute_spec(succ_n(t, 0)));
        assert(succ_n(v, 0) == v);
    } else {
        lemma_succ_n_shift(t, (n - 1) as nat);
        assert(succ_n(t, n) == succ_minute_spec(succ_n(t, (n - 1) as nat)));
        assert(succ_n(v, (n - 1) as nat) == succ_minute_spec(succ_n(v, (n - 2) as nat)));
    }
}

/// Every minute-aligned instant after `t0` is reached from `t0` by
/// applying the minute successor exactly as often as the two absolute
/// minute numbers differ.
pub proof fn lemma_succ_reaches(t0: Timestamp, u: Timestamp)
    requires
        t0.wf(),
        t0.minute_aligned(),
        u.wf(),
        u.minute_aligned(),
        u.year < 65535,
        ts_lt(t0, u),
    ensures
        minute_index(u) - minute_index(t0) >= 1,
        u == succ_n(t0, (minute_index(u) - minute_index(t0)) as nat),
    decreases minute_index(u) - minute_index(t0),
{
    lemma_minute_index_lt(t0, u);
    let d = minute_index(u) - minute_index(t0);
    assert(t0.year <= u.year);
    lemma_succ_wf(t0);
    lemma_minute_index_succ(t0);
    let v = succ_minute_spec(t0);
    if d == 1 {
        lemma_minute_index_injective(v, u);
        assert(succ_n(t0, 1) == succ_minute_spec(succ_n(t0, 0)));
    } else {
        assert(ts_lt(v, u)) by {
            if v != u && !ts_lt(v, u) {
                assert(ts_lt(u, v));
                lemma_minute_index_lt(u, v);
            }
            if v == u {
                assert(minute_index(v) == minute_index(u));
            }
        }
        lemma_succ_reaches(v, u);
        assert(u == succ_n(v, (d - 1) as nat));
        lemma_succ_n_shift(t0, d as nat);
    }
}

} // verus!
