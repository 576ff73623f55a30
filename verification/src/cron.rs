//! The schedule engine: a five-field cron grammar and fire-time search.
//!
//! An expression has five space-separated fields — minute, hour, day of
//! month, month, day of week — each a comma-separated list of terms, where a
//! term is `*`, a value, a range `a-b`, or either of the last two with a step
//! `/s`.  Parsing is total and exact: it succeeds precisely on well-formed
//! expressions and yields the allowed-value set of every field.
//! `next_fire_time` walks minute boundaries strictly after the reference
//! instant and returns the first one whose fields all match.

use vstd::prelude::*;
use vstd::string::StringSliceAdditionalSpecFns;
use crate::calendar::Timestamp;
use crate::calendar::day_of_week;
use crate::calendar::day_of_week_spec;
use crate::calendar::lemma_lt_succ_of_trunc;
use crate::calendar::lemma_minute_index_lt;
use crate::calendar::lemma_minute_index_succ;
use crate::calendar::lemma_succ_gt;
use crate::calendar::lemma_succ_reaches;
use crate::calendar::lemma_succ_wf;
use crate::calendar::lemma_trunc_le;
use crate::calendar::lemma_ts_lt_trans;
use crate::calendar::minute_index;
use crate::calendar::succ_minute;
use crate::calendar::succ_minute_spec;
use crate::calendar::succ_n;
use crate::calendar::trunc_minute;
use crate::calendar::trunc_minute_spec;
use crate::calendar::ts_lt;
use crate::errors::ConfigError;
use crate::errors::RunError;

verus! {

/// How many minute boundaries the fire-time search will examine before
/// giving up (a little under ten years).
pub const MAX_SCAN: u32 = 5000000;

/// Fire-time computation is only attempted for reference years up to this
/// bound, so the search horizon stays within the calendar model.
pub const MAX_REFERENCE_YEAR: u16 = 60000;

/// Index of the first occurrence of `b`, or the length if absent.
pub open spec fn find_byte_spec(s: Seq<u8>, b: u8) -> nat
    decreases s.len(),
{
    if s.len() == 0 {
        0
    } else if s[0] == b {
        0
    } else {
        1 + find_byte_spec(s.drop_first(), b)
    }
}

pub proof fn lemma_find_byte(s: Seq<u8>, b: u8)
    ensures
        find_byte_spec(s, b) <= s.len(),
        find_byte_spec(s, b) < s.len() ==> s[find_byte_spec(s, b) as int] == b,
        forall|j: int| 0 <= j < find_byte_spec(s, b) ==> s[j] != b,
    decreases s.len(),
{
    if s.len() > 0 && s[0] != b {
        lemma_find_byte(s.drop_first(), b);
        assert(forall|j: int| 1 <= j < s.len() ==> s[j] == s.drop_first()[j - 1]);
    }
}

fn find_byte(s: &[u8], b: u8) -> (r: usize)
    ensures
        r as nat == find_byte_spec(s@, b),
{
    proof {
        lemma_find_byte(s@, b);
    }
    let mut i: usize = 0;
    while i < s.len()
        invariant
            i <= s@.len(),
            forall|j: int| 0 <= j < i ==> s@[j] != b,
            find_byte_spec(s@, b) <= s@.len(),
            find_byte_spec(s@, b) < s@.len() ==> s@[find_byte_spec(s@, b) as int] == b,
            forall|j: int| 0 <= j < find_byte_spec(s@, b) ==> s@[j] != b,
        decreases s@.len() - i,
    {
        if s[i] == b {
            return i;
        }
        i = i + 1;
    }
    i
}

pub open spec fn is_digit(b: u8) -> bool {
    48 <= b <= 57
}

/// One- or two-digit decimal number.
pub open spec fn num_wf(s: Seq<u8>) -> bool {
    (s.len() == 1 && is_digit(s[0])) || (s.len() == 2 && is_digit(s[0]) && is_digit(s[1]))
}

pub open spec fn num_val(s: Seq<u8>) -> int {
    if s.len() == 1 {
        s[0] - 48
    } else {
        (s[0] - 48) * 10 + (s[1] - 48)
    }
}

fn parse_num(s: &[u8]) -> (r: Option<u8>)
    ensures
        r is Some <==> num_wf(s@),
        r matches Some(v) ==> v as int == num_val(s@) && v <= 99,
{
    if s.len() == 1 && 48 <= s[0] && s[0] <= 57 {
        Some(s[0] - 48)
    } else if s.len() == 2 && 48 <= s[0] && s[0] <= 57 && 48 <= s[1] && s[1] <= 57 {
        Some((s[0] - 48) * 10 + (s[1] - 48))
    } else {
        None
    }
}

/// Bounds of a `a` or `a-b` term part (45 is `-`).
pub open spec fn range_bounds(s: Seq<u8>) -> (int, int) {
    let d = find_byte_spec(s, 45);
    if d >= s.len() {
        (num_val(s), num_val(s))
    } else {
        (num_val(s.subrange(0, d as int)), num_val(s.subrange(d as int + 1, s.len() as int)))
    }
}

pub open spec fn range_wf(s: Seq<u8>, lo: int, hi: int) -> bool {
    let d = find_byte_spec(s, 45);
    if d >= s.len() {
        num_wf(s) && lo <= num_val(s) <= hi
    } else {
        num_wf(s.subrange(0, d as int)) && num_wf(s.subrange(d as int + 1, s.len() as int)) && lo
            <= range_bounds(s).0 && range_bounds(s).0 <= range_bounds(s).1 && range_bounds(s).1
            <= hi
    }
}

fn parse_range(s: &[u8], lo: u8, hi: u8) -> (r: Option<(u8, u8)>)
    ensures
        r is Some <==> range_wf(s@, lo as int, hi as int),
        r matches Some(p) ==> (p.0 as int, p.1 as int) == range_bounds(s@),
{
    let d = find_byte(s, 45);
    proof {
        lemma_find_byte(s@, 45);
    }
    if d == s.len() {
        match parse_num(s) {
            Some(v) => {
                if lo <= v && v <= hi {
                    Some((v, v))
                } else {
                    None
                }
            },
            None => None,
        }
    } else {
        let a = parse_num(&s[0..d]);
        let b = parse_num(&s[d + 1..s.len()]);
        match (a, b) {
            (Some(av), Some(bv)) => {
                if lo <= av && av <= bv && bv <= hi {
                    Some((av, bv))
                } else {
                    None
                }
            },
            _ => None,
        }
    }
}

/// The one-byte term `*` (42 is `*`).
pub open spec fn is_star(s: Seq<u8>) -> bool {
    s.len() == 1 && s[0] == 42
}

/// One term of a field list: `*`, `a`, `a-b`, `*/s` or `a-b/s` (47 is `/`).
pub open spec fn term_wf(s: Seq<u8>, lo: int, hi: int) -> bool {
    let sl = find_byte_spec(s, 47);
    if sl >= s.len() {
        is_star(s) || range_wf(s, lo, hi)
    } else {
        let base = s.subrange(0, sl as int);
        let st = s.subrange(sl as int + 1, s.len() as int);
        num_wf(st) && num_val(st) >= 1 && (is_star(base) || range_wf(base, lo, hi))
    }
}

/// A term denotes the arithmetic progression (start, end, step).
pub open spec fn term_triple(s: Seq<u8>, lo: int, hi: int) -> (int, int, int) {
    let sl = find_byte_spec(s, 47);
    if sl >= s.len() {
        if is_star(s) {
            (lo, hi, 1)
        } else {
            (range_bounds(s).0, range_bounds(s).1, 1)
        }
    } else {
        let base = s.subrange(0, sl as int);
        let st = s.subrange(sl as int + 1, s.len() as int);
        if is_star(base) {
            (lo, hi, num_val(st))
        } else {
            (range_bounds(base).0, range_bounds(base).1, num_val(st))
        }
    }
}

/// Value `j` is admitted by the term.
pub open spec fn term_allows(s: Seq<u8>, lo: int, hi: int, j: int) -> bool {
    let t = term_triple(s, lo, hi);
    t.0 <= j <= t.1 && (j - t.0) % t.2 == 0
}

fn parse_term(s: &[u8], lo: u8, hi: u8) -> (r: Option<(u8, u8, u8)>)
    requires
        lo <= hi,
    ensures
        r is Some <==> term_wf(s@, lo as int, hi as int),
        r matches Some(t) ==> (t.0 as int, t.1 as int, t.2 as int) == term_triple(
            s@,
            lo as int,
            hi as int,
        ) && t.2 >= 1,
{
    let sl = find_byte(s, 47);
    proof {
        lemma_find_byte(s@, 47);
    }
    if sl == s.len() {
        if s.len() == 1 && s[0] == 42 {
            Some((lo, hi, 1))
        } else {
            match parse_range(s, lo, hi) {
                Some((a, b)) => Some((a, b, 1)),
                None => None,
            }
        }
    } else {
        let base = &s[0..sl];
        let step = &s[sl + 1..s.len()];
        let stv = match parse_num(step) {
            Some(v) => v,
            None => {
                return None;
            },
        };
        if stv < 1 {
            return None;
        }
        if base.len() == 1 && base[0] == 42 {
            Some((lo, hi, stv))
        } else {
            match parse_range(base, lo, hi) {
                Some((a, b)) => Some((a, b, stv)),
                None => None,
            }
        }
    }
}

/// A whole field: one or more comma-separated terms (44 is `,`).
pub open spec fn field_wf(s: Seq<u8>, lo: int, hi: int) -> bool
    decreases s.len(),
{
    let c = find_byte_spec(s, 44);
    if c >= s.len() {
        term_wf(s, lo, hi)
    } else {
        term_wf(s.subrange(0, c as int), lo, hi) && field_wf(
            s.subrange(c as int + 1, s.len() as int),
            lo,
            hi,
        )
    }
}

/// Value `j` is admitted by some term of the field.
pub open spec fn field_allows(s: Seq<u8>, lo: int, hi: int, j: int) -> bool
    decreases s.len(),
{
    let c = find_byte_spec(s, 44);
    if c >= s.len() {
        term_allows(s, lo, hi, j)
    } else {
        term_allows(s.subrange(0, c as int), lo, hi, j) || field_allows(
            s.subrange(c as int + 1, s.len() as int),
            lo,
            hi,
            j,
        )
    }
}

fn term_allow_at(a: u8, b: u8, st: u8, j: usize) -> (r: bool)
    requires
        st >= 1,
    ensures
        r == (a as int <= j as int <= b as int && (j as int - a as int) % (st as int) == 0),
{
    j >= a as usize && j <= b as usize && (j - a as usize) % (st as usize) == 0
}

/// Parse one field into its allowed-value table of length `n`.
fn parse_field(s: &[u8], lo: u8, hi: u8, n: usize) -> (r: Option<Vec<bool>>)
    requires
        lo <= hi,
        (hi as usize) < n,
        n <= 64,
    ensures
        r is Some <==> field_wf(s@, lo as int, hi as int),
        r matches Some(v) ==> v@.len() == n && forall|j: int|
            0 <= j < n ==> v@[j] == field_allows(s@, lo as int, hi as int, j),
    decreases s@.len(),
{
    let c = find_byte(s, 44);
    proof {
        lemma_find_byte(s@, 44);
    }
    if c == s.len() {
        match parse_term(s, lo, hi) {
            Some((a, b, st)) => {
                let mut v: Vec<bool> = Vec::new();
                let mut j: usize = 0;
                while j < n
                    invariant
                        j <= n,
                        n <= 64,
                        st >= 1,
                        v@.len() == j,
                        (a as int, b as int, st as int) == term_triple(s@, lo as int, hi as int),
                        find_byte_spec(s@, 44) >= s@.len(),
                        forall|q: int| 0 <= q < j ==> v@[q] == field_allows(
                            s@,
                            lo as int,
                            hi as int,
                            q,
                        ),
                    decreases n - j,
                {
                    v.push(term_allow_at(a, b, st, j));
                    j = j + 1;
                }
                Some(v)
            },
            None => None,
        }
    } else {
        let head = &s[0..c];
        let rest = &s[c + 1..s.len()];
        let ht = parse_term(head, lo, hi);
        let tail = parse_field(rest, lo, hi, n);
        match (ht, tail) {
            (Some((a, b, st)), Some(tv)) => {
                let mut v: Vec<bool> = Vec::new();
                let mut j: usize = 0;
                while j < n
                    invariant
                        j <= n,
                        n <= 64,
                        st >= 1,
                        head@ == s@.subrange(0, find_byte_spec(s@, 44) as int),
                        rest@ == s@.subrange(find_byte_spec(s@, 44) as int + 1, s@.len() as int),
                        find_byte_spec(s@, 44) < s@.len(),
                        (a as int, b as int, st as int) == term_triple(
                            head@,
                            lo as int,
                            hi as int,
                        ),
                        tv@.len() == n,
                        forall|q: int| 0 <= q < n ==> tv@[q] == field_allows(
                            rest@,
                            lo as int,
                            hi as int,
                            q,
                        ),
                        v@.len() == j,
                        forall|q: int| 0 <= q < j ==> v@[q] == field_allows(
                            s@,
                            lo as int,
                            hi as int,
                            q,
                        ),
                    decreases n - j,
                {
                    let here = term_allow_at(a, b, st, j);
                    let there = tv[j];
                    v.push(here || there);
                    j = j + 1;
                }
                Some(v)
            },
            _ => None,
        }
    }
}

/// The space-separated fields of the expression (32 is the space).
pub open spec fn fields_of(s: Seq<u8>) -> Seq<Seq<u8>>
    decreases s.len(),
{
    let c = find_byte_spec(s, 32);
    if c >= s.len() {
        seq![s]
    } else {
        seq![s.subrange(0, c as int)] + fields_of(s.subrange(c as int + 1, s.len() as int))
    }
}

fn split_spaces<'a>(s: &'a [u8]) -> (r: Vec<&'a [u8]>)
    ensures
        r@.len() == fields_of(s@).len(),
        forall|i: int| 0 <= i < r@.len() ==> r@[i]@ == fields_of(s@)[i],
    decreases s@.len(),
{
    let c = find_byte(s, 32);
    proof {
        lemma_find_byte(s@, 32);
    }
    if c == s.len() {
        let mut v: Vec<&[u8]> = Vec::new();
        v.push(s);
        v
    } else {
        let head = &s[0..c];
        let rest = &s[c + 1..s.len()];
        let mut v = split_spaces(rest);
        v.insert(0, head);
        proof {
            let fs = fields_of(s@);
            assert(fs == seq![head@] + fields_of(rest@));
            assert(fs[0] == head@);
            assert(forall|i: int| 1 <= i < fs.len() ==> fs[i] == fields_of(rest@)[i - 1]);
        }
        v
    }
}

/// A parsed schedule: the allowed-value table of each of the five fields.
pub struct CronSchedule {
    pub minute: Vec<bool>,
    pub hour: Vec<bool>,
    pub dom: Vec<bool>,
    pub month: Vec<bool>,
    pub dow: Vec<bool>,
}

/// A fire time the engine may return for reference instant `now`: strictly
/// after `now`, on a minute boundary, a real calendar instant, matching all
/// five fields of the schedule, and the earliest such instant — no matching
/// minute boundary lies strictly between `now` and `t`.
pub open spec fn is_fire_outcome(s: CronSchedule, now: Timestamp, t: Timestamp) -> bool {
    ts_lt(now, t) && s.matches_at(t) && t.wf() && t.minute_aligned() && (forall|u: Timestamp|
        u.wf() && u.minute_aligned() && ts_lt(now, u) && ts_lt(u, t) ==> !(#[trigger] s.matches_at(
            u,
        )))
}

/// None of the first `n` minute boundaries after `now` matches `s`.
pub open spec fn no_match_through(s: CronSchedule, now: Timestamp, n: nat) -> bool {
    forall|j: nat| 1 <= j <= n ==> !s.matches_at(succ_n(trunc_minute_spec(now), j))
}

/// The bounded fire-time search finds nothing: every minute boundary in
/// some scanned prefix fails to match, and the prefix ends only at the
/// scan bound or at the eleven-year horizon.
pub open spec fn search_exhausted(s: CronSchedule, now: Timestamp) -> bool {
    exists|n: nat|
        #[trigger] no_match_through(s, now, n) && n <= MAX_SCAN && (n == MAX_SCAN || succ_n(
            trunc_minute_spec(now),
            (n + 1) as nat,
        ).year > now.year + 11)
}

impl CronSchedule {
    pub open spec fn wf(self) -> bool {
        self.minute@.len() == 60 && self.hour@.len() == 24 && self.dom@.len() == 32
            && self.month@.len() == 13 && self.dow@.len() == 7
    }

    /// The tables agree with the textual expression `s`.
    pub open spec fn sem_ok(self, s: Seq<u8>) -> bool {
        let fs = fields_of(s);
        fs.len() == 5 && (forall|j: int| 0 <= j < 60 ==> self.minute@[j] == field_allows(
            fs[0],
            0,
            59,
            j,
        )) && (forall|j: int| 0 <= j < 24 ==> self.hour@[j] == field_allows(fs[1], 0, 23, j)) && (
        forall|j: int| 0 <= j < 32 ==> self.dom@[j] == field_allows(fs[2], 1, 31, j)) && (forall|
            j: int,
        | 0 <= j < 13 ==> self.month@[j] == field_allows(fs[3], 1, 12, j)) && (forall|j: int|
            0 <= j < 7 ==> self.dow@[j] == field_allows(fs[4], 0, 6, j))
    }

    /// All five fields admit the instant: its minute, hour, day of month,
    /// month, and day of week.
    pub open spec fn matches_at(self, t: Timestamp) -> bool {
        self.minute@[t.minute as int] && self.hour@[t.hour as int] && self.dom@[t.day as int]
            && self.month@[t.month as int] && self.dow@[day_of_week_spec(
            t.year as int,
            t.month as int,
            t.day as int,
        )]
    }

    /// The whole expression is well-formed: exactly five fields, each
    /// within its value range.
    pub open spec fn expr_wf(s: Seq<u8>) -> bool {
        let fs = fields_of(s);
        fs.len() == 5 && field_wf(fs[0], 0, 59) && field_wf(fs[1], 0, 23) && field_wf(fs[2], 1, 31)
            && field_wf(fs[3], 1, 12) && field_wf(fs[4], 0, 6)
    }

    /// Parse a five-field cron expression.  Succeeds exactly on well-formed
    /// expressions; a malformed one is a fatal configuration error.
    pub fn parse(expr: &str) -> (r: Result<CronSchedule, ConfigError>)
        ensures
            r is Ok <==> Self::expr_wf(expr.spec_bytes()),
            r matches Ok(s) ==> s.wf() && s.sem_ok(expr.spec_bytes()),
            r matches Err(e) ==> e == ConfigError::MalformedSchedule,
    {
        let bytes: &[u8] = expr.as_bytes();
        let parts = split_spaces(bytes);
        if parts.len() != 5 {
            return Err(ConfigError::MalformedSchedule);
        }
        let minute = parse_field(parts[0], 0, 59, 60);
        let hour = parse_field(parts[1], 0, 23, 24);
        let dom = parse_field(parts[2], 1, 31, 32);
        let month = parse_field(parts[3], 1, 12, 13);
        let dow = parse_field(parts[4], 0, 6, 7);
        match (minute, hour, dom, month, dow) {
            (Some(mi), Some(h), Some(d), Some(mo), Some(w)) => Ok(
                CronSchedule { minute: mi, hour: h, dom: d, month: mo, dow: w },
            ),
            _ => Err(ConfigError::MalformedSchedule),
        }
    }

    pub fn matches(&self, t: &Timestamp) -> (r: bool)
        requires
            self.wf(),
            t.wf(),
        ensures
            r == self.matches_at(*t),
    {
        let w = day_of_week(t.year, t.month, t.day);
        self.minute[t.minute as usize] && self.hour[t.hour as usize] && self.dom[t.day as usize]
            && self.month[t.month as usize] && self.dow[w as usize]
    }

    /// The earliest minute boundary strictly after `now` that matches all
    /// five fields, searching up to `MAX_SCAN` minutes ahead and never past
    /// an eleven-year horizon.  An exhausted search is a fatal schedule
    /// computation error.
    pub fn next_fire_time(&self, now: &Timestamp) -> (r: Result<Timestamp, RunError>)
        requires
            self.wf(),
            now.wf(),
            now.year <= MAX_REFERENCE_YEAR,
        ensures
            r matches Ok(t) ==> is_fire_outcome(*self, *now, t),
            r matches Ok(t) ==> exists|k: nat|
                1 <= k <= MAX_SCAN && t == succ_n(trunc_minute_spec(*now), k) && (forall|j: nat|
                    1 <= j < k ==> !self.matches_at(succ_n(trunc_minute_spec(*now), j))),
            r matches Err(e) ==> e == RunError::Schedule && search_exhausted(*self, *now),
    {
        let t0 = trunc_minute(now);
        let ghost g0 = trunc_minute_spec(*now);
        let mut t = t0;
        let mut k: u32 = 0;
        while k < MAX_SCAN
            invariant
                self.wf(),
                now.wf(),
                now.year <= MAX_REFERENCE_YEAR,
                g0 == trunc_minute_spec(*now),
                k <= MAX_SCAN,
                t == succ_n(g0, k as nat),
                t.wf(),
                t.minute_aligned(),
                t.year <= now.year + 11,
                minute_index(t) == minute_index(g0) + k,
                k >= 1 ==> ts_lt(*now, t),
                forall|j: nat| 1 <= j <= k ==> !self.matches_at(succ_n(g0, j)),
            decreases MAX_SCAN - k,
        {
            proof {
                lemma_succ_wf(t);
                lemma_minute_index_succ(t);
                if k == 0 {
                    lemma_lt_succ_of_trunc(*now);
                } else {
                    lemma_succ_gt(t);
                    lemma_ts_lt_trans(*now, t, succ_minute_spec(t));
                }
            }
            let nt = succ_minute(&t);
            k = k + 1;
            proof {
                assert(nt == succ_n(g0, k as nat));
            }
            if nt.year > now.year + 11 {
                proof {
                    let n = (k - 1) as nat;
                    assert(no_match_through(*self, *now, n));
                    assert(succ_n(g0, (n + 1) as nat) == nt);
                }
                return Err(RunError::Schedule);
            }
            if self.matches(&nt) {
                proof {
                    lemma_trunc_le(*now);
                    assert forall|u: Timestamp|
                        u.wf() && u.minute_aligned() && ts_lt(*now, u) && ts_lt(
                            u,
                            nt,
                        ) implies !(#[trigger] self.matches_at(u)) by {
                        // `u` is a minute boundary strictly after the search
                        // origin, so the scan visited it before `nt`.
                        if ts_lt(u, g0) {
                            lemma_ts_lt_trans(*now, u, g0);
                        }
                        if ts_lt(*now, g0) && ts_lt(g0, *now) {
                            lemma_ts_lt_trans(*now, g0, *now);
                        }
                        assert(ts_lt(g0, u));
                        lemma_succ_reaches(g0, u);
                        lemma_minute_index_lt(u, nt);
                        let ku = minute_index(u) - minute_index(g0);
                        assert(u == succ_n(g0, ku as nat));
                        assert(1 <= ku < k);
                    }
                }
                return Ok(nt);
            }
            t = nt;
        }
        proof {
            assert(no_match_through(*self, *now, MAX_SCAN as nat));
        }
        Err(RunError::Schedule)
    }
}

/// Law (monotonic progression): a fire time is strictly after its reference,
/// so feeding a returned fire time back as the new reference always yields a
/// strictly later, never the same, instant.
pub proof fn lemma_fire_times_progress(
    s: CronSchedule,
    now: Timestamp,
    t1: Timestamp,
    t2: Timestamp,
)
    requires
        is_fire_outcome(s, now, t1),
        is_fire_outcome(s, t1, t2),
    ensures
        ts_lt(now, t1),
        ts_lt(t1, t2),
        t1 != t2,
{
}

} // verus!
