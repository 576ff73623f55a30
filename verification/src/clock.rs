//! The two points where the library reads the outside world: the wall
//! clock and the timezone database.  Each sits behind one trusted wrapper;
//! everything computed from their results is verified.

use std::str::FromStr;
use chrono::Datelike;
use chrono::Timelike;
use vstd::prelude::*;
use crate::calendar::Timestamp;

verus! {

/// Whether the timezone database compiled into the process knows this
/// identifier.  That set is fixed at build time, so the answer is a
/// function of the name alone.
pub uninterp spec fn tz_db_contains(name: Seq<char>) -> bool;

/// Relies on chrono_tz's `Tz::from_str`: it succeeds exactly on the
/// identifiers of the compiled-in timezone database, which includes "UTC".
#[verifier::external_body]
pub fn tz_name_known(name: &str) -> (r: bool)
    ensures
        r == tz_db_contains(name@),
        name@ == "UTC"@ ==> r,
{
    chrono_tz::Tz::from_str(name).is_ok()
}

/// Relies on `std::time::SystemTime::now` and chrono's panic-free
/// `DateTime::from_timestamp` and field accessors: the current UTC
/// instant's calendar fields, handed out as plain integers.  A clock set
/// before the epoch or beyond chrono's range yields the epoch origin
/// instead of a fault.  Nothing is assumed of the fields; `capture_now`
/// validates every one.
#[verifier::external_body]
fn utc_now_raw() -> (r: (i32, u32, u32, u32, u32, u32, u32)) {
    let since_epoch = std::time::SystemTime::now()
        .duration_since(std::time::UNIX_EPOCH)
        .unwrap_or_default();
    let now = chrono::DateTime::<chrono::Utc>::from_timestamp(
        i64::try_from(since_epoch.as_secs()).unwrap_or_default(),
        since_epoch.subsec_nanos(),
    ).unwrap_or_default();
    (now.year(), now.month(), now.day(), now.hour(), now.minute(), now.second(),
        now.timestamp_subsec_micros())
}

/// The current UTC wall-clock instant.  Should the clock ever hand back
/// fields outside the calendar model, the epoch origin is used instead, so
/// the result is always a real calendar instant.
pub fn capture_now() -> (r: Timestamp)
    ensures
        r.wf(),
{
    let (y, mo, d, h, mi, s, us) = utc_now_raw();
    if 0 <= y && y <= 65535 && mo <= 255 && d <= 255 && h <= 255 && mi <= 255 && s <= 255 {
        let t = Timestamp {
            year: y as u16,
            month: mo as u8,
            day: d as u8,
            hour: h as u8,
            minute: mi as u8,
            second: s as u8,
            micro: us,
        };
        if t.check_wf() {
            return t;
        }
    }
    Timestamp { year: 1970, month: 1, day: 1, hour: 0, minute: 0, second: 0, micro: 0 }
}

} // verus!
