//! The generic value model and the value normalizer.
//!
//! `NativeValue` models the shapes a database driver hands back for one
//! column: nulls, raw bytes, signed and unsigned integers, single and double
//! precision floats (as bit patterns), date-time components, and signed
//! time-of-day/duration components.  `normalize` converts one such value
//! into the closed `GenericValue` model, or fails with an error naming the
//! column; it never silently loses data.

use vstd::prelude::*;
use crate::calendar::Timestamp;
use crate::errors::NormalizeError;
use crate::errors::NormalizeErrorKind;
use crate::floatbits::f32_is_nan;
use crate::floatbits::f64_is_nan;
use crate::floatbits::widen_f32_bits;
use crate::floatbits::check_f32_nan;
use crate::floatbits::check_f64_nan;
use crate::floatbits::widen_f32;

verus! {

/// The closed generic value model.  A `Float` holds a double-precision bit
/// pattern and must never hold a NaN pattern; `Object` keys are unique and
/// keep insertion order.
#[derive(Debug)]
pub enum GenericValue {
    Null,
    Boolean(bool),
    Integer(i64),
    Float(u64),
    Bytes(Vec<u8>),
    Timestamp(Timestamp),
    Array(Vec<GenericValue>),
    Object(Vec<(String, GenericValue)>),
}

/// One native column value as a database driver surfaces it.
#[derive(Debug)]
pub enum NativeValue {
    Null,
    Bytes(Vec<u8>),
    Int(i64),
    UInt(u64),
    /// Single-precision bit pattern.
    Float(u32),
    /// Double-precision bit pattern.
    Double(u64),
    /// Year, month, day, hour, minute, second, microsecond.
    Date(u16, u8, u8, u8, u8, u8, u32),
    /// Negative flag, days, hours, minutes, seconds, microseconds.
    Time(bool, u32, u8, u8, u8, u32),
}

pub open spec fn date_fields(y: u16, mo: u8, d: u8, h: u8, mi: u8, s: u8, us: u32) -> Timestamp {
    Timestamp { year: y, month: mo, day: d, hour: h, minute: mi, second: s, micro: us }
}

/// The fixed six-byte encoding of a time-of-day/duration value:
/// sign flag, days, hours, minutes, seconds, microseconds, the wide
/// components truncated to one byte each.
pub open spec fn time_payload(neg: bool, days: u32, h: u8, mi: u8, s: u8, us: u32) -> Seq<u8> {
    seq![
        if neg {
            1u8
        } else {
            0u8
        },
        (days % 256) as u8,
        h,
        mi,
        s,
        (us % 256) as u8,
    ]
}

/// Which error, if any, normalizing this value must produce.
pub open spec fn norm_err(v: NativeValue) -> Option<NormalizeErrorKind> {
    match v {
        NativeValue::UInt(u) => if u > i64::MAX as u64 {
            Some(NormalizeErrorKind::RangeOverflow)
        } else {
            None
        },
        NativeValue::Float(bits) => if f32_is_nan(bits) {
            Some(NormalizeErrorKind::NanValue)
        } else {
            None
        },
        NativeValue::Double(bits) => if f64_is_nan(bits) {
            Some(NormalizeErrorKind::NanValue)
        } else {
            None
        },
        NativeValue::Date(y, mo, d, h, mi, s, us) => if !date_fields(y, mo, d, h, mi, s, us).wf() {
            Some(NormalizeErrorKind::InvalidDate)
        } else {
            None
        },
        _ => None,
    }
}

/// `out` is exactly the normalized form of `v` (defined where `norm_err`
/// allows success).
pub open spec fn norm_ok(v: NativeValue, out: GenericValue) -> bool {
    match v {
        NativeValue::Null => out == GenericValue::Null,
        NativeValue::Bytes(b) => out matches GenericValue::Bytes(o) && o@ == b@,
        NativeValue::Int(i) => out == GenericValue::Integer(i),
        NativeValue::UInt(u) => out == GenericValue::Integer(u as i64),
        NativeValue::Float(bits) => out == GenericValue::Float(widen_f32_bits(bits)),
        NativeValue::Double(bits) => out == GenericValue::Float(bits),
        NativeValue::Date(y, mo, d, h, mi, s, us) => out == GenericValue::Timestamp(
            date_fields(y, mo, d, h, mi, s, us),
        ),
        NativeValue::Time(neg, days, h, mi, s, us) => out matches GenericValue::Bytes(o) && o@
            == time_payload(neg, days, h, mi, s, us),
    }
}

/// Convert one native column value into the generic model.
///
/// Succeeds exactly when `norm_err` is `None`: nulls pass through, bytes
/// pass through, integers keep their value (unsigned ones only within the
/// signed 64-bit range), non-NaN floats keep their value as a double bit
/// pattern, valid date components become a UTC timestamp, and
/// time-of-day/duration components become the fixed six-byte payload.
/// A failure names the column and the reason; nothing is silently truncated
/// or nulled here.
pub fn normalize(column: &str, v: &NativeValue) -> (r: Result<GenericValue, NormalizeError>)
    ensures
        r is Ok <==> norm_err(*v) is None,
        r matches Ok(out) ==> norm_ok(*v, out),
        r matches Err(e) ==> Some(e.kind) == norm_err(*v) && e.column@ == column@,
{
    match v {
        NativeValue::Null => Ok(GenericValue::Null),
        NativeValue::Bytes(b) => Ok(GenericValue::Bytes(b.clone())),
        NativeValue::Int(i) => Ok(GenericValue::Integer(*i)),
        NativeValue::UInt(u) => {
            if *u <= i64::MAX as u64 {
                Ok(GenericValue::Integer(*u as i64))
            } else {
                Err(
                    NormalizeError {
                        column: column.to_owned(),
                        kind: NormalizeErrorKind::RangeOverflow,
                    },
                )
            }
        },
        NativeValue::Float(bits) => {
            if check_f32_nan(*bits) {
                Err(NormalizeError { column: column.to_owned(), kind: NormalizeErrorKind::NanValue })
            } else {
                Ok(GenericValue::Float(widen_f32(*bits)))
            }
        },
        NativeValue::Double(bits) => {
            if check_f64_nan(*bits) {
                Err(NormalizeError { column: column.to_owned(), kind: NormalizeErrorKind::NanValue })
            } else {
                Ok(GenericValue::Float(*bits))
            }
        },
        NativeValue::Date(y, mo, d, h, mi, s, us) => {
            let t = Timestamp {
                year: *y,
                month: *mo,
                day: *d,
                hour: *h,
                minute: *mi,
                second: *s,
                micro: *us,
            };
            if t.check_wf() {
                Ok(GenericValue::Timestamp(t))
            } else {
                Err(
                    NormalizeError {
                        column: column.to_owned(),
                        kind: NormalizeErrorKind::InvalidDate,
                    },
                )
            }
        },
        NativeValue::Time(neg, days, h, mi, s, us) => {
            let mut payload: Vec<u8> = Vec::new();
            payload.push(if *neg {
                1u8
            } else {
                0u8
            });
            payload.push((*days % 256) as u8);
            payload.push(*h);
            payload.push(*mi);
            payload.push(*s);
            payload.push((*us % 256) as u8);
            proof {
                assert(payload@ =~= time_payload(*neg, *days, *h, *mi, *s, *us));
            }
            Ok(GenericValue::Bytes(payload))
        },
    }
}

} // verus!
