use dbpoll::calendar::Timestamp;
use dbpoll::errors::NormalizeErrorKind;
use dbpoll::floatbits::widen_f32;
use dbpoll::value::GenericValue;
use dbpoll::value::NativeValue;
use dbpoll::value::normalize;

#[test]
fn null_passes_through() {
    let r = normalize("c", &NativeValue::Null).unwrap();
    assert!(matches!(r, GenericValue::Null));
}

#[test]
fn bytes_pass_through() {
    let r = normalize("c", &NativeValue::Bytes(vec![1, 2, 3])).unwrap();
    match r {
        GenericValue::Bytes(b) => assert_eq!(b, vec![1, 2, 3]),
        _ => panic!("expected bytes"),
    }
}

#[test]
fn signed_integer_round_trips() {
    for v in [0i64, 1, -1, i64::MAX, i64::MIN, 42] {
        let r = normalize("c", &NativeValue::Int(v)).unwrap();
        match r {
            GenericValue::Integer(i) => assert_eq!(i, v),
            _ => panic!("expected integer"),
        }
    }
}

#[test]
fn unsigned_in_range_round_trips() {
    let r = normalize("c", &NativeValue::UInt(i64::MAX as u64)).unwrap();
    match r {
        GenericValue::Integer(i) => assert_eq!(i, i64::MAX),
        _ => panic!("expected integer"),
    }
}

#[test]
fn unsigned_overflow_fails_naming_column() {
    let e = normalize("big_col", &NativeValue::UInt(i64::MAX as u64 + 1)).unwrap_err();
    assert_eq!(e.kind, NormalizeErrorKind::RangeOverflow);
    assert_eq!(e.column, "big_col");
    let e2 = normalize("big_col", &NativeValue::UInt(u64::MAX)).unwrap_err();
    assert_eq!(e2.kind, NormalizeErrorKind::RangeOverflow);
}

#[test]
fn float_widening_matches_hardware_cast() {
    let samples: Vec<f32> = vec![
        0.0,
        -0.0,
        1.0,
        -1.5,
        3.14159,
        f32::MAX,
        f32::MIN_POSITIVE,
        f32::INFINITY,
        f32::NEG_INFINITY,
        1.0e-40, // subnormal
        f32::from_bits(1), // smallest subnormal
        f32::from_bits(0x007f_ffff), // largest subnormal
    ];
    for v in samples {
        assert_eq!(widen_f32(v.to_bits()), (v as f64).to_bits());
    }
}

#[test]
fn float_input_preserved_exactly() {
    let v: f32 = 2.75;
    let r = normalize("c", &NativeValue::Float(v.to_bits())).unwrap();
    match r {
        GenericValue::Float(bits) => assert_eq!(f64::from_bits(bits), 2.75),
        _ => panic!("expected float"),
    }
}

#[test]
fn double_input_preserved_exactly() {
    let v: f64 = -123.456;
    let r = normalize("c", &NativeValue::Double(v.to_bits())).unwrap();
    match r {
        GenericValue::Float(bits) => assert_eq!(f64::from_bits(bits), -123.456),
        _ => panic!("expected float"),
    }
}

#[test]
fn nan_float_fails() {
    let e = normalize("f", &NativeValue::Float(f32::NAN.to_bits())).unwrap_err();
    assert_eq!(e.kind, NormalizeErrorKind::NanValue);
    assert_eq!(e.column, "f");
    let e2 = normalize("d", &NativeValue::Double(f64::NAN.to_bits())).unwrap_err();
    assert_eq!(e2.kind, NormalizeErrorKind::NanValue);
    assert_eq!(e2.column, "d");
}

#[test]
fn valid_date_becomes_matching_timestamp() {
    let r = normalize("t", &NativeValue::Date(2024, 2, 29, 13, 45, 59, 123456)).unwrap();
    match r {
        GenericValue::Timestamp(ts) => {
            assert_eq!(
                ts,
                Timestamp {
                    year: 2024,
                    month: 2,
                    day: 29,
                    hour: 13,
                    minute: 45,
                    second: 59,
                    micro: 123456,
                }
            );
        },
        _ => panic!("expected timestamp"),
    }
}

#[test]
fn invalid_date_fails() {
    let e = normalize("when", &NativeValue::Date(2023, 2, 30, 0, 0, 0, 0)).unwrap_err();
    assert_eq!(e.kind, NormalizeErrorKind::InvalidDate);
    assert_eq!(e.column, "when");
    // 2023 is no leap year.
    let e2 = normalize("when", &NativeValue::Date(2023, 2, 29, 0, 0, 0, 0)).unwrap_err();
    assert_eq!(e2.kind, NormalizeErrorKind::InvalidDate);
    // Hour out of range.
    let e3 = normalize("when", &NativeValue::Date(2023, 1, 1, 24, 0, 0, 0)).unwrap_err();
    assert_eq!(e3.kind, NormalizeErrorKind::InvalidDate);
}

#[test]
fn time_of_day_becomes_six_byte_payload() {
    let r = normalize("t", &NativeValue::Time(true, 300, 7, 8, 9, 999_999)).unwrap();
    match r {
        GenericValue::Bytes(b) => {
            assert_eq!(b, vec![1u8, (300 % 256) as u8, 7, 8, 9, (999_999 % 256) as u8]);
        },
        _ => panic!("expected bytes"),
    }
    let r2 = normalize("t", &NativeValue::Time(false, 2, 3, 4, 5, 6)).unwrap();
    match r2 {
        GenericValue::Bytes(b) => assert_eq!(b, vec![0u8, 2, 3, 4, 5, 6]),
        _ => panic!("expected bytes"),
    }
}
