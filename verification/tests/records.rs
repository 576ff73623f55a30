use dbpoll::calendar::Timestamp;
use dbpoll::record::Column;
use dbpoll::record::build_record;
use dbpoll::record::map_row;
use dbpoll::value::GenericValue;
use dbpoll::value::NativeValue;

fn col(name: &str, value: NativeValue) -> Column {
    Column { name: name.to_string(), value }
}

fn entries(v: GenericValue) -> Vec<(String, GenericValue)> {
    match v {
        GenericValue::Object(e) => e,
        _ => panic!("expected object"),
    }
}

#[test]
fn row_keeps_one_entry_per_column() {
    let row = vec![
        col("id", NativeValue::Int(1)),
        col("name", NativeValue::Bytes(b"Alice".to_vec())),
        col("score", NativeValue::Double(1.5f64.to_bits())),
    ];
    let e = entries(map_row(&row));
    assert_eq!(e.len(), 3);
    assert_eq!(e[0].0, "id");
    assert!(matches!(e[0].1, GenericValue::Integer(1)));
    assert_eq!(e[1].0, "name");
    match &e[1].1 {
        GenericValue::Bytes(b) => assert_eq!(b, b"Alice"),
        _ => panic!("expected bytes"),
    }
    assert_eq!(e[2].0, "score");
}

#[test]
fn failed_column_degrades_to_null_keeping_shape() {
    let row = vec![
        col("ok", NativeValue::Int(7)),
        col("bad", NativeValue::Float(f32::NAN.to_bits())),
        col("also_ok", NativeValue::Null),
    ];
    let e = entries(map_row(&row));
    assert_eq!(e.len(), 3);
    assert_eq!(e[1].0, "bad");
    assert!(matches!(e[1].1, GenericValue::Null));
    assert!(matches!(e[0].1, GenericValue::Integer(7)));
}

#[test]
fn duplicate_column_name_overwrites_in_place() {
    let row = vec![
        col("a", NativeValue::Int(1)),
        col("b", NativeValue::Int(2)),
        col("a", NativeValue::Int(3)),
    ];
    let e = entries(map_row(&row));
    assert_eq!(e.len(), 2);
    assert_eq!(e[0].0, "a");
    assert!(matches!(e[0].1, GenericValue::Integer(3)));
    assert_eq!(e[1].0, "b");
    assert!(matches!(e[1].1, GenericValue::Integer(2)));
}

#[test]
fn empty_row_yields_empty_object() {
    let e = entries(map_row(&Vec::new()));
    assert_eq!(e.len(), 0);
}

#[test]
fn record_holds_timestamp_and_message() {
    let capture = Timestamp {
        year: 2024,
        month: 6,
        day: 15,
        hour: 12,
        minute: 0,
        second: 1,
        micro: 500,
    };
    let rows = vec![
        vec![col("id", NativeValue::Int(1))],
        vec![col("id", NativeValue::Int(2))],
    ];
    let top = entries(build_record(&rows, capture));
    assert_eq!(top.len(), 2);
    assert_eq!(top[0].0, "timestamp");
    match top[0].1 {
        GenericValue::Timestamp(ts) => assert_eq!(ts, capture),
        _ => panic!("expected timestamp"),
    }
    assert_eq!(top[1].0, "message");
    match &top[1].1 {
        GenericValue::Array(rows_out) => {
            assert_eq!(rows_out.len(), 2);
            for (i, r) in rows_out.iter().enumerate() {
                match r {
                    GenericValue::Object(e) => {
                        assert_eq!(e.len(), 1);
                        assert_eq!(e[0].0, "id");
                        match e[0].1 {
                            GenericValue::Integer(v) => assert_eq!(v, i as i64 + 1),
                            _ => panic!("expected integer"),
                        }
                    },
                    _ => panic!("expected object"),
                }
            }
        },
        _ => panic!("expected array"),
    }
}

#[test]
fn record_of_no_rows_has_empty_message() {
    let capture = Timestamp {
        year: 2024,
        month: 1,
        day: 1,
        hour: 0,
        minute: 0,
        second: 0,
        micro: 0,
    };
    let top = entries(build_record(&Vec::new(), capture));
    assert_eq!(top.len(), 2);
    match &top[1].1 {
        GenericValue::Array(rows_out) => assert_eq!(rows_out.len(), 0),
        _ => panic!("expected array"),
    }
}
