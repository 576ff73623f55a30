use dbpoll::calendar::Timestamp;
use dbpoll::config::DEFAULT_PORT;
use dbpoll::config::DatabaseConfig;
use dbpoll::config::DatabaseType;
use dbpoll::config::MySqlConfig;
use dbpoll::engine::ACQUIRE_TIMEOUT_SECS;
use dbpoll::engine::Action;
use dbpoll::engine::POOL_MAX_CONNECTIONS;
use dbpoll::engine::POOL_MIN_CONNECTIONS;
use dbpoll::engine::PollState;
use dbpoll::errors::RunError;
use dbpoll::record::Column;
use dbpoll::ruby::RubyConfig;
use dbpoll::value::GenericValue;
use dbpoll::value::NativeValue;

fn at(year: u16, month: u8, day: u8, hour: u8, minute: u8, second: u8) -> Timestamp {
    Timestamp { year, month, day, hour, minute, second, micro: 0 }
}

fn scheduled_config() -> DatabaseConfig {
    DatabaseConfig {
        inner: DatabaseType::MySQL(MySqlConfig::default()),
        statement: "SELECT id, name FROM users".to_string(),
        schedule: Some("*/10 * * * *".to_string()),
        schedule_timezone: Some("UTC".to_string()),
    }
}

#[test]
fn scenario_tick_emits_one_record() {
    let mut c = scheduled_config().build().unwrap();
    // The tick fires at the next ten-minute boundary.
    let a = c.on_start(&at(2024, 1, 1, 0, 0, 30));
    match a {
        Action::Wait(t) => assert_eq!(t, at(2024, 1, 1, 0, 10, 0)),
        _ => panic!("expected a wait"),
    }
    let a = c.on_wake(false);
    assert!(matches!(a, Action::Query));
    assert_eq!(c.state, PollState::Querying);
    let rows = vec![vec![
        Column { name: "id".to_string(), value: NativeValue::Int(1) },
        Column { name: "name".to_string(), value: NativeValue::Bytes(b"Alice".to_vec()) },
    ]];
    let a = c.on_query_result(Ok(rows));
    let rec = match a {
        Action::Emit(rec) => rec,
        _ => panic!("expected an emit"),
    };
    let top = match rec {
        GenericValue::Object(e) => e,
        _ => panic!("expected object"),
    };
    assert_eq!(top.len(), 2);
    assert_eq!(top[0].0, "timestamp");
    assert!(matches!(top[0].1, GenericValue::Timestamp(_)));
    assert_eq!(top[1].0, "message");
    match &top[1].1 {
        GenericValue::Array(rows_out) => {
            assert_eq!(rows_out.len(), 1);
            match &rows_out[0] {
                GenericValue::Object(e) => {
                    assert_eq!(e.len(), 2);
                    assert_eq!(e[0].0, "id");
                    assert!(matches!(e[0].1, GenericValue::Integer(1)));
                    assert_eq!(e[1].0, "name");
                    match &e[1].1 {
                        GenericValue::Bytes(b) => assert_eq!(b, b"Alice"),
                        _ => panic!("expected bytes"),
                    }
                },
                _ => panic!("expected object"),
            }
        },
        _ => panic!("expected array"),
    }
    // After the hand-off the loop waits for the following boundary.
    let a = c.on_emitted(&at(2024, 1, 1, 0, 10, 2));
    match a {
        Action::Wait(t) => assert_eq!(t, at(2024, 1, 1, 0, 20, 0)),
        _ => panic!("expected a wait"),
    }
    assert_eq!(c.state, PollState::Waiting);
}

#[test]
fn scenario_shutdown_while_waiting_issues_no_query() {
    let mut c = scheduled_config().build().unwrap();
    let a = c.on_start(&at(2024, 1, 1, 0, 3, 20));
    match a {
        Action::Wait(t) => assert_eq!(t, at(2024, 1, 1, 0, 10, 0)),
        _ => panic!("expected a wait"),
    }
    // The shutdown signal wins the race against the timer.
    let a = c.on_wake(true);
    assert!(matches!(a, Action::Stop(None)));
    assert_eq!(c.state, PollState::ShuttingDown);
}

#[test]
fn scenario_connection_timeout_is_fatal_and_emits_nothing() {
    let mut c = scheduled_config().build().unwrap();
    c.on_start(&at(2024, 1, 1, 0, 0, 0));
    let a = c.on_wake(false);
    assert!(matches!(a, Action::Query));
    // Acquisition exceeded the three-second timeout.
    let a = c.on_query_result(Err(RunError::Connection));
    assert!(matches!(a, Action::Stop(Some(RunError::Connection))));
    assert_eq!(c.state, PollState::ShuttingDown);
}

#[test]
fn scenario_no_schedule_runs_exactly_once() {
    let cfg = DatabaseConfig {
        inner: DatabaseType::MySQL(MySqlConfig::default()),
        statement: "SELECT 1".to_string(),
        schedule: None,
        schedule_timezone: None,
    };
    let mut c = cfg.build().unwrap();
    // No schedule: query immediately, no waiting.
    let a = c.on_start(&at(2024, 1, 1, 0, 0, 0));
    assert!(matches!(a, Action::Query));
    assert_eq!(c.state, PollState::Querying);
    let a = c.on_query_result(Ok(Vec::new()));
    assert!(matches!(a, Action::Emit(_)));
    // After the single emission the instance terminates: no second tick.
    let a = c.on_emitted(&at(2024, 1, 1, 0, 0, 1));
    assert!(matches!(a, Action::Stop(None)));
    assert_eq!(c.state, PollState::ShuttingDown);
}

#[test]
fn malformed_schedule_is_fatal_at_build() {
    let mut cfg = scheduled_config();
    cfg.schedule = Some("not a cron".to_string());
    assert!(cfg.build().is_err());
}

#[test]
fn unknown_timezone_falls_back_to_utc() {
    let mut cfg = scheduled_config();
    cfg.schedule_timezone = Some("Nowhere/Special".to_string());
    let c = cfg.build().unwrap();
    assert_eq!(c.timezone, "UTC");
}

#[test]
fn known_timezone_is_kept() {
    let mut cfg = scheduled_config();
    cfg.schedule_timezone = Some("Europe/Berlin".to_string());
    let c = cfg.build().unwrap();
    assert_eq!(c.timezone, "Europe/Berlin");
}

#[test]
fn acknowledgement_is_not_supported() {
    assert!(!scheduled_config().can_acknowledge());
    assert!(!MySqlConfig::default().can_acknowledge());
}

#[test]
fn defaults_point_at_local_database() {
    let d = MySqlConfig::default();
    assert_eq!(d.host, "localhost");
    assert_eq!(d.port, DEFAULT_PORT);
    assert!(d.database.is_none());
    assert!(d.user.is_none());
    assert!(d.password.is_none());
    let c = DatabaseConfig::default();
    assert_eq!(c.statement, "");
    assert!(c.schedule.is_none());
    assert!(c.schedule_timezone.is_none());
}

#[test]
fn pool_is_bounded_to_one_connection() {
    assert_eq!(POOL_MIN_CONNECTIONS, 1);
    assert_eq!(POOL_MAX_CONNECTIONS, 1);
    assert_eq!(ACQUIRE_TIMEOUT_SECS, 3);
}

#[test]
fn ruby_transform_builds() {
    let cfg = RubyConfig { source: Some("puts 1".to_string()) };
    assert!(cfg.build().is_ok());
    assert_eq!(cfg.get_component_name(), "ruby");
    let none = RubyConfig { source: None };
    assert!(none.build().is_ok());
}

#[test]
fn clock_reads_a_real_calendar_instant() {
    let t = dbpoll::clock::capture_now();
    assert!((1..=12).contains(&t.month));
    assert!((1..=31).contains(&t.day));
    assert!(t.hour <= 23);
    assert!(t.minute <= 59);
    assert!(t.second <= 59);
    assert!(t.micro <= 1_999_999);
    assert!(t.year >= 1970);
}

#[test]
fn reference_year_beyond_horizon_is_fatal() {
    let mut c = scheduled_config().build().unwrap();
    let a = c.on_start(&at(60001, 1, 1, 0, 0, 0));
    assert!(matches!(a, Action::Stop(Some(RunError::Schedule))));
    assert_eq!(c.state, PollState::ShuttingDown);
}
