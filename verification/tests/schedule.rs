use chrono::Datelike;
use dbpoll::calendar::Timestamp;
use dbpoll::calendar::day_of_week;
use dbpoll::cron::CronSchedule;

fn at(year: u16, month: u8, day: u8, hour: u8, minute: u8, second: u8) -> Timestamp {
    Timestamp { year, month, day, hour, minute, second, micro: 0 }
}

#[test]
fn parse_accepts_common_expressions() {
    assert!(CronSchedule::parse("*/10 * * * *").is_ok());
    assert!(CronSchedule::parse("0 0 1 1 0").is_ok());
    assert!(CronSchedule::parse("5,15,25 8-17 * * 1-5").is_ok());
    assert!(CronSchedule::parse("0-59/15 * * * *").is_ok());
}

#[test]
fn parse_rejects_malformed_expressions() {
    assert!(CronSchedule::parse("").is_err());
    assert!(CronSchedule::parse("* * * *").is_err());
    assert!(CronSchedule::parse("* * * * * *").is_err());
    assert!(CronSchedule::parse("60 * * * *").is_err());
    assert!(CronSchedule::parse("* 24 * * *").is_err());
    assert!(CronSchedule::parse("* * 0 * *").is_err());
    assert!(CronSchedule::parse("* * * 13 *").is_err());
    assert!(CronSchedule::parse("* * * * 7").is_err());
    assert!(CronSchedule::parse("a * * * *").is_err());
    assert!(CronSchedule::parse("*/0 * * * *").is_err());
    assert!(CronSchedule::parse("10-5 * * * *").is_err());
    assert!(CronSchedule::parse("1,,2 * * * *").is_err());
    assert!(CronSchedule::parse("* *  * * *").is_err());
}

#[test]
fn next_fire_every_ten_minutes() {
    let s = CronSchedule::parse("*/10 * * * *").unwrap();
    let t = s.next_fire_time(&at(2024, 1, 1, 0, 0, 30)).unwrap();
    assert_eq!(t, at(2024, 1, 1, 0, 10, 0));
}

#[test]
fn next_fire_is_strictly_after_even_on_boundary() {
    let s = CronSchedule::parse("*/10 * * * *").unwrap();
    let t = s.next_fire_time(&at(2024, 1, 1, 0, 10, 0)).unwrap();
    assert_eq!(t, at(2024, 1, 1, 0, 20, 0));
}

#[test]
fn fire_times_progress_monotonically() {
    let s = CronSchedule::parse("*/10 * * * *").unwrap();
    let mut now = at(2024, 1, 1, 0, 0, 30);
    let mut last: Option<Timestamp> = None;
    for _ in 0..8 {
        let t = s.next_fire_time(&now).unwrap();
        if let Some(p) = last {
            assert_ne!(p, t);
        }
        last = Some(t);
        now = t;
    }
    assert_eq!(last.unwrap(), at(2024, 1, 1, 1, 20, 0));
}

#[test]
fn next_fire_specific_day_and_time() {
    let s = CronSchedule::parse("30 14 1 2 *").unwrap();
    let t = s.next_fire_time(&at(2024, 3, 5, 9, 0, 0)).unwrap();
    assert_eq!(t, at(2025, 2, 1, 14, 30, 0));
}

#[test]
fn next_fire_on_weekday() {
    // 2024-01-01 is a Monday; the next Monday midnight is Jan 8.
    let s = CronSchedule::parse("0 0 * * 1").unwrap();
    let t = s.next_fire_time(&at(2024, 1, 1, 0, 0, 0)).unwrap();
    assert_eq!(t, at(2024, 1, 8, 0, 0, 0));
}

#[test]
fn next_fire_leap_day() {
    let s = CronSchedule::parse("0 0 29 2 *").unwrap();
    let t = s.next_fire_time(&at(2023, 3, 1, 0, 0, 0)).unwrap();
    assert_eq!(t, at(2024, 2, 29, 0, 0, 0));
}

#[test]
fn next_fire_rolls_over_year_end() {
    let s = CronSchedule::parse("0 0 1 1 *").unwrap();
    let t = s.next_fire_time(&at(2024, 12, 31, 23, 59, 59)).unwrap();
    assert_eq!(t, at(2025, 1, 1, 0, 0, 0));
}

#[test]
fn impossible_schedule_reports_error() {
    // February the 30th never exists.
    let s = CronSchedule::parse("0 0 30 2 *").unwrap();
    assert!(s.next_fire_time(&at(2024, 1, 1, 0, 0, 0)).is_err());
}

#[test]
fn day_of_week_agrees_with_chrono() {
    let cases = [
        (2024u16, 1u8, 1u8),
        (2024, 2, 29),
        (2000, 2, 29),
        (1999, 12, 31),
        (1970, 1, 1),
        (2026, 10, 8),
        (1900, 3, 1),
    ];
    for (y, m, d) in cases {
        let expected = chrono::NaiveDate::from_ymd_opt(y as i32, m as u32, d as u32)
            .unwrap()
            .weekday()
            .num_days_from_sunday();
        assert_eq!(day_of_week(y, m, d) as u32, expected);
    }
}

#[test]
fn stepped_range_starts_at_range_base() {
    let s = CronSchedule::parse("3-20/5 * * * *").unwrap();
    let t = s.next_fire_time(&at(2024, 1, 1, 0, 0, 0)).unwrap();
    assert_eq!(t, at(2024, 1, 1, 0, 3, 0));
    let t2 = s.next_fire_time(&t).unwrap();
    assert_eq!(t2, at(2024, 1, 1, 0, 8, 0));
    let t3 = s.next_fire_time(&at(2024, 1, 1, 0, 18, 30)).unwrap();
    assert_eq!(t3, at(2024, 1, 1, 1, 3, 0));
}

#[test]
fn list_of_terms_fires_on_each() {
    let s = CronSchedule::parse("5,15,25 8-17 * * 1-5").unwrap();
    // 2024-01-02 is a Tuesday.
    let t = s.next_fire_time(&at(2024, 1, 2, 9, 0, 0)).unwrap();
    assert_eq!(t, at(2024, 1, 2, 9, 5, 0));
    // Saturday skips to Monday.
    let t2 = s.next_fire_time(&at(2024, 1, 6, 0, 0, 0)).unwrap();
    assert_eq!(t2, at(2024, 1, 8, 8, 5, 0));
}
