//! Calendar time: creation-date parsing, uptime derivation and rendering,
//! and the operation-log timestamp.

use nginx_supervisor::clock::format_timestamp;
use nginx_supervisor::clock::format_uptime;
use nginx_supervisor::clock::get_uptime;
use nginx_supervisor::clock::now_civil;
use nginx_supervisor::clock::parse_creation_date;
use nginx_supervisor::clock::uptime_seconds;
use nginx_supervisor::clock::CivilDateTime;

fn text(s: &str) -> Vec<u8> {
    s.as_bytes().to_vec()
}

fn civil(year: u64, month: u64, day: u64, hour: u64, minute: u64, second: u64) -> CivilDateTime {
    CivilDateTime { year, month, day, hour, minute, second }
}

#[test]
fn creation_dates_parse_field_by_field() {
    let t = parse_creation_date(&text("20240115103045.123456+480")).unwrap();
    assert_eq!(t, civil(2024, 1, 15, 10, 30, 45));
}

#[test]
fn impossible_dates_are_rejected() {
    assert_eq!(parse_creation_date(&text("20240230103045")), None);
    assert_eq!(parse_creation_date(&text("20241315103045")), None);
    assert_eq!(parse_creation_date(&text("2024011510304x")), None);
    assert_eq!(parse_creation_date(&text("202401151030")), None);
}

#[test]
fn leap_days_parse_only_in_leap_years() {
    assert!(parse_creation_date(&text("20240229000000")).is_some());
    assert_eq!(parse_creation_date(&text("20230229000000")), None);
    assert!(parse_creation_date(&text("20000229000000")).is_some());
    assert_eq!(parse_creation_date(&text("19000228000000")).map(|t| t.day), Some(28));
    assert_eq!(parse_creation_date(&text("19000229000000")), None);
}

#[test]
fn uptime_subtracts_the_start_time() {
    let start = civil(2024, 1, 1, 0, 0, 0);
    let now = civil(2024, 1, 1, 1, 2, 3);
    assert_eq!(uptime_seconds(&start, &now), 3723);
    // A clock that reads earlier than the start yields zero.
    assert_eq!(uptime_seconds(&now, &start), 0);
    // Across a month boundary of a leap year.
    let feb = civil(2024, 2, 29, 0, 0, 0);
    let mar = civil(2024, 3, 1, 0, 0, 0);
    assert_eq!(uptime_seconds(&feb, &mar), 86400);
}

#[test]
fn uptime_renders_with_unbounded_hours() {
    assert_eq!(format_uptime(0), "0:00:00");
    assert_eq!(format_uptime(3723), "1:02:03");
    assert_eq!(format_uptime(90 * 3600 + 59 * 60 + 59), "90:59:59");
}

#[test]
fn uptime_report_walks_the_query_output() {
    let now = civil(2024, 1, 15, 11, 32, 50);
    let out = text("CreationDate  \r\n\r\n20240115103045.123456+480  \r\n");
    assert_eq!(get_uptime(true, &out, &now), "1:02:05");
    assert_eq!(get_uptime(false, &out, &now), "0s");
    assert_eq!(get_uptime(true, &text("CreationDate\n"), &now), "unknown");
    assert_eq!(get_uptime(true, &text("CreationDate\nnot-a-date-here\n"), &now), "parse error");
    assert_eq!(get_uptime(true, &text("CreationDate\n2024\n"), &now), "parse error");
}

#[test]
fn timestamps_render_zero_padded() {
    let t = civil(2024, 3, 5, 7, 8, 9);
    assert_eq!(format_timestamp(&t), "2024-03-05 07:08:09");
}

#[test]
fn the_clock_reports_a_plausible_local_time() {
    let t = now_civil().expect("the host clock is far outside the supported range");
    assert!(t.year >= 2020 && t.year <= 9999);
    assert!((1..=12).contains(&t.month));
    assert!((1..=31).contains(&t.day));
    assert!(t.hour < 24 && t.minute < 60 && t.second < 60);
    // The rendered form always has the same width.
    assert_eq!(format_timestamp(&t).len(), 19);
}
