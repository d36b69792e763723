use chrono::{DateTime, NaiveDate};
use taskwarrior_tui::datetime::{format_local_date, format_local_date_time, format_taskwarrior_datetime_literal};

fn utc(year: i32, month: u32, day: u32, hour: u32, minute: u32, second: u32) -> i64 {
  NaiveDate::from_ymd_opt(year, month, day).unwrap().and_hms_opt(hour, minute, second).unwrap().and_utc().timestamp()
}

fn literal(offset: i32, year: i32, month: u32, day: u32, hour: u32, minute: u32, second: u32) -> String {
  format_taskwarrior_datetime_literal(utc(year, month, day, hour, minute, second), offset).unwrap()
}

#[test]
fn formats_exact_one_hour_offsets() {
  assert_eq!(literal(60 * 60, 2026, 3, 29, 7, 15, 0), "'2026-03-29T08:15:00+01:00'");
  assert_eq!(literal(-(60 * 60), 2026, 3, 29, 7, 15, 0), "'2026-03-29T06:15:00-01:00'");
}

#[test]
fn formats_offsets_across_dst_boundaries() {
  assert_eq!(literal(-(5 * 60 * 60), 2024, 3, 10, 6, 59, 59), "'2024-03-10T01:59:59-05:00'");
  assert_eq!(literal(-(4 * 60 * 60), 2024, 3, 10, 7, 0, 0), "'2024-03-10T03:00:00-04:00'");
  assert_eq!(literal(-(4 * 60 * 60), 2024, 11, 3, 5, 59, 59), "'2024-11-03T01:59:59-04:00'");
  assert_eq!(literal(-(5 * 60 * 60), 2024, 11, 3, 6, 0, 0), "'2024-11-03T01:00:00-05:00'");
}

#[test]
fn round_trips_taskwarrior_datetime_literals() {
  let seconds = utc(2026, 3, 29, 7, 15, 0);
  let formatted = format_taskwarrior_datetime_literal(seconds, 90 * 60).unwrap();
  let parsed = DateTime::parse_from_rfc3339(formatted.trim_matches('\'')).unwrap();
  assert_eq!(parsed.timestamp(), seconds);
  assert_eq!(parsed.offset().local_minus_utc(), 90 * 60);
}

#[test]
fn local_date_formats() {
  let seconds = utc(2024, 1, 2, 23, 30, 0);
  assert_eq!(format_local_date_time(seconds, 0), Some("2024-01-02 23:30:00".to_string()));
  assert_eq!(format_local_date_time(seconds, 3600), Some("2024-01-03 00:30:00".to_string()));
  assert_eq!(format_local_date(seconds, 3600, "%Y-%m-%d"), Some("2024-01-03".to_string()));
  assert_eq!(format_local_date(seconds, 100_000, "%Y"), None);
  assert_eq!(format_local_date(seconds, 0, "%Q"), None);
}
