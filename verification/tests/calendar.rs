use taskwarrior_tui::calendar::{calendar_rows, day_style, CalendarRow, DayStyle, calendar_start_x, generate_month_names, month_grid, month_weeks, months_per_row_for, Calendar};

#[test]
fn calendar_month_names() {
  let names = generate_month_names();
  assert_eq!(names.len(), 12);
  assert_eq!(names[0], "January");
  assert_eq!(names[4], "May");
  assert_eq!(names[11], "December");
}

#[test]
fn calendar_february_2024_from_sunday() {
  let g = month_grid(2024, 2, false);
  assert_eq!(g.len(), 5);
  assert_eq!(g[0], vec![0, 0, 0, 0, 1, 2, 3]);
  assert_eq!(g[4], vec![25, 26, 27, 28, 29, 0, 0]);
}

#[test]
fn calendar_february_2024_from_monday() {
  let g = month_grid(2024, 2, true);
  assert_eq!(g[0], vec![0, 0, 0, 1, 2, 3, 4]);
  assert_eq!(g.len(), 5);
}

#[test]
fn calendar_month_out_of_range_has_no_weeks() {
  assert!(month_grid(2024, 13, false).is_empty());
  assert!(month_grid(2024, 0, true).is_empty());
}

#[test]
fn calendar_weeks_of_a_long_month() {
  let w = month_weeks(6, 31);
  assert_eq!(w.len(), 6);
  assert_eq!(w[0], vec![0, 0, 0, 0, 0, 0, 1]);
  assert_eq!(w[5], vec![30, 31, 0, 0, 0, 0, 0]);
  assert_eq!(month_weeks(0, 28).len(), 4);
}

#[test]
fn calendar_months_per_row() {
  assert_eq!(months_per_row_for(0, 100), 4);
  assert_eq!(months_per_row_for(10, 100), 4);
  assert_eq!(months_per_row_for(2, 100), 2);
  assert_eq!(months_per_row_for(3, 10), 0);
  assert_eq!(calendar_start_x(100, 4), 6);
  assert_eq!(calendar_start_x(100, 2), 28);
}

#[test]
fn calendar_builders() {
  let c = Calendar { year: 2020, month: 1, months_per_row: 0, start_on_monday: false };
  let c = c.year(-5).month(3).months_per_row(2).start_on_monday(true);
  assert_eq!(c.year, 0);
  assert_eq!(c.month, 3);
  assert_eq!(c.months_per_row, 2);
  assert!(c.start_on_monday);
  assert_eq!(c.year(2030).year, 2030);
}

#[test]
fn calendar_february_lengths_follow_the_leap_rule() {
  assert_eq!(month_grid(2023, 2, false).last().unwrap(), &vec![26, 27, 28, 0, 0, 0, 0]);
  assert_eq!(month_grid(1900, 2, false).last().unwrap(), &vec![25, 26, 27, 28, 0, 0, 0]);
  assert_eq!(month_grid(2000, 2, false).last().unwrap(), &vec![27, 28, 29, 0, 0, 0, 0]);
  assert_eq!(month_grid(2024, 4, true).iter().flatten().filter(|d| **d != 0).count(), 30);
  assert!(month_grid(300000, 1, false).is_empty());
}

fn row(year: i32, first_month: usize, end_month: usize, y: u32, weeks: usize, next_title: Option<u32>) -> CalendarRow {
  CalendarRow { year, first_month, end_month, y, weeks, next_title }
}

#[test]
fn calendar_rows_stop_for_lack_of_height() {
  assert_eq!(
    calendar_rows(2024, 3, 0, 40, true),
    vec![row(2024, 0, 3, 3, 5, None), row(2024, 3, 6, 13, 5, None), row(2024, 6, 9, 23, 6, None)]
  );
  assert_eq!(calendar_rows(2024, 4, 2, 30, false), vec![row(2024, 0, 4, 5, 6, None), row(2024, 4, 8, 16, 6, None)]);
}

#[test]
fn calendar_rows_roll_over_to_the_next_year() {
  assert_eq!(
    calendar_rows(2024, 12, 0, 60, true),
    vec![
      row(2024, 0, 12, 3, 6, Some(13)),
      row(2025, 0, 12, 15, 6, Some(25)),
      row(2026, 0, 12, 27, 6, Some(37)),
      row(2027, 0, 12, 39, 6, Some(49)),
      row(2028, 0, 12, 51, 6, None),
    ]
  );
}

#[test]
fn today_wins_over_a_dated_style() {
  let dates = vec![(2024, 5, 1), (2024, 5, 2), (2024, 5, 1)];
  assert_eq!(day_style(&dates, (2024, 5, 1), (2024, 5, 1)), DayStyle::Today);
  assert_eq!(day_style(&dates, (2024, 5, 1), (2024, 6, 1)), DayStyle::Dated(0));
  assert_eq!(day_style(&dates, (2024, 5, 2), (2024, 6, 1)), DayStyle::Dated(1));
  assert_eq!(day_style(&dates, (2024, 5, 3), (2024, 6, 1)), DayStyle::Plain);
}
