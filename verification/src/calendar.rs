//! The calendar view: which months go on a row, where the rows start, and the
//! weeks of each month.
use vstd::prelude::*;

use chrono::Datelike;

verus! {

/// The English name of month `m` (1 for January).
pub open spec fn month_name_of(m: int) -> Seq<char> {
    if m == 1 {
        "January"@
    } else if m == 2 {
        "February"@
    } else if m == 3 {
        "March"@
    } else if m == 4 {
        "April"@
    } else if m == 5 {
        "May"@
    } else if m == 6 {
        "June"@
    } else if m == 7 {
        "July"@
    } else if m == 8 {
        "August"@
    } else if m == 9 {
        "September"@
    } else if m == 10 {
        "October"@
    } else if m == 11 {
        "November"@
    } else {
        "December"@
    }
}

/// `chrono::Month::name` of month `m`, which the source spells out.
#[verifier::external_body]
fn month_name(m: u8) -> (r: &'static str)
    requires
        1 <= m <= 12,
    ensures
        r@ == month_name_of(m as int),
{
    match chrono::Month::try_from(m) {
        Ok(month) => month.name(),
        Err(_) => "",
    }
}

/// The number of days from 1970-01-01 to the date `year`-`month`-`day` of
/// the proleptic Gregorian calendar.
pub open spec fn days_from_civil(year: int, month: int, day: int) -> int {
    let y = if month <= 2 {
        year - 1
    } else {
        year
    };
    let era = y / 400;
    let yoe = y - era * 400;
    let mp = if month > 2 {
        month - 3
    } else {
        month + 9
    };
    let doy = (153 * mp + 2) / 5 + day - 1;
    let doe = yoe * 365 + yoe / 4 - yoe / 100 + doy;
    era * 146097 + doe - 719468
}

/// The day of the week of the first of a month, counted from Monday (0).
/// 1970-01-01 was a Thursday.
pub open spec fn weekday_from_monday(year: int, month: int) -> int {
    (days_from_civil(year, month, 1) + 3) % 7
}

/// The day of the week of the first of a month, counted from Monday or from
/// Sunday (0 for that day), where `chrono` can represent the date.
pub open spec fn first_weekday(year: int, month: int, from_monday: bool) -> Option<int> {
    if month_in_range(year, month) {
        if from_monday {
            Some(weekday_from_monday(year, month))
        } else {
            Some((weekday_from_monday(year, month) + 1) % 7)
        }
    } else {
        None
    }
}

/// The first of month `month` of `year` is a date that `chrono` represents:
/// a month from 1 to 12 of a year from -262143 to 262142.
pub open spec fn month_in_range(year: int, month: int) -> bool {
    1 <= month <= 12 && -262143 <= year <= 262142
}

/// A leap year of the proleptic Gregorian calendar.
pub open spec fn is_leap_year(year: int) -> bool {
    year % 4 == 0 && (year % 100 != 0 || year % 400 == 0)
}

/// The number of days of a month (1 to 12) of the proleptic Gregorian
/// calendar.
pub open spec fn days_in_month(year: int, month: int) -> int {
    if month == 2 {
        if is_leap_year(year) {
            29
        } else {
            28
        }
    } else if month == 4 || month == 6 || month == 9 || month == 11 {
        30
    } else {
        31
    }
}

/// The number of days of a month, where `chrono` can represent it.
pub open spec fn month_length(year: int, month: int) -> Option<int> {
    if month_in_range(year, month) {
        Some(days_in_month(year, month))
    } else {
        None
    }
}

/// `chrono::NaiveDate::from_ymd_opt(year, month, 1)` and the
/// `num_days_from_monday` of its weekday: the weekday of that date in the
/// proleptic Gregorian calendar that chrono's dates follow, for the months
/// that chrono represents.
#[verifier::external_body]
fn monday_based_weekday_of(year: i32, month: u32) -> (r: Option<u32>)
    ensures
        if month_in_range(year as int, month as int) {
            r matches Some(x) && x as int == weekday_from_monday(year as int, month as int)
        } else {
            r is None
        },
{
    chrono::NaiveDate::from_ymd_opt(year, month, 1).map(|d| d.weekday().num_days_from_monday())
}

/// The weekday of the first of a month, counted from Monday or from Sunday.
fn first_weekday_of(year: i32, month: u32, from_monday: bool) -> (r: Option<u32>)
    ensures
        match first_weekday(year as int, month as int, from_monday) {
            Some(d) => r matches Some(x) && x as int == d,
            None => r is None,
        },
        r matches Some(x) ==> x < 7,
{
    match monday_based_weekday_of(year, month) {
        Some(x) => if from_monday {
            Some(x)
        } else {
            Some((x + 1) % 7)
        },
        None => None,
    }
}

/// `chrono::NaiveDate::from_ymd_opt(year, month, 1)` and the
/// `num_days_in_month` of that date: the length of the month in the
/// proleptic Gregorian calendar that chrono's dates follow, for the months
/// that chrono represents.
#[verifier::external_body]
fn month_length_of(year: i32, month: u32) -> (r: Option<u32>)
    ensures
        match month_length(year as int, month as int) {
            Some(n) => r matches Some(x) && x as int == n,
            None => r is None,
        },
{
    chrono::NaiveDate::from_ymd_opt(year, month, 1).map(|d| d.num_days_in_month() as u32)
}

/// The names of the twelve months, January first.
pub fn generate_month_names() -> (r: Vec<&'static str>)
    ensures
        r@.len() == 12,
        forall|i: int| 0 <= i < 12 ==> (#[trigger] r@[i])@ == month_name_of(i + 1),
{
    let mut r: Vec<&'static str> = Vec::new();
    let mut m: u8 = 1;
    while m <= 12
        invariant
            1 <= m <= 13,
            r@.len() == m - 1,
            forall|i: int| 0 <= i < r@.len() ==> (#[trigger] r@[i])@ == month_name_of(i + 1),
        decreases 13 - m,
    {
        r.push(month_name(m));
        m = m + 1;
    }
    r
}

/// The day shown in cell `k` of a month laid out in weeks: the month starts
/// in cell `offset` and has `days` days; 0 marks a cell left blank.
pub open spec fn week_cell(offset: int, days: int, k: int) -> int {
    if offset <= k < offset + days {
        k - offset + 1
    } else {
        0
    }
}

/// The number of weeks that a month starting in cell `offset` with `days`
/// days takes.
pub open spec fn week_count(offset: int, days: int) -> int {
    (offset + days + 6) / 7
}

/// The weeks of a month starting in cell `offset`, with `days` days: each
/// week seven cells, each cell its day or 0.
pub fn month_weeks(offset: u32, days: u32) -> (r: Vec<Vec<u32>>)
    requires
        offset < 7,
        days <= 31,
    ensures
        r@.len() == week_count(offset as int, days as int),
        forall|w: int| 0 <= w < r@.len() ==> (#[trigger] r@[w])@.len() == 7,
        forall|w: int, d: int|
            0 <= w < r@.len() && 0 <= d < 7 ==> (#[trigger] r@[w]@[d]) as int == week_cell(
                offset as int,
                days as int,
                7 * w + d,
            ),
{
    let total: u32 = offset + days;
    let mut r: Vec<Vec<u32>> = Vec::new();
    let mut k: u32 = 0;
    while k < total
        invariant
            total == offset + days,
            offset < 7,
            days <= 31,
            k % 7 == 0,
            k == 7 * r@.len(),
            k <= total + 6,
            forall|w: int| 0 <= w < r@.len() ==> (#[trigger] r@[w])@.len() == 7,
            forall|w: int, d: int|
                0 <= w < r@.len() && 0 <= d < 7 ==> (#[trigger] r@[w]@[d]) as int == week_cell(
                    offset as int,
                    days as int,
                    7 * w + d,
                ),
        decreases total + 7 - k,
    {
        let mut week: Vec<u32> = Vec::new();
        let mut d: u32 = 0;
        while d < 7
            invariant
                0 <= d <= 7,
                week@.len() == d,
                k <= total + 6,
                total == offset + days,
                offset < 7,
                days <= 31,
                forall|j: int| 0 <= j < d ==> (#[trigger] week@[j]) as int == week_cell(offset as int, days as int, k + j),
            decreases 7 - d,
        {
            let c = k + d;
            if offset <= c && c < total {
                week.push(c - offset + 1);
            } else {
                week.push(0);
            }
            d = d + 1;
        }
        r.push(week);
        k = k + 7;
    }
    r
}

/// The weeks of a month of a year, as the calendar shows them: weeks that
/// start on Monday or on Sunday; none where chrono cannot represent the
/// month.
pub fn month_grid(year: i32, month: u32, start_on_monday: bool) -> (r: Vec<Vec<u32>>)
    ensures
        match (first_weekday(year as int, month as int, start_on_monday), month_length(year as int, month as int)) {
            (Some(off), Some(n)) => {
                &&& r@.len() == week_count(off, n)
                &&& forall|w: int| 0 <= w < r@.len() ==> (#[trigger] r@[w])@.len() == 7
                &&& forall|w: int, d: int|
                    0 <= w < r@.len() && 0 <= d < 7 ==> (#[trigger] r@[w]@[d]) as int == week_cell(off, n, 7 * w + d)
            },
            _ => r@.len() == 0,
        },
{
    match (first_weekday_of(year, month, start_on_monday), month_length_of(year, month)) {
        (Some(off), Some(n)) => month_weeks(off, n),
        _ => Vec::new(),
    }
}

/// How many months go on a row: the number asked for, unless it is 0 or
/// more than fit in `width` columns (24 columns a month), then as many as fit.
pub fn months_per_row_for(requested: usize, width: u16) -> (r: usize)
    ensures
        r == if requested > width / 8 / 3 || requested == 0 {
            (width / 8 / 3) as usize
        } else {
            requested
        },
        r <= width / 24,
{
    let fit = (width / 8 / 3) as usize;
    if requested > fit || requested == 0 {
        fit
    } else {
        requested
    }
}

/// The column where a row of `months_per_row` months starts, so that the
/// row (21 columns a month and one between) is centred in `width`.
pub fn calendar_start_x(width: u16, months_per_row: usize) -> (r: u16)
    requires
        months_per_row <= width / 24,
    ensures
        r == (width - 22 * months_per_row) / 2,
{
    let m = months_per_row as u16;
    assert(m == months_per_row);
    assert(24 * m <= width);
    let row: u16 = 21 * m;
    let rest: u16 = width - row;
    (rest - m) / 2
}

/// What the calendar shows: a year from a month on, some months to a row,
/// weeks starting on Monday or on Sunday.
pub struct Calendar {
    pub year: i32,
    pub month: u32,
    pub months_per_row: usize,
    pub start_on_monday: bool,
}

impl Calendar {
    /// The calendar of `year` (a year before 0 shows year 0).
    pub fn year(self, year: i32) -> (r: Self)
        ensures
            r == (Calendar { year: if year < 0 { 0 } else { year }, ..self }),
    {
        Calendar { year: if year < 0 { 0 } else { year }, ..self }
    }

    /// The calendar from `month` on.
    pub fn month(self, month: u32) -> (r: Self)
        ensures
            r == (Calendar { month, ..self }),
    {
        Calendar { month, ..self }
    }

    /// The calendar with `months_per_row` months to a row (0: as many as fit).
    pub fn months_per_row(self, months_per_row: usize) -> (r: Self)
        ensures
            r == (Calendar { months_per_row, ..self }),
    {
        Calendar { months_per_row, ..self }
    }

    /// The calendar with weeks that start on Monday, or on Sunday.
    pub fn start_on_monday(self, start_on_monday: bool) -> (r: Self)
        ensures
            r == (Calendar { start_on_monday, ..self }),
    {
        Calendar { start_on_monday, ..self }
    }
}


/// The number of weeks the calendar shows for a month (1 to 12) of a year;
/// none where chrono cannot represent the month.
pub open spec fn grid_weeks(year: int, month: int, from_monday: bool) -> int {
    match (first_weekday(year, month, from_monday), month_length(year, month)) {
        (Some(off), Some(n)) => week_count(off, n),
        _ => 0,
    }
}

/// The most weeks among the months with indexes `start` to `end`
/// (exclusive, counted from 0) of `year`.
pub open spec fn row_weeks(year: int, start: int, end: int, from_monday: bool) -> int
    decreases end - start,
{
    if end <= start {
        0
    } else {
        let rest = row_weeks(year, start, end - 1, from_monday);
        let w = grid_weeks(year, end, from_monday);
        if w > rest {
            w
        } else {
            rest
        }
    }
}

/// One row of months of the calendar: its year, the months from
/// `first_month` to `end_month` (indexes from 0, the end excluded), the line
/// of their names, the number of week lines below the line of weekday
/// names, and the line of the next year's title when one follows the row.
#[derive(Debug, Clone, Copy, PartialEq, Eq)]
pub struct CalendarRow {
    pub year: i32,
    pub first_month: usize,
    pub end_month: usize,
    pub y: u32,
    pub weeks: usize,
    pub next_title: Option<u32>,
}

/// The rows of the calendar from month index `start` of `year` on, the first
/// with its names on line `y`, for an area `height` lines high: each row takes
/// the line of names, the line of weekdays, its weeks and two lines more; no
/// row starts where the one before ends within 8 lines of `height`; after
/// December the next year's title takes a line before the next row, and a
/// blank line separates the rows otherwise.
pub open spec fn layout_rows(year: int, start: int, y: int, per_row: int, height: int, from_monday: bool) -> Seq<
    CalendarRow,
>
    decreases height - y,
{
    let end = if start + per_row >= 12 {
        12
    } else {
        start + per_row
    };
    let w = row_weeks(year, start, end, from_monday);
    let y2 = y + 2 + w + 2;
    let next = start + per_row;
    let last = CalendarRow {
        year: year as i32,
        first_month: start as usize,
        end_month: end as usize,
        y: y as u32,
        weeks: w as usize,
        next_title: None,
    };
    if y2 + 8 > height {
        seq![last]
    } else if next >= 12 {
        seq![CalendarRow { next_title: Some(y2 as u32), ..last }] + layout_rows(
            year + 1,
            0,
            y2 + 2,
            per_row,
            height,
            from_monday,
        )
    } else {
        seq![last] + layout_rows(year, next, y2 + 1, per_row, height, from_monday)
    }
}

proof fn lemma_grid_weeks_bound(year: int, month: int, from_monday: bool)
    ensures
        0 <= grid_weeks(year, month, from_monday) <= 6,
{
    if month_in_range(year, month) {
        let off = first_weekday(year, month, from_monday)->0;
        assert(0 <= off < 7);
        assert(days_in_month(year, month) <= 31);
    }
}

proof fn lemma_row_weeks_bound(year: int, start: int, end: int, from_monday: bool)
    ensures
        0 <= row_weeks(year, start, end, from_monday) <= 6,
    decreases end - start,
{
    if end > start {
        lemma_row_weeks_bound(year, start, end - 1, from_monday);
        lemma_grid_weeks_bound(year, end, from_monday);
    }
}

/// The rows of months that the calendar of `year` draws in an area whose top
/// line is `top` and which is `height` lines high, `per_row` months to a row:
/// the year's title goes on line `top + 1` and the first row of names on
/// line `top + 3`.
pub fn calendar_rows(year: i32, per_row: usize, top: u16, height: u16, start_on_monday: bool) -> (r: Vec<CalendarRow>)
    requires
        year <= i32::MAX - 0x1_0000,
    ensures
        r@ == layout_rows(year as int, 0, top + 3, per_row as int, height as int, start_on_monday),
{
    let mut rows: Vec<CalendarRow> = Vec::new();
    let mut yr: i32 = year;
    let mut start: usize = 0;
    let mut y: u32 = top as u32 + 3;
    let ghost whole = layout_rows(year as int, 0, top + 3, per_row as int, height as int, start_on_monday);
    loop
        invariant
            start < 12,
            year <= yr,
            yr - year <= y,
            y <= 0x1_0000 + 3,
            year <= i32::MAX - 0x1_0000,
            whole == layout_rows(year as int, 0, top + 3, per_row as int, height as int, start_on_monday),
            whole == rows@ + layout_rows(yr as int, start as int, y as int, per_row as int, height as int, start_on_monday),
        decreases height + 0x1_0000 - y,
    {
        let end: usize = if per_row >= 12 - start { 12 } else { start + per_row };
        let mut w: usize = 0;
        let mut m: usize = start;
        while m < end
            invariant
                start <= m <= end <= 12,
                w == row_weeks(yr as int, start as int, m as int, start_on_monday),
                w <= 6,
            decreases end - m,
        {
            let g = month_grid(yr, (m + 1) as u32, start_on_monday);
            proof {
                lemma_grid_weeks_bound(yr as int, m + 1, start_on_monday);
                lemma_row_weeks_bound(yr as int, start as int, m + 1, start_on_monday);
            }
            if g.len() > w {
                w = g.len();
            }
            m += 1;
        }
        let y2: u32 = y + 2 + w as u32 + 2;
        let row = CalendarRow { year: yr, first_month: start, end_month: end, y, weeks: w, next_title: None };
        let ghost rest = layout_rows(yr as int, start as int, y as int, per_row as int, height as int, start_on_monday);
        if y2 + 8 > height as u32 {
            rows.push(row);
            proof {
                assert(rest == seq![row]);
                assert(whole =~= rows@);
            }
            return rows;
        }
        if per_row >= 12 - start {
            let titled = CalendarRow { next_title: Some(y2), ..row };
            let ghost before = rows@;
            rows.push(titled);
            proof {
                assert(rest == seq![titled] + layout_rows(yr + 1, 0, y2 + 2, per_row as int, height as int, start_on_monday));
                assert(whole =~= rows@ + layout_rows(yr + 1, 0, y2 + 2, per_row as int, height as int, start_on_monday));
            }
            yr = yr + 1;
            start = 0;
            y = y2 + 2;
        } else {
            rows.push(row);
            proof {
                assert(rest == seq![row] + layout_rows(yr as int, start + per_row, y2 + 1, per_row as int, height as int, start_on_monday));
                assert(whole =~= rows@ + layout_rows(yr as int, start + per_row, y2 + 1, per_row as int, height as int, start_on_monday));
            }
            start = start + per_row;
            y = y2 + 1;
        }
    }
}

/// How a day of the calendar is styled.
#[derive(Debug, Clone, Copy, PartialEq, Eq)]
pub enum DayStyle {
    /// The plain style.
    Plain,
    /// The style of the dated entry with this index.
    Dated(usize),
    /// Today's style.
    Today,
}

/// The first position of `day` in `dates`.
pub open spec fn first_index_of(dates: Seq<(i32, u32, u32)>, day: (i32, u32, u32)) -> int {
    choose|k: int| 0 <= k < dates.len() && dates[k] == day && forall|j: int| 0 <= j < k ==> dates[j] != day
}

/// Today's style wins; else the first entry of `dates` that is the day; else
/// the plain style.
pub open spec fn day_style_of(dates: Seq<(i32, u32, u32)>, day: (i32, u32, u32), today: (i32, u32, u32)) -> DayStyle {
    if day == today {
        DayStyle::Today
    } else if exists|k: int| 0 <= k < dates.len() && dates[k] == day {
        DayStyle::Dated(first_index_of(dates, day) as usize)
    } else {
        DayStyle::Plain
    }
}

/// The style of `day` (year, month, day) among the dated styles `dates`,
/// `today` being today's date.
pub fn day_style(dates: &Vec<(i32, u32, u32)>, day: (i32, u32, u32), today: (i32, u32, u32)) -> (r: DayStyle)
    ensures
        r == day_style_of(dates@, day, today),
{
    if day.0 == today.0 && day.1 == today.1 && day.2 == today.2 {
        return DayStyle::Today;
    }
    let mut k: usize = 0;
    while k < dates.len()
        invariant
            k <= dates@.len(),
            day != today,
            forall|j: int| 0 <= j < k ==> dates@[j] != day,
        decreases dates.len() - k,
    {
        let d = dates[k];
        if d.0 == day.0 && d.1 == day.1 && d.2 == day.2 {
            proof {
                assert(dates@[k as int] == day);
                assert(0 <= k < dates@.len() && dates@[k as int] == day && forall|j: int| 0 <= j < k ==> dates@[j] != day);
                let c = first_index_of(dates@, day);
                if c < k {
                    assert(dates@[c] != day);
                } else if c > k {
                    assert(dates@[k as int] == day);
                }
                assert(c == k);
                assert(day != today);
            }
            return DayStyle::Dated(k);
        }
        k += 1;
    }
    DayStyle::Plain
}

} // verus!
