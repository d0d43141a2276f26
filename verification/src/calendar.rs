//! Calendar date math and view computation.
//!
//! Month and week grids, month navigation, and the labels the calendar
//! views show.

use vstd::prelude::*;
use vstd::string::StringSliceAdditionalSpecFns;

use crate::datetime::{
    day_in_range, day_number, days_in_month, lemma_day_number_injective, lemma_day_number_order,
    lemma_day_span, lemma_month_step, lemma_valid_in_range, local_today, Date, Weekday, MAX_YEAR, MIN_YEAR,
};
use crate::text::{
    fmt_decimal, fmt_pad2, lemma_padded_two_digits, lowercase, nat_digits, str_lowercase, two_digits,
};

verus! {

/// Which day of the week the calendar starts on.
#[derive(Clone, Copy, Debug, PartialEq, Eq, Structural)]
pub enum WeekStart {
    Monday,
    Sunday,
}

impl WeekStart {
    /// Days since Monday of the first day of the week.
    pub open spec fn first_index(self) -> int {
        match self {
            WeekStart::Monday => 0,
            WeekStart::Sunday => 6,
        }
    }

    /// Parse from a config string: "sunday" in any case gives `Sunday`,
    /// anything else `Monday`.
    pub fn from_str(s: &str) -> (r: Self)
        ensures
            r == (if str_lowercase(s@) == "sunday"@ {
                WeekStart::Sunday
            } else {
                WeekStart::Monday
            }),
    {
        let l = lowercase(s);
        if l == String::from_str("sunday") {
            WeekStart::Sunday
        } else {
            WeekStart::Monday
        }
    }

    /// The first day of the week.
    pub fn weekday(self) -> (r: Weekday)
        ensures
            r.index() == self.first_index(),
    {
        match self {
            WeekStart::Monday => Weekday::Mon,
            WeekStart::Sunday => Weekday::Sun,
        }
    }
}

/// The current calendar view mode.
#[derive(Clone, Copy, Debug, PartialEq, Eq, Structural)]
pub enum ViewMode {
    Month,
    Week,
    Day,
}

impl ViewMode {
    pub open spec fn spec_next(self) -> ViewMode {
        match self {
            ViewMode::Month => ViewMode::Week,
            ViewMode::Week => ViewMode::Day,
            ViewMode::Day => ViewMode::Month,
        }
    }

    /// Cycle to the next view mode: Month, Week, Day, Month, ...
    pub fn next(self) -> (r: Self)
        ensures
            r == self.spec_next(),
    {
        match self {
            ViewMode::Month => ViewMode::Week,
            ViewMode::Week => ViewMode::Day,
            ViewMode::Day => ViewMode::Month,
        }
    }
}

/// Three steps of `ViewMode::next` lead back to the starting mode, and no
/// fewer do.
pub proof fn lemma_view_mode_cycle(v: ViewMode)
    ensures
        v.spec_next().spec_next().spec_next() == v,
        v.spec_next() != v,
        v.spec_next().spec_next() != v,
{
}

/// A cell in the month grid.
#[derive(Clone, Copy, Debug, PartialEq, Eq, Structural)]
pub struct DayCell {
    /// The date this cell represents.
    pub date: Date,
    /// Whether this date is in the currently displayed month.
    pub in_current_month: bool,
    /// Whether this date is today.
    pub is_today: bool,
}

/// Day number of the first grid cell: the week-start day on or before the
/// first of the month.
pub open spec fn grid_start_num(year: int, month: int, ws: WeekStart) -> int {
    week_start_num(day_number(year, month, 1), ws)
}

/// Number of weeks in the month grid: rows until the last of the month is covered.
pub open spec fn grid_week_count(year: int, month: int, ws: WeekStart) -> int {
    (day_number(year, month, days_in_month(year, month)) - grid_start_num(year, month, ws)) / 7
        + 1
}

/// The inputs for which the month grid exists: a valid month whose grid,
/// and the first day of the following month, lie within the supported range.
pub open spec fn month_grid_fits(year: int, month: int, ws: WeekStart) -> bool {
    &&& 1 <= month <= 12
    &&& MIN_YEAR <= year <= MAX_YEAR
    &&& !(year == MAX_YEAR && month == 12)
    &&& day_in_range(grid_start_num(year, month, ws))
}

/// What the cell at grid position `n` (counting from the grid start) holds.
pub open spec fn cell_ok(c: DayCell, n: int, year: int, month: int, today: Date) -> bool {
    &&& c.date.wf()
    &&& c.date.num() == n
    &&& c.in_current_month == (c.date.month == month && c.date.year == year)
    &&& c.is_today == (c.date == today)
}

/// Whether the grid holds the date `d` of the month, marked as in the month.
pub open spec fn grid_has_day(weeks: Seq<Vec<DayCell>>, year: i32, month: u32, d: int) -> bool {
    exists|i: int, j: int|
        0 <= i < weeks.len() && 0 <= j < 7 && #[trigger] weeks[i]@[j].date == (Date {
            year,
            month,
            day: d as u32,
        }) && weeks[i]@[j].in_current_month
}

/// Whether the month grid of `year`/`month` exists (see `month_grid_fits`).
pub fn grid_fits(year: i32, month: u32, week_start: WeekStart) -> (r: bool)
    ensures
        r == month_grid_fits(year as int, month as int, week_start),
{
    if month < 1 || month > 12 || year < MIN_YEAR || year > MAX_YEAR || (year == MAX_YEAR && month
        == 12) {
        return false;
    }
    let first = Date { year, month, day: 1 };
    assert(first.wf()) by {
        crate::datetime::lemma_year_length(year as int);
    }
    week_start_date(first, week_start).is_some()
}

/// Compute the month grid for a given year/month, marking today's date:
/// the local date that a call of `local_today` returns during the call.
///
/// Returns a vector of weeks, each containing 7 `DayCell`s, the dates
/// following each other from the week-start day on or before the first of
/// the month until the week that holds the last of the month.
pub fn month_grid(year: i32, month: u32, week_start: WeekStart) -> (weeks: Vec<Vec<DayCell>>)
    requires
        month_grid_fits(year as int, month as int, week_start),
    ensures
        weeks@.len() == grid_week_count(year as int, month as int, week_start),
        forall|i: int| 0 <= i < weeks@.len() ==> (#[trigger] weeks@[i])@.len() == 7,
        forall|i: int, j: int|
            0 <= i < weeks@.len() && 0 <= j < 7 ==> {
                let c = #[trigger] weeks@[i]@[j];
                &&& c.date.wf()
                &&& c.date.num() == grid_start_num(year as int, month as int, week_start) + 7 * i
                    + j
                &&& c.in_current_month == (c.date.month == month && c.date.year == year)
            },
        exists|today: Date|
            call_ensures(local_today, (), today) && today.wf() && forall|i: int, j: int|
                0 <= i < weeks@.len() && 0 <= j < 7 ==> cell_ok(
                    #[trigger] weeks@[i]@[j],
                    grid_start_num(year as int, month as int, week_start) + 7 * i + j,
                    year as int,
                    month as int,
                    today,
                ),
        forall|d: int|
            1 <= d <= days_in_month(year as int, month as int) ==> #[trigger] grid_has_day(
                weeks@,
                year,
                month,
                d,
            ),
{
    let today = local_today();
    month_grid_on(year, month, week_start, today)
}

/// The month grid as `month_grid` computes it, with `today` given.
pub fn month_grid_on(year: i32, month: u32, week_start: WeekStart, today: Date) -> (weeks: Vec<
    Vec<DayCell>,
>)
    requires
        month_grid_fits(year as int, month as int, week_start),
        today.wf(),
    ensures
        weeks@.len() == grid_week_count(year as int, month as int, week_start),
        1 <= weeks@.len() <= 6,
        forall|i: int| 0 <= i < weeks@.len() ==> (#[trigger] weeks@[i])@.len() == 7,
        forall|i: int, j: int|
            0 <= i < weeks@.len() && 0 <= j < 7 ==> cell_ok(
                #[trigger] weeks@[i]@[j],
                grid_start_num(year as int, month as int, week_start) + 7 * i + j,
                year as int,
                month as int,
                today,
            ),
        weeks@[0]@[0].date.weekday_index() == week_start.first_index(),
        forall|d: int|
            1 <= d <= days_in_month(year as int, month as int) ==> #[trigger] grid_has_day(
                weeks@,
                year,
                month,
                d,
            ),
{
    let ghost y = year as int;
    let ghost m = month as int;
    let ghost start = grid_start_num(y, m, week_start);
    let ghost f = day_number(y, m, 1);
    let ghost w = week_start.first_index();
    let ghost last_num = day_number(y, m, days_in_month(y, m));
    let first = match Date::from_ymd(year, month, 1) {
        Some(d) => d,
        None => {
            return Vec::new();
        },
    };
    let last = last_day_of_month(year, month);
    proof {
        lemma_valid_in_range(first);
        lemma_valid_in_range(last);
        lemma_day_span(first, last);
    }
    let grid_start = week_start_on_or_before(first, week_start);
    assert(grid_start.num() == start);
    proof {
        lemma_grid_fits_end(y, m, week_start);
    }
    let mut weeks: Vec<Vec<DayCell>> = Vec::new();
    let mut current = grid_start;
    let mut w_count: usize = 0;
    let mut done = false;
    while w_count < 6 && !done
        invariant
            w_count <= 6,
            weeks@.len() == w_count,
            current.wf(),
            last.wf(),
            last.num() == last_num,
            current.num() == start + 7 * w_count,
            today.wf(),
            start <= f <= last_num,
            last_num - start <= 36,
            day_in_range(last_num + 7),
            day_in_range(start),
            done ==> w_count >= 1 && start + 7 * (w_count - 1) <= last_num < start + 7 * w_count,
            !done ==> start + 7 * w_count <= last_num,
            forall|i: int| 0 <= i < weeks@.len() ==> (#[trigger] weeks@[i])@.len() == 7,
            forall|i: int, j: int|
                0 <= i < weeks@.len() && 0 <= j < 7 ==> cell_ok(
                    #[trigger] weeks@[i]@[j],
                    start + 7 * i + j,
                    year as int,
                    month as int,
                    today,
                ),
        decreases 6 - w_count,
    {
        let mut week: Vec<DayCell> = Vec::with_capacity(7);
        let mut d: usize = 0;
        while d < 7
            invariant
                d <= 7,
                week@.len() == d,
                current.wf(),
                current.num() == start + 7 * w_count + d,
                start + 7 * w_count <= last_num,
                day_in_range(last_num + 7),
                day_in_range(start),
                today.wf(),
                forall|j: int|
                    0 <= j < d ==> cell_ok(
                        #[trigger] week@[j],
                        start + 7 * w_count + j,
                        year as int,
                        month as int,
                        today,
                    ),
            decreases 7 - d,
        {
            week.push(
                DayCell {
                    date: current,
                    in_current_month: current.month == month && current.year == year,
                    is_today: current == today,
                },
            );
            current = match current.checked_add_days(1) {
                Some(c) => c,
                None => {
                    return Vec::new();
                },
            };
            d += 1;
        }
        weeks.push(week);
        w_count += 1;
        if last.lt(&current) {
            done = true;
        }
    }
    proof {
        assert(weeks@.len() == (last_num - start) / 7 + 1);
        assert forall|d: int| 1 <= d <= days_in_month(y, m) implies #[trigger] grid_has_day(
            weeks@,
            year,
            month,
            d,
        ) by {
            let target_date = Date { year, month, day: d as u32 };
            let k = target_date.num() - start;
            assert(target_date.wf());
            if d > 1 {
                lemma_day_number_order(first, target_date);
            }
            if d < days_in_month(y, m) {
                lemma_day_number_order(target_date, last);
            }
            let i = k / 7;
            let j = k % 7;
            assert(0 <= i < weeks@.len());
            assert(cell_ok(weeks@[i]@[j], start + 7 * i + j, y, m, today));
            lemma_day_number_injective(weeks@[i]@[j].date, target_date);
            assert(weeks@[i]@[j].date == target_date);
        }
    }
    weeks
}

/// The week-start day on or before `date`.
fn week_start_on_or_before(date: Date, week_start: WeekStart) -> (r: Date)
    requires
        date.wf(),
        day_in_range(week_start_num(date.num(), week_start)),
    ensures
        r.wf(),
        r.num() == week_start_num(date.num(), week_start),
        r.weekday_index() == week_start.first_index(),
{
    let ghost f = date.num();
    let ghost w = week_start.first_index();
    let ghost start = week_start_num(f, week_start);
    proof {
        lemma_valid_in_range(date);
    }
    let target = week_start.weekday();
    let mut s = date;
    while s.weekday() != target
        invariant
            s.wf(),
            f == date.num(),
            start == f - (f - w) % 7,
            0 <= w <= 6,
            day_in_range(start),
            day_in_range(f),
            target.index() == w,
            (f - s.num()) + (s.num() - w) % 7 == (f - w) % 7,
            s.num() <= f,
        decreases (s.num() - w) % 7,
    {
        let ghost old_num = s.num();
        assert((old_num - w) % 7 != 0);
        assert((old_num - 1 - w) % 7 == (old_num - w) % 7 - 1);
        s = match s.checked_add_days(-1) {
            Some(d) => d,
            None => {
                return s;
            },
        };
    }
    assert((f - (f - w) % 7) % 7 == w % 7);
    s
}

/// The end of a fitting month grid lies within the supported range.
proof fn lemma_grid_fits_end(year: int, month: int, ws: WeekStart)
    requires
        month_grid_fits(year, month, ws),
    ensures
        day_in_range(day_number(year, month, days_in_month(year, month)) + 7),
        day_number(year, month, days_in_month(year, month)) - grid_start_num(year, month, ws)
            <= 36,
        grid_start_num(year, month, ws) <= day_number(year, month, 1),
{
    let last = Date { year: year as i32, month: month as u32, day: days_in_month(year, month) as u32 };
    let first = Date { year: year as i32, month: month as u32, day: 1 };
    lemma_valid_in_range(first);
    lemma_valid_in_range(last);
    if days_in_month(year, month) > 1 {
        lemma_day_number_order(first, last);
    }
    lemma_day_span(first, last);
    let stop = Date { year: MAX_YEAR, month: 12, day: 24 };
    lemma_day_number_order(last, stop);
    lemma_valid_in_range(stop);
    lemma_day_span(stop, Date { year: MAX_YEAR, month: 12, day: 31 });
}

/// Get the last day of a given month.
pub fn last_day_of_month(year: i32, month: u32) -> (r: Date)
    requires
        month <= 12,
        MIN_YEAR <= year <= MAX_YEAR,
        !(year == MAX_YEAR && month == 12),
        month == 0 ==> year > MIN_YEAR,
    ensures
        r.wf(),
        month >= 1 ==> r == (Date {
            year,
            month,
            day: days_in_month(year as int, month as int) as u32,
        }),
        month == 0 ==> r == (Date { year: (year - 1) as i32, month: 12, day: 31 }),
{
    let ghost expected = if month == 0 {
        Date { year: (year - 1) as i32, month: 12, day: 31 }
    } else {
        Date { year, month, day: days_in_month(year as int, month as int) as u32 }
    };
    proof {
        if month == 0 {
            lemma_month_step(year - 1, 12);
        } else {
            lemma_month_step(year as int, month as int);
        }
    }
    let next_first = if month == 12 {
        Date::from_ymd(year + 1, 1, 1)
    } else {
        Date::from_ymd(year, month + 1, 1)
    };
    match next_first {
        Some(n) => {
            proof {
                lemma_valid_in_range(n);
                lemma_valid_in_range(expected);
            }
            match n.checked_add_days(-1) {
                Some(r) => {
                    proof {
                        lemma_day_number_injective(r, expected);
                    }
                    r
                },
                None => n,
            }
        },
        None => Date { year, month, day: 1 },
    }
}

/// Day number of the first of the week that holds day number `n`.
pub open spec fn week_start_num(n: int, ws: WeekStart) -> int {
    n - (n - ws.first_index()) % 7
}

/// The inputs for which `week_dates` exists: the week lies within the
/// supported range.
pub open spec fn week_fits(date: Date, ws: WeekStart) -> bool {
    &&& date.wf()
    &&& day_in_range(week_start_num(date.num(), ws))
    &&& day_in_range(week_start_num(date.num(), ws) + 6)
}

/// The first day of the week holding `date`; `None` when it falls outside
/// the supported range.
pub fn week_start_date(date: Date, week_start: WeekStart) -> (r: Option<Date>)
    requires
        date.wf(),
    ensures
        r is Some <==> day_in_range(week_start_num(date.num(), week_start)),
        r matches Some(d) ==> d.wf() && d.num() == week_start_num(date.num(), week_start),
{
    let wd = date.weekday().num_days_from_monday();
    let first: u32 = match week_start {
        WeekStart::Monday => 0,
        WeekStart::Sunday => 6,
    };
    let off = (wd + 7 - first) % 7;
    proof {
        let n = date.num();
        let q = n / 7;
        vstd::arithmetic::div_mod::lemma_fundamental_div_mod(n, 7);
        assert(wd == n % 7);
        assert(7 * (q - 1) + (wd + 7 - first) == n - first);
        vstd::arithmetic::div_mod::lemma_mod_multiples_vanish(q - 1, wd + 7 - first, 7);
        assert(off == (n - week_start.first_index()) % 7);
    }
    date.checked_add_days(-(off as i64))
}

/// Whether the week holding `date` lies within the supported range (see
/// `week_fits`).
pub fn fits_week(date: Date, week_start: WeekStart) -> (r: bool)
    requires
        date.wf(),
    ensures
        r == week_fits(date, week_start),
{
    match week_start_date(date, week_start) {
        Some(s) => s.checked_add_days(6).is_some(),
        None => false,
    }
}

/// Get the week dates (7 days) containing the given date, starting on the
/// week-start day.
pub fn week_dates(date: Date, week_start: WeekStart) -> (r: Vec<Date>)
    requires
        week_fits(date, week_start),
    ensures
        r@.len() == 7,
        forall|i: int|
            0 <= i < 7 ==> (#[trigger] r@[i]).wf() && r@[i].num() == week_start_num(
                date.num(),
                week_start,
            ) + i,
        r@[0].weekday_index() == week_start.first_index(),
{
    let ghost start = week_start_num(date.num(), week_start);
    let s = week_start_on_or_before(date, week_start);
    let mut r: Vec<Date> = Vec::new();
    let mut i: i64 = 0;
    while i < 7
        invariant
            0 <= i <= 7,
            r@.len() == i,
            s.wf(),
            s.num() == start,
            day_in_range(start),
            day_in_range(start + 6),
            forall|k: int| 0 <= k < i ==> (#[trigger] r@[k]).wf() && r@[k].num() == start + k,
        decreases 7 - i,
    {
        match s.checked_add_days(i) {
            Some(d) => r.push(d),
            None => {
                return Vec::new();
            },
        }
        i += 1;
    }
    assert(r@[0].num() == s.num());
    proof {
        lemma_day_number_injective(r@[0], s);
    }
    r
}

/// Three-letter name of the day of the week with index `i` (Mon = 0).
pub open spec fn weekday_abbrev(i: int) -> Seq<char> {
    if i == 0 {
        "Mon"@
    } else if i == 1 {
        "Tue"@
    } else if i == 2 {
        "Wed"@
    } else if i == 3 {
        "Thu"@
    } else if i == 4 {
        "Fri"@
    } else if i == 5 {
        "Sat"@
    } else {
        "Sun"@
    }
}

/// Column headers for the week, starting on the week-start day.
pub fn weekday_headers(week_start: WeekStart) -> (r: Vec<&'static str>)
    ensures
        r@.len() == 7,
        forall|i: int|
            0 <= i < 7 ==> (#[trigger] r@[i])@ == weekday_abbrev(
                (week_start.first_index() + i) % 7,
            ),
{
    match week_start {
        WeekStart::Monday => vec!["Mon", "Tue", "Wed", "Thu", "Fri", "Sat", "Sun"],
        WeekStart::Sunday => vec!["Sun", "Mon", "Tue", "Wed", "Thu", "Fri", "Sat"],
    }
}

/// Month number of a (year, month) pair, counting months since year 0.
pub open spec fn month_index(year: int, month: int) -> int {
    year * 12 + (month - 1)
}

/// Navigate to the previous month.
pub fn prev_month(year: i32, month: u32) -> (r: (i32, u32))
    requires
        month >= 1,
        month == 1 ==> year > i32::MIN,
    ensures
        month == 1 ==> r.0 == year - 1 && r.1 == 12,
        month != 1 ==> r.0 == year && r.1 == month - 1,
{
    if month == 1 {
        (year - 1, 12)
    } else {
        (year, month - 1)
    }
}

/// Navigate to the next month.
pub fn next_month(year: i32, month: u32) -> (r: (i32, u32))
    requires
        month == 12 ==> year < i32::MAX,
        month != 12 ==> month < u32::MAX,
    ensures
        month == 12 ==> r.0 == year + 1 && r.1 == 1,
        month != 12 ==> r.0 == year && r.1 == month + 1,
{
    if month == 12 {
        (year + 1, 1)
    } else {
        (year, month + 1)
    }
}

/// Stepping to the next month and back returns to the same month; so does
/// stepping back and forward; and each step moves by exactly one month.
pub proof fn lemma_month_navigation_inverse(year: i32, month: u32)
    requires
        1 <= month <= 12,
        i32::MIN < year < i32::MAX,
    ensures
        ({
            let (y, m) = if month == 12 {
                (year + 1, 1int)
            } else {
                (year as int, month + 1)
            };
            let (y2, m2) = if m == 1 {
                (y - 1, 12int)
            } else {
                (y, m - 1)
            };
            y2 == year && m2 == month && month_index(y, m) == month_index(year as int, month as int)
                + 1
        }),
        ({
            let (y, m) = if month == 1 {
                (year - 1, 12int)
            } else {
                (year as int, month - 1)
            };
            let (y2, m2) = if m == 12 {
                (y + 1, 1int)
            } else {
                (y, m + 1)
            };
            y2 == year && m2 == month && month_index(y, m) == month_index(year as int, month as int)
                - 1
        }),
{
}

/// English name of month `m` (1..=12), "Unknown" otherwise.
pub open spec fn month_name_spec(m: int) -> Seq<char> {
    if m == 1 {
        "January"@
    } else if m == 2 {
        "February"@
    } else if m == 3 {
        "March"@
    } else if m == 4 {
        "April"@
    } else if m == 5 {
        "May"@
    } else if m == 6 {
        "June"@
    } else if m == 7 {
        "July"@
    } else if m == 8 {
        "August"@
    } else if m == 9 {
        "September"@
    } else if m == 10 {
        "October"@
    } else if m == 11 {
        "November"@
    } else if m == 12 {
        "December"@
    } else {
        "Unknown"@
    }
}

/// Month name from number.
pub fn month_name(month: u32) -> (r: &'static str)
    ensures
        r@ == month_name_spec(month as int),
{
    match month {
        1 => "January",
        2 => "February",
        3 => "March",
        4 => "April",
        5 => "May",
        6 => "June",
        7 => "July",
        8 => "August",
        9 => "September",
        10 => "October",
        11 => "November",
        12 => "December",
        _ => "Unknown",
    }
}

/// The hour on a 12-hour clock (12, 1, ..., 11, 12, 1, ..., 11).
pub open spec fn hour12(h: int) -> int {
    if h == 0 {
        12
    } else if h > 12 {
        h - 12
    } else {
        h
    }
}

/// Label of hour `h` (0..24) in the time column.
pub open spec fn hour_label(h: int, use_24h: bool) -> Seq<char> {
    if use_24h {
        two_digits(h) + ":00"@
    } else {
        nat_digits(hour12(h) as nat) + ":00 "@ + (if h < 12 {
            "AM"@
        } else {
            "PM"@
        })
    }
}

/// Hours for time slot rendering (0..24): "HH:00" on a 24-hour clock,
/// "h:00 AM"/"h:00 PM" on a 12-hour clock.
pub fn hour_labels(use_24h: bool) -> (r: Vec<String>)
    ensures
        r@.len() == 24,
        forall|h: int| 0 <= h < 24 ==> (#[trigger] r@[h])@ == hour_label(h, use_24h),
{
    let mut r: Vec<String> = Vec::new();
    let mut h: u32 = 0;
    while h < 24
        invariant
            h <= 24,
            r@.len() == h,
            forall|k: int| 0 <= k < h ==> (#[trigger] r@[k])@ == hour_label(k, use_24h),
        decreases 24 - h,
    {
        let label = if use_24h {
            proof {
                lemma_padded_two_digits(h as nat);
            }
            let mut s = fmt_pad2(h);
            s.append(":00");
            s
        } else {
            let period = if h < 12 {
                "AM"
            } else {
                "PM"
            };
            let h12: u32 = if h == 0 {
                12
            } else if h > 12 {
                h - 12
            } else {
                h
            };
            let mut s = fmt_decimal(h12 as i64);
            s.append(":00 ");
            s.append(period);
            s
        };
        r.push(label);
        h += 1;
    }
    r
}

/// Sum of the bytes of `s`.
pub open spec fn byte_sum(s: Seq<u8>) -> int
    decreases s.len(),
{
    if s.len() == 0 {
        0
    } else {
        byte_sum(s.drop_last()) + s.last()
    }
}

/// Which of `palette_len` event colors a calendar gets: the sum of the
/// bytes of its name, wrapping at 2^32, modulo the number of colors. The same
/// name always gets the same color.
pub fn event_color_index(calendar: &str, palette_len: usize) -> (r: usize)
    requires
        palette_len > 0,
    ensures
        r == (byte_sum(calendar.spec_bytes()) % 0x1_0000_0000) % (palette_len as int),
        r < palette_len,
{
    let bytes = calendar.as_bytes();
    let n = bytes.len();
    let mut hash: u32 = 0;
    let mut i: usize = 0;
    while i < n
        invariant
            n == bytes@.len(),
            bytes@ == calendar.spec_bytes(),
            i <= n,
            hash == byte_sum(bytes@.take(i as int)) % 0x1_0000_0000,
        decreases n - i,
    {
        let b = bytes[i];
        proof {
            assert(bytes@.take(i + 1).drop_last() =~= bytes@.take(i as int));
            assert(bytes@.take(i + 1).last() == b);
            vstd::arithmetic::div_mod::lemma_add_mod_noop(
                byte_sum(bytes@.take(i as int)),
                b as int,
                0x1_0000_0000,
            );
            vstd::arithmetic::div_mod::lemma_small_mod(b as nat, 0x1_0000_0000);
            vstd::arithmetic::div_mod::lemma_mod_twice(
                byte_sum(bytes@.take(i as int)),
                0x1_0000_0000,
            );
        }
        hash = ((hash as u64 + b as u64) % 0x1_0000_0000) as u32;
        i += 1;
    }
    assert(bytes@.take(n as int) =~= bytes@);
    (hash as usize) % palette_len
}

} // verus!
