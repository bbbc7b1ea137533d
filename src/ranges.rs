//! Date windows for the statistics endpoints, computed with chrono.
use vstd::prelude::*;
use crate::dates::month_len;
use crate::text::{push_str, zero_padded};

verus! {

/// A calendar date as year, month (1..=12) and day of month.
#[derive(PartialEq, Eq, Structural, Clone, Copy, Debug)]
pub struct CalendarDate {
    pub year: i32,
    pub month: u32,
    pub day: u32,
}

impl CalendarDate {
    pub open spec fn ymd(self) -> (int, int, int) {
        (self.year as int, self.month as int, self.day as int)
    }
}

/// What chrono reads from text with the format `%Y-%m-%d`: the date, or the
/// text of its parse error.
pub uninterp spec fn parsed_ymd(s: Seq<char>) -> Result<(int, int, int), Seq<char>>;

/// Relies on `chrono::NaiveDate::parse_from_str(s, "%Y-%m-%d")`, with the
/// parse error rendered by its `Display`.
#[verifier::external_body]
fn parse_ymd(s: &str) -> (r: Result<CalendarDate, String>)
    ensures
        match r {
            Ok(d) => parsed_ymd(s@) == Ok::<(int, int, int), Seq<char>>(d.ymd()),
            Err(e) => parsed_ymd(s@) == Err::<(int, int, int), Seq<char>>(e@),
        },
{
    match chrono::NaiveDate::parse_from_str(s, "%Y-%m-%d") {
        Ok(d) => Ok(CalendarDate {
            year: chrono::Datelike::year(&d),
            month: chrono::Datelike::month(&d),
            day: chrono::Datelike::day(&d),
        }),
        Err(e) => Err(e.to_string()),
    }
}

/// The date `n` days before `(y, m, d)` as chrono computes it, or `None`
/// when either date is outside chrono's range or the input is no date.
pub uninterp spec fn days_before(y: int, m: int, d: int, n: int) -> Option<(int, int, int)>;

/// Relies on `chrono::NaiveDate::from_ymd_opt` and `checked_sub_days`.
#[verifier::external_body]
fn sub_days(d: CalendarDate, n: u64) -> (r: Option<CalendarDate>)
    ensures
        (match r { Some(x) => Some(x.ymd()), None => None }) == days_before(d.year as int, d.month as int, d.day as int, n as int),
{
    match chrono::NaiveDate::from_ymd_opt(d.year, d.month, d.day) {
        Some(x) => match x.checked_sub_days(chrono::Days::new(n)) {
            Some(y) => Some(CalendarDate {
                year: chrono::Datelike::year(&y),
                month: chrono::Datelike::month(&y),
                day: chrono::Datelike::day(&y),
            }),
            None => None,
        },
        None => None,
    }
}

/// Whether chrono's `NaiveDate::from_ymd_opt` accepts the date: a year
/// within chrono's range, a month 1..=12 and a day within that month.
pub open spec fn valid_ymd(y: int, m: int, d: int) -> bool {
    -262143 <= y <= 262142 && 1 <= m <= 12 && 1 <= d <= month_len(y, m)
}

/// chrono's `%Y`: years 0..=9999 as four digits, other years with their
/// sign and at least four digits.
pub open spec fn year_text(y: int) -> Seq<char> {
    if 0 <= y <= 9999 {
        zero_padded(y as nat, 4)
    } else if y < 0 {
        seq!['-'] + zero_padded((-y) as nat, 4)
    } else {
        seq!['+'] + zero_padded(y as nat, 4)
    }
}

/// The `%Y-%m-%d` text chrono writes for a date, month and day as two
/// digits (empty for no date).
pub open spec fn ymd_text(y: int, m: int, d: int) -> Seq<char> {
    if valid_ymd(y, m, d) {
        year_text(y) + seq!['-'] + zero_padded(m as nat, 2) + seq!['-'] + zero_padded(d as nat, 2)
    } else {
        Seq::empty()
    }
}

/// Relies on `chrono::NaiveDate::from_ymd_opt` and `format("%Y-%m-%d")`.
#[verifier::external_body]
fn format_ymd(d: CalendarDate) -> (r: String)
    ensures
        r@ == ymd_text(d.year as int, d.month as int, d.day as int),
{
    match chrono::NaiveDate::from_ymd_opt(d.year, d.month, d.day) {
        Some(x) => x.format("%Y-%m-%d").to_string(),
        None => String::new(),
    }
}

/// Relies on `chrono::Local::now().date_naive()`: today in the machine's
/// time zone (nothing is known of its value).
#[verifier::external_body]
fn local_date() -> (r: CalendarDate) {
    let x = chrono::Local::now().date_naive();
    CalendarDate {
        year: chrono::Datelike::year(&x),
        month: chrono::Datelike::month(&x),
        day: chrono::Datelike::day(&x),
    }
}

/// Whether `a` is a later day than `b`.
pub open spec fn later(a: (int, int, int), b: (int, int, int)) -> bool {
    a.0 > b.0 || (a.0 == b.0 && (a.1 > b.1 || (a.1 == b.1 && a.2 > b.2)))
}

fn is_later(a: CalendarDate, b: CalendarDate) -> (r: bool)
    ensures
        r == later(a.ymd(), b.ymd()),
{
    a.year > b.year || (a.year == b.year && (a.month > b.month || (a.month == b.month && a.day > b.day)))
}

pub open spec fn bad_date(field: Seq<char>, detail: Seq<char>) -> Seq<char> {
    "Invalid "@ + field + ", expected YYYY-MM-DD: "@ + detail
}

pub open spec fn out_of_range() -> Seq<char> {
    "end_date is out of range"@
}

/// The inclusive window `[start, end]` a statistics request covers: the end
/// defaults to `today`, the start to six days before the end; both must
/// parse as `YYYY-MM-DD` and the start must not be later than the end.
pub open spec fn focus_range(
    start: Option<Seq<char>>,
    end: Option<Seq<char>>,
    today: (int, int, int),
) -> Result<(Seq<char>, Seq<char>), Seq<char>> {
    let e = match end {
        Some(s) => match parsed_ymd(s) {
            Ok(d) => Ok(d),
            Err(m) => Err(bad_date("end_date"@, m)),
        },
        None => Ok(today),
    };
    match e {
        Err(m) => Err(m),
        Ok(ed) => {
            let st = match start {
                Some(s) => match parsed_ymd(s) {
                    Ok(d) => Ok(d),
                    Err(m) => Err(bad_date("start_date"@, m)),
                },
                None => match days_before(ed.0, ed.1, ed.2, 6) {
                    Some(d) => Ok(d),
                    None => Err(out_of_range()),
                },
            };
            match st {
                Err(m) => Err(m),
                Ok(sd) => if later(sd, ed) {
                    Err("start_date 不能晚于 end_date"@)
                } else {
                    Ok((ymd_text(sd.0, sd.1, sd.2), ymd_text(ed.0, ed.1, ed.2)))
                },
            }
        },
    }
}

pub open spec fn opt_seq(o: Option<&str>) -> Option<Seq<char>> {
    match o {
        Some(s) => Some(s@),
        None => None,
    }
}

pub open spec fn result_view(r: Result<(String, String), String>) -> Result<(Seq<char>, Seq<char>), Seq<char>> {
    match r {
        Ok(p) => Ok((p.0@, p.1@)),
        Err(e) => Err(e@),
    }
}

fn date_error(field: &str, detail: String) -> (r: String)
    ensures
        r@ == bad_date(field@, detail@),
{
    let mut out = String::from_str("Invalid ");
    push_str(&mut out, field);
    push_str(&mut out, ", expected YYYY-MM-DD: ");
    push_str(&mut out, detail.as_str());
    out
}

/// Resolves a statistics window, with `today` standing in for the clock.
pub fn resolve_focus_range_at(
    start_date: Option<&str>,
    end_date: Option<&str>,
    today: CalendarDate,
) -> (r: Result<(String, String), String>)
    ensures
        result_view(r) == focus_range(opt_seq(start_date), opt_seq(end_date), today.ymd()),
{
    let end = match end_date {
        Some(s) => match parse_ymd(s) {
            Ok(d) => d,
            Err(m) => return Err(date_error("end_date", m)),
        },
        None => today,
    };
    let start = match start_date {
        Some(s) => match parse_ymd(s) {
            Ok(d) => d,
            Err(m) => return Err(date_error("start_date", m)),
        },
        None => match sub_days(end, 6) {
            Some(d) => d,
            None => return Err(String::from_str("end_date is out of range")),
        },
    };
    if is_later(start, end) {
        return Err(String::from_str("start_date 不能晚于 end_date"));
    }
    Ok((format_ymd(start), format_ymd(end)))
}

/// Resolves a statistics window; a missing end means today (local time).
pub fn resolve_focus_range(start_date: Option<&str>, end_date: Option<&str>) -> (r: Result<(String, String), String>)
    ensures
        exists|today: CalendarDate| result_view(r) == #[trigger] focus_range(opt_seq(start_date), opt_seq(end_date), today.ymd()),
{
    let today = local_date();
    resolve_focus_range_at(start_date, end_date, today)
}

/// The seven-day window ending at `end_date`.
pub fn resolve_week_window(end_date: &str) -> (r: Result<(String, String), String>)
    ensures
        forall|today: CalendarDate| result_view(r) == #[trigger] focus_range(None, Some(end_date@), today.ymd()),
{
    let end = match parse_ymd(end_date) {
        Ok(d) => d,
        Err(m) => return Err(date_error("end_date", m)),
    };
    let start = match sub_days(end, 6) {
        Some(d) => d,
        None => return Err(String::from_str("end_date is out of range")),
    };
    if is_later(start, end) {
        return Err(String::from_str("start_date 不能晚于 end_date"));
    }
    Ok((format_ymd(start), format_ymd(end)))
}

} // verus!
