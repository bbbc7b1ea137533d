//! Calendar helpers: leap years, civil dates counted from the Unix epoch,
//! and recognizing dates and clock times in free text.
use vstd::prelude::*;
use crate::text::{chars_of, push_char, push_zero_padded, zero_padded};

verus! {

pub open spec fn leap(y: int) -> bool {
    (y % 4 == 0 && y % 100 != 0) || y % 400 == 0
}

/// Gregorian leap-year rule.
pub fn is_leap(y: i32) -> (r: bool)
    ensures
        r == leap(y as int),
{
    (y % 4 == 0 && y % 100 != 0) || y % 400 == 0
}

pub open spec fn year_len(y: int) -> int {
    if leap(y) { 366 } else { 365 }
}

/// Days from 1970-01-01 to January 1st of year `y` (for `y >= 1970`).
pub open spec fn days_to_year(y: int) -> int
    decreases y - 1970,
{
    if y <= 1970 { 0 } else { days_to_year(y - 1) + year_len(y - 1) }
}

pub open spec fn month_len(y: int, m: int) -> int {
    if m == 2 {
        if leap(y) { 29 } else { 28 }
    } else if m == 4 || m == 6 || m == 9 || m == 11 {
        30
    } else {
        31
    }
}

/// Days from January 1st to the first day of month `m` of year `y`.
pub open spec fn days_to_month(y: int, m: int) -> int
    decreases m,
{
    if m <= 1 { 0 } else { days_to_month(y, m - 1) + month_len(y, m - 1) }
}

/// `(y, m, d)` is the civil date `days` days after 1970-01-01.
pub open spec fn is_civil_date(days: int, y: int, m: int, d: int) -> bool {
    &&& y >= 1970
    &&& 1 <= m <= 12
    &&& 1 <= d <= month_len(y, m)
    &&& days == days_to_year(y) + days_to_month(y, m) + d - 1
}

proof fn lemma_year_len_bounds(y: int)
    ensures
        365 <= year_len(y) <= 366,
{
}

proof fn lemma_days_to_month_total(y: int)
    ensures
        days_to_month(y, 13) == year_len(y),
{
    reveal_with_fuel(days_to_month, 13);
}

/// The civil date `days` days after 1970-01-01, as year, month and day.
pub fn civil_from_days(days: u64) -> (r: (u64, u64, u64))
    ensures
        is_civil_date(days as int, r.0 as int, r.1 as int, r.2 as int),
{
    let mut y: u64 = 1970;
    let mut remaining: u64 = days;
    while remaining >= year_len_exec(y)
        invariant
            1970 <= y,
            remaining as int == days as int - days_to_year(y as int),
            days_to_year(y as int) >= 365 * (y - 1970),
        decreases remaining,
    {
        proof {
            lemma_year_len_bounds(y as int);
        }
        remaining = remaining - year_len_exec(y);
        y = y + 1;
    }
    let mut m: u64 = 1;
    while m < 12 && remaining >= month_len_exec(y, m)
        invariant
            1 <= m <= 12,
            0 <= remaining as int + days_to_month(y as int, m as int) < year_len(y as int),
            remaining as int == days as int - days_to_year(y as int) - days_to_month(y as int, m as int),
        decreases 12 - m,
    {
        remaining = remaining - month_len_exec(y, m);
        m = m + 1;
    }
    proof {
        if m == 12 {
            lemma_days_to_month_total(y as int);
        }
    }
    (y, m, remaining + 1)
}

fn year_len_exec(y: u64) -> (r: u64)
    ensures
        r == year_len(y as int),
{
    if is_leap_wide(y) { 366 } else { 365 }
}

fn month_len_exec(y: u64, m: u64) -> (r: u64)
    ensures
        r == month_len(y as int, m as int),
{
    if m == 2 {
        if is_leap_wide(y) { 29 } else { 28 }
    } else if m == 4 || m == 6 || m == 9 || m == 11 {
        30
    } else {
        31
    }
}

fn is_leap_wide(y: u64) -> (r: bool)
    ensures
        r == leap(y as int),
{
    (y % 4 == 0 && y % 100 != 0) || y % 400 == 0
}

/// `YYYY-MM-DD` text of a date, each part zero-padded.
pub open spec fn iso_text(y: nat, m: nat, d: nat) -> Seq<char> {
    zero_padded(y, 4) + seq!['-'] + zero_padded(m, 2) + seq!['-'] + zero_padded(d, 2)
}

/// The UTC date, as `YYYY-MM-DD`, at `secs` seconds after the Unix epoch.
pub fn date_text_from_unix_seconds(secs: u64) -> (r: String)
    ensures
        exists|y: nat, m: nat, d: nat|
            #[trigger] is_civil_date((secs / 86400) as int, y as int, m as int, d as int) && r@ == iso_text(y, m, d),
{
    let (y, m, d) = civil_from_days(secs / 86400);
    let mut out = String::new();
    push_zero_padded(&mut out, y, 4);
    push_char(&mut out, '-');
    push_zero_padded(&mut out, m, 2);
    push_char(&mut out, '-');
    push_zero_padded(&mut out, d, 2);
    assert(out@ =~= iso_text(y as nat, m as nat, d as nat));
    out
}

/// Relies on `SystemTime::now().duration_since(UNIX_EPOCH)`: whole seconds
/// since the Unix epoch, zero for a clock set before it (nothing is known of
/// its value).
#[verifier::external_body]
fn unix_seconds() -> (r: u64) {
    std::time::SystemTime::now()
        .duration_since(std::time::UNIX_EPOCH)
        .unwrap_or_default()
        .as_secs()
}

/// Today's UTC date as `YYYY-MM-DD`, read from the system clock.
pub fn chrono_today() -> (r: String)
    ensures
        exists|s: u64, y: nat, m: nat, d: nat|
            #[trigger] is_civil_date((s / 86400) as int, y as int, m as int, d as int) && r@ == iso_text(y, m, d),
{
    date_text_from_unix_seconds(unix_seconds())
}

pub open spec fn is_digit(c: char) -> bool {
    '0' <= c && c <= '9'
}

/// Whether `s` holds a `DDDD-DD-DD` pattern of ASCII digits at position `i`.
pub open spec fn iso_date_at(s: Seq<char>, i: int) -> bool {
    &&& 0 <= i && i + 10 <= s.len()
    &&& is_digit(s[i]) && is_digit(s[i + 1]) && is_digit(s[i + 2]) && is_digit(s[i + 3])
    &&& s[i + 4] == '-'
    &&& is_digit(s[i + 5]) && is_digit(s[i + 6])
    &&& s[i + 7] == '-'
    &&& is_digit(s[i + 8]) && is_digit(s[i + 9])
}

fn digit_at(s: &Vec<char>, i: usize) -> (r: bool)
    requires
        i < s@.len(),
    ensures
        r == is_digit(s@[i as int]),
{
    '0' <= s[i] && s[i] <= '9'
}

/// The first `DDDD-DD-DD` pattern in `s`, if any.
pub fn extract_iso_date(s: &str) -> (r: Option<String>)
    ensures
        r is None <==> (forall|i: int| !iso_date_at(s@, i)),
        r is Some ==> exists|i: int|
            iso_date_at(s@, i) && r->0@ == s@.subrange(i, i + 10)
            && (forall|j: int| 0 <= j < i ==> !iso_date_at(s@, j)),
{
    let chars = chars_of(s);
    let n = chars.len();
    if n < 10 {
        return None;
    }
    let mut i: usize = 0;
    while i <= n - 10
        invariant
            chars@ == s@,
            n == s@.len(),
            n >= 10,
            i <= n - 9,
            forall|j: int| 0 <= j < i ==> !iso_date_at(s@, j),
        decreases n - i,
    {
        if digit_at(&chars, i) && digit_at(&chars, i + 1) && digit_at(&chars, i + 2)
            && digit_at(&chars, i + 3) && chars[i + 4] == '-' && digit_at(&chars, i + 5)
            && digit_at(&chars, i + 6) && chars[i + 7] == '-' && digit_at(&chars, i + 8)
            && digit_at(&chars, i + 9) {
            let found = s.substring_char(i, i + 10);
            assert(iso_date_at(s@, i as int));
            return Some(String::from_str(found));
        }
        i = i + 1;
    }
    assert forall|j: int| !iso_date_at(s@, j) by {
        if 0 <= j < i {
        }
    }
    None
}

/// The value of a sequence of decimal digits.
pub open spec fn digits_value(s: Seq<char>) -> int
    decreases s.len(),
{
    if s.len() == 0 {
        0
    } else {
        digits_value(s.drop_last()) * 10 + (s.last() as u32 - '0' as u32)
    }
}

/// What `str::parse::<i32>` reads: an optional `+` or `-`, then at least
/// one ASCII digit, with the value within the range of `i32`.
pub open spec fn parsed_i32(s: Seq<char>) -> Option<int> {
    let signed = s.len() > 0 && (s[0] == '-' || s[0] == '+');
    let body = if signed { s.drop_first() } else { s };
    let magnitude = digits_value(body);
    let v = if s.len() > 0 && s[0] == '-' { -magnitude } else { magnitude };
    if body.len() > 0 && (forall|i: int| 0 <= i < body.len() ==> is_digit(body[i]))
        && -2147483648 <= v <= 2147483647 {
        Some(v)
    } else {
        None
    }
}

/// Relies on `str::parse::<i32>`: `i32::from_str_radix` with radix 10.
#[verifier::external_body]
pub(crate) fn parse_i32(s: &str) -> (r: Option<i32>)
    ensures
        (match r { Some(v) => Some(v as int), None => None }) == parsed_i32(s@),
{
    s.parse::<i32>().ok()
}

/// `k` is the position of the only colon in `s`.
pub open spec fn sole_colon_at(s: Seq<char>, k: int) -> bool {
    &&& 0 <= k < s.len()
    &&& s[k] == ':'
    &&& forall|j: int| 0 <= j < s.len() && j != k ==> s[j] != ':'
}

/// Minutes after midnight of an `HH:MM` clock time: exactly one colon, both
/// sides integers, hours 0..=23 and minutes 0..=59.
pub open spec fn clock_minutes(s: Seq<char>) -> Option<int> {
    if exists|k: int| sole_colon_at(s, k) {
        let k = choose|k: int| sole_colon_at(s, k);
        match (parsed_i32(s.subrange(0, k)), parsed_i32(s.subrange(k + 1, s.len() as int))) {
            (Some(h), Some(m)) => if 0 <= h <= 23 && 0 <= m <= 59 { Some(h * 60 + m) } else { None },
            _ => None,
        }
    } else {
        None
    }
}

pub fn parse_clock_minutes(input: &str) -> (r: Option<i32>)
    ensures
        (match r { Some(v) => Some(v as int), None => None }) == clock_minutes(input@),
{
    let n = input.unicode_len();
    let mut k: usize = 0;
    let mut colons: usize = 0;
    let mut i: usize = 0;
    while i < n
        invariant
            n == input@.len(),
            i <= n,
            colons <= i,
            colons == 0 ==> forall|j: int| 0 <= j < i ==> input@[j] != ':',
            colons >= 1 ==> k < i && input@[k as int] == ':',
            colons == 1 ==> forall|j: int| 0 <= j < i && j != k ==> input@[j] != ':',
            colons >= 2 ==> exists|j: int| 0 <= j < i && j != k && input@[j] == ':',
        decreases n - i,
    {
        if input.get_char(i) == ':' {
            if colons == 0 {
                k = i;
            }
            colons = colons + 1;
        }
        i = i + 1;
    }
    if colons != 1 {
        proof {
            if colons >= 2 {
                assert forall|k2: int| !sole_colon_at(input@, k2) by {
                    if sole_colon_at(input@, k2) {
                        let j = choose|j: int| 0 <= j < n && j != k && input@[j] == ':';
                        assert(j == k2);
                        assert(k as int == k2);
                    }
                }
            }
        }
        return None;
    }
    proof {
        assert(sole_colon_at(input@, k as int));
        let c = choose|c: int| sole_colon_at(input@, c);
        assert(c == k as int);
    }
    let hh = match parse_i32(input.substring_char(0, k)) {
        Some(v) => v,
        None => return None,
    };
    let mm = match parse_i32(input.substring_char(k + 1, n)) {
        Some(v) => v,
        None => return None,
    };
    if hh < 0 || hh > 23 || mm < 0 || mm > 59 {
        return None;
    }
    Some(hh * 60 + mm)
}

/// Relies on `chrono::Local::now().format("%Y-%m-%d")`: today's date in the
/// machine's time zone (nothing is known of its value).
#[verifier::external_body]
pub(crate) fn local_today() -> (r: String) {
    chrono::Local::now().format("%Y-%m-%d").to_string()
}

/// Relies on `chrono::Local::now().format("%H-%M-%S")`: the local time of
/// day (nothing is known of its value).
#[verifier::external_body]
pub(crate) fn local_time_part() -> (r: String) {
    chrono::Local::now().format("%H-%M-%S").to_string()
}

} // verus!
