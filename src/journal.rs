//! Daily journal entries stored as markdown files with a front-matter
//! header (`---` line, `key: value` lines, `---` line, then the body).
use vstd::prelude::*;
use crate::model::DailyLog;
use crate::dates::{local_time_part, local_today, parse_i32, parsed_i32};
use crate::handlers::{blank, is_blank, now_iso};
use crate::text::{decimal, push_decimal, chars_of, is_prefix, lemma_split_pieces_nonempty, push_char, push_signed_decimal, push_str, signed_decimal, split_pieces, starts_with, string_views, strip_leading, trim_start_char, trim_str, trimmed};

verus! {

/// Whether `char::is_alphanumeric` holds of `c`.
pub uninterp spec fn alphanumeric(c: char) -> bool;

/// Relies on `char::is_alphanumeric`: the Unicode Alphabetic or Numeric
/// property.
#[verifier::external_body]
fn is_alphanumeric(c: char) -> (r: bool)
    ensures
        r == alphanumeric(c),
{
    c.is_alphanumeric()
}

/// A title character as it appears in a file name: letters, digits, `-` and
/// `_` stay, anything else becomes `-`.
pub open spec fn filename_char(c: char) -> char {
    if alphanumeric(c) || c == '-' || c == '_' { c } else { '-' }
}

/// `s` without its trailing dashes.
pub open spec fn strip_trailing_dashes(s: Seq<char>) -> Seq<char>
    decreases s.len(),
{
    if s.len() > 0 && s.last() == '-' { strip_trailing_dashes(s.drop_last()) } else { s }
}

/// The file-name slug of a title: characters mapped by `filename_char`,
/// dashes trimmed from both ends, at most 24 characters kept.
pub open spec fn title_slug(title: Seq<char>) -> Seq<char> {
    let mapped = title.map_values(|c: char| filename_char(c));
    let stripped = strip_trailing_dashes(strip_leading(mapped, '-'));
    if stripped.len() <= 24 { stripped } else { stripped.subrange(0, 24) }
}

pub fn sanitize_title_for_filename(title: &str) -> (r: String)
    ensures
        r@ == title_slug(title@),
{
    let n = title.unicode_len();
    let mut mapped: Vec<char> = Vec::new();
    let mut i: usize = 0;
    while i < n
        invariant
            n == title@.len(),
            i <= n,
            mapped@ == title@.subrange(0, i as int).map_values(|c: char| filename_char(c)),
        decreases n - i,
    {
        let c = title.get_char(i);
        let keep = is_alphanumeric(c) || c == '-' || c == '_';
        mapped.push(if keep { c } else { '-' });
        i = i + 1;
        assert(mapped@ =~= title@.subrange(0, i as int).map_values(|c: char| filename_char(c)));
    }
    let ghost full = title@.map_values(|c: char| filename_char(c));
    assert(title@.subrange(0, n as int) =~= title@);
    assert(full.subrange(0, n as int) =~= full);
    let mut a: usize = 0;
    while a < n && mapped[a] == '-'
        invariant
            mapped@ == full,
            n == full.len(),
            a <= n,
            strip_leading(full, '-') == strip_leading(full.subrange(a as int, n as int), '-'),
        decreases n - a,
    {
        assert(full.subrange(a as int, n as int).drop_first() =~= full.subrange(a + 1, n as int));
        a = a + 1;
    }
    let ghost left = full.subrange(a as int, n as int);
    assert(strip_leading(left, '-') == left);
    let mut b: usize = n;
    while b > a && mapped[b - 1] == '-'
        invariant
            mapped@ == full,
            n == full.len(),
            a <= b <= n,
            left == full.subrange(a as int, n as int),
            strip_trailing_dashes(left) == strip_trailing_dashes(full.subrange(a as int, b as int)),
        decreases b,
    {
        assert(full.subrange(a as int, b as int).drop_last() =~= full.subrange(a as int, b - 1));
        b = b - 1;
    }
    let ghost stripped = full.subrange(a as int, b as int);
    assert(strip_trailing_dashes(stripped) == stripped);
    let end: usize = if b - a <= 24 { b } else { a + 24 };
    let mut out = String::new();
    let mut j: usize = a;
    while j < end
        invariant
            mapped@ == full,
            n == full.len(),
            a <= j <= end <= b <= n,
            out@ == full.subrange(a as int, j as int),
        decreases end - j,
    {
        push_char(&mut out, mapped[j]);
        j = j + 1;
        assert(out@ =~= full.subrange(a as int, j as int));
    }
    assert(out@ =~= title_slug(title@));
    out
}

/// The trimmed value of the first line that starts with `key:`.
pub open spec fn frontmatter_value(lines: Seq<Seq<char>>, key: Seq<char>) -> Option<Seq<char>>
    decreases lines.len(),
{
    if lines.len() == 0 {
        None
    } else if is_prefix(key + ":"@, lines[0]) {
        Some(trimmed(lines[0].subrange(key.len() + 1 as int, lines[0].len() as int)))
    } else {
        frontmatter_value(lines.drop_first(), key)
    }
}

pub fn parse_frontmatter_value<'a>(lines: &'a [String], key: &str) -> (r: Option<&'a str>)
    ensures
        (match r { Some(v) => Some(v@), None => None }) == frontmatter_value(string_views(lines@), key@),
{
    let mut pattern = String::from_str(key);
    push_char(&mut pattern, ':');
    proof {
        reveal_strlit(":");
        assert(pattern@ =~= key@ + ":"@);
    }
    let n = lines.len();
    let mut i: usize = 0;
    assert(string_views(lines@).subrange(0, n as int) =~= string_views(lines@));
    while i < n
        invariant
            n == lines@.len(),
            i <= n,
            pattern@ == key@ + ":"@,
            frontmatter_value(string_views(lines@), key@)
                == frontmatter_value(string_views(lines@).subrange(i as int, n as int), key@),
        decreases n - i,
    {
        let ghost rest = string_views(lines@).subrange(i as int, n as int);
        assert(rest[0] == lines@[i as int]@);
        assert(rest.drop_first() =~= string_views(lines@).subrange(i + 1, n as int));
        let line: &'a String = &lines[i];
        if starts_with(line.as_str(), pattern.as_str()) {
            proof {
                reveal_strlit(":");
            }
            let s: &'a str = line.as_str();
            let len = s.unicode_len();
            let klen = key.unicode_len();
            let after: &'a str = s.substring_char(klen + 1, len);
            return Some(trim_str(after));
        }
        i = i + 1;
    }
    None
}

/// The markdown file of a journal entry.
pub open spec fn log_markdown(log: DailyLog) -> Seq<char> {
    "---\nid: "@ + log.id@ + "\ndate: "@ + log.date@ + "\ntitle: "@ + log.title@
        + "\nmood: "@ + log.mood@ + "\nsync_rate: "@ + signed_decimal(log.sync_rate as int)
        + "\ntags: "@ + log.tags@ + "\nauto_generated: "@
        + (if log.auto_generated { "true"@ } else { "false"@ })
        + "\ncreated_at: "@ + log.created_at@ + "\nupdated_at: "@ + log.updated_at@
        + "\n---\n\n"@ + log.content@ + "\n"@
}

pub fn daily_log_to_markdown(log: &DailyLog) -> (r: String)
    ensures
        r@ == log_markdown(*log),
{
    let mut out = String::from_str("---\nid: ");
    push_str(&mut out, log.id.as_str());
    push_str(&mut out, "\ndate: ");
    push_str(&mut out, log.date.as_str());
    push_str(&mut out, "\ntitle: ");
    push_str(&mut out, log.title.as_str());
    push_str(&mut out, "\nmood: ");
    push_str(&mut out, log.mood.as_str());
    push_str(&mut out, "\nsync_rate: ");
    push_signed_decimal(&mut out, log.sync_rate as i64);
    push_str(&mut out, "\ntags: ");
    push_str(&mut out, log.tags.as_str());
    push_str(&mut out, "\nauto_generated: ");
    push_str(&mut out, if log.auto_generated { "true" } else { "false" });
    push_str(&mut out, "\ncreated_at: ");
    push_str(&mut out, log.created_at.as_str());
    push_str(&mut out, "\nupdated_at: ");
    push_str(&mut out, log.updated_at.as_str());
    push_str(&mut out, "\n---\n\n");
    push_str(&mut out, log.content.as_str());
    push_str(&mut out, "\n");
    out
}

/// The lines of `s` as `str::lines` yields them, each trimmed: a final
/// empty piece (after a closing newline) is not a line.
pub open spec fn trimmed_lines(s: Seq<char>) -> Seq<Seq<char>> {
    let p = split_pieces(s, '\n');
    let kept = if p.last().len() == 0 { p.drop_last() } else { p };
    kept.map_values(|l: Seq<char>| trimmed(l))
}

fn trimmed_string(s: &str) -> (r: String)
    ensures
        r@ == trimmed(s@),
{
    String::from_str(trim_str(s))
}

pub(crate) fn lines_of(s: &str) -> (r: Vec<String>)
    ensures
        string_views(r@) == trimmed_lines(s@),
{
    let n = s.unicode_len();
    let mut out: Vec<String> = Vec::new();
    let mut cur = String::new();
    let mut i: usize = 0;
    assert(s@.subrange(0, 0) =~= Seq::<char>::empty());
    assert(split_pieces(Seq::<char>::empty(), '\n').drop_last() =~= Seq::<Seq<char>>::empty());
    assert(string_views(out@) =~= Seq::<Seq<char>>::empty().map_values(|l: Seq<char>| trimmed(l)));
    while i < n
        invariant
            n == s@.len(),
            i <= n,
            split_pieces(s@.subrange(0, i as int), '\n').len() >= 1,
            cur@ == split_pieces(s@.subrange(0, i as int), '\n').last(),
            string_views(out@) == split_pieces(s@.subrange(0, i as int), '\n').drop_last().map_values(
                |l: Seq<char>| trimmed(l),
            ),
        decreases n - i,
    {
        let c = s.get_char(i);
        let ghost pre = s@.subrange(0, i as int);
        let ghost p = split_pieces(pre, '\n');
        let ghost next = s@.subrange(0, i + 1);
        proof {
            assert(next.drop_last() =~= pre);
            assert(next.last() == c);
            lemma_split_pieces_nonempty(pre, '\n');
        }
        if c == '\n' {
            let t = trimmed_string(cur.as_str());
            let ghost before = out@;
            out.push(t);
            cur = String::new();
            proof {
                assert(string_views(out@) =~= string_views(before).push(t@));
                assert(p.map_values(|l: Seq<char>| trimmed(l)) =~= p.drop_last().map_values(
                    |l: Seq<char>| trimmed(l),
                ).push(trimmed(p.last())));
                assert(split_pieces(next, '\n') == p.push(Seq::<char>::empty()));
                assert(p.push(Seq::<char>::empty()).drop_last() =~= p);
                assert(p =~= p.drop_last().push(p.last()));
                assert(string_views(out@) =~= p.map_values(|l: Seq<char>| trimmed(l)));
            }
        } else {
            push_char(&mut cur, c);
            proof {
                let upd = p.update(p.len() - 1, p.last().push(c));
                assert(split_pieces(next, '\n') == upd);
                assert(upd.drop_last() =~= p.drop_last());
            }
        }
        i = i + 1;
    }
    assert(s@.subrange(0, n as int) =~= s@);
    let ghost p = split_pieces(s@, '\n');
    if cur.as_str().unicode_len() > 0 {
        let t = trimmed_string(cur.as_str());
        let ghost before = out@;
        out.push(t);
        assert(string_views(out@) =~= string_views(before).push(t@));
        assert(p.map_values(|l: Seq<char>| trimmed(l)) =~= p.drop_last().map_values(
            |l: Seq<char>| trimmed(l),
        ).push(trimmed(p.last())));
        assert(p =~= p.drop_last().push(p.last()));
        assert(string_views(out@) =~= p.map_values(|l: Seq<char>| trimmed(l)));
    }
    out
}

/// The first position at or after `start` where `pat` occurs in `s`.
pub open spec fn occurs_at(s: Seq<char>, pat: Seq<char>, j: int) -> bool {
    0 <= j && j + pat.len() <= s.len() && s.subrange(j, j + pat.len()) == pat
}

pub open spec fn first_occurrence_from(s: Seq<char>, pat: Seq<char>, start: int) -> Option<int> {
    if exists|j: int| j >= start && occurs_at(s, pat, j) {
        Some(choose|j: int| j >= start && occurs_at(s, pat, j)
            && forall|k: int| start <= k < j ==> !occurs_at(s, pat, k))
    } else {
        None
    }
}

fn occurs_at_exec(s: &Vec<char>, pat: &Vec<char>, j: usize) -> (r: bool)
    requires
        j + pat@.len() <= s@.len(),
    ensures
        r == occurs_at(s@, pat@, j as int),
{
    let m = pat.len();
    let n = s.len();
    let mut i: usize = 0;
    while i < m
        invariant
            m == pat@.len(),
            n == s@.len(),
            j + m <= s@.len(),
            i <= m,
            s@.subrange(j as int, j + i) == pat@.subrange(0, i as int),
        decreases m - i,
    {
        if s[j + i] != pat[i] {
            assert(s@.subrange(j as int, j + m)[i as int] != pat@[i as int]);
            return false;
        }
        i = i + 1;
        assert(s@.subrange(j as int, j + i) =~= pat@.subrange(0, i as int));
    }
    assert(pat@.subrange(0, m as int) =~= pat@);
    true
}

proof fn lemma_first_occurrence(s: Seq<char>, pat: Seq<char>, start: int)
    ensures
        first_occurrence_from(s, pat, start) is Some ==> first_occurrence_from(s, pat, start)->0 >= start
            && occurs_at(s, pat, first_occurrence_from(s, pat, start)->0),
{
    if exists|j: int| j >= start && occurs_at(s, pat, j) {
        let j0 = choose|j: int| j >= start && occurs_at(s, pat, j);
        lemma_least_occurrence(s, pat, start, j0);
    }
}

proof fn lemma_least_occurrence(s: Seq<char>, pat: Seq<char>, start: int, j0: int)
    requires
        j0 >= start,
        occurs_at(s, pat, j0),
    ensures
        exists|c: int| c >= start && occurs_at(s, pat, c) && forall|k: int| start <= k < c ==> !occurs_at(s, pat, k),
    decreases j0 - start,
{
    if exists|k: int| start <= k < j0 && occurs_at(s, pat, k) {
        let k = choose|k: int| start <= k < j0 && occurs_at(s, pat, k);
        lemma_least_occurrence(s, pat, start, k);
    } else {
        assert(forall|k: int| start <= k < j0 ==> !occurs_at(s, pat, k));
    }
}

fn find_from(s: &Vec<char>, pat: &Vec<char>, start: usize) -> (r: Option<usize>)
    requires
        pat@.len() > 0,
    ensures
        (match r { Some(j) => Some(j as int), None => None }) == first_occurrence_from(s@, pat@, start as int),
{
    let n = s.len();
    let m = pat.len();
    let mut j: usize = start;
    while j < n && m <= n - j
        invariant
            n == s@.len(),
            m == pat@.len(),
            m > 0,
            j >= start,
            forall|k: int| start <= k < j ==> !occurs_at(s@, pat@, k),
        decreases n - j,
    {
        if occurs_at_exec(s, pat, j) {
            proof {
                let c = choose|c: int| c >= start && occurs_at(s@, pat@, c)
                    && forall|k: int| start <= k < c ==> !occurs_at(s@, pat@, k);
                assert(occurs_at(s@, pat@, j as int));
                if c < j {
                } else if c > j {
                }
                assert(c == j);
            }
            return Some(j);
        }
        j = j + 1;
    }
    assert forall|k: int| k >= start implies !occurs_at(s@, pat@, k) by {
        if k >= j {
        }
    }
    None
}

/// The header lines and the body of a journal file: when the text opens
/// with `---` and a newline and that marker occurs again, the text between
/// them gives the header lines and the rest is the body; otherwise there is
/// no header and the whole text is the body.
pub open spec fn split_header(raw: Seq<char>) -> (Seq<Seq<char>>, Seq<char>) {
    let sep = "---\n"@;
    if is_prefix(sep, raw) && first_occurrence_from(raw, sep, 4) is Some {
        let j = first_occurrence_from(raw, sep, 4)->0;
        (trimmed_lines(raw.subrange(4, j)), raw.subrange(j + 4, raw.len() as int))
    } else {
        (Seq::empty(), raw)
    }
}

fn split_frontmatter(raw: &str) -> (r: (Vec<String>, String))
    ensures
        string_views(r.0@) == split_header(raw@).0,
        r.1@ == split_header(raw@).1,
{
    proof {
        reveal_strlit("---\n");
    }
    let sep = "---\n";
    if !starts_with(raw, sep) {
        let none: Vec<String> = Vec::new();
        assert(string_views(none@) =~= Seq::<Seq<char>>::empty());
        return (none, String::from_str(raw));
    }
    let chars = chars_of(raw);
    let pat = chars_of(sep);
    match find_from(&chars, &pat, 4) {
        None => {
            let none: Vec<String> = Vec::new();
            assert(string_views(none@) =~= Seq::<Seq<char>>::empty());
            (none, String::from_str(raw))
        },
        Some(j) => {
            proof {
                lemma_first_occurrence(raw@, sep@, 4);
            }
            let n = raw.unicode_len();
            let header = raw.substring_char(4, j);
            let body = raw.substring_char(j + 4, n);
            (lines_of(header), String::from_str(body))
        },
    }
}

/// The date part of a file stem: its first ten characters (after trimming)
/// when they have dashes at positions 4 and 7, otherwise `today`.
pub open spec fn stem_date(input: Seq<char>, today: Seq<char>) -> Seq<char> {
    let t = trimmed(input);
    if t.len() >= 10 && t[4] == '-' && t[7] == '-' { t.subrange(0, 10) } else { today }
}

pub fn normalize_log_date(input: &str, today: &str) -> (r: String)
    ensures
        r@ == stem_date(input@, today@),
{
    let t = trim_str(input);
    if t.unicode_len() >= 10 && t.get_char(4) == '-' && t.get_char(7) == '-' {
        String::from_str(t.substring_char(0, 10))
    } else {
        String::from_str(today)
    }
}

pub open spec fn ascii_lower(c: char) -> char {
    if 'A' <= c && c <= 'Z' { ((c as u32) + 32) as char } else { c }
}

/// Equality up to ASCII case.
pub open spec fn same_ignoring_ascii_case(a: Seq<char>, b: Seq<char>) -> bool {
    a.len() == b.len() && forall|i: int| 0 <= i < a.len() ==> ascii_lower(a[i]) == ascii_lower(b[i])
}

fn lower_ascii_char(c: char) -> (r: char)
    ensures
        r == ascii_lower(c),
{
    if 'A' <= c && c <= 'Z' {
        let v: u8 = ((c as u32) + 32) as u8;
        v as char
    } else {
        c
    }
}

pub fn eq_ignore_ascii_case(a: &str, b: &str) -> (r: bool)
    ensures
        r == same_ignoring_ascii_case(a@, b@),
{
    let n = a.unicode_len();
    if n != b.unicode_len() {
        return false;
    }
    let mut i: usize = 0;
    while i < n
        invariant
            n == a@.len(),
            n == b@.len(),
            i <= n,
            forall|k: int| 0 <= k < i ==> ascii_lower(a@[k]) == ascii_lower(b@[k]),
        decreases n - i,
    {
        if lower_ascii_char(a.get_char(i)) != lower_ascii_char(b.get_char(i)) {
            return false;
        }
        i = i + 1;
    }
    true
}

fn value_or(v: Option<&str>, default: String) -> (r: String)
    ensures
        r@ == (match v { Some(x) => x@, None => default@ }),
{
    match v {
        Some(x) => String::from_str(x),
        None => default,
    }
}

pub open spec fn value_or_spec(v: Option<Seq<char>>, default: Seq<char>) -> Seq<char> {
    match v {
        Some(x) => x,
        None => default,
    }
}

/// The journal entry read from a markdown file named `stem`: each header
/// field comes from its `key:` line, with defaults for missing ones (the
/// stem as id, the stem's date or `today`, a title made from that date,
/// `neutral` mood, sync rate 80, no tags, not auto-generated, `now` for both
/// timestamps); the content is the body without its leading newlines.
pub open spec fn parsed_log_ok(raw: Seq<char>, stem: Seq<char>, today: Seq<char>, now: Seq<char>, r: DailyLog) -> bool {
    let lines = split_header(raw).0;
    let fallback_date = stem_date(stem, today);
    let rate = frontmatter_value(lines, "sync_rate"@);
    let auto = frontmatter_value(lines, "auto_generated"@);
    &&& r.id@ == value_or_spec(frontmatter_value(lines, "id"@), stem)
    &&& r.date@ == value_or_spec(frontmatter_value(lines, "date"@), fallback_date)
    &&& r.title@ == value_or_spec(frontmatter_value(lines, "title"@), "留痕 "@ + fallback_date)
    &&& r.content@ == strip_leading(split_header(raw).1, '\n')
    &&& r.mood@ == value_or_spec(frontmatter_value(lines, "mood"@), "neutral"@)
    &&& r.sync_rate as int == (match rate {
        Some(v) => match parsed_i32(v) { Some(x) => x, None => 80 },
        None => 80,
    })
    &&& r.tags@ == value_or_spec(frontmatter_value(lines, "tags"@), Seq::empty())
    &&& r.auto_generated == (match auto { Some(v) => same_ignoring_ascii_case(v, "true"@), None => false })
    &&& r.created_at@ == value_or_spec(frontmatter_value(lines, "created_at"@), now)
    &&& r.updated_at@ == value_or_spec(frontmatter_value(lines, "updated_at"@), now)
}

/// Reads a journal file, with `today` and `now` standing in for the clock.
pub fn parse_daily_log_markdown_at(raw: &str, fallback_stem: &str, today: &str, now: &str) -> (r: DailyLog)
    ensures
        parsed_log_ok(raw@, fallback_stem@, today@, now@, r),
{
    let (lines, body) = split_frontmatter(raw);
    let fallback_date = normalize_log_date(fallback_stem, today);
    let id = value_or(parse_frontmatter_value(lines.as_slice(), "id"), String::from_str(fallback_stem));
    let date = value_or(parse_frontmatter_value(lines.as_slice(), "date"), fallback_date.clone());
    let mut default_title = String::from_str("留痕 ");
    push_str(&mut default_title, fallback_date.as_str());
    let title = value_or(parse_frontmatter_value(lines.as_slice(), "title"), default_title);
    let mood = value_or(parse_frontmatter_value(lines.as_slice(), "mood"), String::from_str("neutral"));
    let sync_rate: i32 = match parse_frontmatter_value(lines.as_slice(), "sync_rate") {
        Some(v) => match parse_i32(v) {
            Some(x) => x,
            None => 80,
        },
        None => 80,
    };
    let tags = value_or(parse_frontmatter_value(lines.as_slice(), "tags"), String::new());
    let auto_generated = match parse_frontmatter_value(lines.as_slice(), "auto_generated") {
        Some(v) => eq_ignore_ascii_case(v, "true"),
        None => false,
    };
    let created_at = value_or(parse_frontmatter_value(lines.as_slice(), "created_at"), String::from_str(now));
    let updated_at = value_or(parse_frontmatter_value(lines.as_slice(), "updated_at"), String::from_str(now));
    let content = String::from_str(trim_start_char(body.as_str(), '\n'));
    DailyLog { id, date, title, content, mood, sync_rate, tags, auto_generated, created_at, updated_at }
}

/// Reads a journal file named `fallback_stem`, taking today's date and the
/// current time from the clock where the header lacks them.
pub fn parse_daily_log_markdown(raw: &str, fallback_stem: &str) -> (r: DailyLog)
    ensures
        exists|today: Seq<char>, now: Seq<char>| #[trigger] parsed_log_ok(raw@, fallback_stem@, today, now, r),
{
    let today = local_today();
    let now = now_iso();
    parse_daily_log_markdown_at(raw, fallback_stem, today.as_str(), now.as_str())
}

/// The stem of a new journal file: date, time of day, and the title's slug
/// when it is not empty, joined by underscores.
pub open spec fn log_stem(date: Seq<char>, time_part: Seq<char>, title: Seq<char>) -> Seq<char> {
    if title_slug(title).len() == 0 {
        date + "_"@ + time_part
    } else {
        date + "_"@ + time_part + "_"@ + title_slug(title)
    }
}

pub fn build_log_stem_at(date: &str, time_part: &str, title: &str) -> (r: String)
    ensures
        r@ == log_stem(date@, time_part@, title@),
{
    let slug = sanitize_title_for_filename(title);
    let mut out = String::from_str(date);
    push_str(&mut out, "_");
    push_str(&mut out, time_part);
    if slug.as_str().unicode_len() > 0 {
        push_str(&mut out, "_");
        push_str(&mut out, slug.as_str());
    }
    out
}

/// The stem of a new journal file, with the local time of day.
pub fn build_log_stem(date: &str, title: &str) -> (r: String)
    ensures
        exists|t: Seq<char>| r@ == #[trigger] log_stem(date@, t, title@),
{
    let time_part = local_time_part();
    build_log_stem_at(date, time_part.as_str(), title)
}

/// The stem tried for a new file after `k` earlier stems were taken.
pub open spec fn numbered_stem(base: Seq<char>, k: nat) -> Seq<char> {
    if k == 0 { base } else { base + "-"@ + decimal(k) }
}

/// The stem tried for a new journal file after `k` earlier attempts found
/// the name taken: the base stem, then the base stem with `-1`, `-2`, ...
pub fn nth_log_stem(base: &str, k: u64) -> (r: String)
    ensures
        r@ == numbered_stem(base@, k as nat),
{
    let mut out = String::from_str(base);
    if k > 0 {
        push_str(&mut out, "-");
        push_decimal(&mut out, k);
    }
    out
}

/// The entry written for a create request: its date normalized (`today`
/// when the given one is no date), the chosen file stem as id, a blank
/// creation time replaced by `now`, and `now` as update time.
pub fn prepare_new_log(log: DailyLog, stem: String, today: &str, now: &str) -> (r: DailyLog)
    ensures
        r.id@ == stem@,
        r.date@ == stem_date(log.date@, today@),
        r.created_at@ == (if blank(log.created_at@) { now@ } else { log.created_at@ }),
        r.updated_at@ == now@,
        r.title == log.title && r.content == log.content && r.mood == log.mood
            && r.sync_rate == log.sync_rate && r.tags == log.tags && r.auto_generated == log.auto_generated,
{
    let date = normalize_log_date(log.date.as_str(), today);
    let created_at = if is_blank(log.created_at.as_str()) { String::from_str(now) } else { log.created_at };
    DailyLog {
        id: stem,
        date,
        title: log.title,
        content: log.content,
        mood: log.mood,
        sync_rate: log.sync_rate,
        tags: log.tags,
        auto_generated: log.auto_generated,
        created_at,
        updated_at: String::from_str(now),
    }
}

/// The entry written for an update request over the stored `existing`
/// one: a blank id is refused; a blank date or creation time keeps the
/// stored one, another date is normalized; `now` is the update time.
pub fn prepare_log_update(log: DailyLog, existing: &DailyLog, today: &str, now: &str) -> (r: Result<DailyLog, String>)
    ensures
        blank(log.id@) <==> r is Err,
        r is Err ==> r->Err_0@ == "Daily log id is required for update"@,
        r is Ok ==> ({
            let u = r->Ok_0;
            &&& u.id == log.id
            &&& u.date@ == (if blank(log.date@) { existing.date@ } else { stem_date(log.date@, today@) })
            &&& u.created_at@ == (if blank(log.created_at@) { existing.created_at@ } else { log.created_at@ })
            &&& u.updated_at@ == now@
            &&& u.title == log.title && u.content == log.content && u.mood == log.mood
            &&& u.sync_rate == log.sync_rate && u.tags == log.tags && u.auto_generated == log.auto_generated
        }),
{
    if is_blank(log.id.as_str()) {
        return Err(String::from_str("Daily log id is required for update"));
    }
    let date = if is_blank(log.date.as_str()) {
        existing.date.clone()
    } else {
        normalize_log_date(log.date.as_str(), today)
    };
    let created_at = if is_blank(log.created_at.as_str()) { existing.created_at.clone() } else { log.created_at };
    Ok(DailyLog {
        id: log.id,
        date,
        title: log.title,
        content: log.content,
        mood: log.mood,
        sync_rate: log.sync_rate,
        tags: log.tags,
        auto_generated: log.auto_generated,
        created_at,
        updated_at: String::from_str(now),
    })
}

} // verus!
