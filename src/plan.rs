//! Reading study plans written as markdown checklists.
//!
//! A heading line (`# ...` or `## ...`) that holds a `YYYY-MM-DD` date sets
//! the date of the tasks below it. A task line is `- [ ] `, `- [x] ` or
//! `- [X] ` followed by an optional `[HH:MM]` start time, the title, an
//! optional `@YYYY-MM-DD` date, an optional `(high|medium|low)` priority, and
//! `#tags` among the title words (`#high`, `#urgent`, `#medium` and `#low`
//! set the priority instead).
use vstd::prelude::*;
use crate::dates::{clock_minutes, extract_iso_date, iso_date_at, parse_clock_minutes};
use crate::handlers::{lowercase, lowered};
use crate::dates::chrono_today;
use crate::journal::{lines_of, trimmed_lines};
use crate::text::{is_white_space, is_prefix, push_char, push_str, same_text, starts_with, string_views, strip_leading, trim_start_char, trim_str, trimmed};

verus! {

/// The first position of `c` in `s`.
pub open spec fn first_index(s: Seq<char>, c: char) -> Option<int>
    decreases s.len(),
{
    if s.len() == 0 {
        None
    } else if first_index(s.drop_last(), c) is Some {
        first_index(s.drop_last(), c)
    } else if s.last() == c {
        Some(s.len() - 1)
    } else {
        None
    }
}

/// The last position of `c` in `s`.
pub open spec fn last_index(s: Seq<char>, c: char) -> Option<int>
    decreases s.len(),
{
    if s.len() == 0 {
        None
    } else if s.last() == c {
        Some(s.len() - 1)
    } else {
        last_index(s.drop_last(), c)
    }
}

proof fn lemma_first_index(s: Seq<char>, c: char)
    ensures
        first_index(s, c) is Some ==> 0 <= first_index(s, c)->0 < s.len() && s[first_index(s, c)->0] == c
            && forall|j: int| 0 <= j < first_index(s, c)->0 ==> s[j] != c,
        first_index(s, c) is None ==> forall|j: int| 0 <= j < s.len() ==> s[j] != c,
    decreases s.len(),
{
    if s.len() > 0 {
        let d = s.drop_last();
        lemma_first_index(d, c);
        assert forall|j: int| 0 <= j < d.len() implies d[j] == s[j] by {}
    }
}

proof fn lemma_last_index(s: Seq<char>, c: char)
    ensures
        last_index(s, c) is Some ==> 0 <= last_index(s, c)->0 < s.len() && s[last_index(s, c)->0] == c
            && forall|j: int| last_index(s, c)->0 < j < s.len() ==> s[j] != c,
        last_index(s, c) is None ==> forall|j: int| 0 <= j < s.len() ==> s[j] != c,
    decreases s.len(),
{
    if s.len() > 0 {
        let d = s.drop_last();
        lemma_last_index(d, c);
        assert forall|j: int| 0 <= j < d.len() implies d[j] == s[j] by {}
    }
}

fn find_char(s: &str, c: char) -> (r: Option<usize>)
    ensures
        (match r { Some(i) => Some(i as int), None => None }) == first_index(s@, c),
{
    proof {
        lemma_first_index(s@, c);
    }
    let n = s.unicode_len();
    let mut i: usize = 0;
    while i < n
        invariant
            n == s@.len(),
            i <= n,
            forall|j: int| 0 <= j < i ==> s@[j] != c,
        decreases n - i,
    {
        if s.get_char(i) == c {
            proof {
                lemma_first_index(s@, c);
                assert(s@[i as int] == c);
                if first_index(s@, c) is Some {
                    let f = first_index(s@, c)->0;
                    if f < i {
                        assert(s@[f] != c);
                    } else if f > i {
                        assert(s@[i as int] != c);
                    }
                }
            }
            return Some(i);
        }
        i = i + 1;
    }
    None
}

fn rfind_char(s: &str, c: char) -> (r: Option<usize>)
    ensures
        (match r { Some(i) => Some(i as int), None => None }) == last_index(s@, c),
{
    proof {
        lemma_last_index(s@, c);
    }
    let n = s.unicode_len();
    let mut i: usize = n;
    while i > 0
        invariant
            n == s@.len(),
            i <= n,
            forall|j: int| i <= j < n ==> s@[j] != c,
        decreases i,
    {
        if s.get_char(i - 1) == c {
            proof {
                lemma_last_index(s@, c);
                assert(s@[i - 1] == c);
                if last_index(s@, c) is Some {
                    let f = last_index(s@, c)->0;
                    if f < i - 1 {
                        assert(s@[i - 1] != c);
                    } else if f > i - 1 {
                        assert(s@[f] != c);
                    }
                }
            }
            return Some(i - 1);
        }
        i = i - 1;
    }
    None
}

/// The first `YYYY-MM-DD` date in `s`.
#[verifier::opaque]
pub open spec fn first_iso_date(s: Seq<char>) -> Option<Seq<char>> {
    if exists|i: int| iso_date_at(s, i) {
        let i = choose|i: int| iso_date_at(s, i) && forall|j: int| 0 <= j < i ==> !iso_date_at(s, j);
        Some(s.subrange(i, i + 10))
    } else {
        None
    }
}

proof fn lemma_first_iso_date_unique(s: Seq<char>, i: int)
    requires
        iso_date_at(s, i),
        forall|j: int| 0 <= j < i ==> !iso_date_at(s, j),
    ensures
        first_iso_date(s) == Some(s.subrange(i, i + 10)),
{
    reveal(first_iso_date);
    let c = choose|c: int| iso_date_at(s, c) && forall|j: int| 0 <= j < c ==> !iso_date_at(s, j);
    if c < i {
    } else if c > i {
    }
}

/// The date a heading line sets, if it is a heading holding one.
#[verifier::opaque]
pub open spec fn heading_date(t: Seq<char>) -> Option<Seq<char>> {
    if is_prefix("## "@, t) || is_prefix("# "@, t) {
        first_iso_date(trimmed(strip_leading(t, '#')))
    } else {
        None
    }
}

fn iso_date_in(s: &str) -> (r: Option<String>)
    ensures
        (match r { Some(d) => Some(d@), None => None }) == first_iso_date(s@),
{
    let r = extract_iso_date(s);
    proof {
        reveal(first_iso_date);
        if r is Some {
            let i = choose|i: int| iso_date_at(s@, i) && r->0@ == s@.subrange(i, i + 10)
                && (forall|j: int| 0 <= j < i ==> !iso_date_at(s@, j));
            lemma_first_iso_date_unique(s@, i);
        }
    }
    r
}

/// What a leading `[HH:MM]` gives: the start time, and the text after it.
pub open spec fn split_start_time(rt: Seq<char>) -> (Option<Seq<char>>, Seq<char>) {
    if rt.len() > 0 && rt[0] == '[' && first_index(rt, ']') is Some {
        let e = first_index(rt, ']')->0;
        let mt = trimmed(rt.subrange(1, e));
        if clock_minutes(mt) is Some {
            (Some(mt), trimmed(rt.subrange(e + 1, rt.len() as int)))
        } else {
            (None, rt)
        }
    } else {
        (None, rt)
    }
}

fn take_start_time(rt: &str) -> (r: (Option<String>, String))
    ensures
        (match r.0 { Some(t) => Some(t@), None => None }) == split_start_time(rt@).0,
        r.1@ == split_start_time(rt@).1,
{
    let n = rt.unicode_len();
    if n > 0 && rt.get_char(0) == '[' {
        match find_char(rt, ']') {
            Some(e) => {
                proof {
                    lemma_first_index(rt@, ']');
                }
                let mt = trim_str(rt.substring_char(1, e));
                if parse_clock_minutes(mt).is_some() {
                    let after = trim_str(rt.substring_char(e + 1, n));
                    return (Some(String::from_str(mt)), String::from_str(after));
                }
                (None, String::from_str(rt))
            },
            None => (None, String::from_str(rt)),
        }
    } else {
        (None, String::from_str(rt))
    }
}

/// What an `@` gives: the date after it (or `current`), and the text
/// before it.
pub open spec fn split_at_sign(rt: Seq<char>, current: Seq<char>) -> (Seq<char>, Seq<char>) {
    match first_index(rt, '@') {
        Some(p) => (
            match first_iso_date(rt.subrange(p + 1, rt.len() as int)) {
                Some(d) => d,
                None => current,
            },
            trimmed(rt.subrange(0, p)),
        ),
        None => (current, rt),
    }
}

fn take_at_date(rt: &str, current: &str) -> (r: (String, String))
    ensures
        r.0@ == split_at_sign(rt@, current@).0,
        r.1@ == split_at_sign(rt@, current@).1,
{
    match find_char(rt, '@') {
        Some(p) => {
            proof {
                lemma_first_index(rt@, '@');
            }
            let n = rt.unicode_len();
            let date = match iso_date_in(rt.substring_char(p + 1, n)) {
                Some(d) => d,
                None => String::from_str(current),
            };
            (date, String::from_str(trim_str(rt.substring_char(0, p))))
        },
        None => (String::from_str(current), String::from_str(rt)),
    }
}

pub open spec fn is_priority(level: Seq<char>) -> bool {
    level == "high"@ || level == "low"@ || level == "medium"@
}

/// What a trailing `(high)`, `(medium)` or `(low)` gives: the priority, and
/// the text before it.
pub open spec fn split_priority(text: Seq<char>) -> (Option<Seq<char>>, Seq<char>) {
    if text.len() > 0 && text.last() == ')' && last_index(text, '(') is Some {
        let o = last_index(text, '(')->0;
        let level = lowered(trimmed(text.subrange(o + 1, text.len() - 1)));
        if is_priority(level) { (Some(level), trimmed(text.subrange(0, o))) } else { (None, text) }
    } else {
        (None, text)
    }
}

fn take_priority(text: &str) -> (r: (Option<String>, String))
    ensures
        (match r.0 { Some(t) => Some(t@), None => None }) == split_priority(text@).0,
        r.1@ == split_priority(text@).1,
{
    let n = text.unicode_len();
    if n > 0 && text.get_char(n - 1) == ')' {
        match rfind_char(text, '(') {
            Some(o) => {
                proof {
                    lemma_last_index(text@, '(');
                }
                let level = lowercase(trim_str(text.substring_char(o + 1, n - 1)));
                let l = level.as_str();
                if same_text(l, "high") || same_text(l, "low") || same_text(l, "medium") {
                    let before = trim_str(text.substring_char(0, o));
                    return (Some(level), String::from_str(before));
                }
                (None, String::from_str(text))
            },
            None => (None, String::from_str(text)),
        }
    } else {
        (None, String::from_str(text))
    }
}

/// The maximal runs of characters that are not white space, in order.
pub open spec fn whitespace_words(s: Seq<char>) -> Seq<Seq<char>>
    decreases s.len(),
{
    if s.len() == 0 {
        Seq::empty()
    } else {
        let w = whitespace_words(s.drop_last());
        let c = s.last();
        if is_white_space(c) {
            w
        } else if s.len() > 1 && !is_white_space(s[s.len() - 2]) {
            w.update(w.len() - 1, w.last().push(c))
        } else {
            w.push(seq![c])
        }
    }
}

/// Relies on `str::split_whitespace`: the substrings separated by runs of
/// characters for which `char::is_whitespace` holds, empty ones left out.
#[verifier::external_body]
fn split_words(s: &str) -> (r: Vec<String>)
    ensures
        string_views(r@) == whitespace_words(s@),
{
    s.split_whitespace().map(|w| w.to_string()).collect()
}

/// Title words, tags and priority after reading the words of a task.
pub ghost struct WordsRead {
    pub title_words: Seq<Seq<char>>,
    pub tags: Seq<Seq<char>>,
    pub priority: Seq<char>,
}

/// Reads the words left to right: a `#word` is a tag, lower-cased, except
/// `#high`/`#urgent`, `#low` and `#medium`, which set the priority; other
/// words belong to the title.
pub open spec fn read_words(words: Seq<Seq<char>>, priority: Seq<char>) -> WordsRead
    decreases words.len(),
{
    if words.len() == 0 {
        WordsRead { title_words: Seq::empty(), tags: Seq::empty(), priority }
    } else {
        let r = read_words(words.drop_last(), priority);
        let w = words.last();
        if w.len() > 0 && w[0] == '#' {
            let tag = lowered(strip_leading(w, '#'));
            if tag == "high"@ || tag == "urgent"@ {
                WordsRead { priority: "high"@, ..r }
            } else if tag == "low"@ {
                WordsRead { priority: "low"@, ..r }
            } else if tag == "medium"@ {
                WordsRead { priority: "medium"@, ..r }
            } else {
                WordsRead { tags: r.tags.push(tag), ..r }
            }
        } else {
            WordsRead { title_words: r.title_words.push(w), ..r }
        }
    }
}

/// The words joined by single spaces.
pub open spec fn join_spaced(words: Seq<Seq<char>>) -> Seq<char>
    decreases words.len(),
{
    if words.len() == 0 {
        Seq::empty()
    } else if words.len() == 1 {
        words[0]
    } else {
        join_spaced(words.drop_last()) + seq![' '] + words.last()
    }
}

/// The title, tags and priority read from the words of a task.
pub struct WordsOut {
    pub title: String,
    pub tags: Vec<String>,
    pub priority: String,
}

fn read_task_words(text: &str, priority: String) -> (r: WordsOut)
    ensures
        r.title@ == join_spaced(read_words(whitespace_words(text@), priority@).title_words),
        string_views(r.tags@) == read_words(whitespace_words(text@), priority@).tags,
        r.priority@ == read_words(whitespace_words(text@), priority@).priority,
{
    let words = split_words(text);
    let ghost wv = string_views(words@);
    let ghost p0 = priority@;
    let mut title = String::new();
    let mut tags: Vec<String> = Vec::new();
    let mut prio = priority;
    let mut any = false;
    let mut i: usize = 0;
    assert(wv.subrange(0, 0) =~= Seq::<Seq<char>>::empty());
    assert(string_views(tags@) =~= Seq::<Seq<char>>::empty());
    while i < words.len()
        invariant
            wv == string_views(words@),
            wv == whitespace_words(text@),
            i <= words@.len(),
            title@ == join_spaced(read_words(wv.subrange(0, i as int), p0).title_words),
            any == (read_words(wv.subrange(0, i as int), p0).title_words.len() > 0),
            string_views(tags@) == read_words(wv.subrange(0, i as int), p0).tags,
            prio@ == read_words(wv.subrange(0, i as int), p0).priority,
        decreases words@.len() - i,
    {
        let w = words[i].as_str();
        let ghost pre = wv.subrange(0, i as int);
        let ghost next = wv.subrange(0, i + 1);
        let ghost r = read_words(pre, p0);
        proof {
            assert(next.drop_last() =~= pre);
            assert(next.last() == w@);
        }
        if w.unicode_len() > 0 && w.get_char(0) == '#' {
            let tag = lowercase(trim_start_char(w, '#'));
            let t = tag.as_str();
            if same_text(t, "high") || same_text(t, "urgent") {
                prio = String::from_str("high");
            } else if same_text(t, "low") {
                prio = String::from_str("low");
            } else if same_text(t, "medium") {
                prio = String::from_str("medium");
            } else {
                let ghost before = tags@;
                tags.push(tag);
                assert(string_views(tags@) =~= string_views(before).push(tag@));
            }
        } else {
            let ghost tw = r.title_words;
            proof {
                assert(tw.push(w@).drop_last() =~= tw);
            }
            if any {
                push_char(&mut title, ' ');
            }
            push_str(&mut title, w);
            any = true;
            proof {
                if tw.len() == 0 {
                    assert(title@ =~= join_spaced(tw.push(w@)));
                } else {
                    assert(title@ =~= join_spaced(tw.push(w@)));
                }
            }
        }
        i = i + 1;
    }
    assert(wv.subrange(0, words@.len() as int) =~= wv);
    WordsOut { title, tags, priority: prio }
}

/// A task read from a plan.
#[derive(Debug)]
pub struct PlanTask {
    pub title: String,
    pub date: String,
    pub priority: String,
    pub tags: Vec<String>,
    /// `done` for a checked box, `todo` otherwise.
    pub status: String,
    pub start_time: Option<String>,
}

pub ghost struct PlanTaskSpec {
    pub title: Seq<char>,
    pub date: Seq<char>,
    pub priority: Seq<char>,
    pub tags: Seq<Seq<char>>,
    pub status: Seq<char>,
    pub start_time: Option<Seq<char>>,
}

pub open spec fn task_view(t: PlanTask) -> PlanTaskSpec {
    PlanTaskSpec {
        title: t.title@,
        date: t.date@,
        priority: t.priority@,
        tags: string_views(t.tags@),
        status: t.status@,
        start_time: match t.start_time { Some(s) => Some(s@), None => None },
    }
}

pub open spec fn task_views(v: Seq<PlanTask>) -> Seq<PlanTaskSpec> {
    v.map_values(|t: PlanTask| task_view(t))
}

/// `Some(done)` for a checklist line.
pub open spec fn checkbox(t: Seq<char>) -> Option<bool> {
    if is_prefix("- [ ] "@, t) {
        Some(false)
    } else if is_prefix("- [x] "@, t) || is_prefix("- [X] "@, t) {
        Some(true)
    } else {
        None
    }
}

/// The task a trimmed line describes, with `current` the date of the
/// enclosing heading and `today` the date for tasks without any; `None` for
/// a line that is no checklist item or whose title is empty.
#[verifier::opaque]
pub open spec fn task_of_line(t: Seq<char>, current: Seq<char>, today: Seq<char>) -> Option<PlanTaskSpec> {
    match checkbox(t) {
        None => None,
        Some(done) => {
            let rest = trimmed(t.subrange(6, t.len() as int));
            let st = split_start_time(rest);
            let at = split_at_sign(st.1, current);
            let pr = split_priority(at.1);
            let w = read_words(whitespace_words(pr.1), match pr.0 { Some(p) => p, None => "medium"@ });
            let title = join_spaced(w.title_words);
            if title.len() == 0 {
                None
            } else {
                Some(PlanTaskSpec {
                    title,
                    date: if at.0.len() == 0 { today } else { at.0 },
                    priority: w.priority,
                    tags: w.tags,
                    status: if done { "done"@ } else { "todo"@ },
                    start_time: st.0,
                })
            }
        },
    }
}

fn checkbox_of(t: &str) -> (r: Option<bool>)
    ensures
        r == checkbox(t@),
{
    if starts_with(t, "- [ ] ") {
        Some(false)
    } else if starts_with(t, "- [x] ") || starts_with(t, "- [X] ") {
        Some(true)
    } else {
        None
    }
}

fn parse_task_line(t: &str, current: &str, today: &str) -> (r: Option<PlanTask>)
    ensures
        (match r { Some(x) => Some(task_view(x)), None => None }) == task_of_line(t@, current@, today@),
{
    proof {
        reveal(task_of_line);
    }
    let done = match checkbox_of(t) {
        None => return None,
        Some(d) => d,
    };
    proof {
        reveal_strlit("- [ ] ");
        reveal_strlit("- [x] ");
        reveal_strlit("- [X] ");
    }
    let n = t.unicode_len();
    let rest = trim_str(t.substring_char(6, n));
    let (start_time, rt) = take_start_time(rest);
    let (date, text) = take_at_date(rt.as_str(), current);
    let (paren, text2) = take_priority(text.as_str());
    let base = match paren {
        Some(p) => p,
        None => String::from_str("medium"),
    };
    let w = read_task_words(text2.as_str(), base);
    if w.title.as_str().unicode_len() == 0 {
        return None;
    }
    let date = if date.as_str().unicode_len() == 0 { String::from_str(today) } else { date };
    let status = if done { String::from_str("done") } else { String::from_str("todo") };
    Some(PlanTask { title: w.title, date, priority: w.priority, tags: w.tags, status, start_time })
}

fn heading_date_of(t: &str) -> (r: Option<String>)
    ensures
        (match r { Some(d) => Some(d@), None => None }) == heading_date(t@),
{
    proof {
        reveal(heading_date);
    }
    if starts_with(t, "## ") || starts_with(t, "# ") {
        let h = trim_str(trim_start_char(t, '#'));
        iso_date_in(h)
    } else {
        None
    }
}

/// The tasks read from the first lines of a plan, and the heading date in
/// force after them.
pub open spec fn read_plan(lines: Seq<Seq<char>>, today: Seq<char>) -> (Seq<PlanTaskSpec>, Seq<char>)
    decreases lines.len(),
{
    if lines.len() == 0 {
        (Seq::empty(), Seq::empty())
    } else {
        let prev = read_plan(lines.drop_last(), today);
        let t = lines.last();
        let current = match heading_date(t) {
            Some(d) => d,
            None => prev.1,
        };
        match task_of_line(t, current, today) {
            Some(task) => (prev.0.push(task), current),
            None => (prev.0, current),
        }
    }
}

/// Reads the tasks of a markdown plan, with `today` the date of tasks that
/// come before any dated heading and carry no `@date`.
pub fn parse_plan_tasks(content: &str, today: &str) -> (r: Vec<PlanTask>)
    ensures
        task_views(r@) == read_plan(trimmed_lines(content@), today@).0,
{
    let lines = lines_of(content);
    let ghost lv = string_views(lines@);
    let mut tasks: Vec<PlanTask> = Vec::new();
    let mut current = String::new();
    let mut i: usize = 0;
    assert(lv.subrange(0, 0) =~= Seq::<Seq<char>>::empty());
    assert(task_views(tasks@) =~= Seq::<PlanTaskSpec>::empty());
    while i < lines.len()
        invariant
            lv == string_views(lines@),
            lv == trimmed_lines(content@),
            i <= lines@.len(),
            task_views(tasks@) == read_plan(lv.subrange(0, i as int), today@).0,
            current@ == read_plan(lv.subrange(0, i as int), today@).1,
        decreases lines@.len() - i,
    {
        let line = lines[i].as_str();
        proof {
            assert(lv.subrange(0, i + 1).drop_last() =~= lv.subrange(0, i as int));
            assert(lv.subrange(0, i + 1).last() == line@);
        }
        match heading_date_of(line) {
            Some(d) => {
                current = d;
            },
            None => {},
        }
        match parse_task_line(line, current.as_str(), today) {
            Some(task) => {
                let ghost before = tasks@;
                tasks.push(task);
                assert(task_views(tasks@) =~= task_views(before).push(task_view(task)));
            },
            None => {},
        }
        i = i + 1;
    }
    assert(lv.subrange(0, lines@.len() as int) =~= lv);
    tasks
}

/// Reads the tasks of a markdown plan, dating undated tasks with today's
/// UTC date.
pub fn parse_markdown_plan(content: &str) -> (r: Vec<PlanTask>)
    ensures
        exists|today: Seq<char>| task_views(r@) == #[trigger] read_plan(trimmed_lines(content@), today).0,
{
    let today = chrono_today();
    parse_plan_tasks(content, today.as_str())
}

} // verus!
