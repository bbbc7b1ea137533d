//! Focus statistics by tag: which tags a run carries, and the minutes and
//! run counts each tag accumulates over completed runs.
use vstd::prelude::*;
use crate::text::{same_text, string_views, trim_str, trimmed};

verus! {

/// The strings serde_json reads from a JSON array of strings, or `None` when
/// the text is not one.
pub uninterp spec fn json_string_array(s: Seq<char>) -> Option<Seq<Seq<char>>>;

/// Relies on `serde_json::from_str::<Vec<String>>`.
#[verifier::external_body]
fn parse_string_array(s: &str) -> (r: Option<Vec<String>>)
    ensures
        (match r { Some(v) => Some(string_views(v@)), None => None }) == json_string_array(s@),
{
    serde_json::from_str::<Vec<String>>(s).ok()
}

/// The trimmed, non-empty, first-occurrence-only tags of a parsed list.
pub open spec fn clean_tags(parsed: Seq<Seq<char>>) -> Seq<Seq<char>>
    decreases parsed.len(),
{
    if parsed.len() == 0 {
        Seq::empty()
    } else {
        let acc = clean_tags(parsed.drop_last());
        let t = trimmed(parsed.last());
        if t.len() == 0 || acc.contains(t) { acc } else { acc.push(t) }
    }
}

pub open spec fn uncategorized() -> Seq<char> {
    "未分类"@
}

/// The tags a run is counted under: its cleaned tag list, or the
/// uncategorized tag when that is empty or the text is no JSON string array.
pub open spec fn focus_tags(tags_json: Seq<char>) -> Seq<Seq<char>> {
    let parsed = match json_string_array(tags_json) {
        Some(v) => v,
        None => Seq::empty(),
    };
    let c = clean_tags(parsed);
    if c.len() == 0 { seq![uncategorized()] } else { c }
}

pub open spec fn distinct(s: Seq<Seq<char>>) -> bool {
    forall|a: int, b: int| 0 <= a < b < s.len() ==> s[a] != s[b]
}

proof fn lemma_clean_distinct(p: Seq<Seq<char>>)
    ensures
        distinct(clean_tags(p)),
    decreases p.len(),
{
    if p.len() > 0 {
        lemma_clean_distinct(p.drop_last());
    }
}

fn contains_text(v: &Vec<String>, t: &str) -> (r: bool)
    ensures
        r == string_views(v@).contains(t@),
{
    let mut i: usize = 0;
    while i < v.len()
        invariant
            i <= v@.len(),
            forall|k: int| 0 <= k < i ==> v@[k]@ != t@,
        decreases v@.len() - i,
    {
        if same_text(v[i].as_str(), t) {
            assert(string_views(v@)[i as int] == t@);
            return true;
        }
        i = i + 1;
    }
    false
}

/// The tags of one run, from its stored JSON tag list.
pub fn parse_focus_tags(tags_json: &str) -> (r: Vec<String>)
    ensures
        string_views(r@) == focus_tags(tags_json@),
{
    let parsed = match parse_string_array(tags_json) {
        Some(v) => v,
        None => Vec::new(),
    };
    let ghost pv = string_views(parsed@);
    assert(pv == (match json_string_array(tags_json@) { Some(v) => v, None => Seq::<Seq<char>>::empty() }));
    let mut clean: Vec<String> = Vec::new();
    let mut i: usize = 0;
    assert(pv.subrange(0, 0) =~= Seq::<Seq<char>>::empty());
    assert(string_views(clean@) =~= Seq::<Seq<char>>::empty());
    while i < parsed.len()
        invariant
            pv == string_views(parsed@),
            i <= parsed@.len(),
            string_views(clean@) == clean_tags(pv.subrange(0, i as int)),
        decreases parsed@.len() - i,
    {
        let t = trim_str(parsed[i].as_str());
        proof {
            assert(pv.subrange(0, i + 1).drop_last() =~= pv.subrange(0, i as int));
            assert(pv.subrange(0, i + 1).last() == parsed@[i as int]@);
        }
        if t.unicode_len() > 0 && !contains_text(&clean, t) {
            let ghost before = clean@;
            clean.push(String::from_str(t));
            assert(string_views(clean@) =~= string_views(before).push(t@));
        }
        i = i + 1;
    }
    assert(pv.subrange(0, parsed@.len() as int) =~= pv);
    if clean.len() == 0 {
        let mut one: Vec<String> = Vec::new();
        one.push(String::from_str("未分类"));
        assert(string_views(one@) =~= seq![uncategorized()]);
        return one;
    }
    clean
}

/// A completed run as the tag statistics see it.
pub struct TagRow {
    pub tags_json: String,
    pub actual_seconds: i64,
}

/// Minutes and run count accumulated under one key.
#[derive(Debug)]
pub struct SliceCount {
    pub key: String,
    pub minutes: i64,
    pub runs: i64,
}

/// Whole minutes of a run; a run under one minute counts for nothing.
pub open spec fn row_minutes(r: TagRow) -> int {
    if r.actual_seconds >= 60 { r.actual_seconds as int / 60 } else { 0 }
}

pub open spec fn counts_under(r: TagRow, k: Seq<char>) -> bool {
    row_minutes(r) > 0 && focus_tags(r.tags_json@).contains(k)
}

/// Minutes of the runs counted under tag `k`.
pub open spec fn tag_minutes(rows: Seq<TagRow>, k: Seq<char>) -> int
    decreases rows.len(),
{
    if rows.len() == 0 {
        0
    } else {
        tag_minutes(rows.drop_last(), k) + if counts_under(rows.last(), k) { row_minutes(rows.last()) } else { 0 }
    }
}

/// Number of runs counted under tag `k`.
pub open spec fn tag_runs(rows: Seq<TagRow>, k: Seq<char>) -> int
    decreases rows.len(),
{
    if rows.len() == 0 {
        0
    } else {
        tag_runs(rows.drop_last(), k) + if counts_under(rows.last(), k) { 1int } else { 0 }
    }
}

/// Minutes of all runs together.
pub open spec fn total_minutes(rows: Seq<TagRow>) -> int
    decreases rows.len(),
{
    if rows.len() == 0 { 0 } else { total_minutes(rows.drop_last()) + row_minutes(rows.last()) }
}

proof fn lemma_tag_bounds(rows: Seq<TagRow>, k: Seq<char>)
    ensures
        0 <= tag_minutes(rows, k) <= total_minutes(rows),
        0 <= tag_runs(rows, k) <= rows.len(),
        total_minutes(rows) >= 0,
    decreases rows.len(),
{
    if rows.len() > 0 {
        lemma_tag_bounds(rows.drop_last(), k);
    }
}

proof fn lemma_prefix_total(rows: Seq<TagRow>, i: int)
    requires
        0 <= i <= rows.len(),
    ensures
        total_minutes(rows.subrange(0, i)) <= total_minutes(rows),
    decreases rows.len() - i,
{
    if i < rows.len() {
        lemma_prefix_total(rows, i + 1);
        assert(rows.subrange(0, i + 1).drop_last() =~= rows.subrange(0, i));
        lemma_tag_bounds(rows.subrange(0, i), Seq::empty());
    } else {
        assert(rows.subrange(0, i) =~= rows);
    }
}

pub open spec fn key_views(v: Seq<SliceCount>) -> Seq<Seq<char>> {
    v.map_values(|s: SliceCount| s.key@)
}

/// Each entry holds the totals of its key, exactly the keys with runs have
/// an entry, and no key has two.
pub open spec fn tallies(rows: Seq<TagRow>, v: Seq<SliceCount>) -> bool {
    &&& forall|a: int| 0 <= a < v.len() ==> (#[trigger] v[a]).minutes == tag_minutes(rows, v[a].key@)
        && v[a].runs == tag_runs(rows, v[a].key@) && tag_runs(rows, v[a].key@) > 0
    &&& forall|k: Seq<char>| tag_runs(rows, k) > 0 ==> #[trigger] key_views(v).contains(k)
    &&& distinct(key_views(v))
}

fn find_key(v: &Vec<SliceCount>, k: &str) -> (r: Option<usize>)
    ensures
        match r {
            Some(i) => i < v@.len() && v@[i as int].key@ == k@,
            None => !key_views(v@).contains(k@),
        },
{
    let mut i: usize = 0;
    while i < v.len()
        invariant
            i <= v@.len(),
            forall|j: int| 0 <= j < i ==> v@[j].key@ != k@,
        decreases v@.len() - i,
    {
        if same_text(v[i].key.as_str(), k) {
            return Some(i);
        }
        i = i + 1;
    }
    proof {
        if key_views(v@).contains(k@) {
            let j = choose|j: int| 0 <= j < key_views(v@).len() && key_views(v@)[j] == k@;
            assert(v@[j].key@ == k@);
        }
    }
    None
}

/// Accumulates minutes and run counts per tag, each key once, in the order
/// keys first appear.
fn accumulate_tags(rows: &Vec<TagRow>) -> (r: Vec<SliceCount>)
    requires
        total_minutes(rows@) <= i64::MAX,
        rows@.len() <= i64::MAX,
    ensures
        tallies(rows@, r@),
{
    let mut out: Vec<SliceCount> = Vec::new();
    let mut i: usize = 0;
    assert(rows@.subrange(0, 0) =~= Seq::<TagRow>::empty());
    assert(key_views(out@) =~= Seq::<Seq<char>>::empty());
    while i < rows.len()
        invariant
            i <= rows@.len(),
            total_minutes(rows@) <= i64::MAX,
            rows@.len() <= i64::MAX,
            tallies(rows@.subrange(0, i as int), out@),
        decreases rows@.len() - i,
    {
        let ghost pre = rows@.subrange(0, i as int);
        let ghost next = rows@.subrange(0, i + 1);
        let row = &rows[i];
        proof {
            assert(next.drop_last() =~= pre);
            assert(next.last() == *row);
            lemma_prefix_total(rows@, i + 1);
        }
        if row.actual_seconds >= 60 {
            let m: i64 = row.actual_seconds / 60;
            let tags = parse_focus_tags(row.tags_json.as_str());
            let ghost tv = string_views(tags@);
            proof {
                let parsed = match json_string_array(row.tags_json@) {
                    Some(v) => v,
                    None => Seq::<Seq<char>>::empty(),
                };
                lemma_clean_distinct(parsed);
                assert(distinct(tv));
            }
            let mut j: usize = 0;
            while j < tags.len()
                invariant
                    i < rows@.len(),
                    pre == rows@.subrange(0, i as int),
                    next == rows@.subrange(0, i + 1),
                    next.drop_last() == pre,
                    next.last() == rows@[i as int],
                    row_minutes(rows@[i as int]) == m as int,
                    m > 0,
                    tv == string_views(tags@),
                    tv == focus_tags(rows@[i as int].tags_json@),
                    distinct(tv),
                    j <= tags@.len(),
                    total_minutes(next) <= i64::MAX,
                    next.len() <= i64::MAX,
                    forall|a: int| 0 <= a < out@.len() ==> (#[trigger] out@[a]).minutes
                        == tag_minutes(pre, out@[a].key@) + (if tv.subrange(0, j as int).contains(out@[a].key@) { m as int } else { 0 })
                        && out@[a].runs == tag_runs(pre, out@[a].key@) + (if tv.subrange(0, j as int).contains(out@[a].key@) { 1int } else { 0 })
                        && out@[a].runs > 0,
                    forall|k: Seq<char>| (tag_runs(pre, k) > 0 || tv.subrange(0, j as int).contains(k)) ==> #[trigger] key_views(out@).contains(k),
                    distinct(key_views(out@)),
                decreases tags@.len() - j,
            {
                let tag = tags[j].as_str();
                let ghost seen = tv.subrange(0, j as int);
                let ghost seen2 = tv.subrange(0, j + 1);
                proof {
                    assert(seen2 =~= seen.push(tag@));
                    assert(!seen.contains(tag@)) by {
                        if seen.contains(tag@) {
                            let q = choose|q: int| 0 <= q < seen.len() && seen[q] == tag@;
                            assert(tv[q] == tv[j as int]);
                        }
                    }
                    lemma_tag_bounds(next, tag@);
                    lemma_tag_bounds(pre, tag@);
                    assert(counts_under(next.last(), tag@)) by {
                        assert(tv[j as int] == tag@);
                    }
                }
                match find_key(&out, tag) {
                    Some(idx) => {
                        proof {
                            assert(out@[idx as int].minutes == tag_minutes(pre, tag@));
                        }
                        let cur_m = out[idx].minutes;
                        let cur_r = out[idx].runs;
                        let ghost before = out@;
                        out[idx].minutes = cur_m + m;
                        out[idx].runs = cur_r + 1;
                        proof {
                            assert forall|a: int| 0 <= a < out@.len() implies (#[trigger] out@[a]).minutes
                                == tag_minutes(pre, out@[a].key@) + (if seen2.contains(out@[a].key@) { m as int } else { 0 })
                                && out@[a].runs == tag_runs(pre, out@[a].key@) + (if seen2.contains(out@[a].key@) { 1int } else { 0 })
                                && out@[a].runs > 0 by {
                                lemma_push_contains(seen, tag@, out@[a].key@);
                                if a != idx {
                                    assert(out@[a] == before[a]);
                                    assert(key_views(before)[a] != key_views(before)[idx as int]);
                                }
                            }
                            assert(key_views(out@) =~= key_views(before));
                            assert forall|k: Seq<char>| (tag_runs(pre, k) > 0 || seen2.contains(k)) implies #[trigger] key_views(out@).contains(k) by {
                                if k == tag@ {
                                    assert(key_views(out@)[idx as int] == k);
                                } else {
                                    lemma_push_contains(seen, tag@, k);
                                }
                            }
                        }
                    },
                    None => {
                        let ghost before = out@;
                        out.push(SliceCount { key: String::from_str(tag), minutes: m, runs: 1 });
                        proof {
                            assert(key_views(out@) =~= key_views(before).push(tag@));
                            assert(tag_runs(pre, tag@) == 0) by {
                                if tag_runs(pre, tag@) > 0 {
                                    assert(key_views(before).contains(tag@));
                                }
                            }
                            assert(tag_minutes(pre, tag@) >= 0);
                            assert forall|a: int| 0 <= a < out@.len() implies (#[trigger] out@[a]).minutes
                                == tag_minutes(pre, out@[a].key@) + (if seen2.contains(out@[a].key@) { m as int } else { 0 })
                                && out@[a].runs == tag_runs(pre, out@[a].key@) + (if seen2.contains(out@[a].key@) { 1int } else { 0 })
                                && out@[a].runs > 0 by {
                                lemma_push_contains(seen, tag@, out@[a].key@);
                                if a < before.len() {
                                    assert(out@[a] == before[a]);
                                    assert(key_views(before)[a] == before[a].key@);
                                    assert(before[a].key@ != tag@);
                                } else {
                                    lemma_tag_minutes_zero(pre, tag@);
                                }
                            }
                            assert forall|k: Seq<char>| (tag_runs(pre, k) > 0 || seen2.contains(k)) implies #[trigger] key_views(out@).contains(k) by {
                                if k == tag@ {
                                    assert(key_views(out@)[before.len() as int] == k);
                                } else {
                                    lemma_push_contains(seen, tag@, k);
                                    assert(key_views(before).contains(k));
                                    let q = choose|q: int| 0 <= q < key_views(before).len() && key_views(before)[q] == k;
                                    assert(key_views(out@)[q] == k);
                                }
                            }
                        }
                    },
                }
                j = j + 1;
            }
            proof {
                assert(tv.subrange(0, tags@.len() as int) =~= tv);
                assert forall|k: Seq<char>| #[trigger] counts_under(next.last(), k) == tv.contains(k) by {}
            }
        } else {
            proof {
                assert forall|k: Seq<char>| tag_minutes(next, k) == tag_minutes(pre, k) && tag_runs(next, k) == tag_runs(pre, k) by {}
            }
        }
        i = i + 1;
    }
    assert(rows@.subrange(0, rows@.len() as int) =~= rows@);
    out
}

proof fn lemma_push_contains(s: Seq<Seq<char>>, x: Seq<char>, y: Seq<char>)
    ensures
        s.push(x).contains(y) <==> (s.contains(y) || y == x),
{
    if s.contains(y) {
        let q = choose|q: int| 0 <= q < s.len() && s[q] == y;
        assert(s.push(x)[q] == y);
    }
    if y == x {
        assert(s.push(x)[s.len() as int] == y);
    }
    if s.push(x).contains(y) {
        let q = choose|q: int| 0 <= q < s.push(x).len() && s.push(x)[q] == y;
        if q < s.len() {
            assert(s[q] == y);
        }
    }
}

proof fn lemma_tag_minutes_zero(rows: Seq<TagRow>, k: Seq<char>)
    requires
        tag_runs(rows, k) == 0,
    ensures
        tag_minutes(rows, k) == 0,
    decreases rows.len(),
{
    if rows.len() > 0 {
        lemma_tag_bounds(rows.drop_last(), k);
        lemma_tag_minutes_zero(rows.drop_last(), k);
    }
}

/// Minutes never increase along `v`.
pub open spec fn by_minutes_desc(v: Seq<SliceCount>) -> bool {
    forall|a: int, b: int| 0 <= a < b < v.len() ==> v[a].minutes >= v[b].minutes
}

/// The first position whose minutes are below `m`, in a list whose minutes
/// never increase.
fn insertion_point(sorted: &Vec<SliceCount>, m: i64) -> (p: usize)
    requires
        by_minutes_desc(sorted@),
    ensures
        p <= sorted@.len(),
        forall|a: int| 0 <= a < p ==> sorted@[a].minutes >= m,
        forall|a: int| p <= a < sorted@.len() ==> sorted@[a].minutes < m,
{
    let mut p: usize = 0;
    while p < sorted.len() && sorted[p].minutes >= m
        invariant
            p <= sorted@.len(),
            forall|a: int| 0 <= a < p ==> sorted@[a].minutes >= m,
        decreases sorted@.len() - p,
    {
        p = p + 1;
    }
    proof {
        assert forall|a: int| p <= a < sorted@.len() implies sorted@[a].minutes < m by {
            assert(sorted@[p as int].minutes < m);
            if a > p {
                assert(sorted@[p as int].minutes >= sorted@[a].minutes);
            }
        }
    }
    p
}

pub open spec fn slice_ok(rows: Seq<TagRow>, x: SliceCount) -> bool {
    x.minutes == tag_minutes(rows, x.key@) && x.runs == tag_runs(rows, x.key@) && tag_runs(rows, x.key@) > 0
}

proof fn lemma_insert_sorted(rows: Seq<TagRow>, before: Seq<SliceCount>, p: int, orig: Seq<SliceCount>, i: int)
    requires
        0 <= i < orig.len(),
        0 <= p <= before.len(),
        before.len() == i,
        by_minutes_desc(before),
        slice_ok(rows, orig[i]),
        distinct(key_views(orig)),
        forall|a: int| 0 <= a < p ==> before[a].minutes >= orig[i].minutes,
        forall|a: int| p <= a < before.len() ==> before[a].minutes < orig[i].minutes,
        forall|a: int| 0 <= a < before.len() ==> slice_ok(rows, #[trigger] before[a]),
        forall|a: int| 0 <= a < before.len() ==> key_views(orig).subrange(0, i).contains(#[trigger] before[a].key@),
        forall|b: int| 0 <= b < i ==> key_views(before).contains(#[trigger] key_views(orig)[b]),
        distinct(key_views(before)),
    ensures
        ({
            let s2 = before.insert(p, orig[i]);
            &&& by_minutes_desc(s2)
            &&& forall|a: int| 0 <= a < s2.len() ==> slice_ok(rows, #[trigger] s2[a])
            &&& forall|a: int| 0 <= a < s2.len() ==> key_views(orig).subrange(0, i + 1).contains(#[trigger] s2[a].key@)
            &&& forall|b: int| 0 <= b < i + 1 ==> key_views(s2).contains(#[trigger] key_views(orig)[b])
            &&& distinct(key_views(s2))
        }),
{
    let s2 = before.insert(p, orig[i]);
    let kv = key_views(orig);
    let ks = key_views(s2);
    let kb = key_views(before);
    assert(s2.len() == before.len() + 1);
    assert forall|a: int| 0 <= a < p implies s2[a] == before[a] by {}
    assert(s2[p] == orig[i]);
    assert forall|a: int| p < a < s2.len() implies s2[a] == before[a - 1] by {}
    assert forall|a: int, b: int| 0 <= a < b < s2.len() implies s2[a].minutes >= s2[b].minutes by {
        if b < p {
            assert(s2[a] == before[a] && s2[b] == before[b]);
        } else if b == p {
            assert(s2[a] == before[a]);
        } else if a < p {
            assert(s2[a] == before[a] && s2[b] == before[b - 1]);
        } else if a == p {
            assert(s2[b] == before[b - 1]);
        } else {
            assert(s2[a] == before[a - 1] && s2[b] == before[b - 1]);
        }
    }
    assert forall|a: int| 0 <= a < s2.len() implies slice_ok(rows, #[trigger] s2[a]) by {
        if a < p {
            assert(s2[a] == before[a]);
        } else if a > p {
            assert(s2[a] == before[a - 1]);
        }
    }
    assert forall|a: int| 0 <= a < s2.len() implies kv.subrange(0, i + 1).contains(#[trigger] s2[a].key@) by {
        if a == p {
            assert(kv.subrange(0, i + 1)[i] == s2[a].key@);
        } else {
            let x = if a < p { a } else { a - 1 };
            assert(s2[a] == before[x]);
            assert(kv.subrange(0, i).contains(before[x].key@));
            let q = choose|q: int| 0 <= q < i && kv.subrange(0, i)[q] == before[x].key@;
            assert(kv.subrange(0, i + 1)[q] == s2[a].key@);
        }
    }
    assert forall|b: int| 0 <= b < i + 1 implies ks.contains(#[trigger] kv[b]) by {
        if b == i {
            assert(ks[p] == kv[b]);
        } else {
            assert(kb.contains(kv[b]));
            let a0 = choose|a: int| 0 <= a < kb.len() && kb[a] == kv[b];
            if a0 < p {
                assert(ks[a0] == kv[b]);
            } else {
                assert(ks[a0 + 1] == kv[b]);
            }
        }
    }
    assert forall|a: int| 0 <= a < before.len() implies before[a].key@ != orig[i].key@ by {
        assert(kv.subrange(0, i).contains(before[a].key@));
        let j = choose|j: int| 0 <= j < i && kv.subrange(0, i)[j] == before[a].key@;
        assert(kv[j] != kv[i]);
    }
    assert forall|a: int, b: int| 0 <= a < b < s2.len() implies ks[a] != ks[b] by {
        if b < p {
            assert(kb[a] != kb[b]);
        } else if b == p {
            assert(s2[a] == before[a]);
        } else if a < p {
            assert(kb[a] != kb[b - 1]);
        } else if a == p {
            assert(s2[b] == before[b - 1]);
        } else {
            assert(kb[a - 1] != kb[b - 1]);
        }
    }
}

/// Orders the entries by minutes, most first.
fn sort_by_minutes_desc(v: Vec<SliceCount>, Ghost(rows): Ghost<Seq<TagRow>>) -> (r: Vec<SliceCount>)
    requires
        forall|a: int| 0 <= a < v@.len() ==> slice_ok(rows, #[trigger] v@[a]),
        distinct(key_views(v@)),
    ensures
        by_minutes_desc(r@),
        forall|a: int| 0 <= a < r@.len() ==> slice_ok(rows, #[trigger] r@[a]),
        forall|k: Seq<char>| key_views(v@).contains(k) ==> #[trigger] key_views(r@).contains(k),
        distinct(key_views(r@)),
{
    let mut sorted: Vec<SliceCount> = Vec::new();
    let mut rest = v;
    let ghost orig = rest@;
    let ghost kv = key_views(orig);
    let n = rest.len();
    let mut source: Vec<SliceCount> = Vec::new();
    // Move the entries into `source` in reverse so that popping yields them in order.
    while rest.len() > 0
        invariant
            orig.len() == n,
            rest@.len() + source@.len() == n,
            rest@ == orig.subrange(0, rest@.len() as int),
            forall|k: int| 0 <= k < source@.len() ==> source@[k] == orig[n - 1 - k],
        decreases rest@.len(),
    {
        let e = rest.pop().unwrap();
        source.push(e);
    }
    let mut i: usize = 0;
    assert(key_views(sorted@) =~= Seq::<Seq<char>>::empty());
    while source.len() > 0
        invariant
            orig.len() == n,
            kv == key_views(orig),
            distinct(kv),
            forall|a: int| 0 <= a < orig.len() ==> slice_ok(rows, #[trigger] orig[a]),
            i + source@.len() == n,
            forall|k: int| 0 <= k < source@.len() ==> source@[k] == orig[n - 1 - k],
            sorted@.len() == i,
            by_minutes_desc(sorted@),
            forall|a: int| 0 <= a < sorted@.len() ==> slice_ok(rows, #[trigger] sorted@[a]),
            forall|a: int| 0 <= a < sorted@.len() ==> kv.subrange(0, i as int).contains(#[trigger] sorted@[a].key@),
            forall|b: int| 0 <= b < i ==> key_views(sorted@).contains(#[trigger] kv[b]),
            distinct(key_views(sorted@)),
        decreases source@.len(),
    {
        let e = source.pop().unwrap();
        proof {
            assert(e == orig[i as int]);
        }
        let p = insertion_point(&sorted, e.minutes);
        let ghost before = sorted@;
        sorted.insert(p, e);
        proof {
            lemma_insert_sorted(rows, before, p as int, orig, i as int);
        }
        i = i + 1;
    }
    proof {
        assert forall|k: Seq<char>| kv.contains(k) implies #[trigger] key_views(sorted@).contains(k) by {
            let b = choose|b: int| 0 <= b < kv.len() && kv[b] == k;
        }
    }
    sorted
}

/// Per-tag focus totals of completed runs, most minutes first: each tag a
/// counted run carries appears once, with the minutes and the number of
/// runs counted under it. The order among equal minutes is left open.
pub fn focus_tag_slices(rows: &Vec<TagRow>) -> (r: Vec<SliceCount>)
    requires
        total_minutes(rows@) <= i64::MAX,
        rows@.len() <= i64::MAX,
    ensures
        tallies(rows@, r@),
        by_minutes_desc(r@),
{
    let acc = accumulate_tags(rows);
    let ghost a = acc@;
    proof {
        assert forall|x: int| 0 <= x < a.len() implies slice_ok(rows@, #[trigger] a[x]) by {}
    }
    let r = sort_by_minutes_desc(acc, Ghost(rows@));
    proof {
        assert forall|x: int| 0 <= x < r@.len() implies (#[trigger] r@[x]).minutes == tag_minutes(rows@, r@[x].key@)
            && r@[x].runs == tag_runs(rows@, r@[x].key@) && tag_runs(rows@, r@[x].key@) > 0 by {
            assert(slice_ok(rows@, r@[x]));
        }
        assert forall|k: Seq<char>| tag_runs(rows@, k) > 0 implies #[trigger] key_views(r@).contains(k) by {
            assert(key_views(a).contains(k));
        }
    }
    r
}

/// Minutes of all runs together, or `None` when the sum exceeds `i64`.
pub fn checked_total_minutes(rows: &Vec<TagRow>) -> (r: Option<i64>)
    ensures
        r is Some <==> total_minutes(rows@) <= i64::MAX,
        r is Some ==> r->0 as int == total_minutes(rows@),
{
    let mut sum: i64 = 0;
    let mut i: usize = 0;
    assert(rows@.subrange(0, 0) =~= Seq::<TagRow>::empty());
    while i < rows.len()
        invariant
            i <= rows@.len(),
            sum as int == total_minutes(rows@.subrange(0, i as int)),
        decreases rows@.len() - i,
    {
        proof {
            assert(rows@.subrange(0, i + 1).drop_last() =~= rows@.subrange(0, i as int));
            lemma_prefix_total(rows@, i + 1);
            lemma_tag_bounds(rows@.subrange(0, i as int), Seq::empty());
        }
        let s = rows[i].actual_seconds;
        let m: i64 = if s >= 60 { s / 60 } else { 0 };
        if sum > i64::MAX - m {
            proof {
                lemma_prefix_total(rows@, i + 1);
            }
            return None;
        }
        sum = sum + m;
        i = i + 1;
    }
    assert(rows@.subrange(0, rows@.len() as int) =~= rows@);
    Some(sum)
}

} // verus!
