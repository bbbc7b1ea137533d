//! Workspace-relative paths received from clients.
//!
//! A relative path may name only locations inside the workspace: after
//! trimming and turning backslashes into slashes, it must not start at the
//! root and must not climb with `..`; `.` and empty segments are skipped.
use vstd::prelude::*;
use crate::handlers::{ApiError, blank, ErrorKind};
use crate::text::{lemma_split_pieces_nonempty, push_char, push_str, same_text, split_pieces, string_views, trim_str, trimmed};

verus! {

pub open spec fn unify_separator(c: char) -> char {
    if c == '\\' { '/' } else { c }
}

/// The segments that name a step into a directory (not empty, not `.`).
pub open spec fn step_segments(p: Seq<Seq<char>>) -> Seq<Seq<char>>
    decreases p.len(),
{
    if p.len() == 0 {
        p
    } else {
        let k = step_segments(p.drop_last());
        if p.last().len() == 0 || p.last() == "."@ { k } else { k.push(p.last()) }
    }
}

/// The normalized text of a client path: trimmed, backslashes as slashes.
pub open spec fn unified(relative: Seq<char>) -> Seq<char> {
    trimmed(relative).map_values(|c: char| unify_separator(c))
}

/// The segments of a safe relative path, or `None` when it starts at the
/// root or holds a `..` segment.
pub open spec fn relative_segments(relative: Seq<char>) -> Option<Seq<Seq<char>>> {
    let u = unified(relative);
    if u.len() > 0 && u[0] == '/' {
        None
    } else if split_pieces(u, '/').contains(".."@) {
        None
    } else {
        Some(step_segments(split_pieces(u, '/')))
    }
}

fn is_step(g: &str) -> (r: bool)
    ensures
        r == !(g@.len() == 0 || g@ == "."@),
{
    !(g.unicode_len() == 0 || same_text(g, "."))
}

/// Checks a client path and splits it into the segments to join under the
/// workspace directory.
pub fn sanitize_relative_path(relative: &str) -> (r: Result<Vec<String>, String>)
    ensures
        r is Ok <==> relative_segments(relative@) is Some,
        r is Ok ==> string_views(r->Ok_0@) == relative_segments(relative@)->0,
        r is Err ==> r->Err_0@ == "Invalid relative path: "@ + relative@,
{
    let t = trim_str(relative);
    let n = t.unicode_len();
    let ghost u = unified(relative@);
    let mut out: Vec<String> = Vec::new();
    let mut cur = String::new();
    let mut climbs = false;
    let mut i: usize = 0;
    assert(u.subrange(0, 0) =~= Seq::<char>::empty());
    assert(string_views(out@) =~= Seq::<Seq<char>>::empty());
    while i < n
        invariant
            n == t@.len(),
            t@ == trimmed(relative@),
            u == unified(relative@),
            u.len() == n,
            i <= n,
            split_pieces(u.subrange(0, i as int), '/').len() >= 1,
            cur@ == split_pieces(u.subrange(0, i as int), '/').last(),
            string_views(out@) == step_segments(split_pieces(u.subrange(0, i as int), '/').drop_last()),
            climbs == split_pieces(u.subrange(0, i as int), '/').drop_last().contains(".."@),
        decreases n - i,
    {
        let raw = t.get_char(i);
        let c = if raw == '\\' { '/' } else { raw };
        let ghost pre = u.subrange(0, i as int);
        let ghost p = split_pieces(pre, '/');
        let ghost next = u.subrange(0, i + 1);
        proof {
            assert(next.drop_last() =~= pre);
            assert(next.last() == c);
            lemma_split_pieces_nonempty(pre, '/');
            assert(p =~= p.drop_last().push(p.last()));
        }
        if c == '/' {
            if same_text(cur.as_str(), "..") {
                climbs = true;
            }
            if is_step(cur.as_str()) {
                let ghost before = out@;
                let seg = cur.clone();
                out.push(seg);
                assert(string_views(out@) =~= string_views(before).push(cur@));
            }
            cur = String::new();
            proof {
                assert(split_pieces(next, '/') == p.push(Seq::<char>::empty()));
                assert(p.push(Seq::<char>::empty()).drop_last() =~= p);
                assert(p.drop_last().push(p.last()).drop_last() =~= p.drop_last());
            }
        } else {
            push_char(&mut cur, c);
            proof {
                let upd = p.update(p.len() - 1, p.last().push(c));
                assert(split_pieces(next, '/') == upd);
                assert(upd.drop_last() =~= p.drop_last());
            }
        }
        i = i + 1;
    }
    assert(u.subrange(0, n as int) =~= u);
    let ghost p = split_pieces(u, '/');
    proof {
        lemma_split_pieces_nonempty(u, '/');
        assert(p =~= p.drop_last().push(p.last()));
    }
    if same_text(cur.as_str(), "..") {
        climbs = true;
    }
    if is_step(cur.as_str()) {
        let ghost before = out@;
        let seg = cur.clone();
        out.push(seg);
        assert(string_views(out@) =~= string_views(before).push(cur@));
    }
    let rooted = n > 0 && {
        let first = t.get_char(0);
        first == '/' || first == '\\'
    };
    if rooted || climbs {
        let mut msg = String::from_str("Invalid relative path: ");
        push_str(&mut msg, relative);
        return Err(msg);
    }
    Ok(out)
}

/// Where a notes-file request reads from.
#[derive(Debug)]
pub enum NotesTarget {
    /// An absolute path, used as given.
    Absolute(String),
    /// Segments below the workspace's notes directory.
    InNotes(Vec<String>),
}

/// Decides the file a notes-file request reads: a blank path is a bad
/// request; an absolute path is read as given; any other path must be a
/// safe relative path (else a bad request) and is read below the notes
/// directory.
pub fn notes_file_target(path: &str, absolute: bool) -> (r: Result<NotesTarget, ApiError>)
    ensures
        blank(path@) ==> r is Err && r->Err_0.kind == ErrorKind::BadRequest
            && r->Err_0.message@ == "path 参数不能为空"@,
        !blank(path@) && absolute ==> r is Ok && r->Ok_0 is Absolute && r->Ok_0->Absolute_0@ == trimmed(path@),
        !blank(path@) && !absolute ==> (r is Ok <==> relative_segments(trimmed(path@)) is Some),
        !blank(path@) && !absolute && r is Ok ==> r->Ok_0 is InNotes
            && string_views(r->Ok_0->InNotes_0@) == relative_segments(trimmed(path@))->0,
        !blank(path@) && !absolute && r is Err ==> r->Err_0.kind == ErrorKind::BadRequest
            && r->Err_0.message@ == "Invalid relative path: "@ + trimmed(path@),
{
    let p = trim_str(path);
    if p.unicode_len() == 0 {
        return Err(ApiError { kind: ErrorKind::BadRequest, message: String::from_str("path 参数不能为空") });
    }
    if absolute {
        return Ok(NotesTarget::Absolute(String::from_str(p)));
    }
    match sanitize_relative_path(p) {
        Ok(segs) => Ok(NotesTarget::InNotes(segs)),
        Err(e) => Err(ApiError { kind: ErrorKind::BadRequest, message: e }),
    }
}

} // verus!
