//! Serving the embedded single-page-app bundle for paths that name no
//! endpoint.
use vstd::prelude::*;
use crate::routes::{Method, route_spec, RouteSpec};
use crate::text::{lemma_split_pieces_nonempty, push_char, same_text, split_pieces};

verus! {

/// A segment kept in an asset path: not empty, not `.` and not `..`.
pub open spec fn is_named_segment(g: Seq<char>) -> bool {
    g.len() > 0 && g != "."@ && g != ".."@
}

/// The named segments of `segs`, in order.
pub open spec fn named_segments(segs: Seq<Seq<char>>) -> Seq<Seq<char>>
    decreases segs.len(),
{
    if segs.len() == 0 {
        segs
    } else {
        let k = named_segments(segs.drop_last());
        if is_named_segment(segs.last()) { k.push(segs.last()) } else { k }
    }
}

/// The segments joined with single slashes.
pub open spec fn join_with_slash(segs: Seq<Seq<char>>) -> Seq<char>
    decreases segs.len(),
{
    if segs.len() == 0 {
        Seq::empty()
    } else if segs.len() == 1 {
        segs[0]
    } else {
        join_with_slash(segs.drop_last()) + "/"@ + segs.last()
    }
}

/// Whether `s` holds nothing but slashes (or nothing at all).
pub open spec fn only_slashes(s: Seq<char>) -> bool {
    forall|i: int| 0 <= i < s.len() ==> s[i] == '/'
}

/// The bundle path for a request path: the index document for the root,
/// otherwise the named segments joined by slashes (leading slashes, empty
/// segments, `.` and `..` dropped).
pub open spec fn asset_path(uri_path: Seq<char>) -> Seq<char> {
    if only_slashes(uri_path) {
        "index.html"@
    } else {
        join_with_slash(named_segments(split_pieces(uri_path, '/')))
    }
}

fn is_named(g: &str) -> (r: bool)
    ensures
        r == is_named_segment(g@),
{
    g.unicode_len() > 0 && !same_text(g, ".") && !same_text(g, "..")
}

/// Appends `cur` to the path built so far when it is a named segment.
fn flush_segment(out: &mut String, any: &mut bool, cur: &str, Ghost(done): Ghost<Seq<Seq<char>>>)
    requires
        old(out)@ == join_with_slash(named_segments(done)),
        *old(any) == (named_segments(done).len() > 0),
    ensures
        final(out)@ == join_with_slash(named_segments(done.push(cur@))),
        *final(any) == (named_segments(done.push(cur@)).len() > 0),
{
    let ghost all = done.push(cur@);
    assert(all.drop_last() =~= done);
    if is_named(cur) {
        let ghost k = named_segments(done);
        assert(named_segments(all) == k.push(cur@));
        assert(k.push(cur@).drop_last() =~= k);
        if *any {
            push_char(out, '/');
        }
        out.append(cur);
        *any = true;
        proof {
            reveal_strlit("/");
            if k.len() == 0 {
                assert(out@ =~= join_with_slash(k.push(cur@)));
            } else {
                assert(out@ =~= join_with_slash(k.push(cur@)));
            }
        }
    }
}

/// Maps a request path to the bundle path to look up.
pub fn normalize_embedded_asset_path(uri_path: &str) -> (r: String)
    ensures
        r@ == asset_path(uri_path@),
{
    let n = uri_path.unicode_len();
    let mut out = String::new();
    let mut cur = String::new();
    let mut any = false;
    let mut slashes_only = true;
    let mut i: usize = 0;
    proof {
        assert(uri_path@.subrange(0, 0) =~= Seq::<char>::empty());
        assert(split_pieces(Seq::<char>::empty(), '/').drop_last() =~= Seq::<Seq<char>>::empty());
    }
    while i < n
        invariant
            n == uri_path@.len(),
            i <= n,
            split_pieces(uri_path@.subrange(0, i as int), '/').len() >= 1,
            cur@ == split_pieces(uri_path@.subrange(0, i as int), '/').last(),
            out@ == join_with_slash(named_segments(split_pieces(uri_path@.subrange(0, i as int), '/').drop_last())),
            any == (named_segments(split_pieces(uri_path@.subrange(0, i as int), '/').drop_last()).len() > 0),
            slashes_only == only_slashes(uri_path@.subrange(0, i as int)),
        decreases n - i,
    {
        let c = uri_path.get_char(i);
        let ghost pre = uri_path@.subrange(0, i as int);
        let ghost segs = split_pieces(pre, '/');
        let ghost next = uri_path@.subrange(0, i + 1);
        proof {
            assert(next.drop_last() =~= pre);
            assert(next.last() == c);
            lemma_split_pieces_nonempty(pre, '/');
        }
        if c == '/' {
            proof {
                assert(segs =~= segs.drop_last().push(segs.last()));
            }
            flush_segment(&mut out, &mut any, cur.as_str(), Ghost(segs.drop_last()));
            cur = String::new();
            proof {
                assert(split_pieces(next, '/') == segs.push(Seq::<char>::empty()));
                assert(segs.push(Seq::<char>::empty()).drop_last() =~= segs);
            }
        } else {
            push_char(&mut cur, c);
            slashes_only = false;
            proof {
                let upd = segs.update(segs.len() - 1, segs.last().push(c));
                assert(split_pieces(next, '/') == upd);
                assert(upd.drop_last() =~= segs.drop_last());
            }
        }
        i = i + 1;
        proof {
            assert(only_slashes(next) == (only_slashes(pre) && c == '/'));
        }
    }
    proof {
        assert(uri_path@.subrange(0, n as int) =~= uri_path@);
    }
    if slashes_only {
        return String::from_str("index.html");
    }
    let ghost segs = split_pieces(uri_path@, '/');
    proof {
        assert(segs =~= segs.drop_last().push(segs.last()));
    }
    flush_segment(&mut out, &mut any, cur.as_str(), Ghost(segs.drop_last()));
    out
}

/// The MIME type that mime_guess names for a path, by its extension, with
/// `application/octet-stream` for an unknown or missing extension.
pub uninterp spec fn guessed_mime(path: Seq<char>) -> Seq<char>;

/// Relies on `mime_guess::from_path(..).first_or_octet_stream()`: the first
/// MIME type registered for the path's extension.
#[verifier::external_body]
fn mime_for(path: &str) -> (r: String)
    ensures
        r@ == guessed_mime(path@),
{
    mime_guess::from_path(path).first_or_octet_stream().as_ref().to_string()
}

/// Which content a fallback response carries.
#[derive(PartialEq, Eq, Structural, Clone, Copy, Debug)]
pub enum AssetBody {
    /// The bundle file at the looked-up path.
    File,
    /// The bundle's index document.
    Index,
    /// The plain-text notice that the bundle is missing.
    Missing,
}

/// Status, content type and body of a fallback response.
#[derive(Debug)]
pub struct AssetReply {
    pub status: u16,
    pub content_type: String,
    pub body: AssetBody,
}

pub open spec fn asset_body_spec(has_file: bool, has_index: bool) -> AssetBody {
    if has_file { AssetBody::File } else if has_index { AssetBody::Index } else { AssetBody::Missing }
}

pub open spec fn asset_status_spec(body: AssetBody) -> u16 {
    if body == AssetBody::Missing { 404 } else { 200 }
}

pub open spec fn asset_content_type_spec(path: Seq<char>, body: AssetBody) -> Seq<char> {
    match body {
        AssetBody::File => guessed_mime(path),
        AssetBody::Index => "text/html; charset=utf-8"@,
        AssetBody::Missing => "text/plain; charset=utf-8"@,
    }
}

/// The response for bundle path `path`, given whether the bundle holds a file
/// there and whether it holds the index document.
pub fn asset_reply(path: &str, has_file: bool, has_index: bool) -> (r: AssetReply)
    ensures
        r.body == asset_body_spec(has_file, has_index),
        r.status == asset_status_spec(r.body),
        r.content_type@ == asset_content_type_spec(path@, r.body),
{
    if has_file {
        AssetReply { status: 200, content_type: mime_for(path), body: AssetBody::File }
    } else if has_index {
        AssetReply {
            status: 200,
            content_type: String::from_str("text/html; charset=utf-8"),
            body: AssetBody::Index,
        }
    } else {
        AssetReply {
            status: 404,
            content_type: String::from_str("text/plain; charset=utf-8"),
            body: AssetBody::Missing,
        }
    }
}

/// A request whose path names no endpoint is answered with 200, never 404,
/// as long as the bundle holds its index document: with the file at the
/// normalized path when there is one, with the index document otherwise.
pub proof fn unmapped_path_serves_index(m: Method, path: Seq<char>, has_file: bool, has_index: bool)
    requires
        route_spec(m, path) == RouteSpec::Fallback,
        has_index,
    ensures
        asset_status_spec(asset_body_spec(has_file, has_index)) == 200,
        has_file ==> asset_body_spec(has_file, has_index) == AssetBody::File,
        !has_file ==> asset_body_spec(has_file, has_index) == AssetBody::Index,
        !has_file ==> asset_content_type_spec(asset_path(path), asset_body_spec(has_file, has_index))
            == "text/html; charset=utf-8"@,
{
}

/// The root path, with any number of slashes, looks up the index document.
pub proof fn root_path_is_index(path: Seq<char>)
    requires
        only_slashes(path),
    ensures
        asset_path(path) == "index.html"@,
{
}

} // verus!
