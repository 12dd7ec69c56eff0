//! Decisions of the static file server that serves the web console on
//! localhost: URL decoding, traversal-safe path segments, content types, the
//! accepted methods and the response header.
use vstd::prelude::*;

use crate::text::{decimal_text, push_decimal};
use vstd::string::{StrSliceExecFns, StringExecFns, StringSliceAdditionalSpecFns};
use vstd::utf8::encode_utf8;

verus! {

/// The value of an ASCII hexadecimal digit.
pub open spec fn hex_value(b: u8) -> Option<u8> {
    if 0x30 <= b <= 0x39 {
        Some((b - 0x30) as u8)
    } else if 0x61 <= b <= 0x66 {
        Some((b - 0x61 + 10) as u8)
    } else if 0x41 <= b <= 0x46 {
        Some((b - 0x41 + 10) as u8)
    } else {
        None
    }
}

/// The value of an ASCII hexadecimal digit (`0-9`, `a-f`, `A-F`).
pub fn hex(b: u8) -> (v: Option<u8>)
    ensures
        v == hex_value(b),
{
    if 0x30 <= b && b <= 0x39 {
        Some(b - 0x30)
    } else if 0x61 <= b && b <= 0x66 {
        Some(b - 0x61 + 10)
    } else if 0x41 <= b && b <= 0x46 {
        Some(b - 0x41 + 10)
    } else {
        None
    }
}

/// Percent-decoding of the bytes from position `i` on: `%XX` with two hex
/// digits after it becomes one byte; every other byte is kept.
pub open spec fn percent_decode(b: Seq<u8>, i: int) -> Seq<u8>
    decreases b.len() - i,
{
    if i < 0 || i >= b.len() {
        Seq::empty()
    } else if b[i] == 0x25 && i + 2 < b.len() && hex_value(b[i + 1]) is Some && hex_value(
        b[i + 2],
    ) is Some {
        seq![
            (hex_value(b[i + 1]).unwrap() * 16 + hex_value(b[i + 2]).unwrap()) as u8,
        ] + percent_decode(b, i + 3)
    } else {
        seq![b[i]] + percent_decode(b, i + 1)
    }
}

/// URL decoding of bytes (only handles `%XX`, enough for static resource paths).
pub fn url_decode_bytes(bytes: &[u8]) -> (out: Vec<u8>)
    ensures
        out@ == percent_decode(bytes@, 0),
{
    let mut out: Vec<u8> = Vec::with_capacity(bytes.len());
    let mut i: usize = 0;
    while i < bytes.len()
        invariant
            i <= bytes@.len(),
            percent_decode(bytes@, 0) == out@ + percent_decode(bytes@, i as int),
        decreases bytes@.len() - i,
    {
        if bytes[i] == 0x25 && bytes.len() - i > 2 {
            let h = hex(bytes[i + 1]);
            let l = hex(bytes[i + 2]);
            if let (Some(h), Some(l)) = (h, l) {
                let v: u8 = h * 16 + l;
                out.push(v);
                proof {
                    assert(percent_decode(bytes@, i as int) == seq![v] + percent_decode(
                        bytes@,
                        i + 3,
                    ));
                }
                i += 3;
                continue;
            }
        }
        out.push(bytes[i]);
        i += 1;
    }
    proof {
        assert(out@ + Seq::<u8>::empty() =~= out@);
    }
    out
}

/// What `String::from_utf8_lossy` makes of a byte sequence.
pub uninterp spec fn lossy_utf8(bytes: Seq<u8>) -> Seq<char>;

/// `String::from_utf8_lossy` (std), turned into an owned `String`. Contract:
/// the text is the named lossy decoding of the bytes, and for valid UTF-8 it is
/// exactly the decoded text (std documents that valid input is returned as is).
/// Not stated: which replacement characters stand for invalid sequences.
#[verifier::external_body]
fn string_from_utf8_lossy(bytes: &[u8]) -> (s: String)
    ensures
        s@ == lossy_utf8(bytes@),
        vstd::utf8::valid_utf8(bytes@) ==> s@ == vstd::utf8::decode_utf8(bytes@),
{
    String::from_utf8_lossy(bytes).into_owned()
}

/// URL decoding (only handles `%XX`, enough for static resource paths);
/// invalid UTF-8 in the result is replaced lossily.
pub fn url_decode(s: &str) -> (out: String)
    ensures
        out@ == lossy_utf8(percent_decode(s.spec_bytes(), 0)),
        vstd::utf8::valid_utf8(percent_decode(s.spec_bytes(), 0)) ==> out@
            == vstd::utf8::decode_utf8(percent_decode(s.spec_bytes(), 0)),
{
    let decoded = url_decode_bytes(s.as_bytes());
    string_from_utf8_lossy(decoded.as_slice())
}

// ===== Path segments =====
/// A path separator: `/`, and also `\` under Windows path rules.
pub open spec fn is_sep(b: u8, windows: bool) -> bool {
    b == 0x2F || (windows && b == 0x5C)
}

/// The segments of a path between separators (an empty path is one empty segment).
pub open spec fn sep_split(p: Seq<u8>, windows: bool) -> Seq<Seq<u8>>
    decreases p.len(),
{
    if p.len() == 0 {
        seq![Seq::empty()]
    } else {
        let parts = sep_split(p.drop_last(), windows);
        if is_sep(p.last(), windows) {
            parts.push(Seq::empty())
        } else {
            parts.update(parts.len() - 1, parts.last().push(p.last()))
        }
    }
}

/// The segment `..`.
pub open spec fn is_parent(s: Seq<u8>) -> bool {
    s == seq![0x2Eu8, 0x2Eu8]
}

/// An ASCII letter.
pub open spec fn is_ascii_letter(b: u8) -> bool {
    (0x41 <= b <= 0x5A) || (0x61 <= b <= 0x7A)
}

/// Under Windows path rules, whether the path with its leading `/` removed
/// starts with a root or a prefix: a `\` (a root, or a `\\server` or `\\?\`
/// prefix), or a drive letter and `:` (a disk prefix such as `C:`).
pub open spec fn windows_root_or_prefix(p: Seq<u8>) -> bool {
    exists|j: int|
        0 <= j < p.len() && (forall|k: int| 0 <= k < j ==> p[k] == 0x2F) && p[j] != 0x2F && (
        #[trigger] p[j] == 0x5C || (j + 1 < p.len() && is_ascii_letter(p[j]) && p[j + 1]
            == 0x3A))
}

/// A segment that names a path component: not empty and not `.`.
pub open spec fn is_component(s: Seq<u8>) -> bool {
    s.len() > 0 && s != seq![0x2Eu8]
}

/// `is_component` as a predicate on segments.
pub open spec fn component_pred() -> spec_fn(Seq<u8>) -> bool {
    |s: Seq<u8>| is_component(s)
}

/// The components a URL path adds below the web root, read as the path with its
/// leading `/` removed: `None` when a component is `..`, or (under Windows path
/// rules) the path starts with a root or a prefix; otherwise the non-empty
/// segments other than `.`, in order.
pub open spec fn path_components(p: Seq<u8>, windows: bool) -> Option<Seq<Seq<u8>>> {
    if windows && windows_root_or_prefix(p) {
        None
    } else if exists|k: int|
        0 <= k < sep_split(p, windows).len() && #[trigger] is_parent(sep_split(p, windows)[k]) {
        None
    } else {
        Some(sep_split(p, windows).filter(component_pred()))
    }
}

proof fn lemma_split_nonempty(p: Seq<u8>, windows: bool)
    ensures
        sep_split(p, windows).len() >= 1,
    decreases p.len(),
{
    if p.len() > 0 {
        lemma_split_nonempty(p.drop_last(), windows);
    }
}

/// Bytes after a prefix do not change the prefix's completed segments.
proof fn lemma_split_prefix(p: Seq<u8>, j: int, windows: bool)
    requires
        0 <= j <= p.len(),
    ensures
        sep_split(p.take(j), windows).len() <= sep_split(p, windows).len(),
        forall|k: int|
            0 <= k < sep_split(p.take(j), windows).len() - 1 ==> sep_split(p, windows)[k]
                == sep_split(p.take(j), windows)[k],
    decreases p.len(),
{
    lemma_split_nonempty(p, windows);
    if j == p.len() {
        assert(p.take(j) =~= p);
    } else {
        lemma_split_prefix(p.drop_last(), j, windows);
        assert(p.drop_last().take(j) =~= p.take(j));
        lemma_split_nonempty(p.drop_last(), windows);
    }
}

fn is_parent_segment(cur: &Vec<u8>) -> (b: bool)
    ensures
        b == is_parent(cur@),
{
    let b = cur.len() == 2 && cur[0] == 0x2E && cur[1] == 0x2E;
    if cur.len() == 2 {
        assert(b ==> cur@ =~= seq![0x2Eu8, 0x2Eu8]);
    }
    b
}

fn is_component_segment(cur: &Vec<u8>) -> (b: bool)
    ensures
        b == is_component(cur@),
{
    if cur.len() == 0 {
        return false;
    }
    let dot = cur.len() == 1 && cur[0] == 0x2E;
    if cur.len() == 1 {
        assert(dot ==> cur@ =~= seq![0x2Eu8]);
    }
    !dot
}

/// Whether the path starts with a root or prefix under Windows path rules.
fn starts_with_root_or_prefix(p: &[u8]) -> (b: bool)
    ensures
        b == windows_root_or_prefix(p@),
{
    let mut j: usize = 0;
    while j < p.len() && p[j] == 0x2F
        invariant
            j <= p@.len(),
            forall|k: int| 0 <= k < j ==> p@[k] == 0x2F,
        decreases p@.len() - j,
    {
        j += 1;
    }
    if j == p.len() {
        assert(!windows_root_or_prefix(p@)) by {
            assert forall|i: int|
                0 <= i < p@.len() && (forall|k: int| 0 <= k < i ==> p@[k] == 0x2F) implies !(p@[i]
                != 0x2F) by {}
        }
        return false;
    }
    let b = p[j];
    let r = b == 0x5C || (j + 1 < p.len() && ((0x41 <= b && b <= 0x5A) || (0x61 <= b && b <= 0x7A))
        && p[j + 1] == 0x3A);
    assert(r == windows_root_or_prefix(p@)) by {
        assert forall|i: int|
            0 <= i < p@.len() && (forall|k: int| 0 <= k < i ==> p@[k] == 0x2F) && p@[i]
                != 0x2F implies i == j by {
            if i < j {
                assert(p@[i] == 0x2F);
            }
            if i > j {
                assert(p@[j as int] == 0x2F);
            }
        }
        if r {
            assert(p@[j as int] == 0x5C || (j + 1 < p@.len() && is_ascii_letter(p@[j as int])
                && p@[j + 1] == 0x3A));
        }
    }
    r
}

/// The deep view of a list of byte vectors.
pub open spec fn segments_view(v: Seq<Vec<u8>>) -> Seq<Seq<u8>> {
    v.map_values(|x: Vec<u8>| x@)
}

/// Safely split a URL path into the components to append below the web root,
/// reading it as a path relative to the root (leading `/` removed) under Unix
/// path rules, or under Windows path rules when `windows` is set. Refuses a
/// `..` component, and under Windows rules a root or prefix at the start; empty
/// segments and `.` are dropped.
pub fn safe_join(url_path: &str, windows: bool) -> (r: Option<Vec<Vec<u8>>>)
    ensures
        match r {
            Some(v) => path_components(url_path.spec_bytes(), windows) == Some(segments_view(v@)),
            None => path_components(url_path.spec_bytes(), windows) is None,
        },
{
    let p = url_path.as_bytes();
    let ghost pb = p@;
    if windows && starts_with_root_or_prefix(p) {
        return None;
    }
    let mut segs: Vec<Vec<u8>> = Vec::new();
    let mut cur: Vec<u8> = Vec::new();
    let mut i: usize = 0;
    proof {
        assert(pb.take(0) =~= Seq::<u8>::empty());
    }
    while i < p.len()
        invariant
            pb == p@,
            pb == url_path.spec_bytes(),
            !(windows && windows_root_or_prefix(pb)),
            i <= pb.len(),
            sep_split(pb.take(i as int), windows).len() >= 1,
            cur@ == sep_split(pb.take(i as int), windows).last(),
            segments_view(segs@) == sep_split(pb.take(i as int), windows).drop_last().filter(
                component_pred(),
            ),
            forall|k: int|
                0 <= k < sep_split(pb.take(i as int), windows).len() - 1 ==> !is_parent(
                    #[trigger] sep_split(pb.take(i as int), windows)[k],
                ),
        decreases pb.len() - i,
    {
        let ghost parts = sep_split(pb.take(i as int), windows);
        let ghost next = pb.take(i + 1);
        proof {
            assert(next.drop_last() =~= pb.take(i as int));
            assert(next.last() == pb[i as int]);
        }
        let b = p[i];
        if b == 0x2F || (windows && b == 0x5C) {
            if is_parent_segment(&cur) {
                proof {
                    lemma_split_prefix(pb, i + 1, windows);
                    assert(sep_split(next, windows) == parts.push(Seq::empty()));
                    assert(sep_split(pb, windows)[parts.len() - 1] == parts.last());
                    assert(is_parent(sep_split(pb, windows)[parts.len() - 1]));
                    assert(path_components(pb, windows) is None);
                }
                return None;
            }
            if is_component_segment(&cur) {
                segs.push(cur);
            }
            proof {
                assert(sep_split(next, windows) == parts.push(Seq::empty()));
                assert(sep_split(next, windows).drop_last() =~= parts);
                assert(parts.drop_last().push(parts.last()) =~= parts);
                parts.drop_last().lemma_filter_push(parts.last(), component_pred());
                assert(segments_view(segs@) =~= parts.filter(component_pred()));
            }
            cur = Vec::new();
            proof {
                assert(cur@ =~= sep_split(next, windows).last());
            }
        } else {
            cur.push(b);
            proof {
                assert(sep_split(next, windows) == parts.update(
                    parts.len() - 1,
                    parts.last().push(b),
                ));
                assert(sep_split(next, windows).drop_last() =~= parts.drop_last());
            }
        }
        i += 1;
    }
    proof {
        assert(pb.take(pb.len() as int) =~= pb);
    }
    let ghost parts = sep_split(pb, windows);
    if is_parent_segment(&cur) {
        proof {
            assert(is_parent(parts[parts.len() - 1]));
        }
        return None;
    }
    if is_component_segment(&cur) {
        segs.push(cur);
    }
    proof {
        assert(parts.drop_last().push(parts.last()) =~= parts);
        parts.drop_last().lemma_filter_push(parts.last(), component_pred());
        assert(segments_view(segs@) =~= parts.filter(component_pred()));
        assert(forall|k: int| 0 <= k < parts.len() ==> !is_parent(#[trigger] parts[k]));
    }
    Some(segs)
}

/// The segments of a split hold no separator.
proof fn lemma_split_no_sep(p: Seq<u8>, windows: bool)
    ensures
        forall|k: int, i: int|
            0 <= k < sep_split(p, windows).len() && 0 <= i < sep_split(p, windows)[k].len()
                ==> !is_sep(#[trigger] sep_split(p, windows)[k][i], windows),
    decreases p.len(),
{
    lemma_split_nonempty(p, windows);
    if p.len() > 0 {
        lemma_split_no_sep(p.drop_last(), windows);
        lemma_split_nonempty(p.drop_last(), windows);
        let parts = sep_split(p.drop_last(), windows);
        let s = sep_split(p, windows);
        assert forall|k: int, i: int| 0 <= k < s.len() && 0 <= i < s[k].len() implies !is_sep(
            #[trigger] s[k][i],
            windows,
        ) by {
            if k < parts.len() - 1 {
                assert(s[k] == parts[k]);
            } else if k == parts.len() - 1 {
                if !is_sep(p.last(), windows) {
                    assert(s[k] == parts.last().push(p.last()));
                    if i < parts.last().len() {
                        assert(s[k][i] == parts[k][i]);
                    }
                } else {
                    assert(s[k] == parts[k]);
                }
            }
        }
    }
}

proof fn lemma_filter_keeps(s: Seq<Seq<u8>>, windows: bool)
    requires
        forall|k: int| 0 <= k < s.len() ==> !is_parent(#[trigger] s[k]),
        forall|k: int, i: int|
            0 <= k < s.len() && 0 <= i < s[k].len() ==> !is_sep(#[trigger] s[k][i], windows),
    ensures
        forall|k: int|
            0 <= k < s.filter(component_pred()).len() ==> !is_parent(
                #[trigger] s.filter(component_pred())[k],
            ),
        forall|k: int, i: int|
            0 <= k < s.filter(component_pred()).len() && 0 <= i < s.filter(
                component_pred(),
            )[k].len() ==> !is_sep(#[trigger] s.filter(component_pred())[k][i], windows),
    decreases s.len(),
{
    reveal(Seq::filter);
    if s.len() > 0 {
        let d = s.drop_last();
        assert forall|k: int| 0 <= k < d.len() implies !is_parent(#[trigger] d[k]) by {
            assert(d[k] == s[k]);
        }
        assert forall|k: int, i: int| 0 <= k < d.len() && 0 <= i < d[k].len() implies !is_sep(
            #[trigger] d[k][i],
            windows,
        ) by {
            assert(d[k] == s[k]);
        }
        lemma_filter_keeps(d, windows);
        assert(!is_parent(s[s.len() - 1]));
        let f = s.filter(component_pred());
        let fd = d.filter(component_pred());
        assert forall|k: int| 0 <= k < f.len() implies !is_parent(#[trigger] f[k]) by {
            if k < fd.len() {
                assert(f[k] == fd[k]);
            } else {
                assert(f[k] == s.last());
            }
        }
        assert forall|k: int, i: int| 0 <= k < f.len() && 0 <= i < f[k].len() implies !is_sep(
            #[trigger] f[k][i],
            windows,
        ) by {
            if k < fd.len() {
                assert(f[k] == fd[k]);
            } else {
                assert(f[k] == s.last());
                assert(s.last() == s[s.len() - 1]);
            }
        }
    }
}

/// No accepted path leaves the web root: every component is a plain name,
/// never `..`, `.` or empty, and holds no separator of the chosen path rules
/// (no `/`, and under Windows rules no `\`); under Windows rules an accepted
/// path has no root or prefix at its start.
pub proof fn lemma_no_traversal(p: Seq<u8>, windows: bool)
    ensures
        path_components(p, windows) matches Some(cs) ==> {
            &&& forall|k: int|
                0 <= k < cs.len() ==> is_component(#[trigger] cs[k]) && !is_parent(cs[k])
            &&& forall|k: int, i: int|
                0 <= k < cs.len() && 0 <= i < cs[k].len() ==> !is_sep(#[trigger] cs[k][i], windows)
            &&& windows ==> !windows_root_or_prefix(p)
        },
{
    if let Some(cs) = path_components(p, windows) {
        lemma_split_no_sep(p, windows);
        lemma_filter_keeps(sep_split(p, windows), windows);
        assert forall|k: int| 0 <= k < cs.len() implies is_component(#[trigger] cs[k])
            && !is_parent(cs[k]) by {
            sep_split(p, windows).lemma_filter_pred(component_pred(), k);
        }
    }
}

// ===== Methods, content types and response headers =====
/// Whether two byte strings are equal.
fn bytes_eq(a: &[u8], b: &[u8]) -> (r: bool)
    ensures
        r == (a@ == b@),
{
    if a.len() != b.len() {
        return false;
    }
    let mut i: usize = 0;
    while i < a.len()
        invariant
            a@.len() == b@.len(),
            i <= a@.len(),
            forall|j: int| 0 <= j < i ==> a@[j] == b@[j],
        decreases a@.len() - i,
    {
        if a[i] != b[i] {
            return false;
        }
        i += 1;
    }
    assert(a@ =~= b@);
    true
}

/// Whether `s` is the text `lit`.
fn is_text(s: &str, lit: &str) -> (r: bool)
    ensures
        r == (s.spec_bytes() == lit.spec_bytes()),
{
    bytes_eq(s.as_bytes(), lit.as_bytes())
}

/// The server only answers `GET` and `HEAD` requests (others get 405).
pub fn is_allowed_method(method: &str) -> (b: bool)
    ensures
        b == (method.spec_bytes() == "GET".spec_bytes() || method.spec_bytes()
            == "HEAD".spec_bytes()),
{
    is_text(method, "GET") || is_text(method, "HEAD")
}

/// The content type served for a file extension.
pub open spec fn content_type_of(ext: Option<Seq<u8>>) -> Seq<char> {
    match ext {
        Some(e) => if e == "html".spec_bytes() || e == "htm".spec_bytes() {
            "text/html; charset=utf-8"@
        } else if e == "js".spec_bytes() || e == "mjs".spec_bytes() {
            "application/javascript; charset=utf-8"@
        } else if e == "css".spec_bytes() {
            "text/css; charset=utf-8"@
        } else if e == "json".spec_bytes() {
            "application/json; charset=utf-8"@
        } else if e == "svg".spec_bytes() {
            "image/svg+xml"@
        } else if e == "png".spec_bytes() {
            "image/png"@
        } else if e == "jpg".spec_bytes() || e == "jpeg".spec_bytes() {
            "image/jpeg"@
        } else if e == "ico".spec_bytes() {
            "image/x-icon"@
        } else {
            "application/octet-stream"@
        },
        None => "application/octet-stream"@,
    }
}

/// The extension of a file as literal bytes: `html` and `htm` are served as
/// HTML, `js` and `mjs` as JavaScript, `css`, `json`, `svg`, `png`, `jpg` and
/// `jpeg`, `ico` by their types, and every other extension, or none, as
/// `application/octet-stream`.
pub proof fn lemma_content_types(e: Seq<u8>)
    ensures
        content_type_of(Some(seq![0x68u8, 0x74, 0x6D, 0x6C])) == "text/html; charset=utf-8"@,
        content_type_of(Some(seq![0x68u8, 0x74, 0x6D])) == "text/html; charset=utf-8"@,
        content_type_of(Some(seq![0x6Au8, 0x73])) == "application/javascript; charset=utf-8"@,
        content_type_of(Some(seq![0x6Du8, 0x6A, 0x73])) == "application/javascript; charset=utf-8"@,
        content_type_of(Some(seq![0x63u8, 0x73, 0x73])) == "text/css; charset=utf-8"@,
        content_type_of(Some(seq![0x6Au8, 0x73, 0x6F, 0x6E])) == "application/json; charset=utf-8"@,
        content_type_of(Some(seq![0x73u8, 0x76, 0x67])) == "image/svg+xml"@,
        content_type_of(Some(seq![0x70u8, 0x6E, 0x67])) == "image/png"@,
        content_type_of(Some(seq![0x6Au8, 0x70, 0x67])) == "image/jpeg"@,
        content_type_of(Some(seq![0x6Au8, 0x70, 0x65, 0x67])) == "image/jpeg"@,
        content_type_of(Some(seq![0x69u8, 0x63, 0x6F])) == "image/x-icon"@,
        content_type_of(None) == "application/octet-stream"@,
        ({
            &&& e != seq![0x68u8, 0x74, 0x6D, 0x6C]
            &&& e != seq![0x68u8, 0x74, 0x6D]
            &&& e != seq![0x6Au8, 0x73]
            &&& e != seq![0x6Du8, 0x6A, 0x73]
            &&& e != seq![0x63u8, 0x73, 0x73]
            &&& e != seq![0x6Au8, 0x73, 0x6F, 0x6E]
            &&& e != seq![0x73u8, 0x76, 0x67]
            &&& e != seq![0x70u8, 0x6E, 0x67]
            &&& e != seq![0x6Au8, 0x70, 0x67]
            &&& e != seq![0x6Au8, 0x70, 0x65, 0x67]
            &&& e != seq![0x69u8, 0x63, 0x6F]
        }) ==> content_type_of(Some(e)) == "application/octet-stream"@,
{
    reveal_strlit("html");
    vstd::string::is_ascii_spec_bytes("html");
    assert("html".spec_bytes() =~= seq![0x68u8, 0x74, 0x6D, 0x6C]);
    reveal_strlit("htm");
    vstd::string::is_ascii_spec_bytes("htm");
    assert("htm".spec_bytes() =~= seq![0x68u8, 0x74, 0x6D]);
    reveal_strlit("js");
    vstd::string::is_ascii_spec_bytes("js");
    assert("js".spec_bytes() =~= seq![0x6Au8, 0x73]);
    reveal_strlit("mjs");
    vstd::string::is_ascii_spec_bytes("mjs");
    assert("mjs".spec_bytes() =~= seq![0x6Du8, 0x6A, 0x73]);
    reveal_strlit("css");
    vstd::string::is_ascii_spec_bytes("css");
    assert("css".spec_bytes() =~= seq![0x63u8, 0x73, 0x73]);
    reveal_strlit("json");
    vstd::string::is_ascii_spec_bytes("json");
    assert("json".spec_bytes() =~= seq![0x6Au8, 0x73, 0x6F, 0x6E]);
    reveal_strlit("svg");
    vstd::string::is_ascii_spec_bytes("svg");
    assert("svg".spec_bytes() =~= seq![0x73u8, 0x76, 0x67]);
    reveal_strlit("png");
    vstd::string::is_ascii_spec_bytes("png");
    assert("png".spec_bytes() =~= seq![0x70u8, 0x6E, 0x67]);
    reveal_strlit("jpg");
    vstd::string::is_ascii_spec_bytes("jpg");
    assert("jpg".spec_bytes() =~= seq![0x6Au8, 0x70, 0x67]);
    reveal_strlit("jpeg");
    vstd::string::is_ascii_spec_bytes("jpeg");
    assert("jpeg".spec_bytes() =~= seq![0x6Au8, 0x70, 0x65, 0x67]);
    reveal_strlit("ico");
    vstd::string::is_ascii_spec_bytes("ico");
    assert("ico".spec_bytes() =~= seq![0x69u8, 0x63, 0x6F]);
}

/// The content type for a file's extension (`None` when it has none or it is not UTF-8).
pub fn content_type(ext: Option<&str>) -> (t: &'static str)
    ensures
        t@ == content_type_of(
            match ext {
                Some(e) => Some(e.spec_bytes()),
                None => None,
            },
        ),
{
    match ext {
        Some(e) => if is_text(e, "html") || is_text(e, "htm") {
            "text/html; charset=utf-8"
        } else if is_text(e, "js") || is_text(e, "mjs") {
            "application/javascript; charset=utf-8"
        } else if is_text(e, "css") {
            "text/css; charset=utf-8"
        } else if is_text(e, "json") {
            "application/json; charset=utf-8"
        } else if is_text(e, "svg") {
            "image/svg+xml"
        } else if is_text(e, "png") {
            "image/png"
        } else if is_text(e, "jpg") || is_text(e, "jpeg") {
            "image/jpeg"
        } else if is_text(e, "ico") {
            "image/x-icon"
        } else {
            "application/octet-stream"
        },
        None => "application/octet-stream",
    }
}

/// The header of a response: status line, content type and length, no caching,
/// connection close.
pub open spec fn header_text(
    status: u16,
    reason: Seq<char>,
    content_type: Seq<char>,
    body_len: nat,
) -> Seq<char> {
    "HTTP/1.1 "@ + decimal_text(status as nat) + " "@ + reason + "\r\nContent-Type: "@
        + content_type + "\r\nContent-Length: "@ + decimal_text(body_len)
        + "\r\nCache-Control: no-store\r\nConnection: close\r\n\r\n"@
}

/// Build the header of a response.
pub fn response_header(status: u16, reason: &str, content_type: &str, body_len: usize) -> (h:
    String)
    ensures
        h@ == header_text(status, reason@, content_type@, body_len as nat),
{
    let mut h = String::from_str("HTTP/1.1 ");
    push_decimal(&mut h, status as usize);
    h.append(" ");
    h.append(reason);
    h.append("\r\nContent-Type: ");
    h.append(content_type);
    h.append("\r\nContent-Length: ");
    push_decimal(&mut h, body_len);
    h.append("\r\nCache-Control: no-store\r\nConnection: close\r\n\r\n");
    assert(h@ =~= header_text(status, reason@, content_type@, body_len as nat));
    h
}

// ===== Request routing =====
/// Unicode `White_Space`, what `char::is_whitespace` tests.
pub open spec fn is_white_space(c: char) -> bool {
    let u = c as u32;
    (0x09 <= u <= 0x0D) || u == 0x20 || u == 0x85 || u == 0xA0 || u == 0x1680 || (0x2000 <= u
        <= 0x200A) || u == 0x2028 || u == 0x2029 || u == 0x202F || u == 0x205F || u == 0x3000
}

fn white_space(c: char) -> (b: bool)
    ensures
        b == is_white_space(c),
{
    let u = c as u32;
    (0x09 <= u && u <= 0x0D) || u == 0x20 || u == 0x85 || u == 0xA0 || u == 0x1680 || (0x2000 <= u
        && u <= 0x200A) || u == 0x2028 || u == 0x2029 || u == 0x202F || u == 0x205F || u == 0x3000
}

/// The whitespace-separated words of a text, in order.
pub open spec fn words(s: Seq<char>) -> Seq<Seq<char>>
    decreases s.len(),
{
    if s.len() == 0 {
        seq![]
    } else {
        let w = words(s.drop_last());
        let c = s.last();
        if is_white_space(c) {
            w
        } else if s.len() >= 2 && !is_white_space(s[s.len() - 2]) {
            w.update(w.len() - 1, w.last().push(c))
        } else {
            w.push(seq![c])
        }
    }
}

/// The part of a request target before its first `?`.
pub open spec fn before_query(s: Seq<char>) -> Seq<char>
    decreases s.len(),
{
    if s.len() == 0 {
        s
    } else if s[0] == '?' {
        Seq::empty()
    } else {
        seq![s[0]] + before_query(s.drop_first())
    }
}

/// The method of a request line: its first word, or empty.
pub open spec fn request_method(line: Seq<char>) -> Seq<char> {
    if words(line).len() >= 1 {
        words(line)[0]
    } else {
        Seq::empty()
    }
}

/// The target of a request line: its second word, or `/`.
pub open spec fn request_target(line: Seq<char>) -> Seq<char> {
    if words(line).len() >= 2 {
        words(line)[1]
    } else {
        seq!['/']
    }
}

/// What the server does with a request.
pub enum Route {
    /// Not `GET` or `HEAD`: 405
    MethodNotAllowed,
    /// The path leaves the web root: 403
    Forbidden,
    /// Serve the file at these components below the web root (404 if absent)
    Serve(Vec<Vec<u8>>),
}

/// The route of a request line `METHOD TARGET ...`: 405 unless the method is
/// `GET` or `HEAD`; otherwise the target without its query, URL-decoded, split
/// into components below the web root (403 when refused).
pub open spec fn route_spec(line: Seq<char>, windows: bool, r: Route) -> bool {
    let m = encode_utf8(request_method(line));
    let decoded = lossy_utf8(percent_decode(encode_utf8(before_query(request_target(line))), 0));
    if !(m == "GET".spec_bytes() || m == "HEAD".spec_bytes()) {
        r is MethodNotAllowed
    } else {
        match path_components(encode_utf8(decoded), windows) {
            None => r is Forbidden,
            Some(cs) => r matches Route::Serve(v) && segments_view(v@) == cs,
        }
    }
}

/// `before_query` keeps the text up to the first `?`.
proof fn lemma_before_query(s: Seq<char>, q: int)
    requires
        0 <= q <= s.len(),
        forall|k: int| 0 <= k < q ==> s[k] != '?',
        q < s.len() ==> s[q] == '?',
    ensures
        before_query(s) == s.take(q),
    decreases s.len(),
{
    if s.len() > 0 && q > 0 {
        let t = s.drop_first();
        assert forall|k: int| 0 <= k < q - 1 implies t[k] != '?' by {
            assert(t[k] == s[k + 1]);
        }
        lemma_before_query(t, q - 1);
        assert(seq![s[0]] + t.take(q - 1) =~= s.take(q));
    } else if s.len() > 0 {
        assert(s.take(q) =~= Seq::<char>::empty());
    } else {
        assert(s.take(q) =~= s);
    }
}

/// The target without its query.
fn strip_query(target: &str) -> (r: &str)
    ensures
        r@ == before_query(target@),
{
    broadcast use vstd::string::axiom_spec_iter, vstd::string::next_postcondition;

    let len = target.unicode_len();
    let ghost s = target@;
    let mut it = target.chars();
    let mut q: usize = 0;
    let mut found = false;
    while q < len && !found
        invariant
            len == s.len(),
            s == target@,
            q <= len,
            vstd::std_specs::iter::IteratorSpec::remaining(&it) == s.skip(
                if found {
                    q + 1
                } else {
                    q as int
                },
            ),
            forall|k: int| 0 <= k < q ==> s[k] != '?',
            found ==> q < len && s[q as int] == '?',
        decreases len - q + if found {
            0int
        } else {
            1int
        },
    {
        let c = it.next();
        proof {
            assert(s.skip(q as int)[0] == s[q as int]);
            assert(s.skip(q as int).drop_first() =~= s.skip(q + 1));
        }
        let ch = match c {
            Some(ch) => ch,
            None => ' ',
        };
        if ch == '?' {
            found = true;
        } else {
            q += 1;
        }
    }
    proof {
        lemma_before_query(s, q as int);
    }
    target.substring_char(0, q)
}

/// The method and the target of a request line `METHOD TARGET ...` (its first
/// two whitespace-separated words; an empty method and `/` when missing).
pub fn request_words(line: &str) -> (r: (&str, &str))
    ensures
        r.0@ == request_method(line@),
        r.1@ == request_target(line@),
{
    broadcast use vstd::string::axiom_spec_iter, vstd::string::next_postcondition;

    let len = line.unicode_len();
    let ghost s = line@;
    let mut it = line.chars();
    let mut i: usize = 0;
    let mut n: usize = 0;
    let mut in_word = false;
    let mut a0: usize = 0;
    let mut b0: usize = 0;
    let mut a1: usize = 0;
    let mut b1: usize = 0;
    proof {
        assert(s.take(0) =~= Seq::<char>::empty());
    }
    while i < len
        invariant
            len == s.len(),
            s == line@,
            i <= len,
            vstd::std_specs::iter::IteratorSpec::remaining(&it) == s.skip(i as int),
            n == words(s.take(i as int)).len(),
            n <= i,
            a0 <= b0 <= i,
            a1 <= b1 <= i,
            n >= 1 ==> words(s.take(i as int))[0] == s.subrange(a0 as int, b0 as int),
            n >= 2 ==> words(s.take(i as int))[1] == s.subrange(a1 as int, b1 as int),
            in_word == (i > 0 && !is_white_space(s[i - 1])),
            in_word ==> n >= 1,
            in_word && n == 1 ==> b0 == i,
            in_word && n == 2 ==> b1 == i,
        decreases len - i,
    {
        let ghost t = s.take(i as int);
        let ghost t1 = s.take(i + 1);
        let c = it.next();
        proof {
            assert(s.skip(i as int)[0] == s[i as int]);
            assert(s.skip(i as int).drop_first() =~= s.skip(i + 1));
            assert(t1.drop_last() =~= t);
            assert(t1.last() == s[i as int]);
            if i >= 1 {
                assert(t1[t1.len() - 2] == s[i - 1]);
            }
        }
        let ch = match c {
            Some(ch) => ch,
            None => ' ',
        };
        assert(ch == s[i as int]);
        if white_space(ch) {
            in_word = false;
        } else if in_word {
            if n == 1 {
                b0 = i + 1;
                proof {
                    assert(s.subrange(a0 as int, i as int).push(ch) =~= s.subrange(a0 as int, i + 1));
                }
            } else if n == 2 {
                b1 = i + 1;
                proof {
                    assert(s.subrange(a1 as int, i as int).push(ch) =~= s.subrange(a1 as int, i + 1));
                }
            }
        } else {
            n += 1;
            if n == 1 {
                a0 = i;
                b0 = i + 1;
                proof {
                    assert(seq![ch] =~= s.subrange(i as int, i + 1));
                }
            } else if n == 2 {
                a1 = i;
                b1 = i + 1;
                proof {
                    assert(seq![ch] =~= s.subrange(i as int, i + 1));
                }
            }
            in_word = true;
        }
        i += 1;
    }
    proof {
        assert(s.take(len as int) =~= s);
    }
    let method: &str = if n >= 1 {
        line.substring_char(a0, b0)
    } else {
        ""
    };
    proof {
        reveal_strlit("");
        reveal_strlit("/");
    }
    let target: &str = if n >= 2 {
        line.substring_char(a1, b1)
    } else {
        "/"
    };
    (method, target)
}

/// The route of a request line, read under Unix path rules or, when `windows`
/// is set, under Windows path rules.
pub fn route(line: &str, windows: bool) -> (r: Route)
    ensures
        route_spec(line@, windows, r),
{
    let (method, target) = request_words(line);
    if !is_allowed_method(method) {
        return Route::MethodNotAllowed;
    }
    let path_only = strip_query(target);
    let decoded = url_decode(path_only);
    match safe_join(decoded.as_str(), windows) {
        Some(v) => Route::Serve(v),
        None => Route::Forbidden,
    }
}

} // verus!
