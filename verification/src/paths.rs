//! Slash-separated paths held as bytes: joining, parents, last segments, and
//! the comparison by segments under which `a//b/.` and `a/b` are the same path.
use vstd::prelude::*;
use vstd::string::StrSliceExecFns;
use vstd::utf8;

use crate::bytes;
use crate::bytes::{bytes_eq, bytes_of_range, copy_bytes, from_utf8_lossy, split_bytes};
use crate::edit;
use crate::text;

verus! {

/// The byte between segments.
pub const SLASH: u8 = 0x2f;

/// The byte of a full stop.
pub const DOT: u8 = 0x2e;

/// A path, as the bytes that the system knows it by; they need not be text.
#[derive(Debug)]
pub struct FilePath {
    pub bytes: Vec<u8>,
}

impl View for FilePath {
    type V = Seq<u8>;

    open spec fn view(&self) -> Seq<u8> {
        self.bytes@
    }
}

impl Clone for FilePath {
    fn clone(&self) -> (r: Self)
        ensures
            r@ == self@,
    {
        FilePath { bytes: copy_bytes(&self.bytes) }
    }
}

impl FilePath {
    /// The path that a text names.
    pub fn from_text(s: &str) -> (r: FilePath)
        ensures
            r@ == utf8::encode_utf8(s@),
    {
        FilePath { bytes: s.as_bytes_vec() }
    }

    /// The path as text, with replacement characters for what is none.
    pub fn to_text(&self) -> (r: String)
        ensures
            r@ == bytes::text_of(self@),
    {
        from_utf8_lossy(self.bytes.as_slice())
    }
}

/// The bytes of an optional path.
pub open spec fn opt_view(o: Option<FilePath>) -> Option<Seq<u8>> {
    match o {
        Some(p) => Some(p@),
        None => None,
    }
}

/// The path or the error text of an outcome.
pub open spec fn outcome_view(r: Result<FilePath, String>) -> Result<Seq<u8>, Seq<char>> {
    match r {
        Ok(p) => Ok(p@),
        Err(e) => Err(e@),
    }
}

// ---------------------------------------------------------------------------
// Model
// ---------------------------------------------------------------------------

/// The path without trailing separators and trailing `.` segments. A root
/// separator, and a `.` that is the whole path, stay.
pub open spec fn tidy_end(p: Seq<u8>) -> Seq<u8>
    decreases p.len(),
{
    if p.len() > 1 && (p.last() == SLASH || (p.last() == DOT && p[p.len() - 2] == SLASH)) {
        tidy_end(p.drop_last())
    } else {
        p
    }
}

/// Where what follows the last separator starts.
pub open spec fn last_segment_start(p: Seq<u8>) -> int
    decreases p.len(),
{
    if p.len() == 0 {
        0
    } else if p.last() == SLASH {
        p.len() as int
    } else {
        last_segment_start(p.drop_last())
    }
}

/// Whether the path, once tidied, names nothing below a root.
pub open spec fn has_no_segment(tidied: Seq<u8>) -> bool {
    tidied.len() == 0 || tidied == seq![SLASH]
}

/// The path that holds the last segment, if there is a last segment.
pub open spec fn parent_of(p: Seq<u8>) -> Option<Seq<u8>> {
    let t = tidy_end(p);
    if has_no_segment(t) {
        None
    } else {
        Some(tidy_end(t.take(last_segment_start(t))))
    }
}

/// The last segment, unless there is none or it is `.` or `..`.
pub open spec fn file_name_of(p: Seq<u8>) -> Option<Seq<u8>> {
    let t = tidy_end(p);
    let name = t.skip(last_segment_start(t));
    if has_no_segment(t) || name == seq![DOT] || name == seq![DOT, DOT] {
        None
    } else {
        Some(name)
    }
}

/// Whether the path starts at the root.
pub open spec fn is_rooted(p: Seq<u8>) -> bool {
    p.len() > 0 && p[0] == SLASH
}

/// `rel` below `base`; a rooted `rel` stands for itself.
pub open spec fn join_of(base: Seq<u8>, rel: Seq<u8>) -> Seq<u8> {
    if is_rooted(rel) {
        rel
    } else if base.len() > 0 && base.last() != SLASH {
        base.push(SLASH) + rel
    } else {
        base + rel
    }
}

/// The path that the text `rel` names below `base`.
pub open spec fn join_text_of(base: Seq<u8>, rel: Seq<char>) -> Seq<u8> {
    join_of(base, utf8::encode_utf8(rel))
}

/// `p` without leading separators.
pub open spec fn unrooted(p: Seq<u8>) -> Seq<u8>
    decreases p.len(),
{
    if is_rooted(p) {
        unrooted(p.drop_first())
    } else {
        p
    }
}

/// Whether a field between separators counts as a segment.
pub open spec fn is_segment(field: Seq<u8>) -> bool {
    field.len() > 0 && field != seq![DOT]
}

/// The fields that count as segments, in order.
pub open spec fn keep_segments(fields: Seq<Seq<u8>>) -> Seq<Seq<u8>>
    decreases fields.len(),
{
    if fields.len() == 0 {
        Seq::empty()
    } else if is_segment(fields.last()) {
        keep_segments(fields.drop_last()).push(fields.last())
    } else {
        keep_segments(fields.drop_last())
    }
}

/// The segments of the path.
pub open spec fn segments(p: Seq<u8>) -> Seq<Seq<u8>> {
    keep_segments(text::split_on(p, SLASH))
}

/// Whether a field between separators stands for the directory above.
pub open spec fn leads_up(field: Seq<u8>) -> bool {
    field == seq![DOT, DOT]
}

/// The slash-separated parts of the path that a text names.
pub open spec fn parts_of(name: Seq<char>) -> Seq<Seq<u8>> {
    text::split_on(utf8::encode_utf8(name), SLASH)
}

/// Whether the path starts with a `.` segment, which is kept at the start of a
/// relative path.
pub open spec fn starts_at_dot(p: Seq<u8>) -> bool {
    text::split_on(p, SLASH)[0] == seq![DOT]
}

/// Whether two byte sequences name the same path.
pub open spec fn same_path(a: Seq<u8>, b: Seq<u8>) -> bool {
    &&& is_rooted(a) == is_rooted(b)
    &&& starts_at_dot(a) == starts_at_dot(b)
    &&& segments(a) == segments(b)
}

// ---------------------------------------------------------------------------
// Directories of the user
// ---------------------------------------------------------------------------

/// A directory of the user, as the system names it.
#[derive(Debug)]
pub enum UserDir {
    At(FilePath),
    /// There is none.
    Missing,
}

/// A directory of the user, with its path as bytes.
#[verifier::ext_equal]
pub enum UserDirView {
    At(Seq<u8>),
    Missing,
}

impl View for UserDir {
    type V = UserDirView;

    open spec fn view(&self) -> UserDirView {
        match *self {
            UserDir::At(p) => UserDirView::At(p@),
            UserDir::Missing => UserDirView::Missing,
        }
    }
}

// ---------------------------------------------------------------------------
// Operations
// ---------------------------------------------------------------------------

/// What a lookup of a directory answers.
pub(crate) fn looked_up<F: Fn() -> UserDir>(lookup: F) -> (r: UserDir)
    requires
        lookup.requires(()),
    ensures
        lookup.ensures((), r),
{
    lookup()
}

/// The `{:?}` form of a path, as `std::path::Path`'s `Debug` writes it.
pub uninterp spec fn debug_form(p: Seq<u8>) -> Seq<char>;

/// `std::path::Path`'s `Debug` gives the path in quotes, with escapes; the name
/// stands for its output. `serde_json::from_value` makes the path's
/// `OsString` out of its bytes, which are its form on Unix.
#[verifier::external_body]
pub(crate) fn debug_path(p: &FilePath) -> (r: String)
    ensures
        r@ == debug_form(p@),
{
    let mut form = serde_json::Map::new();
    form.insert("Unix".to_owned(), serde_json::Value::from(p.bytes.clone()));
    let mut path = std::path::PathBuf::new().into_os_string();
    path.clone_from(&serde_json::from_value(serde_json::Value::Object(form)).unwrap());
    format!("{:?}", std::path::Path::new(&path))
}

/// How long the path stays without trailing separators and `.` segments.
fn tidy_len(v: &Vec<u8>, upto: usize) -> (n: usize)
    requires
        upto <= v.len(),
    ensures
        n <= upto,
        v@.take(n as int) == tidy_end(v@.take(upto as int)),
{
    let mut n: usize = upto;
    while n > 1 && (v[n - 1] == SLASH || (v[n - 1] == DOT && v[n - 2] == SLASH))
        invariant
            n <= upto <= v.len(),
            tidy_end(v@.take(upto as int)) == tidy_end(v@.take(n as int)),
        decreases n,
    {
        assert(v@.take(n as int).drop_last() == v@.take(n - 1));
        n -= 1;
    }
    n
}

/// Where the last segment of `v[..upto]` starts.
fn segment_start(v: &Vec<u8>, upto: usize) -> (n: usize)
    requires
        upto <= v.len(),
    ensures
        n <= upto,
        n as int == last_segment_start(v@.take(upto as int)),
{
    let mut n: usize = upto;
    while n > 0 && v[n - 1] != SLASH
        invariant
            n <= upto <= v.len(),
            last_segment_start(v@.take(upto as int)) == last_segment_start(v@.take(n as int)),
        decreases n,
    {
        assert(v@.take(n as int).drop_last() == v@.take(n - 1));
        n -= 1;
    }
    n
}

/// The path that holds the last segment of `path`, if there is one.
pub fn parent(path: &FilePath) -> (r: Option<FilePath>)
    ensures
        opt_view(r) == parent_of(path@),
{
    let v: &Vec<u8> = &path.bytes;
    assert(v@.take(v@.len() as int) == v@);
    let n: usize = tidy_len(v, v.len());
    let ghost t = tidy_end(path@);
    if n == 0 || (n == 1 && v[0] == SLASH) {
        assert(has_no_segment(t)) by {
            if n == 1 {
                assert(t =~= seq![SLASH]);
            }
        }
        return None;
    }
    assert(!has_no_segment(t)) by {
        assert(t.len() == n);
        if t == seq![SLASH] {
            assert(t[0] == SLASH);
            assert(t[0] == v@[0]);
        }
    }
    let start: usize = segment_start(v, n);
    assert(t.take(start as int) == v@.take(start as int));
    let keep: usize = tidy_len(v, start);
    assert(v@.subrange(0, keep as int) == v@.take(keep as int));
    Some(FilePath { bytes: bytes_of_range(v, 0, keep) })
}

/// The last segment of `path`, unless there is none or it is `.` or `..`.
pub fn file_name(path: &FilePath) -> (r: Option<FilePath>)
    ensures
        opt_view(r) == file_name_of(path@),
{
    let v: &Vec<u8> = &path.bytes;
    assert(v@.take(v@.len() as int) == v@);
    let n: usize = tidy_len(v, v.len());
    let ghost t = tidy_end(path@);
    if n == 0 || (n == 1 && v[0] == SLASH) {
        assert(has_no_segment(t)) by {
            if n == 1 {
                assert(t =~= seq![SLASH]);
            }
        }
        return None;
    }
    assert(!has_no_segment(t)) by {
        assert(t.len() == n);
        if t == seq![SLASH] {
            assert(t[0] == SLASH);
            assert(t[0] == v@[0]);
        }
    }
    let start: usize = segment_start(v, n);
    let ghost name = t.skip(start as int);
    assert(name =~= v@.subrange(start as int, n as int));
    let found = bytes_of_range(v, start, n);
    if (found.len() == 1 && found[0] == DOT) || (found.len() == 2 && found[0] == DOT && found[1]
        == DOT) {
        assert(name =~= seq![DOT] || name =~= seq![DOT, DOT]);
        return None;
    }
    assert(name != seq![DOT] && name != seq![DOT, DOT]) by {
        if name == seq![DOT] {
            assert(name[0] == DOT && name.len() == 1);
        }
        if name == seq![DOT, DOT] {
            assert(name[0] == DOT && name[1] == DOT && name.len() == 2);
        }
    }
    Some(FilePath { bytes: found })
}

/// `rel` below `base`; a rooted `rel` stands for itself.
pub fn join(base: &FilePath, rel: &FilePath) -> (r: FilePath)
    ensures
        r@ == join_of(base@, rel@),
{
    let q: &Vec<u8> = &rel.bytes;
    if q.len() > 0 && q[0] == SLASH {
        return rel.clone();
    }
    let mut r = copy_bytes(&base.bytes);
    if r.len() > 0 && r[r.len() - 1] != SLASH {
        r.push(SLASH);
    }
    let mut tail = copy_bytes(q);
    r.append(&mut tail);
    FilePath { bytes: r }
}

/// The path that the text `rel` names below `base`.
pub fn join_text(base: &FilePath, rel: &str) -> (r: FilePath)
    ensures
        r@ == join_text_of(base@, rel@),
{
    join(base, &FilePath::from_text(rel))
}

/// The segments among `fields`.
fn segment_bytes(fields: &Vec<Vec<u8>>) -> (r: Vec<Vec<u8>>)
    ensures
        bytes::bytes_view(r@) == keep_segments(bytes::bytes_view(fields@)),
{
    let ghost all = bytes::bytes_view(fields@);
    let mut r: Vec<Vec<u8>> = Vec::new();
    let mut i: usize = 0;
    assert(all.take(0) =~= Seq::empty());
    assert(bytes::bytes_view(r@) =~= Seq::empty());
    while i < fields.len()
        invariant
            all == bytes::bytes_view(fields@),
            i <= fields.len(),
            bytes::bytes_view(r@) == keep_segments(all.take(i as int)),
        decreases fields.len() - i,
    {
        let f: &Vec<u8> = &fields[i];
        assert(f@ == all[i as int]);
        assert(all.take(i + 1).drop_last() == all.take(i as int));
        let dot: bool = f.len() == 1 && f[0] == DOT;
        assert(dot == (f@ == seq![DOT])) by {
            if dot {
                assert(f@ =~= seq![DOT]);
            }
            if f@ == seq![DOT] {
                assert(f@[0] == DOT);
            }
        }
        if f.len() > 0 && !dot {
            let copy = bytes_of_range(f, 0, f.len());
            assert(copy@ =~= f@);
            let ghost before = bytes::bytes_view(r@);
            r.push(copy);
            assert(bytes::bytes_view(r@) =~= before.push(f@));
        }
        i += 1;
    }
    assert(all.take(fields@.len() as int) =~= all);
    r
}

/// Whether two paths are the same.
pub fn paths_equal(a: &FilePath, b: &FilePath) -> (r: bool)
    ensures
        r == same_path(a@, b@),
{
    let va: &Vec<u8> = &a.bytes;
    let vb: &Vec<u8> = &b.bytes;
    let fa = split_bytes(va, SLASH);
    let fb = split_bytes(vb, SLASH);
    proof {
        text::split_on_nonempty(a@, SLASH);
        text::split_on_nonempty(b@, SLASH);
        assert(fa@[0]@ == text::split_on(a@, SLASH)[0]);
        assert(fb@[0]@ == text::split_on(b@, SLASH)[0]);
    }
    let rooted_a: bool = va.len() > 0 && va[0] == SLASH;
    let rooted_b: bool = vb.len() > 0 && vb[0] == SLASH;
    let dot_a: bool = is_dot(&fa[0]);
    let dot_b: bool = is_dot(&fb[0]);
    if rooted_a != rooted_b || dot_a != dot_b {
        return false;
    }
    let sa = segment_bytes(&fa);
    let sb = segment_bytes(&fb);
    lists_eq(&sa, &sb)
}

/// Whether the field is a single dot.
fn is_dot(f: &Vec<u8>) -> (r: bool)
    ensures
        r == (f@ == seq![DOT]),
{
    let r: bool = f.len() == 1 && f[0] == DOT;
    proof {
        if r {
            assert(f@ =~= seq![DOT]);
        }
        if f@ == seq![DOT] {
            assert(f@[0] == DOT);
        }
    }
    r
}

/// Whether two lists hold the same byte sequences.
fn lists_eq(a: &Vec<Vec<u8>>, b: &Vec<Vec<u8>>) -> (r: bool)
    ensures
        r == (bytes::bytes_view(a@) == bytes::bytes_view(b@)),
{
    let ghost x = bytes::bytes_view(a@);
    let ghost y = bytes::bytes_view(b@);
    if a.len() != b.len() {
        assert(x.len() != y.len());
        return false;
    }
    let mut i: usize = 0;
    while i < a.len()
        invariant
            x == bytes::bytes_view(a@),
            y == bytes::bytes_view(b@),
            i <= a.len(),
            a.len() == b.len(),
            forall|j: int| 0 <= j < i ==> x[j] == y[j],
        decreases a.len() - i,
    {
        if !bytes_eq(&a[i], &b[i]) {
            assert(x[i as int] != y[i as int]);
            return false;
        }
        assert(x[i as int] == y[i as int]);
        i += 1;
    }
    assert(x =~= y);
    true
}

// ---------------------------------------------------------------------------
// Laws
// ---------------------------------------------------------------------------

/// Naming the same path is an equivalence.
pub proof fn same_path_equivalence(a: Seq<u8>, b: Seq<u8>, c: Seq<u8>)
    ensures
        same_path(a, a),
        same_path(a, b) == same_path(b, a),
        same_path(a, b) && same_path(b, c) ==> same_path(a, c),
{
}

/// Segments of a list of fields split anywhere.
proof fn keep_segments_add(a: Seq<Seq<u8>>, b: Seq<Seq<u8>>)
    ensures
        keep_segments(a + b) == keep_segments(a) + keep_segments(b),
    decreases b.len(),
{
    if b.len() == 0 {
        assert(a + b =~= a);
        assert(keep_segments(a) + keep_segments(b) =~= keep_segments(a));
    } else {
        keep_segments_add(a, b.drop_last());
        assert((a + b).drop_last() =~= a + b.drop_last());
        assert(keep_segments(a + b) =~= keep_segments(a) + keep_segments(b));
    }
}

/// Joining a relative path appends its segments to those of the base.
pub proof fn join_appends_segments(base: Seq<u8>, rel: Seq<u8>)
    requires
        !is_rooted(rel),
    ensures
        segments(join_of(base, rel)) == segments(base) + segments(rel),
{
    let fb = text::split_on(base, SLASH);
    let fr = text::split_on(rel, SLASH);
    text::split_on_nonempty(rel, SLASH);
    if base.len() == 0 {
        assert(join_of(base, rel) =~= rel);
        assert(keep_segments(fb) =~= Seq::empty()) by {
            assert(fb.last() =~= Seq::empty());
            assert(fb.drop_last() =~= Seq::empty());
            assert(keep_segments(fb.drop_last()) =~= Seq::empty());
        }
        assert(segments(base) + segments(rel) =~= segments(rel));
    } else if base.last() != SLASH {
        text::split_on_add(base, rel, SLASH);
        keep_segments_add(fb, fr);
    } else {
        let front = base.drop_last();
        assert(join_of(base, rel) =~= front.push(SLASH) + rel);
        text::split_on_add(front, rel, SLASH);
        keep_segments_add(text::split_on(front, SLASH), fr);
        assert(fb.drop_last() =~= text::split_on(front, SLASH));
        assert(fb.last() =~= Seq::empty());
    }
}

/// The parts of an ASCII name are its slash-separated fields.
pub proof fn parts_are_fields(name: Seq<char>)
    requires
        utf8::is_ascii_chars(name),
    ensures
        parts_of(name).len() == text::split_on(name, '/').len(),
        forall|i: int|
            0 <= i < parts_of(name).len() ==> #[trigger] parts_of(name)[i] == utf8::encode_utf8(
                text::split_on(name, '/')[i],
            ),
    decreases name.len(),
{
    let fields = text::split_on(name, '/');
    let parts = parts_of(name);
    let b = utf8::encode_utf8(name);
    utf8::is_ascii_chars_encode_utf8(name);
    if name.len() == 0 {
        assert(b =~= Seq::empty());
        assert(fields[0] =~= Seq::empty());
        assert(utf8::encode_utf8(fields[0]) =~= Seq::empty());
    } else {
        let front = name.drop_last();
        let last = name.last();
        assert(utf8::is_ascii_chars(front)) by {
            assert forall|i: int| 0 <= i < front.len() implies '\0' <= #[trigger] front[i]
                <= '\u{7f}' by {
                assert(front[i] == name[i]);
            }
        }
        assert('\0' <= name[name.len() - 1] <= '\u{7f}');
        utf8::is_ascii_chars_encode_utf8(front);
        assert(b.drop_last() =~= utf8::encode_utf8(front)) by {
            assert forall|i: int| 0 <= i < front.len() implies b[i] == #[trigger] utf8::encode_utf8(
                front,
            )[i] by {
                assert(front[i] == name[i]);
            }
        }
        assert(b.last() == last as u8);
        assert((b.last() == SLASH) == (last == '/'));
        parts_are_fields(front);
        text::split_on_nonempty(front, '/');
        let before = text::split_on(front, '/');
        let end = before[before.len() - 1];
        assert(utf8::encode_utf8(end.push(last)) =~= utf8::encode_utf8(end).push(last as u8)) by {
            let one = seq![last];
            assert(end.push(last) =~= end + one);
            edit::encode_add(end, one);
            assert(one[0] == last);
            utf8::is_ascii_chars_encode_utf8(one);
            assert(utf8::encode_utf8(one) =~= seq![last as u8]);
        }
        assert(utf8::encode_utf8(Seq::<char>::empty()) =~= Seq::empty());
        assert forall|i: int| 0 <= i < parts.len() implies #[trigger] parts[i]
            == utf8::encode_utf8(fields[i]) by {
            if i < before.len() - 1 {
                assert(parts[i] == parts_of(front)[i]);
                assert(fields[i] == before[i]);
            }
        }
    }
}

/// Without its leading separators a path is relative and has the same segments.
pub proof fn unrooted_keeps_segments(p: Seq<u8>)
    ensures
        !is_rooted(unrooted(p)),
        segments(unrooted(p)) == segments(p),
    decreases p.len(),
{
    if is_rooted(p) {
        let rest = p.drop_first();
        unrooted_keeps_segments(rest);
        assert(Seq::<u8>::empty().push(SLASH) + rest =~= p);
        text::split_on_add(Seq::empty(), rest, SLASH);
        keep_segments_add(text::split_on(Seq::empty(), SLASH), text::split_on(rest, SLASH));
        let none = text::split_on(Seq::empty(), SLASH);
        assert(none.last() =~= Seq::empty());
        assert(none.drop_last() =~= Seq::empty());
        assert(keep_segments(none.drop_last()) =~= Seq::empty());
        assert(keep_segments(none) =~= Seq::empty());
        assert(segments(p) =~= segments(rest));
    }
}

/// A separator, and a `.` behind one, at the end of a path change neither its
/// segments nor where it starts.
proof fn tidy_end_keeps_segments(p: Seq<u8>)
    ensures
        segments(tidy_end(p)) == segments(p),
        is_rooted(tidy_end(p)) == is_rooted(p),
        tidy_end(p).len() > 1 ==> tidy_end(p).last() != SLASH && !(tidy_end(p).last() == DOT
            && tidy_end(p)[tidy_end(p).len() - 2] == SLASH),
        p.len() > 0 ==> tidy_end(p).len() > 0,
    decreases p.len(),
{
    if p.len() > 1 && (p.last() == SLASH || (p.last() == DOT && p[p.len() - 2] == SLASH)) {
        let front = p.drop_last();
        tidy_end_keeps_segments(front);
        if p.last() == SLASH {
            assert(p =~= front.push(SLASH) + Seq::<u8>::empty());
            text::split_on_add(front, Seq::empty(), SLASH);
            one_field(Seq::empty());
            keep_segments_add(text::split_on(front, SLASH), text::split_on(Seq::empty(), SLASH));
            assert(segments(p) =~= segments(front));
        } else {
            let g = front.drop_last();
            assert(front =~= g.push(SLASH) + Seq::<u8>::empty());
            assert(p =~= g.push(SLASH) + seq![DOT]);
            text::split_on_add(g, Seq::empty(), SLASH);
            text::split_on_add(g, seq![DOT], SLASH);
            one_field(Seq::empty());
            one_field(seq![DOT]);
            keep_segments_add(text::split_on(g, SLASH), text::split_on(Seq::empty(), SLASH));
            keep_segments_add(text::split_on(g, SLASH), text::split_on(seq![DOT], SLASH));
            assert(segments(p) =~= segments(front));
        }
    }
}

/// The segments of what holds no separator: itself, if it is one.
proof fn one_field(p: Seq<u8>)
    requires
        forall|i: int| 0 <= i < p.len() ==> #[trigger] p[i] != SLASH,
    ensures
        text::split_on(p, SLASH) == seq![p],
        is_segment(p) ==> keep_segments(seq![p]) == seq![p],
        !is_segment(p) ==> keep_segments(seq![p]) == Seq::<Seq<u8>>::empty(),
{
    assert(!p.contains(SLASH));
    text::split_on_plain(p, SLASH);
    assert(seq![p].drop_last() =~= Seq::empty());
    assert(keep_segments(seq![p].drop_last()) =~= Seq::empty());
    assert(is_segment(p) ==> keep_segments(seq![p]) =~= seq![p]);
    assert(!is_segment(p) ==> keep_segments(seq![p]) =~= Seq::<Seq<u8>>::empty());
}

proof fn last_segment_start_facts(p: Seq<u8>)
    ensures
        0 <= last_segment_start(p) <= p.len(),
        last_segment_start(p) > 0 ==> p[last_segment_start(p) - 1] == SLASH,
        forall|i: int| last_segment_start(p) <= i < p.len() ==> #[trigger] p[i] != SLASH,
    decreases p.len(),
{
    if p.len() > 0 && p.last() != SLASH {
        let front = p.drop_last();
        last_segment_start_facts(front);
        assert forall|i: int| last_segment_start(p) <= i < p.len() implies #[trigger] p[i]
            != SLASH by {
            if i < front.len() {
                assert(front[i] == p[i]);
            }
        }
    }
}

/// The parent of a path has all of its segments but the last, and starts where
/// the path does; the file name is the last segment, unless that leads up. Only
/// a path without segments has no parent.
pub proof fn parent_and_file_name_are_the_path(p: Seq<u8>)
    requires
        tidy_end(p) != seq![DOT],
    ensures
        parent_of(p) is Some <==> segments(p).len() > 0,
        parent_of(p) matches Some(dir) ==> segments(dir) == segments(p).drop_last() && (
        segments(p).len() > 1 ==> is_rooted(dir) == is_rooted(p)),
        file_name_of(p) is Some <==> segments(p).len() > 0 && !leads_up(segments(p).last()),
        file_name_of(p) matches Some(name) ==> name == segments(p).last(),
{
    let t = tidy_end(p);
    tidy_end_keeps_segments(p);
    last_segment_start_facts(t);
    let start = last_segment_start(t);
    let name = t.skip(start);
    let dir = t.take(start);
    if has_no_segment(t) {
        if t.len() == 0 {
            one_field(t);
        } else {
            assert(t =~= Seq::<u8>::empty().push(SLASH) + Seq::<u8>::empty());
            text::split_on_add(Seq::<u8>::empty(), Seq::empty(), SLASH);
            one_field(Seq::empty());
            keep_segments_add(seq![Seq::<u8>::empty()], seq![Seq::<u8>::empty()]);
            assert(segments(t) =~= Seq::empty());
        }
    } else {
        assert(t.last() != SLASH) by {
            if t.len() == 1 && t.last() == SLASH {
                assert(t =~= seq![SLASH]);
            }
        }
        assert(name.len() > 0) by {
            if start == t.len() {
                assert(t[start - 1] == SLASH);
            }
        }
        assert forall|i: int| 0 <= i < name.len() implies #[trigger] name[i] != SLASH by {
            assert(name[i] == t[start + i]);
        }
        one_field(name);
        tidy_end_keeps_segments(dir);
        if start == 0 {
            assert(name =~= t);
            assert(dir =~= Seq::empty());
            one_field(dir);
            assert(is_segment(name));
            assert(seq![name].drop_last() =~= Seq::empty());
        } else {
            let g = dir.drop_last();
            assert(dir =~= g.push(SLASH) + Seq::<u8>::empty());
            assert(t =~= g.push(SLASH) + name);
            assert(is_segment(name)) by {
                if name == seq![DOT] {
                    assert(name[0] == DOT && name.len() == 1);
                    assert(t.last() == DOT && t[t.len() - 2] == SLASH);
                }
            }
            text::split_on_add(g, Seq::empty(), SLASH);
            text::split_on_add(g, name, SLASH);
            one_field(Seq::empty());
            keep_segments_add(text::split_on(g, SLASH), seq![Seq::<u8>::empty()]);
            keep_segments_add(text::split_on(g, SLASH), seq![name]);
            assert(segments(dir) =~= segments(g));
            assert(segments(t) =~= segments(g).push(name));
            assert(segments(t).drop_last() =~= segments(g));
            assert(is_rooted(dir) == is_rooted(t));
        }
    }
}

/// A name that is looked up in a directory is the file name of the path that it
/// gives, and the directory is the parent.
pub proof fn joined_names_are_found_again(dir: Seq<u8>, name: Seq<u8>)
    requires
        is_segment(name),
        !leads_up(name),
        forall|i: int| 0 <= i < name.len() ==> #[trigger] name[i] != SLASH,
    ensures
        file_name_of(join_of(dir, name)) == Some(name),
        parent_of(join_of(dir, name)) matches Some(d) && segments(d) == segments(dir),
{
    let p = join_of(dir, name);
    one_field(name);
    assert(!is_rooted(name)) by {
        assert(name[0] != SLASH);
    }
    join_appends_segments(dir, name);
    assert(segments(p) =~= segments(dir).push(name));
    assert(segments(p).drop_last() =~= segments(dir));
    assert(p.last() == name.last());
    assert(name[name.len() - 1] != SLASH);
    assert(tidy_end(p) == p) by {
        if p.len() > 1 && p.last() == DOT && p[p.len() - 2] == SLASH {
            if name.len() > 1 {
                assert(p[p.len() - 2] == name[name.len() - 2]);
            } else {
                assert(name =~= seq![DOT]);
            }
        }
    }
    assert(p != seq![DOT]) by {
        if p == seq![DOT] {
            assert(p.len() == 1);
            assert(name =~= seq![DOT]);
        }
    }
    parent_and_file_name_are_the_path(p);
}

/// What is joined to a directory lies below it, and a path from the root stands
/// for itself.
pub proof fn rooted_paths_stand_for_themselves(dir: Seq<u8>, path: Seq<u8>)
    ensures
        path.len() > 0 && path[0] == 0x2f ==> join_of(dir, path) == path,
        path.len() == 0 || path[0] != 0x2f ==> dir.is_prefix_of(join_of(dir, path))
            && path.is_suffix_of(join_of(dir, path)),
{
    if !is_rooted(path) {
        let p = join_of(dir, path);
        assert(p.take(dir.len() as int) =~= dir);
        assert(p.skip(p.len() - path.len()) =~= path);
    }
}

/// Whether the path starts at the root and is written without needless
/// separators and `.` segments.
pub open spec fn is_plain(p: Seq<u8>) -> bool {
    let fields = text::split_on(p, SLASH);
    &&& fields.len() >= 2
    &&& fields[0].len() == 0
    &&& forall|i: int| 0 < i < fields.len() ==> is_segment(#[trigger] fields[i])
}

/// Plainly written paths are the same only where they are equal, byte by byte.
pub proof fn plain_paths_differ(a: Seq<u8>, b: Seq<u8>)
    requires
        is_plain(a),
        is_plain(b),
        same_path(a, b),
    ensures
        a == b,
{
    plain_fields(a);
    plain_fields(b);
    text::split_on_join(a, SLASH);
    text::split_on_join(b, SLASH);
}

proof fn plain_fields(p: Seq<u8>)
    requires
        is_plain(p),
    ensures
        text::split_on(p, SLASH) == seq![Seq::<u8>::empty()] + segments(p),
{
    let fields = text::split_on(p, SLASH);
    let rest = fields.skip(1);
    assert forall|i: int| 0 <= i < rest.len() implies is_segment(#[trigger] rest[i]) by {
        assert(rest[i] == fields[i + 1]);
    }
    all_stay(rest);
    let none = seq![Seq::<u8>::empty()];
    assert(fields[0] =~= Seq::empty());
    assert(fields =~= none + rest);
    keep_segments_add(none, rest);
    one_field(Seq::empty());
    assert(Seq::<Seq<u8>>::empty() + rest =~= rest);
}

proof fn all_stay(fields: Seq<Seq<u8>>)
    requires
        forall|i: int| 0 <= i < fields.len() ==> is_segment(#[trigger] fields[i]),
    ensures
        keep_segments(fields) == fields,
    decreases fields.len(),
{
    if fields.len() > 0 {
        let front = fields.drop_last();
        assert(is_segment(fields[fields.len() - 1]));
        assert forall|i: int| 0 <= i < front.len() implies is_segment(#[trigger] front[i]) by {
            assert(front[i] == fields[i]);
        }
        all_stay(front);
        assert(front.push(fields.last()) =~= fields);
    } else {
        assert(keep_segments(fields) =~= fields);
    }
}

} // verus!
