//! Qualified-name handling.
//!
//! Entity names use `::` as their separator.  User input may arrive in
//! Python-style `.` notation; every operation on qualified names lives here so
//! that separator logic stays in one place.

use vstd::prelude::*;
use vstd::string::*;
use crate::text::{chars_equal, chars_of, has_prefix, last_index_of, push_all, replace_all, replace_char, rfind_char, slice_chars, starts_with, string_of};

verus! {

/// The canonical separator `::` as characters.
pub open spec fn sep() -> Seq<char> {
    seq![':', ':']
}

/// Whether a `::` starts at index `i` of `s`.
pub open spec fn is_sep_at(s: Seq<char>, i: int) -> bool {
    0 <= i && i + 1 < s.len() && s[i] == ':' && s[i + 1] == ':'
}

/// Start of the right-most `::` that begins at or before `i`, or -1.
pub open spec fn rfind_sep(s: Seq<char>, i: int) -> int
    decreases i + 1,
{
    if i < 0 {
        -1
    } else if is_sep_at(s, i) {
        i
    } else {
        rfind_sep(s, i - 1)
    }
}

/// Start of the last `::` of `s`, or -1 when there is none.
pub open spec fn last_sep(s: Seq<char>) -> int {
    rfind_sep(s, s.len() - 2)
}

/// The last `::`-separated segment; the whole name when it has no separator.
pub open spec fn spec_last_segment(s: Seq<char>) -> Seq<char> {
    if last_sep(s) < 0 {
        s
    } else {
        s.subrange(last_sep(s) + 2, s.len() as int)
    }
}

/// Everything before the last `::`; `None` when there is no separator.
pub open spec fn spec_parent_qname(s: Seq<char>) -> Option<Seq<char>> {
    if last_sep(s) < 0 {
        None
    } else {
        Some(s.subrange(0, last_sep(s)))
    }
}

/// The `::`-separated segments of `s[start..]`, scanning from `i`
/// (left to right, non-overlapping, like `str::split`).
pub open spec fn split_from(s: Seq<char>, start: int, i: int) -> Seq<Seq<char>>
    decreases s.len() - i,
{
    if i + 1 >= s.len() {
        seq![s.subrange(start, s.len() as int)]
    } else if is_sep_at(s, i) {
        seq![s.subrange(start, i)] + split_from(s, i + 2, i + 2)
    } else {
        split_from(s, start, i + 1)
    }
}

/// The `::`-separated segments of `s`.
pub open spec fn segments_of(s: Seq<char>) -> Seq<Seq<char>> {
    split_from(s, 0, 0)
}

/// One step of the cumulative join used by `ancestors`.
pub open spec fn join_step(cur: Seq<char>, seg: Seq<char>) -> Seq<char> {
    if cur.len() == 0 {
        seg
    } else {
        cur + sep() + seg
    }
}

/// The cumulative joins of `segs`: `[s0, s0::s1, s0::s1::s2, ...]`.
pub open spec fn cumulative(segs: Seq<Seq<char>>) -> Seq<Seq<char>>
    decreases segs.len(),
{
    if segs.len() == 0 {
        seq![]
    } else {
        let p = cumulative(segs.drop_last());
        let prev = if p.len() == 0 {
            Seq::<char>::empty()
        } else {
            p.last()
        };
        p.push(join_step(prev, segs.last()))
    }
}

/// `cs` without the entries equal to `q`, order kept.
pub open spec fn without(cs: Seq<Seq<char>>, q: Seq<char>) -> Seq<Seq<char>>
    decreases cs.len(),
{
    if cs.len() == 0 {
        seq![]
    } else {
        let r = without(cs.drop_last(), q);
        if cs.last() == q {
            r
        } else {
            r.push(cs.last())
        }
    }
}

/// All ancestor names of `q`, outermost first.
pub open spec fn spec_ancestors(q: Seq<char>) -> Seq<Seq<char>> {
    without(cumulative(segments_of(q)), q)
}

/// `q` with every `.` replaced by `::`.
pub open spec fn spec_normalize(q: Seq<char>) -> Seq<char> {
    replace_char(q, '.', sep())
}

pub open spec fn src_prefix() -> Seq<char> {
    seq!['s', 'r', 'c', '/']
}

pub open spec fn lib_prefix() -> Seq<char> {
    seq!['l', 'i', 'b', '/']
}

pub open spec fn pkg_prefix() -> Seq<char> {
    seq!['p', 'k', 'g', '/']
}

/// `s` without a leading `src/`, `lib/` or `pkg/` (the first that matches).
pub open spec fn strip_source_prefix(s: Seq<char>) -> Seq<char> {
    if starts_with(s, src_prefix()) || starts_with(s, lib_prefix()) || starts_with(
        s,
        pkg_prefix(),
    ) {
        s.subrange(4, s.len() as int)
    } else {
        s
    }
}

/// `s` without the extension of its last `/`-separated component: the text
/// from the last `.` on, when that `.` lies in the last component and is not
/// its first character.
pub open spec fn strip_extension(s: Seq<char>) -> Seq<char> {
    let k = rfind_char(s, '/', s.len() - 1);
    let d = rfind_char(s, '.', s.len() - 1);
    if d > k + 1 {
        s.subrange(0, d)
    } else {
        s
    }
}

/// The qualified name derived from a relative `/`-separated path.
pub open spec fn spec_path_to_qualified(p: Seq<char>) -> Seq<char> {
    replace_char(strip_extension(strip_source_prefix(p)), '/', sep())
}

proof fn lemma_rfind_sep_bounds(s: Seq<char>, i: int)
    ensures
        rfind_sep(s, i) == -1 || (0 <= rfind_sep(s, i) <= i && is_sep_at(s, rfind_sep(s, i))),
    decreases i + 1,
{
    if i >= 0 && !is_sep_at(s, i) {
        lemma_rfind_sep_bounds(s, i - 1);
    }
}

/// Start of the last `::` in `v`, if any.
fn find_last_sep(v: &[char]) -> (r: Option<usize>)
    ensures
        match r {
            Some(i) => i as int == last_sep(v@) && i + 2 <= v@.len() && i + 2 <= v.len(),
            None => last_sep(v@) == -1,
        },
{
    let mut k: usize = v.len();
    while k >= 2
        invariant
            k <= v@.len(),
            last_sep(v@) == rfind_sep(v@, k - 2),
        decreases k,
    {
        if v[k - 2] == ':' && v[k - 1] == ':' {
            return Some(k - 2);
        }
        k -= 1;
    }
    None
}

/// The last segment of a `::`-separated qualified name.
///
/// `"repo::sqlite::SqliteRepository"` → `"SqliteRepository"`; the input
/// unchanged when it holds no `::`.
pub fn last_segment(qname: &str) -> (r: &str)
    ensures
        r@ == spec_last_segment(qname@),
{
    let v = chars_of(qname);
    match find_last_sep(&v) {
        None => qname,
        Some(i) => qname.substring_char(i + 2, v.len()),
    }
}

/// The parent path of a `::`-separated qualified name; `None` for a single
/// segment.
pub fn parent_qname(qname: &str) -> (r: Option<&str>)
    ensures
        match r {
            Some(p) => spec_parent_qname(qname@) == Some(p@),
            None => spec_parent_qname(qname@) is None,
        },
{
    let v = chars_of(qname);
    match find_last_sep(&v) {
        None => None,
        Some(i) => Some(qname.substring_char(0, i)),
    }
}

/// The `::`-separated segments of `v`, each as its characters.
pub fn split_segments(v: &[char]) -> (r: Vec<Vec<char>>)
    ensures
        r@.map_values(|x: Vec<char>| x@) == segments_of(v@),
{
    let mut r: Vec<Vec<char>> = Vec::new();
    let mut start: usize = 0;
    let mut i: usize = 0;
    while v.len() > 0 && i < v.len() - 1
        invariant
            start <= i <= v@.len(),
            r@.map_values(|x: Vec<char>| x@) + split_from(v@, start as int, i as int)
                == segments_of(v@),
        decreases v@.len() - i,
    {
        if v[i] == ':' && v[i + 1] == ':' {
            let seg = slice_chars(v, start, i);
            let ghost old_r = r@;
            r.push(seg);
            assert(r@.map_values(|x: Vec<char>| x@) =~= old_r.map_values(|x: Vec<char>| x@)
                + seq![v@.subrange(start as int, i as int)]);
            i += 2;
            start = i;
        } else {
            i += 1;
        }
    }
    let last = slice_chars(v, start, v.len());
    let ghost old_r = r@;
    r.push(last);
    assert(r@.map_values(|x: Vec<char>| x@) =~= old_r.map_values(|x: Vec<char>| x@) + seq![
        v@.subrange(start as int, v@.len() as int),
    ]);
    r
}

/// All ancestor qualified names, outermost first.
///
/// `"a::b::c"` → `["a", "a::b"]`; empty for a single-segment name.
pub fn ancestors(qname: &str) -> (r: Vec<String>)
    ensures
        r@.map_values(|x: String| x@) == spec_ancestors(qname@),
{
    let q = chars_of(qname);
    let segs = split_segments(&q);
    let ghost sv = segs@.map_values(|x: Vec<char>| x@);
    let mut result: Vec<String> = Vec::new();
    let mut current: Vec<char> = Vec::new();
    let mut i: usize = 0;
    while i < segs.len()
        invariant
            i <= segs@.len(),
            sv == segs@.map_values(|x: Vec<char>| x@),
            sv == segments_of(q@),
            q@ == qname@,
            i == 0 ==> current@.len() == 0,
            i > 0 ==> current@ == cumulative(sv.subrange(0, i as int)).last(),
            cumulative(sv.subrange(0, i as int)).len() == i,
            result@.map_values(|x: String| x@) == without(
                cumulative(sv.subrange(0, i as int)),
                q@,
            ),
        decreases segs@.len() - i,
    {
        let ghost prev = current@;
        let ghost before = sv.subrange(0, i as int);
        if current.len() == 0 {
            push_all(&mut current, &segs[i]);
        } else {
            current.push(':');
            current.push(':');
            push_all(&mut current, &segs[i]);
        }
        assert(sv.subrange(0, i + 1).drop_last() =~= before);
        assert(sv.subrange(0, i + 1).last() == segs@[i as int]@);
        assert(current@ =~= join_step(prev, segs@[i as int]@));
        let ghost cs = cumulative(sv.subrange(0, i + 1));
        assert(cs.drop_last() =~= cumulative(before));
        assert(cs.last() == current@);
        let ghost old_result = result@;
        if !chars_equal(&current, &q) {
            result.push(string_of(&current));
            assert(result@.map_values(|x: String| x@) =~= old_result.map_values(|x: String| x@).push(
                current@,
            ));
        }
        i += 1;
    }
    assert(sv.subrange(0, sv.len() as int) =~= sv);
    result
}

/// Normalise a possibly Python-style qualified name to canonical `::` form.
///
/// `"pkg.mod.fn"` → `"pkg::mod::fn"`; canonical names pass through unchanged.
pub fn normalize(qname: &str) -> (r: String)
    ensures
        r@ == spec_normalize(qname@),
{
    let v = chars_of(qname);
    let to = vec![':', ':'];
    assert(to@ =~= sep());
    let out = replace_all(&v, '.', &to);
    string_of(&out)
}

/// Convert a relative `/`-separated path to a qualified entity name.
///
/// Strips a leading `src/`, `lib/` or `pkg/`, removes the extension (from the
/// last `.` on), then replaces `/` with `::`:
/// `"src/repo/sqlite.rs"` → `"repo::sqlite"`.
pub fn path_to_qualified(relative: &str) -> (r: String)
    ensures
        r@ == spec_path_to_qualified(relative@),
{
    let v = chars_of(relative);
    let src = vec!['s', 'r', 'c', '/'];
    let lib = vec!['l', 'i', 'b', '/'];
    let pkg = vec!['p', 'k', 'g', '/'];
    assert(src@ =~= src_prefix());
    assert(lib@ =~= lib_prefix());
    assert(pkg@ =~= pkg_prefix());
    let stripped = if has_prefix(&v, &src) || has_prefix(&v, &lib) || has_prefix(&v, &pkg) {
        slice_chars(&v, 4, v.len())
    } else {
        v
    };
    let slash = last_index_of(&stripped, '/');
    let without_ext = match last_index_of(&stripped, '.') {
        Some(d) => {
            let in_last = match slash {
                Some(k) => d > k + 1,
                None => d > 0,
            };
            if in_last {
                slice_chars(&stripped, 0, d)
            } else {
                stripped
            }
        },
        None => stripped,
    };
    let to = vec![':', ':'];
    assert(to@ =~= sep());
    let out = replace_all(&without_ext, '/', &to);
    string_of(&out)
}

/// A qualified name with a parent is its parent, `::`, and its last
/// segment.
pub proof fn lemma_parent_and_last_segment(q: Seq<char>)
    ensures
        match spec_parent_qname(q) {
            Some(p) => q == p + sep() + spec_last_segment(q),
            None => spec_last_segment(q) == q,
        },
{
    lemma_rfind_sep_bounds(q, q.len() - 2);
    if last_sep(q) >= 0 {
        let k = last_sep(q);
        assert(q =~= q.subrange(0, k) + sep() + q.subrange(k + 2, q.len() as int));
    }
}

proof fn lemma_replace_without_from(s: Seq<char>, from: char, to: Seq<char>)
    requires
        !s.contains(from),
    ensures
        replace_char(s, from, to) == s,
    decreases s.len(),
{
    if s.len() > 0 {
        assert(!s.drop_last().contains(from)) by {
            if s.drop_last().contains(from) {
                let k = choose|k: int| 0 <= k < s.drop_last().len() && s.drop_last()[k] == from;
                assert(s[k] == from);
            }
        }
        lemma_replace_without_from(s.drop_last(), from, to);
        assert(s.last() != from) by {
            if s.last() == from {
                assert(s[s.len() - 1] == from);
            }
        }
        assert(s.drop_last() + seq![s.last()] =~= s);
    }
}

proof fn lemma_replace_removes(s: Seq<char>, from: char, to: Seq<char>)
    requires
        !to.contains(from),
    ensures
        !replace_char(s, from, to).contains(from),
    decreases s.len(),
{
    if s.len() > 0 {
        lemma_replace_removes(s.drop_last(), from, to);
        let head = replace_char(s.drop_last(), from, to);
        let tail = if s.last() == from {
            to
        } else {
            seq![s.last()]
        };
        crate::order::lemma_contains_concat(head, tail);
        if s.last() != from {
            assert(!tail.contains(from)) by {
                if tail.contains(from) {
                    let k = choose|k: int| 0 <= k < tail.len() && tail[k] == from;
                    assert(tail[0] == s.last());
                }
            }
        }
    }
}

/// Canonical names (no `.`) pass through `normalize` unchanged.
pub proof fn lemma_normalize_keeps_canonical(q: Seq<char>)
    requires
        !q.contains('.'),
    ensures
        spec_normalize(q) == q,
{
    lemma_replace_without_from(q, '.', sep());
}

/// Normalising twice is normalising once.
pub proof fn lemma_normalize_idempotent(q: Seq<char>)
    ensures
        spec_normalize(spec_normalize(q)) == spec_normalize(q),
{
    assert(!sep().contains('.')) by {
        if sep().contains('.') {
            let k = choose|k: int| 0 <= k < sep().len() && sep()[k] == '.';
        }
    }
    lemma_replace_removes(q, '.', sep());
    lemma_normalize_keeps_canonical(spec_normalize(q));
}

} // verus!
