//! The lexicographic order of strings, and sorted sets of strings.
//!
//! Strings are ordered character by character, by code point; for UTF-8
//! strings this is the order of their bytes, which is the order std's `Ord`
//! for `String` uses.

use vstd::prelude::*;
use crate::text::{chars_of, str_is};

verus! {

/// The length of the common prefix of `a` and `b`, counted from `i`.
pub open spec fn common_len(a: Seq<char>, b: Seq<char>, i: int) -> int
    decreases a.len() - i,
{
    if i < 0 || i >= a.len() || i >= b.len() || a[i] != b[i] {
        i
    } else {
        common_len(a, b, i + 1)
    }
}

/// `a` comes strictly before `b`: `a` is a proper prefix of `b`, or at the
/// first position where they differ `a` has the smaller character.
pub open spec fn lex_lt(a: Seq<char>, b: Seq<char>) -> bool {
    let k = common_len(a, b, 0);
    (k == a.len() && k < b.len()) || (k < a.len() && k < b.len() && a[k] < b[k])
}

/// What `common_len` is: the first position from `i` where the strings
/// differ or one of them ends.
proof fn lemma_common_len(a: Seq<char>, b: Seq<char>, i: int)
    requires
        0 <= i <= a.len(),
        i <= b.len(),
    ensures
        i <= common_len(a, b, i) <= a.len(),
        common_len(a, b, i) <= b.len(),
        forall|j: int| i <= j < common_len(a, b, i) ==> a[j] == b[j],
        common_len(a, b, i) < a.len() && common_len(a, b, i) < b.len() ==> a[common_len(
            a,
            b,
            i,
        )] != b[common_len(a, b, i)],
    decreases a.len() - i,
{
    if i < a.len() && i < b.len() && a[i] == b[i] {
        lemma_common_len(a, b, i + 1);
    }
}

/// `common_len` is the only position with those properties.
proof fn lemma_common_len_unique(a: Seq<char>, b: Seq<char>, i: int, m: int)
    requires
        0 <= i <= m <= a.len(),
        m <= b.len(),
        forall|j: int| i <= j < m ==> a[j] == b[j],
        m == a.len() || m == b.len() || a[m] != b[m],
    ensures
        common_len(a, b, i) == m,
    decreases m - i,
{
    if i < m {
        lemma_common_len_unique(a, b, i + 1, m);
    }
}

/// No string comes before itself.
pub proof fn lemma_lex_irreflexive(a: Seq<char>)
    ensures
        !lex_lt(a, a),
{
    lemma_common_len_unique(a, a, 0, a.len() as int);
}

/// Of two different strings, one comes before the other.
pub proof fn lemma_lex_total(a: Seq<char>, b: Seq<char>)
    requires
        a != b,
    ensures
        lex_lt(a, b) || lex_lt(b, a),
{
    lemma_common_len(a, b, 0);
    let k = common_len(a, b, 0);
    lemma_common_len_unique(b, a, 0, k);
    if k == a.len() && k == b.len() {
        assert(a =~= b);
    }
}

/// The order is transitive.
pub proof fn lemma_lex_transitive(a: Seq<char>, b: Seq<char>, c: Seq<char>)
    requires
        lex_lt(a, b),
        lex_lt(b, c),
    ensures
        lex_lt(a, c),
{
    lemma_common_len(a, b, 0);
    lemma_common_len(b, c, 0);
    let k1 = common_len(a, b, 0);
    let k2 = common_len(b, c, 0);
    if k1 < k2 {
        lemma_common_len_unique(a, c, 0, k1);
    } else if k2 < k1 {
        lemma_common_len_unique(a, c, 0, k2);
    } else {
        lemma_common_len_unique(a, c, 0, k1);
    }
}

/// Whether `a` comes strictly before `b`.
pub fn str_lt(a: &str, b: &str) -> (r: bool)
    ensures
        r == lex_lt(a@, b@),
{
    let x = chars_of(a);
    let y = chars_of(b);
    let mut k: usize = 0;
    while k < x.len() && k < y.len() && x[k] == y[k]
        invariant
            k <= x@.len(),
            k <= y@.len(),
            x@ == a@,
            y@ == b@,
            forall|j: int| 0 <= j < k ==> x@[j] == y@[j],
        decreases x@.len() - k,
    {
        k += 1;
    }
    proof {
        lemma_common_len_unique(a@, b@, 0, k as int);
    }
    if k == x.len() {
        k < y.len()
    } else if k == y.len() {
        false
    } else {
        x[k] < y[k]
    }
}

/// The views of a vector of strings.
pub open spec fn strs_view(v: Seq<String>) -> Seq<Seq<char>> {
    v.map_values(|s: String| s@)
}

/// What a sequence with one more element contains.
pub proof fn lemma_contains_push<T>(s: Seq<T>, x: T)
    ensures
        forall|y: T| #[trigger] s.push(x).contains(y) <==> (s.contains(y) || y == x),
{
    assert forall|y: T| s.push(x).contains(y) <==> (s.contains(y) || y == x) by {
        if s.push(x).contains(y) {
            let k = choose|k: int| 0 <= k < s.push(x).len() && #[trigger] s.push(x)[k] == y;
            if k < s.len() {
                assert(s[k] == y);
            }
        }
        if s.contains(y) {
            let k = choose|k: int| 0 <= k < s.len() && #[trigger] s[k] == y;
            assert(s.push(x)[k] == y);
        }
        if y == x {
            assert(s.push(x)[s.len() as int] == y);
        }
    }
}

/// What a concatenation contains.
pub proof fn lemma_contains_concat<T>(s: Seq<T>, t: Seq<T>)
    ensures
        forall|y: T| #[trigger] (s + t).contains(y) <==> (s.contains(y) || t.contains(y)),
{
    assert forall|y: T| (s + t).contains(y) <==> (s.contains(y) || t.contains(y)) by {
        if (s + t).contains(y) {
            let k = choose|k: int| 0 <= k < (s + t).len() && #[trigger] (s + t)[k] == y;
            if k < s.len() {
                assert(s[k] == y);
            } else {
                assert(t[k - s.len()] == y);
            }
        }
        if s.contains(y) {
            let k = choose|k: int| 0 <= k < s.len() && #[trigger] s[k] == y;
            assert((s + t)[k] == y);
        }
        if t.contains(y) {
            let k = choose|k: int| 0 <= k < t.len() && #[trigger] t[k] == y;
            assert((s + t)[s.len() + k] == y);
        }
    }
}

/// Whether `x` is one of the strings of `v`.
pub fn contains_str(v: &Vec<String>, x: &str) -> (r: bool)
    ensures
        r == strs_view(v@).contains(x@),
{
    let ghost s = strs_view(v@);
    let mut i: usize = 0;
    while i < v.len()
        invariant
            i <= v@.len(),
            s == strs_view(v@),
            forall|j: int| 0 <= j < i ==> s[j] != x@,
        decreases v@.len() - i,
    {
        if str_is(v[i].as_str(), x) {
            assert(s[i as int] == x@);
            return true;
        }
        i += 1;
    }
    false
}

/// Every string of `s` comes strictly before those after it (so none occurs
/// twice).
pub open spec fn strictly_sorted(s: Seq<Seq<char>>) -> bool {
    forall|i: int, j: int| 0 <= i < j < s.len() ==> lex_lt(#[trigger] s[i], #[trigger] s[j])
}

/// Adds `x` to the sorted set of strings `v`, at its place; nothing changes
/// when `x` is already there.
pub fn insert_sorted(v: &mut Vec<String>, x: &str)
    requires
        strictly_sorted(strs_view(old(v)@)),
    ensures
        strictly_sorted(strs_view(final(v)@)),
        forall|y: Seq<char>|
            strs_view(final(v)@).contains(y) <==> (strs_view(old(v)@).contains(y) || y == x@),
        strs_view(old(v)@).contains(x@) ==> final(v)@ == old(v)@,
        !strs_view(old(v)@).contains(x@) ==> final(v)@.len() == old(v)@.len() + 1,
{
    let ghost s = strs_view(v@);
    let mut p: usize = 0;
    while p < v.len() && str_lt(v[p].as_str(), x)
        invariant
            p <= v@.len(),
            s == strs_view(v@),
            v@ == old(v)@,
            forall|j: int| 0 <= j < p ==> lex_lt(#[trigger] s[j], x@),
        decreases v@.len() - p,
    {
        p += 1;
    }
    if p < v.len() && str_is(v[p].as_str(), x) {
        assert(s[p as int] == x@);
        return;
    }
    proof {
        assert forall|j: int| 0 <= j < s.len() implies s[j] != x@ by {
            if j < p {
                lemma_lex_irreflexive(x@);
            } else if j > p {
                lemma_lex_total(s[p as int], x@);
                assert(lex_lt(s[p as int], s[j]));
                if s[j] == x@ {
                    lemma_lex_transitive(x@, s[p as int], x@);
                    lemma_lex_irreflexive(x@);
                }
            }
        }
        if p < s.len() {
            lemma_lex_total(s[p as int], x@);
        }
    }
    v.insert(p, x.to_string());
    proof {
        let t = strs_view(v@);
        assert(t =~= s.insert(p as int, x@));
        assert forall|i: int, j: int| 0 <= i < j < t.len() implies lex_lt(
            #[trigger] t[i],
            #[trigger] t[j],
        ) by {
            if j < p {
                assert(lex_lt(s[i], s[j]));
            } else if j == p {
                assert(lex_lt(s[i], x@));
            } else if i == p {
                if j - 1 > p {
                    assert(lex_lt(s[p as int], s[j - 1]));
                    lemma_lex_transitive(x@, s[p as int], s[j - 1]);
                }
            } else if i < p {
                assert(lex_lt(s[i], s[j - 1]));
            } else {
                assert(lex_lt(s[i - 1], s[j - 1]));
            }
        }
        assert forall|y: Seq<char>| t.contains(y) <==> (s.contains(y) || y == x@) by {
            if t.contains(y) {
                let k = choose|k: int| 0 <= k < t.len() && t[k] == y;
                if k < p {
                    assert(s[k] == y);
                } else if k > p {
                    assert(s[k - 1] == y);
                }
            }
            if s.contains(y) {
                let k = choose|k: int| 0 <= k < s.len() && s[k] == y;
                if k < p {
                    assert(t[k] == y);
                } else {
                    assert(t[k + 1] == y);
                }
            }
            if y == x@ {
                assert(t[p as int] == y);
            }
        }
    }
}

/// The distinct strings of `names`, in lexicographic order.
pub fn sorted_distinct(names: &Vec<String>) -> (r: Vec<String>)
    ensures
        strictly_sorted(strs_view(r@)),
        forall|y: Seq<char>| strs_view(r@).contains(y) <==> strs_view(names@).contains(y),
{
    let mut out: Vec<String> = Vec::new();
    let mut i: usize = 0;
    while i < names.len()
        invariant
            i <= names@.len(),
            strictly_sorted(strs_view(out@)),
            forall|y: Seq<char>|
                strs_view(out@).contains(y) <==> strs_view(names@.subrange(0, i as int)).contains(
                    y,
                ),
        decreases names@.len() - i,
    {
        insert_sorted(&mut out, names[i].as_str());
        proof {
            let a = strs_view(names@.subrange(0, i + 1));
            let b = strs_view(names@.subrange(0, i as int));
            assert(a =~= b.push(names@[i as int]@));
            assert forall|y: Seq<char>| a.contains(y) <==> (b.contains(y) || y == names@[i as int]@) by {
                if a.contains(y) {
                    let k = choose|k: int| 0 <= k < a.len() && a[k] == y;
                    if k < b.len() {
                        assert(b[k] == y);
                    }
                }
                if b.contains(y) {
                    let k = choose|k: int| 0 <= k < b.len() && b[k] == y;
                    assert(a[k] == y);
                }
                if y == names@[i as int]@ {
                    assert(a[i as int] == y);
                }
            }
        }
        i += 1;
    }
    assert(names@.subrange(0, names@.len() as int) =~= names@);
    out
}

/// A strictly sorted list holding exactly the strings of `s` is as long as
/// the set of those strings.
pub proof fn lemma_sorted_len_is_set_len(r: Seq<Seq<char>>, s: Seq<Seq<char>>)
    requires
        strictly_sorted(r),
        forall|y: Seq<char>| #[trigger] r.contains(y) <==> s.contains(y),
    ensures
        r.len() == s.to_set().len(),
{
    assert forall|i: int, j: int| 0 <= i < r.len() && 0 <= j < r.len() && i != j implies r[i]
        != r[j] by {
        if i < j {
            assert(lex_lt(r[i], r[j]));
            lemma_lex_irreflexive(r[i]);
        } else {
            assert(lex_lt(r[j], r[i]));
            lemma_lex_irreflexive(r[j]);
        }
    }
    assert(r.no_duplicates());
    r.unique_seq_to_set();
    assert(r.to_set() =~= s.to_set());
}

/// The strings of `names` that are not in `excluded`, in their order.
pub open spec fn spec_without_names(names: Seq<Seq<char>>, excluded: Seq<Seq<char>>) -> Seq<
    Seq<char>,
> {
    names.filter(|n: Seq<char>| !excluded.contains(n))
}

/// The strings of `names` that are not in `excluded`, in their order.
pub fn without_names(names: &Vec<String>, excluded: &Vec<String>) -> (r: Vec<String>)
    ensures
        strs_view(r@) == spec_without_names(strs_view(names@), strs_view(excluded@)),
{
    let ghost nv = strs_view(names@);
    let ghost pred = |n: Seq<char>| !strs_view(excluded@).contains(n);
    let mut out: Vec<String> = Vec::new();
    let mut i: usize = 0;
    while i < names.len()
        invariant
            i <= names@.len(),
            nv == strs_view(names@),
            pred == (|n: Seq<char>| !strs_view(excluded@).contains(n)),
            strs_view(out@) == nv.subrange(0, i as int).filter(pred),
        decreases names@.len() - i,
    {
        proof {
            reveal(Seq::filter);
            assert(nv.subrange(0, i + 1).drop_last() =~= nv.subrange(0, i as int));
            assert(nv.subrange(0, i + 1).last() == names@[i as int]@);
        }
        if !contains_str(excluded, names[i].as_str()) {
            let ghost o0 = out@;
            out.push(names[i].clone());
            assert(strs_view(out@) =~= strs_view(o0).push(names@[i as int]@));
        }
        i += 1;
    }
    assert(nv.subrange(0, nv.len() as int) =~= nv);
    out
}

} // verus!
