//! Character-level string helpers shared by the whole library.
//!
//! Strings are reasoned about through their view, a `Seq<char>`.  Most of the
//! library works on `Vec<char>` copies of its inputs and builds its outputs
//! back into `String`s.

use vstd::prelude::*;

verus! {

/// The characters of `s`, in order.
pub fn chars_of(s: &str) -> (v: Vec<char>)
    ensures
        v@ == s@,
{
    broadcast use vstd::string::group_string_axioms;
    let mut v: Vec<char> = Vec::new();
    for c in it: s.chars()
        invariant
            it.seq() == s@,
            v@ == it.seq().subrange(0, it.index() as int),
    {
        v.push(c);
    }
    v
}

/// The string made of the characters of `v`, in order (std `String::from_iter`).
#[verifier::external_body]
pub fn string_of(v: &[char]) -> (s: String)
    ensures
        s@ == v@,
{
    String::from_iter(v.iter())
}

/// Whether two character vectors hold the same characters.
pub fn chars_equal(a: &[char], b: &[char]) -> (r: bool)
    ensures
        r == (a@ == b@),
{
    if a.len() != b.len() {
        return false;
    }
    let mut i: usize = 0;
    while i < a.len()
        invariant
            a@.len() == b@.len(),
            i <= a@.len(),
            forall|j: int| 0 <= j < i ==> a@[j] == b@[j],
        decreases a@.len() - i,
    {
        if a[i] != b[i] {
            return false;
        }
        i += 1;
    }
    assert(a@ =~= b@);
    true
}

/// Whether two strings hold the same characters.
pub fn str_is(s: &str, lit: &str) -> (r: bool)
    ensures
        r == (s@ == lit@),
{
    let a = chars_of(s);
    let b = chars_of(lit);
    chars_equal(&a, &b)
}

/// Whether `p` is a prefix of `s`.
pub open spec fn starts_with(s: Seq<char>, p: Seq<char>) -> bool {
    p.len() <= s.len() && s.subrange(0, p.len() as int) == p
}

/// Exec form of [`starts_with`].
pub fn has_prefix(s: &[char], p: &[char]) -> (r: bool)
    ensures
        r == starts_with(s@, p@),
{
    if p.len() > s.len() {
        return false;
    }
    let mut i: usize = 0;
    while i < p.len()
        invariant
            p@.len() <= s@.len(),
            i <= p@.len(),
            forall|j: int| 0 <= j < i ==> s@[j] == p@[j],
        decreases p@.len() - i,
    {
        if s[i] != p[i] {
            assert(s@.subrange(0, p@.len() as int)[i as int] != p@[i as int]);
            return false;
        }
        i += 1;
    }
    assert(s@.subrange(0, p@.len() as int) =~= p@);
    true
}

/// A copy of `v[from..to]`.
pub fn slice_chars(v: &[char], from: usize, to: usize) -> (r: Vec<char>)
    requires
        from <= to <= v@.len(),
    ensures
        r@ == v@.subrange(from as int, to as int),
{
    let mut r: Vec<char> = Vec::new();
    let mut i = from;
    while i < to
        invariant
            from <= i <= to <= v@.len(),
            r@ == v@.subrange(from as int, i as int),
        decreases to - i,
    {
        r.push(v[i]);
        i += 1;
        assert(r@ =~= v@.subrange(from as int, i as int));
    }
    r
}

/// Appends all of `src` to `dst`.
pub fn push_all(dst: &mut Vec<char>, src: &[char])
    ensures
        final(dst)@ == old(dst)@ + src@,
{
    let mut i: usize = 0;
    while i < src.len()
        invariant
            i <= src@.len(),
            dst@ == old(dst)@ + src@.subrange(0, i as int),
        decreases src@.len() - i,
    {
        dst.push(src[i]);
        i += 1;
        assert(dst@ =~= old(dst)@ + src@.subrange(0, i as int));
    }
    assert(src@.subrange(0, src@.len() as int) =~= src@);
}

/// Index of the right-most `c` in `s` at or before `i`, or -1.
pub open spec fn rfind_char(s: Seq<char>, c: char, i: int) -> int
    decreases i + 1,
{
    if i < 0 {
        -1
    } else if 0 <= i < s.len() && s[i] == c {
        i
    } else {
        rfind_char(s, c, i - 1)
    }
}

/// Index of the left-most `c` in `s` at or after `i`, or -1.
pub open spec fn find_char(s: Seq<char>, c: char, i: int) -> int
    decreases s.len() - i,
{
    if i < 0 || i >= s.len() {
        -1
    } else if s[i] == c {
        i
    } else {
        find_char(s, c, i + 1)
    }
}

pub proof fn lemma_rfind_char_bounds(s: Seq<char>, c: char, i: int)
    ensures
        rfind_char(s, c, i) == -1 || (0 <= rfind_char(s, c, i) <= i && rfind_char(s, c, i)
            < s.len() && s[rfind_char(s, c, i)] == c),
    decreases i + 1,
{
    if i >= 0 && !(0 <= i < s.len() && s[i] == c) {
        lemma_rfind_char_bounds(s, c, i - 1);
    }
}

pub proof fn lemma_find_char_bounds(s: Seq<char>, c: char, i: int)
    ensures
        find_char(s, c, i) == -1 || (i <= find_char(s, c, i) < s.len() && s[find_char(s, c, i)]
            == c),
    decreases s.len() - i,
{
    if !(i < 0 || i >= s.len()) && s[i] != c {
        lemma_find_char_bounds(s, c, i + 1);
    }
}

/// Exec form of `rfind_char(s, c, s.len() - 1)`.
pub fn last_index_of(v: &[char], c: char) -> (r: Option<usize>)
    ensures
        match r {
            Some(i) => i as int == rfind_char(v@, c, v@.len() - 1) && i < v@.len() && i < v.len(),
            None => rfind_char(v@, c, v@.len() - 1) == -1,
        },
{
    let mut k: usize = v.len();
    while k > 0
        invariant
            k <= v@.len(),
            rfind_char(v@, c, v@.len() - 1) == rfind_char(v@, c, k - 1),
        decreases k,
    {
        if v[k - 1] == c {
            return Some(k - 1);
        }
        k -= 1;
    }
    None
}

/// Exec form of `find_char(s, c, 0)`.
pub fn first_index_of(v: &[char], c: char) -> (r: Option<usize>)
    ensures
        match r {
            Some(i) => i as int == find_char(v@, c, 0) && i < v@.len() && i < v.len(),
            None => find_char(v@, c, 0) == -1,
        },
{
    let mut k: usize = 0;
    while k < v.len()
        invariant
            k <= v@.len(),
            find_char(v@, c, 0) == find_char(v@, c, k as int),
        decreases v@.len() - k,
    {
        if v[k] == c {
            return Some(k);
        }
        k += 1;
    }
    None
}

/// `s` with every `from` replaced by the characters of `to`.
pub open spec fn replace_char(s: Seq<char>, from: char, to: Seq<char>) -> Seq<char>
    decreases s.len(),
{
    if s.len() == 0 {
        s
    } else {
        replace_char(s.drop_last(), from, to) + if s.last() == from {
            to
        } else {
            seq![s.last()]
        }
    }
}

/// Exec form of [`replace_char`].
pub fn replace_all(v: &[char], from: char, to: &[char]) -> (r: Vec<char>)
    ensures
        r@ == replace_char(v@, from, to@),
{
    let mut r: Vec<char> = Vec::new();
    let mut i: usize = 0;
    while i < v.len()
        invariant
            i <= v@.len(),
            r@ == replace_char(v@.subrange(0, i as int), from, to@),
        decreases v@.len() - i,
    {
        let ghost before = v@.subrange(0, i as int);
        if v[i] == from {
            push_all(&mut r, to);
        } else {
            r.push(v[i]);
        }
        i += 1;
        assert(v@.subrange(0, i as int).drop_last() =~= before);
    }
    assert(v@.subrange(0, v@.len() as int) =~= v@);
    r
}

/// `s` without its leading characters that belong to `set`.
pub open spec fn trim_start_set(s: Seq<char>, set: Seq<char>) -> Seq<char>
    decreases s.len(),
{
    if s.len() > 0 && set.contains(s[0]) {
        trim_start_set(s.drop_first(), set)
    } else {
        s
    }
}

/// `s` without its trailing characters that belong to `set`.
pub open spec fn trim_end_set(s: Seq<char>, set: Seq<char>) -> Seq<char>
    decreases s.len(),
{
    if s.len() > 0 && set.contains(s.last()) {
        trim_end_set(s.drop_last(), set)
    } else {
        s
    }
}

/// `s` without the characters of `set` at either end (std `str::trim_matches`
/// with a set of characters).
pub open spec fn trim_set(s: Seq<char>, set: Seq<char>) -> Seq<char> {
    trim_end_set(trim_start_set(s, set), set)
}

/// Whether `c` is one of `set`.
pub fn char_in(c: char, set: &[char]) -> (r: bool)
    ensures
        r == set@.contains(c),
{
    let mut i: usize = 0;
    while i < set.len()
        invariant
            i <= set@.len(),
            forall|j: int| 0 <= j < i ==> set@[j] != c,
        decreases set@.len() - i,
    {
        if set[i] == c {
            return true;
        }
        i += 1;
    }
    false
}

/// Exec form of [`trim_set`].
pub fn trim_chars(v: &[char], set: &[char]) -> (r: Vec<char>)
    ensures
        r@ == trim_set(v@, set@),
{
    let mut a: usize = 0;
    assert(v@.subrange(0, v@.len() as int) =~= v@);
    while a < v.len() && char_in(v[a], set)
        invariant
            a <= v@.len(),
            trim_start_set(v@, set@) == trim_start_set(v@.subrange(a as int, v@.len() as int), set@),
        decreases v@.len() - a,
    {
        assert(v@.subrange(a as int, v@.len() as int).drop_first() =~= v@.subrange(
            a + 1,
            v@.len() as int,
        ));
        a += 1;
    }
    let ghost started = v@.subrange(a as int, v@.len() as int);
    assert(trim_start_set(v@, set@) == started);
    let mut b: usize = v.len();
    while b > a && char_in(v[b - 1], set)
        invariant
            a <= b <= v@.len(),
            started == v@.subrange(a as int, v@.len() as int),
            trim_end_set(started, set@) == trim_end_set(v@.subrange(a as int, b as int), set@),
        decreases b,
    {
        assert(v@.subrange(a as int, b as int).drop_last() =~= v@.subrange(a as int, b - 1));
        b -= 1;
    }
    slice_chars(v, a, b)
}

/// Whether `c` has the Unicode `White_Space` property (what std
/// `char::is_whitespace` and `str::trim` test).
pub open spec fn is_white_space(c: char) -> bool {
    ('\u{9}' <= c <= '\u{d}') || c == ' ' || c == '\u{85}' || c == '\u{a0}' || c == '\u{1680}'
        || ('\u{2000}' <= c <= '\u{200a}') || c == '\u{2028}' || c == '\u{2029}' || c
        == '\u{202f}' || c == '\u{205f}' || c == '\u{3000}'
}

/// Exec form of [`is_white_space`].
pub fn char_is_white_space(c: char) -> (r: bool)
    ensures
        r == is_white_space(c),
{
    ('\u{9}' <= c && c <= '\u{d}') || c == ' ' || c == '\u{85}' || c == '\u{a0}' || c
        == '\u{1680}' || ('\u{2000}' <= c && c <= '\u{200a}') || c == '\u{2028}' || c
        == '\u{2029}' || c == '\u{202f}' || c == '\u{205f}' || c == '\u{3000}'
}

/// `s` without leading white space.
pub open spec fn trim_start_ws(s: Seq<char>) -> Seq<char>
    decreases s.len(),
{
    if s.len() > 0 && is_white_space(s[0]) {
        trim_start_ws(s.drop_first())
    } else {
        s
    }
}

/// `s` without trailing white space.
pub open spec fn trim_end_ws(s: Seq<char>) -> Seq<char>
    decreases s.len(),
{
    if s.len() > 0 && is_white_space(s.last()) {
        trim_end_ws(s.drop_last())
    } else {
        s
    }
}

/// `s` without white space at either end (std `str::trim`).
pub open spec fn trim_ws(s: Seq<char>) -> Seq<char> {
    trim_end_ws(trim_start_ws(s))
}

/// Exec form of [`trim_ws`].
pub fn trim_white_space(v: &[char]) -> (r: Vec<char>)
    ensures
        r@ == trim_ws(v@),
{
    let mut a: usize = 0;
    assert(v@.subrange(0, v@.len() as int) =~= v@);
    while a < v.len() && char_is_white_space(v[a])
        invariant
            a <= v@.len(),
            trim_start_ws(v@) == trim_start_ws(v@.subrange(a as int, v@.len() as int)),
        decreases v@.len() - a,
    {
        assert(v@.subrange(a as int, v@.len() as int).drop_first() =~= v@.subrange(
            a + 1,
            v@.len() as int,
        ));
        a += 1;
    }
    let ghost started = v@.subrange(a as int, v@.len() as int);
    let mut b: usize = v.len();
    while b > a && char_is_white_space(v[b - 1])
        invariant
            a <= b <= v@.len(),
            started == v@.subrange(a as int, v@.len() as int),
            trim_end_ws(started) == trim_end_ws(v@.subrange(a as int, b as int)),
        decreases b,
    {
        assert(v@.subrange(a as int, b as int).drop_last() =~= v@.subrange(a as int, b - 1));
        b -= 1;
    }
    slice_chars(v, a, b)
}

/// Whether `sub` occurs in `s` starting at `i`.
pub open spec fn occurs_at(s: Seq<char>, sub: Seq<char>, i: int) -> bool {
    0 <= i && i + sub.len() <= s.len() && s.subrange(i, i + sub.len()) == sub
}

/// The first position at or after `i` where `sub` occurs in `s`, or -1.
pub open spec fn find_text_from(s: Seq<char>, sub: Seq<char>, i: int) -> int
    decreases s.len() + 1 - i,
{
    if i < 0 || i + sub.len() > s.len() {
        -1
    } else if occurs_at(s, sub, i) {
        i
    } else {
        find_text_from(s, sub, i + 1)
    }
}

/// The first position where `sub` occurs in `s`, or -1 (std `str::find`).
pub open spec fn find_text(s: Seq<char>, sub: Seq<char>) -> int {
    find_text_from(s, sub, 0)
}

pub proof fn lemma_find_text_bounds(s: Seq<char>, sub: Seq<char>, i: int)
    ensures
        find_text_from(s, sub, i) == -1 || (i <= find_text_from(s, sub, i) && occurs_at(
            s,
            sub,
            find_text_from(s, sub, i),
        )),
    decreases s.len() + 1 - i,
{
    if !(i < 0 || i + sub.len() > s.len()) && !occurs_at(s, sub, i) {
        lemma_find_text_bounds(s, sub, i + 1);
    }
}

/// Whether `sub` occurs in `s` at `i`.
fn occurs_at_exec(s: &[char], sub: &[char], i: usize) -> (r: bool)
    requires
        i + sub@.len() <= s@.len(),
    ensures
        r == occurs_at(s@, sub@, i as int),
{
    let n = s.len();
    let mut k: usize = 0;
    while k < sub.len()
        invariant
            n == s@.len(),
            i + sub@.len() <= s@.len(),
            k <= sub@.len(),
            forall|t: int| 0 <= t < k ==> s@[i + t] == sub@[t],
        decreases sub@.len() - k,
    {
        assert(i + k < s@.len());
        if s[i + k] != sub[k] {
            assert(s@.subrange(i as int, i + sub@.len())[k as int] != sub@[k as int]);
            return false;
        }
        k += 1;
    }
    assert(s@.subrange(i as int, i + sub@.len()) =~= sub@);
    true
}

/// Exec form of [`find_text`].
pub fn index_of_text(s: &[char], sub: &[char]) -> (r: Option<usize>)
    ensures
        match r {
            Some(i) => i as int == find_text(s@, sub@) && i + sub@.len() <= s@.len(),
            None => find_text(s@, sub@) == -1,
        },
{
    if sub.len() > s.len() {
        return None;
    }
    if sub.len() == 0 {
        assert(s@.subrange(0, 0) =~= sub@);
        return Some(0);
    }
    let n = s.len();
    let mut i: usize = 0;
    while i <= s.len() - sub.len()
        invariant
            n == s@.len(),
            0 < sub@.len() <= s@.len(),
            i <= s@.len() - sub@.len() + 1,
            find_text(s@, sub@) == find_text_from(s@, sub@, i as int),
        decreases s@.len() - sub@.len() + 1 - i,
    {
        if occurs_at_exec(s, sub, i) {
            return Some(i);
        }
        i += 1;
    }
    None
}

/// Whether `sub` occurs in `s` (std `str::contains`).
pub open spec fn contains_text(s: Seq<char>, sub: Seq<char>) -> bool {
    exists|i: int| occurs_at(s, sub, i)
}

/// Exec form of [`contains_text`].
pub fn text_contains(s: &[char], sub: &[char]) -> (r: bool)
    ensures
        r == contains_text(s@, sub@),
{
    if sub.len() > s.len() {
        assert forall|i: int| !occurs_at(s@, sub@, i) by {}
        return false;
    }
    let n = s.len();
    let mut i: usize = 0;
    while i <= s.len() - sub.len()
        invariant
            n == s@.len(),
            sub@.len() <= s@.len(),
            i <= s@.len() - sub@.len() + 1,
            forall|j: int| 0 <= j < i ==> !occurs_at(s@, sub@, j),
        decreases s@.len() - sub@.len() + 1 - i,
    {
        let mut k: usize = 0;
        let mut same = true;
        while k < sub.len()
            invariant
                n == s@.len(),
                i + sub@.len() <= s@.len(),
                k <= sub@.len(),
                same == (forall|t: int| 0 <= t < k ==> s@[i + t] == sub@[t]),
            decreases sub@.len() - k,
        {
            if s[i + k] != sub[k] {
                same = false;
            }
            k += 1;
        }
        if same {
            assert(s@.subrange(i as int, i + sub@.len()) =~= sub@);
            assert(occurs_at(s@, sub@, i as int));
            return true;
        }
        assert(!occurs_at(s@, sub@, i as int)) by {
            if occurs_at(s@, sub@, i as int) {
                assert forall|t: int| 0 <= t < sub@.len() implies s@[i + t] == sub@[t] by {
                    assert(s@.subrange(i as int, i + sub@.len())[t] == sub@[t]);
                }
            }
        }
        i += 1;
    }
    assert forall|j: int| !occurs_at(s@, sub@, j) by {
        if 0 <= j && j + sub@.len() <= s@.len() {
            assert(j < i);
        }
    }
    false
}

/// The decimal digit character for `d < 10`.
pub open spec fn digit_char(d: nat) -> char {
    if d == 0 {
        '0'
    } else if d == 1 {
        '1'
    } else if d == 2 {
        '2'
    } else if d == 3 {
        '3'
    } else if d == 4 {
        '4'
    } else if d == 5 {
        '5'
    } else if d == 6 {
        '6'
    } else if d == 7 {
        '7'
    } else if d == 8 {
        '8'
    } else {
        '9'
    }
}

/// The decimal notation of `n`, without leading zeros.
pub open spec fn decimal(n: nat) -> Seq<char>
    decreases n,
{
    if n < 10 {
        seq![digit_char(n)]
    } else {
        decimal(n / 10).push(digit_char(n % 10))
    }
}

fn digit_of(d: u64) -> (c: char)
    requires
        d < 10,
    ensures
        c == digit_char(d as nat),
{
    if d == 0 {
        '0'
    } else if d == 1 {
        '1'
    } else if d == 2 {
        '2'
    } else if d == 3 {
        '3'
    } else if d == 4 {
        '4'
    } else if d == 5 {
        '5'
    } else if d == 6 {
        '6'
    } else if d == 7 {
        '7'
    } else if d == 8 {
        '8'
    } else {
        '9'
    }
}

/// The decimal digits of `n`.
pub fn decimal_chars(n: u64) -> (r: Vec<char>)
    ensures
        r@ == decimal(n as nat),
    decreases n,
{
    if n < 10 {
        let mut v: Vec<char> = Vec::new();
        v.push(digit_of(n));
        assert(v@ =~= decimal(n as nat));
        v
    } else {
        let mut v = decimal_chars(n / 10);
        v.push(digit_of(n % 10));
        v
    }
}

/// The decimal notation of `n` (as `format!("{}", n)` writes it).
pub fn usize_text(n: usize) -> (r: String)
    ensures
        r@ == decimal(n as nat),
{
    let v = decimal_chars(n as u64);
    string_of(&v)
}

/// The decimal notation of a `u64` (as `format!("{}", n)` writes it).
pub fn u64_text(n: u64) -> (r: String)
    ensures
        r@ == decimal(n as nat),
{
    let v = decimal_chars(n);
    string_of(&v)
}

} // verus!
