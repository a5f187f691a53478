//! Grounds: the `source:detail` evidence reference given with an assertion.

use vstd::prelude::*;
use crate::text::{chars_of, find_char, first_index_of, lemma_find_char_bounds, push_all, slice_chars, string_of};

verus! {

/// The evidence source for an assertion, written `source:detail`.
#[derive(Debug, Clone, PartialEq, Eq)]
pub struct Grounds {
    pub source: String,
    pub detail: String,
}

/// The `(source, detail)` pair that `raw` parses to: split at the first `:`
/// when both sides are non-empty, otherwise source `note` and the whole text
/// as detail.
pub open spec fn spec_parse_grounds(raw: Seq<char>) -> (Seq<char>, Seq<char>) {
    let c = find_char(raw, ':', 0);
    if c > 0 && c + 1 < raw.len() {
        (raw.subrange(0, c), raw.subrange(c + 1, raw.len() as int))
    } else {
        ("note"@, raw)
    }
}

/// The `source:detail` text of a grounds value.
pub open spec fn spec_grounds_text(source: Seq<char>, detail: Seq<char>) -> Seq<char> {
    source + seq![':'] + detail
}

impl Grounds {
    pub fn parse(raw: &str) -> (r: Grounds)
        ensures
            (r.source@, r.detail@) == spec_parse_grounds(raw@),
    {
        let v = chars_of(raw);
        match first_index_of(&v, ':') {
            Some(c) => {
                if c > 0 && c < v.len() - 1 {
                    let source = slice_chars(&v, 0, c);
                    let detail = slice_chars(&v, c + 1, v.len());
                    return Grounds { source: string_of(&source), detail: string_of(&detail) };
                }
            },
            None => {},
        }
        Grounds { source: "note".to_string(), detail: raw.to_string() }
    }

    /// Checks the `source:detail` shape: both parts non-empty.
    pub fn validate_format(&self) -> (r: Result<(), &'static str>)
        ensures
            r is Ok <==> (self.source@.len() > 0 && self.detail@.len() > 0),
            r matches Err(e) ==> e@ == "grounds must have non-empty source and detail"@,
    {
        let s = chars_of(self.source.as_str());
        let d = chars_of(self.detail.as_str());
        if s.len() == 0 || d.len() == 0 {
            Err("grounds must have non-empty source and detail")
        } else {
            Ok(())
        }
    }

    /// The `source:detail` text.
    pub fn to_text(&self) -> (r: String)
        ensures
            r@ == spec_grounds_text(self.source@, self.detail@),
    {
        let mut out = chars_of(self.source.as_str());
        out.push(':');
        let d = chars_of(self.detail.as_str());
        push_all(&mut out, &d);
        string_of(&out)
    }
}

/// Printing parsed grounds gives the input back when it held a `:` with
/// non-empty text on both sides, and `note:` before the input otherwise.
pub proof fn lemma_grounds_text_of_parse(raw: Seq<char>)
    ensures
        ({
            let (s, d) = spec_parse_grounds(raw);
            let c = find_char(raw, ':', 0);
            if c > 0 && c + 1 < raw.len() {
                spec_grounds_text(s, d) == raw
            } else {
                spec_grounds_text(s, d) == "note"@ + seq![':'] + raw
            }
        }),
{
    lemma_find_char_bounds(raw, ':', 0);
    let c = find_char(raw, ':', 0);
    if c > 0 && c + 1 < raw.len() {
        assert(raw.subrange(0, c) + seq![':'] + raw.subrange(c + 1, raw.len() as int) =~= raw);
    }
}

/// `find_char` from `i` finds nothing when `s[i..]` holds no `c`.
proof fn lemma_find_char_none(s: Seq<char>, c: char, i: int)
    requires
        0 <= i,
        forall|j: int| i <= j < s.len() ==> s[j] != c,
    ensures
        find_char(s, c, i) == -1,
    decreases s.len() - i,
{
    if i < s.len() {
        lemma_find_char_none(s, c, i + 1);
    }
}

/// `find_char` from `i` finds `k` when `s[k]` is the first `c` at or after `i`.
proof fn lemma_find_char_at(s: Seq<char>, c: char, i: int, k: int)
    requires
        0 <= i <= k < s.len(),
        s[k] == c,
        forall|j: int| i <= j < k ==> s[j] != c,
    ensures
        find_char(s, c, i) == k,
    decreases k - i,
{
    if i < k {
        lemma_find_char_at(s, c, i + 1, k);
    }
}

/// Grounds whose source is non-empty and free of `:` and whose detail is
/// non-empty parse back from their printed text.
pub proof fn lemma_grounds_parse_of_text(source: Seq<char>, detail: Seq<char>)
    requires
        source.len() > 0,
        detail.len() > 0,
        forall|i: int| 0 <= i < source.len() ==> source[i] != ':',
    ensures
        spec_parse_grounds(spec_grounds_text(source, detail)) == (source, detail),
{
    let t = spec_grounds_text(source, detail);
    let k = source.len() as int;
    assert(t[k] == ':');
    assert forall|j: int| 0 <= j < k implies t[j] != ':' by {
        assert(t[j] == source[j]);
    }
    lemma_find_char_at(t, ':', 0, k);
    assert(t.subrange(0, k) =~= source);
    assert(t.subrange(k + 1, t.len() as int) =~= detail);
}

/// Parsed grounds pass the format check exactly when the input is non-empty.
pub proof fn lemma_parsed_grounds_valid(raw: Seq<char>)
    ensures
        ({
            let (s, d) = spec_parse_grounds(raw);
            (s.len() > 0 && d.len() > 0) <==> raw.len() > 0
        }),
{
    reveal_strlit("note");
}

} // verus!
