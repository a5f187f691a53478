//! `query`: which of an entity's assertions a query card shows, and how many
//! active assertions each related entity has.

use vstd::prelude::*;
use crate::analysis::scan::{bump_count, bumped, counts_view, lemma_bumped_bounded};
use crate::domain::assertion::{Assertion, AssertionStatus};

verus! {

/// The assertions of `s[..n]` a query shows: all of them with `all`, else
/// the active ones; in order.
pub open spec fn shown_assertions(s: Seq<Assertion>, all: bool, n: int) -> Seq<Assertion>
    decreases n,
{
    if n <= 0 || n > s.len() {
        seq![]
    } else {
        shown_assertions(s, all, n - 1) + if all || s[n - 1].status == AssertionStatus::Active {
            seq![s[n - 1]]
        } else {
            seq![]
        }
    }
}

/// The assertions a query shows: all of them with `all`, else the active
/// ones.
pub fn visible_assertions(assertions: &Vec<Assertion>, all: bool) -> (r: Vec<Assertion>)
    ensures
        r@ == shown_assertions(assertions@, all, assertions@.len() as int),
{
    let mut out: Vec<Assertion> = Vec::new();
    let mut i: usize = 0;
    while i < assertions.len()
        invariant
            i <= assertions@.len(),
            out@ == shown_assertions(assertions@, all, i as int),
        decreases assertions@.len() - i,
    {
        if all || assertions[i].is_active() {
            out.push(assertions[i].clone());
            assert(out@ =~= shown_assertions(assertions@, all, i + 1));
        } else {
            assert(shown_assertions(assertions@, all, i + 1) =~= shown_assertions(assertions@, all, i as int));
        }
        i += 1;
    }
    out
}

/// `(entity id, number of active assertions)` over `s[..n]`, one pair per
/// entity in order of first appearance.
pub open spec fn active_counts(s: Seq<Assertion>, n: int) -> Seq<(Seq<char>, usize)>
    decreases n,
{
    if n <= 0 || n > s.len() {
        seq![]
    } else if s[n - 1].status == AssertionStatus::Active {
        bumped(active_counts(s, n - 1), s[n - 1].entity_id@)
    } else {
        active_counts(s, n - 1)
    }
}

/// How many active assertions each entity has among `assertions`.
pub fn related_assertion_counts(assertions: &Vec<Assertion>) -> (r: Vec<(String, usize)>)
    ensures
        counts_view(r@) == active_counts(assertions@, assertions@.len() as int),
{
    let mut counts: Vec<(String, usize)> = Vec::new();
    let mut i: usize = 0;
    while i < assertions.len()
        invariant
            i <= assertions@.len(),
            counts_view(counts@) == active_counts(assertions@, i as int),
            forall|j: int| 0 <= j < counts@.len() ==> #[trigger] counts@[j].1 <= i,
        decreases assertions@.len() - i,
    {
        if assertions[i].is_active() {
            let ghost before = counts_view(counts@);
            proof {
                assert forall|j: int| 0 <= j < before.len() implies #[trigger] before[j].1 <= i by {
                    assert(before[j].1 == counts@[j].1);
                }
                lemma_bumped_bounded(before, assertions@[i as int].entity_id@, i as int);
            }
            bump_count(&mut counts, assertions[i].entity_id.as_str());
            proof {
                let after = counts_view(counts@);
                assert forall|j: int| 0 <= j < counts@.len() implies #[trigger] counts@[j].1 <= i + 1 by {
                    assert(after[j].1 == counts@[j].1);
                }
            }
        }
        i += 1;
    }
    counts
}

} // verus!
