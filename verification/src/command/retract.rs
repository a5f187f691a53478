//! `retract`: which assertions of the entity remain to be listed after a
//! retraction.

use vstd::prelude::*;
use crate::domain::assertion::{Assertion, AssertionStatus};

verus! {

/// The assertions of `s[..n]` that are not retracted (active or uncertain),
/// in order.
pub open spec fn not_retracted(s: Seq<Assertion>, n: int) -> Seq<Assertion>
    decreases n,
{
    if n <= 0 || n > s.len() {
        seq![]
    } else {
        not_retracted(s, n - 1) + if s[n - 1].status != AssertionStatus::Retracted {
            seq![s[n - 1]]
        } else {
            seq![]
        }
    }
}

/// The assertions still standing on the entity: the active and uncertain
/// ones, in order.
pub fn remaining_assertions(assertions: &Vec<Assertion>) -> (r: Vec<Assertion>)
    ensures
        r@ == not_retracted(assertions@, assertions@.len() as int),
{
    let mut out: Vec<Assertion> = Vec::new();
    let mut i: usize = 0;
    while i < assertions.len()
        invariant
            i <= assertions@.len(),
            out@ == not_retracted(assertions@, i as int),
        decreases assertions@.len() - i,
    {
        if assertions[i].status != AssertionStatus::Retracted {
            out.push(assertions[i].clone());
            assert(out@ =~= not_retracted(assertions@, i + 1));
        } else {
            assert(not_retracted(assertions@, i + 1) =~= not_retracted(assertions@, i as int));
        }
        i += 1;
    }
    out
}

} // verus!
