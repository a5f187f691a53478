//! Assertion-aware entity display helpers.
//!
//! Entities with active assertions ("covered") are shown in full, those
//! without ("blind") are collapsed; these helpers do the partitioning and the
//! wording shared by every renderer.

use vstd::prelude::*;
use crate::domain::entity::Entity;

verus! {

/// An entity paired with its active-assertion count.
#[derive(Debug)]
pub struct AssertedEntity {
    pub entity: Entity,
    pub active_assertions: usize,
}

impl Clone for AssertedEntity {
    fn clone(&self) -> (r: Self)
        ensures
            r == *self,
    {
        AssertedEntity { entity: self.entity.clone(), active_assertions: self.active_assertions }
    }
}

impl AssertedEntity {
    pub fn is_asserted(&self) -> (r: bool)
        ensures
            r == (self.active_assertions > 0),
    {
        self.active_assertions > 0
    }
}

/// The pair `(entity, count)` as an `AssertedEntity`.
pub open spec fn asserted_of(p: (Entity, usize)) -> AssertedEntity {
    AssertedEntity { entity: p.0, active_assertions: p.1 }
}

/// `(asserted, blind)`: the items with a positive count and those with a zero
/// count, each in their original order.
pub open spec fn spec_partition(items: Seq<(Entity, usize)>) -> (
    Seq<AssertedEntity>,
    Seq<AssertedEntity>,
)
    decreases items.len(),
{
    if items.len() == 0 {
        (seq![], seq![])
    } else {
        let prev = spec_partition(items.drop_last());
        let last = items.last();
        if last.1 > 0 {
            (prev.0.push(asserted_of(last)), prev.1)
        } else {
            (prev.0, prev.1.push(asserted_of(last)))
        }
    }
}

/// Splits `(entity, assertion_count)` pairs into `(asserted, blind)`.
pub fn partition_by_assertion(items: Vec<(Entity, usize)>) -> (r: (
    Vec<AssertedEntity>,
    Vec<AssertedEntity>,
))
    ensures
        (r.0@, r.1@) == spec_partition(items@),
{
    let mut asserted: Vec<AssertedEntity> = Vec::new();
    let mut blind: Vec<AssertedEntity> = Vec::new();
    let mut i: usize = 0;
    while i < items.len()
        invariant
            i <= items@.len(),
            (asserted@, blind@) == spec_partition(items@.subrange(0, i as int)),
        decreases items@.len() - i,
    {
        let ae = AssertedEntity { entity: items[i].0.clone(), active_assertions: items[i].1 };
        assert(items@.subrange(0, i + 1).drop_last() =~= items@.subrange(0, i as int));
        if ae.is_asserted() {
            asserted.push(ae);
        } else {
            blind.push(ae);
        }
        i += 1;
    }
    assert(items@.subrange(0, items@.len() as int) =~= items@);
    (asserted, blind)
}

/// Partitioning keeps every item exactly once: the two groups together are as
/// long as the input, every asserted entry has a positive count, and every
/// blind entry has none.
pub proof fn lemma_partition_keeps_items(items: Seq<(Entity, usize)>)
    ensures
        spec_partition(items).0.len() + spec_partition(items).1.len() == items.len(),
        forall|i: int|
            0 <= i < spec_partition(items).0.len() ==> #[trigger] spec_partition(
                items,
            ).0[i].active_assertions > 0,
        forall|i: int|
            0 <= i < spec_partition(items).1.len() ==> #[trigger] spec_partition(
                items,
            ).1[i].active_assertions == 0,
    decreases items.len(),
{
    if items.len() > 0 {
        lemma_partition_keeps_items(items.drop_last());
    }
}

/// Maximum asserted entities to show per group before folding the rest.
pub const MAX_ASSERTED: usize = 15;

/// `""` for a single item, `"s"` otherwise.
pub fn plural_s(count: usize) -> (r: &'static str)
    ensures
        r@ == (if count == 1 { ""@ } else { "s"@ }),
{
    if count == 1 {
        ""
    } else {
        "s"
    }
}

/// `"entity"` for a count of 1, `"entities"` otherwise.
pub fn entities_word(count: usize) -> (r: &'static str)
    ensures
        r@ == (if count == 1 { "entity"@ } else { "entities"@ }),
{
    if count == 1 {
        "entity"
    } else {
        "entities"
    }
}

} // verus!
