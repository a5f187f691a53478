//! Branch merging: what merging one difference between a branch and the
//! main model does, and the messages of a merge.
//!
//! A merge step is decided from the difference and from whether the
//! entities or assertions it refers to exist in the main model; the caller
//! looks those up (see [`lookups`]) and performs the step.

use vstd::prelude::*;
use vstd::string::*;
use crate::domain::assertion::{Assertion, AssertionStatus};
use crate::domain::entity::Entity;
use crate::domain::evidence::Evidence;
use crate::domain::relations::{AssertionRelation, EntityRelation, EntityRelationKind};
use crate::domain::time::{compact_stamp, spec_compact_stamp, utc_now_fields, CivilTime};
use crate::text::{decimal, u64_text, usize_text};

verus! {

/// An assertion as it is in the main model and in the branch.
#[derive(Debug, Clone)]
pub struct AssertionChange {
    pub before: Assertion,
    pub after: Assertion,
}

/// One difference between the main model and a branch.
#[derive(Debug)]
pub enum DiffItem {
    EntityAdded(Entity),
    EntityRemoved(Entity),
    AssertionAdded(Assertion),
    AssertionRemoved(Assertion),
    AssertionChanged(AssertionChange),
    EvidenceAdded(Evidence),
    EvidenceRemoved(Evidence),
    EntityRelationAdded(EntityRelation),
    EntityRelationRemoved(EntityRelation),
    AssertionRelationAdded(AssertionRelation),
    AssertionRelationRemoved(AssertionRelation),
}

/// Something to look up in the main model before merging a difference.
#[derive(Debug, PartialEq, Eq)]
pub enum Lookup {
    /// Whether the entity with this id exists.
    Entity(String),
    /// Whether the assertion with this id exists.
    Assertion(String),
}

/// The view of a lookup: `(is an entity, id)`.
pub open spec fn lookup_view(l: Lookup) -> (bool, Seq<char>) {
    match l {
        Lookup::Entity(id) => (true, id@),
        Lookup::Assertion(id) => (false, id@),
    }
}

/// The lookups merging `item` needs, in order.
pub open spec fn spec_lookups(item: DiffItem) -> Seq<(bool, Seq<char>)> {
    match item {
        DiffItem::AssertionAdded(a) => seq![(true, a.entity_id@)],
        DiffItem::AssertionRemoved(a) => seq![(false, a.id@)],
        DiffItem::AssertionChanged(c) => seq![(false, c.before.id@)],
        DiffItem::EvidenceAdded(e) => seq![(false, e.assertion_id@)],
        DiffItem::EntityRelationAdded(r) => seq![(true, r.from_entity@), (true, r.to_entity@)],
        DiffItem::AssertionRelationAdded(r) => seq![
            (false, r.from_assertion@),
            (false, r.to_assertion@),
        ],
        _ => seq![],
    }
}

/// The lookups merging `item` needs.
pub fn lookups(item: &DiffItem) -> (r: Vec<Lookup>)
    ensures
        r@.map_values(|l: Lookup| lookup_view(l)) == spec_lookups(*item),
{
    let mut v: Vec<Lookup> = Vec::new();
    match item {
        DiffItem::AssertionAdded(a) => {
            v.push(Lookup::Entity(a.entity_id.clone()));
        },
        DiffItem::AssertionRemoved(a) => {
            v.push(Lookup::Assertion(a.id.clone()));
        },
        DiffItem::AssertionChanged(c) => {
            v.push(Lookup::Assertion(c.before.id.clone()));
        },
        DiffItem::EvidenceAdded(e) => {
            v.push(Lookup::Assertion(e.assertion_id.clone()));
        },
        DiffItem::EntityRelationAdded(r) => {
            v.push(Lookup::Entity(r.from_entity.clone()));
            v.push(Lookup::Entity(r.to_entity.clone()));
        },
        DiffItem::AssertionRelationAdded(r) => {
            v.push(Lookup::Assertion(r.from_assertion.clone()));
            v.push(Lookup::Assertion(r.to_assertion.clone()));
        },
        _ => {},
    }
    assert(v@.map_values(|l: Lookup| lookup_view(l)) =~= spec_lookups(*item));
    v
}

/// Why a merge retracts an assertion.
#[derive(Debug, Clone, Copy, PartialEq, Eq, Structural)]
pub enum RetractCause {
    /// The branch removed the assertion.
    RemovedInBranch,
    /// The branch retracted the assertion.
    StatusChangedInBranch,
}

/// The retraction reason recorded for each cause.
pub open spec fn spec_retract_reason(c: RetractCause) -> Seq<char> {
    match c {
        RetractCause::RemovedInBranch => "merged: removed in branch"@,
        RetractCause::StatusChangedInBranch => "merged: status change from branch"@,
    }
}

impl RetractCause {
    /// The retraction reason recorded for this cause.
    pub fn reason(&self) -> (r: &'static str)
        ensures
            r@ == spec_retract_reason(*self),
    {
        match self {
            RetractCause::RemovedInBranch => "merged: removed in branch",
            RetractCause::StatusChangedInBranch => "merged: status change from branch",
        }
    }
}

/// What merging one difference does to the main model.
#[derive(Debug)]
pub enum MergeStep {
    /// Insert the entity with its original id, so that what refers to it
    /// stays valid; merged when the store inserts it.
    InsertEntity(Entity),
    /// Insert the assertion; merged when the store inserts it.
    InsertAssertion(Assertion),
    /// Insert the evidence; merged when the store inserts it.
    InsertEvidence(Evidence),
    /// Retract the assertion; merged.
    Retract { id: String, cause: RetractCause },
    /// Set the assertion's status; merged.
    SetStatus { id: String, status: AssertionStatus },
    /// Add the entity relation; merged.
    AddEntityRelation { from: String, to: String, kind: EntityRelationKind },
    /// Add the dependency between the assertions; merged.
    AddAssertionDependency { from: String, to: String },
    /// Nothing to do; merged.
    Done,
    /// Not merged.
    Skip,
}

/// The merge step of `item`, given the answers `found` to its lookups: an
/// added entity is inserted; removals of entities, evidence and relations
/// are skipped; an added assertion, evidence or relation is inserted only
/// when what it refers to exists, and skipped otherwise; a removed assertion
/// is retracted when it exists; a changed status is applied when the
/// assertion exists (a retraction as a retraction).
pub open spec fn spec_merge_step(item: DiffItem, found: Seq<bool>) -> MergeStep {
    match item {
        DiffItem::EntityAdded(e) => MergeStep::InsertEntity(e),
        DiffItem::EntityRemoved(_) => MergeStep::Skip,
        DiffItem::AssertionAdded(a) => if found[0] {
            MergeStep::InsertAssertion(a)
        } else {
            MergeStep::Skip
        },
        DiffItem::AssertionRemoved(a) => if found[0] {
            MergeStep::Retract { id: a.id, cause: RetractCause::RemovedInBranch }
        } else {
            MergeStep::Done
        },
        DiffItem::AssertionChanged(c) => if c.before.status != c.after.status && found[0] {
            match c.after.status {
                AssertionStatus::Retracted => MergeStep::Retract {
                    id: c.before.id,
                    cause: RetractCause::StatusChangedInBranch,
                },
                s => MergeStep::SetStatus { id: c.before.id, status: s },
            }
        } else {
            MergeStep::Done
        },
        DiffItem::EvidenceAdded(e) => if found[0] {
            MergeStep::InsertEvidence(e)
        } else {
            MergeStep::Skip
        },
        DiffItem::EvidenceRemoved(_) => MergeStep::Skip,
        DiffItem::EntityRelationAdded(r) => if found[0] && found[1] {
            MergeStep::AddEntityRelation { from: r.from_entity, to: r.to_entity, kind: r.kind }
        } else {
            MergeStep::Skip
        },
        DiffItem::EntityRelationRemoved(_) => MergeStep::Skip,
        DiffItem::AssertionRelationAdded(r) => if found[0] && found[1] {
            MergeStep::AddAssertionDependency { from: r.from_assertion, to: r.to_assertion }
        } else {
            MergeStep::Skip
        },
        DiffItem::AssertionRelationRemoved(_) => MergeStep::Skip,
    }
}

/// The merge step of `item`, given whether each of its [`lookups`] found
/// what it looked for.
pub fn merge_step(item: DiffItem, found: &Vec<bool>) -> (r: MergeStep)
    requires
        found@.len() == spec_lookups(item).len(),
    ensures
        r == spec_merge_step(item, found@),
{
    match item {
        DiffItem::EntityAdded(e) => MergeStep::InsertEntity(e),
        DiffItem::EntityRemoved(_) => MergeStep::Skip,
        DiffItem::AssertionAdded(a) => if found[0] {
            MergeStep::InsertAssertion(a)
        } else {
            MergeStep::Skip
        },
        DiffItem::AssertionRemoved(a) => if found[0] {
            MergeStep::Retract { id: a.id, cause: RetractCause::RemovedInBranch }
        } else {
            MergeStep::Done
        },
        DiffItem::AssertionChanged(c) => {
            if c.before.status != c.after.status && found[0] {
                match c.after.status {
                    AssertionStatus::Retracted => MergeStep::Retract {
                        id: c.before.id,
                        cause: RetractCause::StatusChangedInBranch,
                    },
                    s => MergeStep::SetStatus { id: c.before.id, status: s },
                }
            } else {
                MergeStep::Done
            }
        },
        DiffItem::EvidenceAdded(e) => if found[0] {
            MergeStep::InsertEvidence(e)
        } else {
            MergeStep::Skip
        },
        DiffItem::EvidenceRemoved(_) => MergeStep::Skip,
        DiffItem::EntityRelationAdded(r) => if found[0] && found[1] {
            MergeStep::AddEntityRelation { from: r.from_entity, to: r.to_entity, kind: r.kind }
        } else {
            MergeStep::Skip
        },
        DiffItem::EntityRelationRemoved(_) => MergeStep::Skip,
        DiffItem::AssertionRelationAdded(r) => if found[0] && found[1] {
            MergeStep::AddAssertionDependency { from: r.from_assertion, to: r.to_assertion }
        } else {
            MergeStep::Skip
        },
        DiffItem::AssertionRelationRemoved(_) => MergeStep::Skip,
    }
}

/// What a branch adds is merged when what it refers to exists in main: an
/// added entity is always inserted, with its own id; an added assertion or
/// evidence is inserted as it is; an added relation or dependency is added
/// between the same ends, of the same kind.
pub proof fn lemma_merge_inserts_additions(item: DiffItem, found: Seq<bool>)
    requires
        found.len() == spec_lookups(item).len(),
        forall|k: int| 0 <= k < found.len() ==> #[trigger] found[k],
    ensures
        (item is EntityAdded) ==> spec_merge_step(item, found) == MergeStep::InsertEntity(
            item->EntityAdded_0,
        ),
        (item is AssertionAdded) ==> spec_merge_step(item, found) == MergeStep::InsertAssertion(
            item->AssertionAdded_0,
        ),
        (item is EvidenceAdded) ==> spec_merge_step(item, found) == MergeStep::InsertEvidence(
            item->EvidenceAdded_0,
        ),
        (item is EntityRelationAdded) ==> spec_merge_step(item, found) == (MergeStep::AddEntityRelation {
            from: item->EntityRelationAdded_0.from_entity,
            to: item->EntityRelationAdded_0.to_entity,
            kind: item->EntityRelationAdded_0.kind,
        }),
        (item is AssertionRelationAdded) ==> spec_merge_step(item, found) == (MergeStep::AddAssertionDependency {
            from: item->AssertionRelationAdded_0.from_assertion,
            to: item->AssertionRelationAdded_0.to_assertion,
        }),
        (item is AssertionRemoved) ==> spec_merge_step(item, found) == (MergeStep::Retract {
            id: item->AssertionRemoved_0.id,
            cause: RetractCause::RemovedInBranch,
        }),
{
    if spec_lookups(item).len() > 0 {
        assert(found[0]);
    }
    if spec_lookups(item).len() > 1 {
        assert(found[1]);
    }
}

/// Nothing is inserted that refers to what main lacks: when a lookup of an
/// added assertion, evidence or relation finds nothing, the difference is
/// skipped; a removed assertion main lacks needs nothing done.
pub proof fn lemma_merge_skips_dangling(item: DiffItem, found: Seq<bool>, k: int)
    requires
        found.len() == spec_lookups(item).len(),
        0 <= k < found.len(),
        !found[k],
    ensures
        (item is AssertionAdded) || (item is EvidenceAdded) || (item is EntityRelationAdded)
            || (item is AssertionRelationAdded) ==> spec_merge_step(item, found) == MergeStep::Skip,
        (item is AssertionRemoved) ==> spec_merge_step(item, found) == MergeStep::Done,
{
}

/// Removals of entities, evidence and relations are never merged, and an
/// entity's removal is never merged whatever the lookups say.
pub proof fn lemma_merge_never_removes(item: DiffItem, found: Seq<bool>)
    requires
        (item is EntityRemoved) || (item is EvidenceRemoved) || (item is EntityRelationRemoved)
            || (item is AssertionRelationRemoved),
    ensures
        spec_merge_step(item, found) == MergeStep::Skip,
        !spec_step_merged(spec_merge_step(item, found), true),
{
}

/// A merge step counts as merged exactly when it is no skip, and an
/// insertion only when the store inserted.
pub proof fn lemma_step_merged(step: MergeStep, inserted: bool)
    ensures
        (step is Skip) ==> !spec_step_merged(step, inserted),
        (step is InsertEntity) || (step is InsertAssertion) || (step is InsertEvidence) ==> spec_step_merged(
            step,
            inserted,
        ) == inserted,
        !((step is Skip) || (step is InsertEntity) || (step is InsertAssertion) || (step is InsertEvidence))
            ==> spec_step_merged(step, inserted),
{
}

/// Whether performing `step` merged the difference, where `inserted` is
/// what the store answered to an insertion (ignored for other steps).
pub open spec fn spec_step_merged(step: MergeStep, inserted: bool) -> bool {
    match step {
        MergeStep::InsertEntity(_) => inserted,
        MergeStep::InsertAssertion(_) => inserted,
        MergeStep::InsertEvidence(_) => inserted,
        MergeStep::Skip => false,
        _ => true,
    }
}

/// Exec form of [`spec_step_merged`].
pub fn step_merged(step: &MergeStep, inserted: bool) -> (r: bool)
    ensures
        r == spec_step_merged(*step, inserted),
{
    match step {
        MergeStep::InsertEntity(_) => inserted,
        MergeStep::InsertAssertion(_) => inserted,
        MergeStep::InsertEvidence(_) => inserted,
        MergeStep::Skip => false,
        _ => true,
    }
}

/// The message for an item index past the end of the differences.
pub open spec fn spec_out_of_range(idx: nat, len: nat) -> Seq<char> {
    "item index "@ + decimal(idx) + " out of range (0.."@ + decimal(len) + ")"@
}

/// Checks an item index against the number of differences: `Ok` when it
/// names one, else the out-of-range message.
pub fn check_item_index(idx: usize, len: usize) -> (r: Result<(), String>)
    ensures
        r is Ok <==> idx < len,
        r matches Err(m) ==> m@ == spec_out_of_range(idx as nat, len as nat),
{
    if idx < len {
        Ok(())
    } else {
        let mut m = String::from_str("item index ");
        m.append(usize_text(idx).as_str());
        m.append(" out of range (0..");
        m.append(usize_text(len).as_str());
        m.append(")");
        Err(m)
    }
}

/// How many of `s` are `true`.
pub open spec fn count_true(s: Seq<bool>) -> nat
    decreases s.len(),
{
    if s.len() == 0 {
        0
    } else {
        count_true(s.drop_last()) + if s.last() { 1nat } else { 0nat }
    }
}

/// The report of merging every difference, where `merged[i]` says whether
/// the `i`-th was merged.
pub open spec fn spec_merge_all_message(merged: Seq<bool>) -> Seq<char> {
    "merge: applied "@ + decimal(count_true(merged)) + ", skipped "@ + decimal(
        (merged.len() - count_true(merged)) as nat,
    )
}

proof fn lemma_count_true_bounded(s: Seq<bool>)
    ensures
        count_true(s) <= s.len(),
    decreases s.len(),
{
    if s.len() > 0 {
        lemma_count_true_bounded(s.drop_last());
    }
}

/// The report of merging every difference.
pub fn merge_all_message(merged: &Vec<bool>) -> (r: String)
    ensures
        r@ == spec_merge_all_message(merged@),
{
    let mut applied: usize = 0;
    let mut skipped: usize = 0;
    let mut i: usize = 0;
    while i < merged.len()
        invariant
            i <= merged@.len(),
            applied == count_true(merged@.subrange(0, i as int)),
            applied + skipped == i,
        decreases merged@.len() - i,
    {
        assert(merged@.subrange(0, i + 1).drop_last() =~= merged@.subrange(0, i as int));
        if merged[i] {
            applied = applied + 1;
        } else {
            skipped = skipped + 1;
        }
        i = i + 1;
    }
    assert(merged@.subrange(0, i as int) =~= merged@);
    proof {
        lemma_count_true_bounded(merged@);
    }
    let mut m = String::from_str("merge: applied ");
    m.append(usize_text(applied).as_str());
    m.append(", skipped ");
    m.append(usize_text(skipped).as_str());
    m
}

/// The report of merging the difference at `idx`.
pub open spec fn spec_merge_item_message(idx: nat, merged: bool) -> Seq<char> {
    if merged {
        "merge: applied item ["@ + decimal(idx) + "]"@
    } else {
        "merge: item ["@ + decimal(idx) + "] skipped (entity removal requires manual handling)"@
    }
}

/// The report of merging the difference at `idx`.
pub fn merge_item_message(idx: usize, merged: bool) -> (r: String)
    ensures
        r@ == spec_merge_item_message(idx as nat, merged),
{
    if merged {
        let mut m = String::from_str("merge: applied item [");
        m.append(usize_text(idx).as_str());
        m.append("]");
        m
    } else {
        let mut m = String::from_str("merge: item [");
        m.append(usize_text(idx).as_str());
        m.append("] skipped (entity removal requires manual handling)");
        m
    }
}

/// The report of rejecting the difference at `idx`.
pub fn reject_message(idx: usize) -> (r: String)
    ensures
        r@ == "merge: rejected item ["@ + decimal(idx as nat) + "]"@,
{
    let mut m = String::from_str("merge: rejected item [");
    m.append(usize_text(idx).as_str());
    m.append("]");
    m
}

/// The report of creating a branch whose store takes `size_bytes` bytes,
/// the size in whole kilobytes.
pub fn branch_created_message(name: &str, size_bytes: u64) -> (r: String)
    ensures
        r@ == "branch created: "@ + name@ + " ("@ + decimal((size_bytes / 1024) as nat) + "KB)"@,
{
    let mut m = String::from_str("branch created: ");
    m.append(name);
    m.append(" (");
    m.append(u64_text(size_bytes / 1024).as_str());
    m.append("KB)");
    m
}

/// The name of a new branch: the one given, else `branch_` followed by the
/// current UTC time written `%Y%m%d_%H%M%S`.
pub fn branch_name(name: Option<String>) -> (r: String)
    ensures
        name matches Some(n) ==> r == n,
        name is None ==> exists|t: CivilTime|
            t.valid() && r@ == "branch_"@ + #[trigger] spec_compact_stamp(t, "_"@),
{
    match name {
        Some(n) => n,
        None => {
            let t = utc_now_fields();
            let mut m = String::from_str("branch_");
            m.append(compact_stamp(&t, "_").as_str());
            assert(m@ == "branch_"@ + spec_compact_stamp(t, "_"@));
            m
        },
    }
}

/// The name under which `switch` returns to the main model.
pub open spec fn main_branch_name() -> Seq<char> {
    "_main"@
}

/// Where `switch` goes for `name` and what it reports: back to the main
/// model for `_main` (the first component is `true`), else to the branch.
pub fn switch_plan(name: &str) -> (r: (bool, String))
    ensures
        r.0 == (name@ == main_branch_name()),
        r.0 ==> r.1@ == "switched back to main"@,
        !r.0 ==> r.1@ == "switched to branch: "@ + name@,
{
    let to_main = crate::text::str_is(name, "_main");
    if to_main {
        (true, String::from_str("switched back to main"))
    } else {
        let mut m = String::from_str("switched to branch: ");
        m.append(name);
        (false, m)
    }
}

/// The report of dropping a branch.
pub fn dropped_message(name: &str) -> (r: String)
    ensures
        r@ == "branch dropped: "@ + name@,
{
    let mut m = String::from_str("branch dropped: ");
    m.append(name);
    m
}

} // verus!
