use cog::command::branch_cmd::{
    branch_created_message, branch_name, check_item_index, dropped_message, lookups, merge_all_message,
    merge_item_message, merge_step, reject_message, step_merged, switch_plan, AssertionChange, DiffItem, Lookup,
    MergeStep, RetractCause,
};
use cog::domain::assertion::{Assertion, AssertionKind, AssertionStatus};
use cog::domain::entity::{Entity, EntityKind, EntityOrigin};
use cog::domain::metrics::EntityMetrics;
use cog::domain::relations::{AssertionRelation, AssertionRelationKind, EntityRelation, EntityRelationKind};
use cog::domain::time::Timestamp;

fn ts() -> Timestamp {
    Timestamp { secs: 0, nanos: 0 }
}

fn entity(id: &str) -> Entity {
    Entity {
        id: id.to_string(),
        qualified_name: "app::core".to_string(),
        kind: EntityKind::Module,
        origin: EntityOrigin::Manual,
        metrics: EntityMetrics::empty(),
        created_at: ts(),
    }
}

fn assertion(id: &str, entity_id: &str, status: AssertionStatus) -> Assertion {
    Assertion {
        id: id.to_string(),
        entity_id: entity_id.to_string(),
        kind: AssertionKind::Intent,
        claim: "does things".to_string(),
        status,
        created_at: ts(),
        updated_at: ts(),
        retraction_reason: None,
    }
}

#[test]
fn added_entity_is_inserted_with_its_id() {
    let item = DiffItem::EntityAdded(entity("e-1"));
    assert!(lookups(&item).is_empty());
    match merge_step(item, &vec![]) {
        MergeStep::InsertEntity(e) => assert_eq!(e.id, "e-1"),
        other => panic!("unexpected step {:?}", other),
    }
}

#[test]
fn entity_removal_is_skipped() {
    let step = merge_step(DiffItem::EntityRemoved(entity("e-1")), &vec![]);
    assert!(matches!(step, MergeStep::Skip));
    assert!(!step_merged(&step, true));
}

#[test]
fn added_assertion_needs_its_entity() {
    let item = DiffItem::AssertionAdded(assertion("a-1", "e-9", AssertionStatus::Active));
    assert_eq!(lookups(&item), vec![Lookup::Entity("e-9".to_string())]);
    assert!(matches!(merge_step(item, &vec![false]), MergeStep::Skip));
    let item = DiffItem::AssertionAdded(assertion("a-1", "e-9", AssertionStatus::Active));
    let step = merge_step(item, &vec![true]);
    assert!(matches!(step, MergeStep::InsertAssertion(_)));
    assert!(step_merged(&step, true));
    assert!(!step_merged(&step, false));
}

#[test]
fn removed_assertion_is_retracted_when_present() {
    let item = DiffItem::AssertionRemoved(assertion("a-1", "e-1", AssertionStatus::Active));
    assert_eq!(lookups(&item), vec![Lookup::Assertion("a-1".to_string())]);
    match merge_step(item, &vec![true]) {
        MergeStep::Retract { id, cause } => {
            assert_eq!(id, "a-1");
            assert_eq!(cause, RetractCause::RemovedInBranch);
            assert_eq!(cause.reason(), "merged: removed in branch");
        }
        other => panic!("unexpected step {:?}", other),
    }
    let gone = DiffItem::AssertionRemoved(assertion("a-1", "e-1", AssertionStatus::Active));
    let step = merge_step(gone, &vec![false]);
    assert!(matches!(step, MergeStep::Done));
    assert!(step_merged(&step, false));
}

#[test]
fn status_change_is_applied() {
    let change = |after: AssertionStatus| {
        DiffItem::AssertionChanged(AssertionChange {
            before: assertion("a-1", "e-1", AssertionStatus::Active),
            after: assertion("a-1", "e-1", after),
        })
    };
    match merge_step(change(AssertionStatus::Retracted), &vec![true]) {
        MergeStep::Retract { id, cause } => {
            assert_eq!(id, "a-1");
            assert_eq!(cause.reason(), "merged: status change from branch");
        }
        other => panic!("unexpected step {:?}", other),
    }
    match merge_step(change(AssertionStatus::Uncertain), &vec![true]) {
        MergeStep::SetStatus { id, status } => {
            assert_eq!(id, "a-1");
            assert_eq!(status, AssertionStatus::Uncertain);
        }
        other => panic!("unexpected step {:?}", other),
    }
    assert!(matches!(merge_step(change(AssertionStatus::Active), &vec![true]), MergeStep::Done));
    assert!(matches!(merge_step(change(AssertionStatus::Uncertain), &vec![false]), MergeStep::Done));
}

#[test]
fn relations_need_both_ends() {
    let rel = || {
        DiffItem::EntityRelationAdded(EntityRelation {
            id: "r-1".to_string(),
            from_entity: "e-1".to_string(),
            to_entity: "e-2".to_string(),
            kind: EntityRelationKind::Calls,
        })
    };
    assert_eq!(
        lookups(&rel()),
        vec![Lookup::Entity("e-1".to_string()), Lookup::Entity("e-2".to_string())]
    );
    assert!(matches!(merge_step(rel(), &vec![true, false]), MergeStep::Skip));
    match merge_step(rel(), &vec![true, true]) {
        MergeStep::AddEntityRelation { from, to, kind } => {
            assert_eq!((from.as_str(), to.as_str(), kind), ("e-1", "e-2", EntityRelationKind::Calls));
        }
        other => panic!("unexpected step {:?}", other),
    }
    let dep = DiffItem::AssertionRelationAdded(AssertionRelation {
        id: "d-1".to_string(),
        from_assertion: "a-1".to_string(),
        to_assertion: "a-2".to_string(),
        kind: AssertionRelationKind::DependsOn,
    });
    match merge_step(dep, &vec![true, true]) {
        MergeStep::AddAssertionDependency { from, to } => assert_eq!((from.as_str(), to.as_str()), ("a-1", "a-2")),
        other => panic!("unexpected step {:?}", other),
    }
}

#[test]
fn merge_messages() {
    assert_eq!(merge_all_message(&vec![true, false, true]), "merge: applied 2, skipped 1");
    assert_eq!(merge_all_message(&vec![]), "merge: applied 0, skipped 0");
    assert_eq!(merge_item_message(3, true), "merge: applied item [3]");
    assert_eq!(
        merge_item_message(0, false),
        "merge: item [0] skipped (entity removal requires manual handling)"
    );
    assert_eq!(reject_message(12), "merge: rejected item [12]");
    assert_eq!(check_item_index(2, 3), Ok(()));
    assert_eq!(check_item_index(3, 3), Err("item index 3 out of range (0..3)".to_string()));
}

#[test]
fn branch_lifecycle_messages() {
    assert_eq!(branch_created_message("exp", 5000), "branch created: exp (4KB)");
    assert_eq!(branch_name(Some("exp".to_string())), "exp");
    let auto = branch_name(None);
    assert!(auto.starts_with("branch_"));
    assert_eq!(auto.len(), "branch_".len() + 15);
    assert_eq!(switch_plan("_main"), (true, "switched back to main".to_string()));
    assert_eq!(switch_plan("exp"), (false, "switched to branch: exp".to_string()));
    assert_eq!(dropped_message("exp"), "branch dropped: exp");
}
