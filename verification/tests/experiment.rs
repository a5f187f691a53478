use cog::command::experiment_cmd::{
    committed_message, discarded_message, hypothesis_added_message, hypothesis_entity, staged_delete_message,
    staged_relation_message, start_description, started_message, try_intro, try_outro,
};
use cog::domain::assertion::AssertionKind;
use cog::domain::relations::EntityRelationKind;

const ID: &str = "12345678-90ab-cdef-1234-567890abcdef";

#[test]
fn start_reports_the_loaded_subgraph() {
    assert_eq!(start_description("app::core", None), "experiment on app::core");
    assert_eq!(start_description("app::core", Some("why".to_string())), "why");
    assert_eq!(
        started_message(ID, "app::core", 4, 2, 1),
        "experiment started: 12345678 (focus: app::core)\n\
         loaded 4 entities, 2 assertions\n\
         boundary: 1 entities\n\
         status: draft (unsaved)\n\
         use 'cog experiment save --id 12345678' to checkpoint"
    );
}

#[test]
fn hypothesis_messages() {
    assert_eq!(hypothesis_added_message(ID, 3), "hypothesis added to experiment 12345678 (3 ops total)");
    assert_eq!(
        staged_delete_message("app::old", ID),
        "staged hypothetical delete of entity app::old on experiment 12345678"
    );
    assert_eq!(
        staged_relation_message("a", "b", EntityRelationKind::Uses, "abc"),
        "staged hypothetical relation a -> b (uses) on experiment abc"
    );
}

#[test]
fn commit_and_discard_messages() {
    assert_eq!(
        committed_message(ID, 2, 1, &vec!["created a".to_string(), "skipped b".to_string()]),
        "experiment 12345678 committed\napplied: 2 ops, skipped: 1\n  created a\n  skipped b\n"
    );
    assert_eq!(committed_message(ID, 0, 0, &vec![]), "experiment 12345678 committed\napplied: 0 ops, skipped: 0\n");
    assert_eq!(discarded_message(ID), "experiment 12345678 discarded");
}

#[test]
fn try_report_frame() {
    assert_eq!(hypothesis_entity("app.core", "app::core", true), "app::core");
    assert_eq!(hypothesis_entity("app.new", "app.new", false), "app.new");
    assert_eq!(
        try_intro(ID, "app::core: pure", AssertionKind::Contract, "app::core", "pure", "app.core", true),
        "Experiment 12345678: \"app::core: pure\"\n\nHypothesis:\n  + [contract] app::core: \"pure\"\n\n"
    );
    let with_note = try_intro(ID, "d", AssertionKind::Intent, "app::new", "c", "app::new", false);
    assert!(with_note.ends_with(
        "Note: entity \"app::new\" does not exist in the model yet. Committing will create it as a provisional \
         entity (origin=experiment). Run `cog sync` after implementing the code to promote it.\n"
    ));
    assert_eq!(
        try_outro(ID),
        "\nNext: cog experiment commit 12345678  # or: cog experiment discard 12345678\n"
    );
}
