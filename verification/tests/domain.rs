use cog::domain::assertion::{short_id, AssertionKind, AssertionStatus};
use cog::domain::changelog::ChangelogAction;
use cog::domain::entity::{EntityKind, EntityOrigin};
use cog::domain::grounds::Grounds;
use cog::domain::ids::{AssertionId, EntityId, QualifiedName};
use cog::domain::relations::EntityRelationKind;
use std::str::FromStr;

#[test]
fn short_id_long_uuid() {
    assert_eq!(short_id("12345678-90ab-cdef-1234-567890abcdef"), "12345678");
}

#[test]
fn short_id_exact_8_chars() {
    assert_eq!(short_id("12345678"), "12345678");
}

#[test]
fn short_id_shorter_than_8() {
    assert_eq!(short_id("abc"), "abc");
}

#[test]
fn short_id_empty() {
    assert_eq!(short_id(""), "");
}

#[test]
fn kind_from_str_roundtrip() {
    for (variant, s) in [
        (AssertionKind::Contract, "contract"),
        (AssertionKind::Intent, "intent"),
        (AssertionKind::Invariant, "invariant"),
        (AssertionKind::Fragility, "fragility"),
        (AssertionKind::Correction, "correction"),
    ] {
        assert_eq!(<AssertionKind as FromStr>::from_str(s), Ok(variant));
        assert_eq!(variant.as_str(), s);
    }
}

#[test]
fn status_from_str_roundtrip() {
    for (variant, s) in [
        (AssertionStatus::Active, "active"),
        (AssertionStatus::Retracted, "retracted"),
        (AssertionStatus::Uncertain, "uncertain"),
    ] {
        assert_eq!(<AssertionStatus as FromStr>::from_str(s), Ok(variant));
        assert_eq!(variant.as_str(), s);
    }
}

#[test]
fn invalid_kind_and_status_are_rejected() {
    assert_eq!(AssertionKind::from_str("structure"), Err("invalid assertion kind"));
    assert_eq!(AssertionStatus::from_str("Active"), Err("invalid assertion status"));
    assert_eq!(EntityKind::from_str("class"), Err("invalid entity kind"));
    assert_eq!(EntityOrigin::from_str(""), Err("invalid entity origin"));
    assert_eq!(
        EntityRelationKind::from_str("depends_on"),
        Err("invalid entity relation kind")
    );
    assert_eq!(ChangelogAction::from_str("merge"), Err("invalid changelog action"));
}

#[test]
fn other_enums_roundtrip() {
    for k in [
        EntityKind::Module,
        EntityKind::Function,
        EntityKind::Type,
        EntityKind::Field,
        EntityKind::Method,
        EntityKind::Unknown,
    ] {
        assert_eq!(EntityKind::from_str(k.as_str()), Ok(k));
    }
    for o in [EntityOrigin::Manual, EntityOrigin::Scan, EntityOrigin::Experiment] {
        assert_eq!(EntityOrigin::from_str(o.as_str()), Ok(o));
    }
    for r in [
        EntityRelationKind::Contains,
        EntityRelationKind::Calls,
        EntityRelationKind::Uses,
    ] {
        assert_eq!(EntityRelationKind::from_str(r.as_str()), Ok(r));
    }
    for a in [
        ChangelogAction::Assert,
        ChangelogAction::Retract,
        ChangelogAction::CascadeMark,
        ChangelogAction::Depend,
        ChangelogAction::Verify,
        ChangelogAction::Sync,
        ChangelogAction::DeleteEntity,
        ChangelogAction::Migrate,
    ] {
        assert_eq!(ChangelogAction::from_str(a.as_str()), Ok(a));
    }
}

#[test]
fn infer_uppercase_is_type() {
    assert_eq!(EntityKind::infer("MyClass"), EntityKind::Type);
}

#[test]
fn infer_qualified_uppercase_is_type() {
    assert_eq!(
        EntityKind::infer("cog::repo::SqliteRepository"),
        EntityKind::Type
    );
}

#[test]
fn infer_qualified_lowercase_is_function() {
    assert_eq!(EntityKind::infer("cog::repo::open"), EntityKind::Function);
}

#[test]
fn infer_bare_lowercase_is_module() {
    assert_eq!(EntityKind::infer("utils"), EntityKind::Module);
}

#[test]
fn infer_empty_last_segment_is_function() {
    assert_eq!(EntityKind::infer("a::"), EntityKind::Function);
}

#[test]
fn parse_code_grounds() {
    let g = Grounds::parse("code:auth::login");
    assert_eq!(g.source, "code");
    assert_eq!(g.detail, "auth::login");
}

#[test]
fn parse_plan_grounds() {
    let g = Grounds::parse("plan:refactor");
    assert_eq!(g.source, "plan");
    assert_eq!(g.detail, "refactor");
}

#[test]
fn parse_no_colon_falls_back_to_note() {
    let g = Grounds::parse("just a note");
    assert_eq!(g.source, "note");
    assert_eq!(g.detail, "just a note");
}

#[test]
fn parse_empty_source_falls_back() {
    let g = Grounds::parse(":detail");
    assert_eq!(g.source, "note");
    assert_eq!(g.detail, ":detail");
}

#[test]
fn parse_empty_detail_falls_back() {
    let g = Grounds::parse("source:");
    assert_eq!(g.source, "note");
    assert_eq!(g.detail, "source:");
}

#[test]
fn parse_colon_in_detail() {
    let g = Grounds::parse("code:a::b::c");
    assert_eq!(g.source, "code");
    assert_eq!(g.detail, "a::b::c");
}

#[test]
fn validate_format_ok() {
    let g = Grounds::parse("code:x");
    assert!(g.validate_format().is_ok());
}

#[test]
fn validate_format_rejects_empty_parts() {
    let g = Grounds::parse("");
    assert_eq!(
        g.validate_format(),
        Err("grounds must have non-empty source and detail")
    );
}

#[test]
fn display_roundtrip() {
    let g = Grounds::parse("code:auth::login");
    assert_eq!(g.to_text(), "code:auth::login");
}

#[test]
fn display_of_fallback_prefixes_note() {
    assert_eq!(Grounds::parse("plain").to_text(), "note:plain");
}

#[test]
fn fresh_ids_are_uuids_and_short_is_their_prefix() {
    let e = EntityId::new();
    assert_eq!(e.0.len(), 36);
    assert_eq!(e.short(), &e.0[..8]);
    let a = AssertionId::new();
    assert_eq!(a.0.len(), 36);
    assert_eq!(a.short(), &a.0[..8]);
    assert_ne!(e.0, a.0);
}

#[test]
fn qualified_name_accessors() {
    let q = QualifiedName::new("cog::repo::sqlite::SqliteRepository".to_string());
    assert_eq!(q.last_segment(), "SqliteRepository");
    assert_eq!(q.parent(), Some("cog::repo::sqlite"));
    assert_eq!(q.segments(), vec!["cog", "repo", "sqlite", "SqliteRepository"]);
}

#[test]
fn short_id_counts_characters() {
    assert_eq!(short_id("ééééé"), "ééééé");
    assert_eq!(short_id("ééééééééé"), "éééééééé");
    assert_eq!(short_id("aéaéaéaéaé"), "aéaéaéaé");
}
