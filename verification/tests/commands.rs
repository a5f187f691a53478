use cog::command::init_cmd::{init_dry_run_report, init_report, no_sources_message};
use cog::analysis::extractors::calls::Definition;
use cog::analysis::languages::Language;
use cog::analysis::scan::{finish_scan, record_file, scan_report_of, scan_source, FileScan, ScanConfig, ScanReport};
use cog::command::assert_cmd::{
    check_replacement, enforce_kind_gate, format_replaced_message, replace_reason, KindDecision,
};
use cog::command::drift::{
    active_affected, collect_scanned_names, compute_fan_metrics, confirmed_deletions,
    plan_stale_deletion, stale_names,
};
use cog::command::export::snapshot_to_dot;
use cog::command::index_cmd::{build_coverage_summary, index_report, top_module};
use cog::command::output::CommandOutput;
use cog::command::recover::{plan_recovery, recover_report, uncertain_assertions};
use cog::command::sync_cmd::{
    build_report, dry_run_report, empty_scan_message, entities_created, plan_structure,
    sync_changelog_detail, PlannedRelation,
};
use cog::command::verify::{
    build_scan_diff_messages, check_assertion_issues, check_entity, entities_in_scope, scan_diff,
    verification_report,
};
use cog::domain::assertion::{Assertion, AssertionKind, AssertionStatus};
use cog::domain::entity::{Entity, EntityKind, EntityOrigin};
use cog::domain::evidence::Evidence;
use cog::domain::grounds::Grounds;
use cog::domain::metrics::EntityMetrics;
use cog::domain::relations::{AssertionRelation, AssertionRelationKind, EntityRelation, EntityRelationKind};
use cog::domain::report::{ModelSnapshot, VerificationIssueKind};
use cog::domain::time::Timestamp;

fn ts() -> Timestamp {
    Timestamp { secs: 0, nanos: 0 }
}

fn entity(id: &str, name: &str, kind: EntityKind, origin: EntityOrigin) -> Entity {
    Entity {
        id: id.to_string(),
        qualified_name: name.to_string(),
        kind,
        origin,
        metrics: EntityMetrics::empty(),
        created_at: ts(),
    }
}

fn assertion(id: &str, entity_id: &str, kind: AssertionKind, claim: &str, status: AssertionStatus) -> Assertion {
    Assertion {
        id: id.to_string(),
        entity_id: entity_id.to_string(),
        kind,
        claim: claim.to_string(),
        status,
        created_at: ts(),
        updated_at: ts(),
        retraction_reason: None,
    }
}

fn evidence(assertion_id: &str, grounds: &str) -> Evidence {
    let g = Grounds::parse(grounds);
    Evidence {
        id: "ev-1".to_string(),
        assertion_id: assertion_id.to_string(),
        source: g.source,
        detail: g.detail,
        created_at: ts(),
    }
}

/// Scans the given `(relative path, source)` files the way a walk does.
fn scan(files: &[(&str, &str)]) -> ScanReport {
    let mut scanned = Vec::new();
    for (path, source) in files {
        let lang = cog::analysis::languages::language_for_path(path).unwrap();
        scanned.push((lang, scan_source(path, lang, source).unwrap()));
    }
    scan_report_of(&ScanConfig { root: ".".to_string(), languages: None }, scanned)
}

fn names_of(v: &[String]) -> Vec<&str> {
    v.iter().map(|s| s.as_str()).collect()
}

fn relation_triples(v: &[PlannedRelation]) -> Vec<(String, String, EntityRelationKind)> {
    v.iter().map(|r| (r.from.clone(), r.to.clone(), r.kind)).collect()
}

/// The names a model holds after syncing `report` (what the store upserts).
fn synced_names(report: &ScanReport) -> Vec<String> {
    let plan = plan_structure(&report.file_scans, &report.definitions, &report.imports);
    let mut names: Vec<String> = Vec::new();
    names.extend(plan.dirs.iter().cloned());
    names.extend(plan.files.iter().cloned());
    names.extend(plan.definitions.iter().map(|(n, _)| n.clone()));
    names
}

// ── sync ──────────────────────────────────────────────────────────────────

#[test]
fn dry_run_reports_without_writing() {
    let report = scan(&[("src/main.rs", "fn hello() {}\n")]);
    let dry = dry_run_report(&report);
    let output = CommandOutput::success(format!("{:?}", dry.entity_counts_by_kind));
    assert_eq!(output.exit_code, 0);
    assert!(dry.dry_run);
    assert_eq!(dry.entities_created, 0);
    assert_eq!(dry.relations_created, 0);
    assert_eq!(dry.after_entities, 0);
    assert_eq!(dry.files_scanned, 1);
    assert_eq!(dry.entity_counts_by_kind, vec![("function".to_string(), 1)]);
}

#[test]
fn idempotent_rerun_does_not_duplicate_relations() {
    let report = scan(&[("src/main.rs", "fn hello() {}\n")]);
    let first = plan_structure(&report.file_scans, &report.definitions, &report.imports);
    let second = plan_structure(&report.file_scans, &report.definitions, &report.imports);
    assert_eq!(relation_triples(&first.relations), relation_triples(&second.relations));
    let mut seen = relation_triples(&first.relations);
    let n = seen.len();
    seen.sort_by(|a, b| (&a.0, &a.1).cmp(&(&b.0, &b.1)));
    seen.dedup();
    assert_eq!(seen.len(), n);
}

#[test]
fn stale_entity_with_assertions_is_not_auto_deleted() {
    let report = scan(&[("src/main.rs", "fn hello() {}\n")]);
    let scanned = collect_scanned_names(&report.definitions, &report.file_scans);
    let model = vec!["old::vanished_fn".to_string()];
    let stale = stale_names(&model, &scanned);
    assert_eq!(names_of(&stale), vec!["old::vanished_fn"]);
    let (to_delete, protected) = plan_stale_deletion(&stale, &vec![true]);
    assert!(to_delete.is_empty());
    assert_eq!(names_of(&protected), vec!["old::vanished_fn"]);
}

#[test]
fn stale_entity_without_assertions_is_removed() {
    let report = scan(&[("src/main.rs", "fn hello() {}\n")]);
    let scanned = collect_scanned_names(&report.definitions, &report.file_scans);
    let model = vec!["old::gone_fn".to_string()];
    let stale = stale_names(&model, &scanned);
    let (to_delete, protected) = plan_stale_deletion(&stale, &vec![false]);
    assert_eq!(names_of(&to_delete), vec!["old::gone_fn"]);
    assert!(protected.is_empty());
    let removed = confirmed_deletions(&to_delete, &vec![true]);
    assert_eq!(names_of(&removed), vec!["old::gone_fn"]);
}

#[test]
fn sync_plan_of_a_small_rust_tree() {
    let report = scan(&[
        ("src/auth/login.rs", "use crate::auth::token::Token;\nfn login() { check(); }\nfn check() {}\n"),
        ("src/auth/token.rs", "struct Token;\nfn issue() { check(); }\n"),
    ]);
    let plan = plan_structure(&report.file_scans, &report.definitions, &report.imports);
    assert_eq!(names_of(&plan.dirs), vec!["auth"]);
    assert_eq!(names_of(&plan.files), vec!["auth::login", "auth::token"]);
    let defs: Vec<&str> = plan.definitions.iter().map(|(n, _)| n.as_str()).collect();
    assert_eq!(
        defs,
        vec![
            "auth::login::login",
            "auth::login::check",
            "auth::token::Token",
            "auth::token::issue",
        ]
    );
    let rels = relation_triples(&plan.relations);
    assert!(rels.contains(&("auth".to_string(), "auth::login".to_string(), EntityRelationKind::Contains)));
    assert!(rels.contains(&("auth".to_string(), "auth::token".to_string(), EntityRelationKind::Contains)));
    assert!(rels.contains(&(
        "auth::login".to_string(),
        "auth::login::login".to_string(),
        EntityRelationKind::Contains
    )));
    // `check` resolves to the only definition named `check`; no self-calls.
    assert!(rels.contains(&(
        "auth::login::login".to_string(),
        "auth::login::check".to_string(),
        EntityRelationKind::Calls
    )));
    assert!(rels.contains(&(
        "auth::token::issue".to_string(),
        "auth::login::check".to_string(),
        EntityRelationKind::Calls
    )));
    assert_eq!(plan.calls_count, 2);
    assert_eq!(plan.contains_count + plan.uses_count + plan.calls_count, plan.relations.len());
}

#[test]
fn sync_report_counts_created_entities() {
    let report = scan(&[("src/main.rs", "fn hello() {}\n")]);
    let plan = plan_structure(&report.file_scans, &report.definitions, &report.imports);
    let r = build_report(&report, &plan, vec!["old::x".to_string()], vec![], vec![], vec![], 10, 12, 3);
    assert_eq!(r.entities_created, 3);
    assert_eq!(r.entities_removed, 1);
    assert!(r.has_drift);
    assert!(!r.dry_run);
    assert_eq!(r.entity_counts_by_kind, vec![("module".to_string(), 2)]);
    assert_eq!(entities_created(10, 4, 2), 0);
    assert_eq!(entities_created(5, 7, 0), 2);
    let quiet = build_report(&report, &plan, vec![], vec![], vec![], vec![], 4, 4, 0);
    assert!(!quiet.has_drift);
    assert_eq!(quiet.entities_created, 0);
}

#[test]
fn sync_messages() {
    assert_eq!(sync_changelog_detail(3, 1, 12), "created=3 removed=1 relations=12");
    assert_eq!(
        empty_scan_message(true, "/p", "/p/.cog/cog.db"),
        "No source files found at /p \u{2014} nothing to scan yet."
    );
    assert!(empty_scan_message(false, "/p", "/p/.cog/cog.db").starts_with("Model initialized at /p/.cog/cog.db.\n"));
}

#[test]
fn scanned_names_include_directories_on_the_path() {
    let report = scan(&[("src/auth/login.rs", "fn login() {}\n")]);
    let names = collect_scanned_names(&report.definitions, &report.file_scans);
    assert_eq!(names_of(&names), vec!["auth", "auth::login", "auth::login::login", "src"]);
}

#[test]
fn fan_metrics_count_relation_ends() {
    let a = entity("a", "m::a", EntityKind::Function, EntityOrigin::Scan);
    let b = entity("b", "m::b", EntityKind::Function, EntityOrigin::Scan);
    let c = entity("c", "m::c", EntityKind::Function, EntityOrigin::Scan);
    let rel = |from: &str, to: &str| EntityRelation {
        id: format!("{from}{to}"),
        from_entity: from.to_string(),
        to_entity: to.to_string(),
        kind: EntityRelationKind::Calls,
    };
    let updates = compute_fan_metrics(&vec![a, b, c], &vec![rel("a", "b"), rel("a", "c"), rel("c", "b")]);
    let got: Vec<(String, Option<u32>, Option<u32>)> =
        updates.iter().map(|(id, m)| (id.clone(), m.fan_in, m.fan_out)).collect();
    assert_eq!(
        got,
        vec![
            ("a".to_string(), Some(0), Some(2)),
            ("b".to_string(), Some(2), Some(0)),
            ("c".to_string(), Some(1), Some(1)),
        ]
    );
}

#[test]
fn affected_assertions_are_the_active_ones() {
    let a1 = assertion("a1", "e", AssertionKind::Contract, "x", AssertionStatus::Active);
    let a2 = assertion("a2", "e", AssertionKind::Intent, "y", AssertionStatus::Retracted);
    let out = active_affected("old::f", &vec![a1, a2]);
    assert_eq!(out.len(), 1);
    assert_eq!(out[0].0, "old::f");
    assert_eq!(out[0].1.id, "a1");
}

// ── verify ────────────────────────────────────────────────────────────────

#[test]
fn reports_isolated_entity_issue() {
    let e = entity("e1", "orphan", EntityKind::Module, EntityOrigin::Manual);
    let (issues, delete) = check_entity(&e, &vec![], 0, &vec![], &vec![], &vec!["orphan".to_string()], false);
    assert!(!delete);
    assert_eq!(issues.len(), 1);
    assert_eq!(issues[0].kind, VerificationIssueKind::IsolatedEntity);
    assert_eq!(issues[0].kind.as_str(), "IsolatedEntity");
    let (report, code) = verification_report(1, issues, 0, 0, &vec![], false);
    assert!(!report.success);
    assert_eq!(code, 1);
}

#[test]
fn passes_when_structure_is_consistent() {
    let login = entity("e1", "auth::login", EntityKind::Function, EntityOrigin::Manual);
    let module = entity("e2", "auth", EntityKind::Module, EntityOrigin::Scan);
    let a = assertion("a1-aaaaaaaa", "e1", AssertionKind::Contract, "returns token", AssertionStatus::Active);
    let model = vec!["auth::login".to_string(), "auth".to_string()];
    let scoped = entities_in_scope(&vec![login.clone(), module.clone()], "auth");
    assert_eq!(scoped.len(), 2);
    let ev = vec![vec![evidence("a1-aaaaaaaa", "code:auth::login")]];
    let (issues, _) = check_entity(&login, &vec![a], 1, &ev, &vec![vec![]], &model, false);
    assert!(issues.is_empty());
    let (issues2, _) = check_entity(&module, &vec![], 1, &vec![], &vec![], &model, false);
    assert!(issues2.is_empty());
    let (report, code) = verification_report(2, vec![], 0, 0, &vec![], false);
    assert!(report.success);
    assert_eq!(code, 0);
}

#[test]
fn scan_detects_stale_entity() {
    let before = scan(&[("src/main.rs", "fn hello() {}\n")]);
    let model = synced_names(&before);
    let scanned = collect_scanned_names(&before.definitions, &before.file_scans);
    let (stale, unmodeled) = scan_diff(&scanned, &model, "", &model);
    assert!(stale.is_empty());
    let (r, code) = verification_report(0, vec![], 0, unmodeled, &stale, false);
    assert_eq!(code, 0, "first verify should pass: {:?}", r.scan_issues);

    let after = scan(&[("src/main.rs", "")]);
    let scanned = collect_scanned_names(&after.definitions, &after.file_scans);
    let (stale, unmodeled) = scan_diff(&scanned, &model, "", &model);
    let (report, code) = verification_report(0, vec![], 0, unmodeled, &stale, false);
    assert_eq!(code, 1);
    assert!(report.scan_issues.iter().any(|l| l.contains("stale")));
}

#[test]
fn scan_detects_unmodeled_definitions() {
    let report = scan(&[("src/main.rs", "fn alpha() {}\nfn beta() {}\n")]);
    let scanned = collect_scanned_names(&report.definitions, &report.file_scans);
    let (stale, unmodeled) = scan_diff(&scanned, &vec![], "", &vec![]);
    let (r, code) = verification_report(0, vec![], 0, unmodeled, &stale, false);
    assert!(r.scan_issues.iter().any(|l| l.contains("unmodeled")));
    assert_eq!(code, 0);
}

#[test]
fn scan_clean_removes_stale_entities() {
    let before = scan(&[("src/main.rs", "fn hello() {}\n")]);
    let model = synced_names(&before);
    let after = scan(&[("src/main.rs", "")]);
    let scanned = collect_scanned_names(&after.definitions, &after.file_scans);
    let (stale, unmodeled) = scan_diff(&scanned, &model, "", &model);
    let (report, _) = verification_report(0, vec![], 0, unmodeled, &stale, true);
    assert!(
        report.scan_issues.iter().any(|l| l.contains("cleaned")),
        "expected 'cleaned' in: {:?}",
        report.scan_issues
    );
    assert!(report.success);
}

#[test]
fn scoped_scan_does_not_report_out_of_scope_as_unmodeled() {
    let before = scan(&[
        ("src/auth.rs", "fn login() {}\nfn logout() {}\n"),
        ("src/db.rs", "fn connect() {}\n"),
    ]);
    let model = synced_names(&before);
    let after = scan(&[("src/auth.rs", "fn login() {}\nfn logout() {}\n")]);
    let scanned = collect_scanned_names(&after.definitions, &after.file_scans);
    let (stale, unmodeled) = scan_diff(&scanned, &model, "auth", &model);
    let (report, _) = verification_report(0, vec![], 0, unmodeled, &stale, false);
    assert!(
        !report.scan_issues.iter().any(|l| l.contains("unmodeled")),
        "out-of-scope entities should not be reported as unmodeled: {:?}",
        report.scan_issues
    );
}

#[test]
fn reports_dangling_grounds_when_entity_missing() {
    let a = assertion(
        "a1-aaaaaaaa",
        "e1",
        AssertionKind::Contract,
        "delegates to validate_credentials",
        AssertionStatus::Active,
    );
    let ev = vec![evidence("a1-aaaaaaaa", "code:auth::validate_credentials")];
    let issues = check_assertion_issues("auth::login", &a, &ev, &vec![], &vec!["auth::login".to_string()]);
    assert_eq!(issues.len(), 1);
    assert_eq!(issues[0].kind, VerificationIssueKind::DanglingGrounds);
    assert!(issues[0].detail.contains("auth::validate_credentials"), "should name the missing entity");
    let (_, code) = verification_report(1, issues, 0, 0, &vec![], false);
    assert_eq!(code, 1);
}

#[test]
fn passes_when_code_grounds_reference_existing_entity() {
    let login = entity("e1", "auth::login", EntityKind::Function, EntityOrigin::Manual);
    let a = assertion("a1-aaaaaaaa", "e1", AssertionKind::Contract, "delegates", AssertionStatus::Active);
    let model = vec!["auth::login".to_string(), "auth::validate_credentials".to_string()];
    let ev = vec![vec![evidence("a1-aaaaaaaa", "code:auth::validate_credentials")]];
    let (issues, _) = check_entity(&login, &vec![a], 1, &ev, &vec![vec![]], &model, false);
    assert!(issues.is_empty());
    let (report, code) = verification_report(2, issues, 0, 0, &vec![], false);
    assert!(report.success);
    assert_eq!(code, 0);
}

#[test]
fn verify_reports_missing_evidence_and_weak_dependencies() {
    let a = assertion("a1-aaaaaaaa", "e1", AssertionKind::Contract, "c", AssertionStatus::Active);
    let d1 = assertion("d1-bbbbbbbbbb", "e2", AssertionKind::Contract, "x", AssertionStatus::Retracted);
    let d2 = assertion("d2-cccccccccc", "e2", AssertionKind::Contract, "y", AssertionStatus::Uncertain);
    let d3 = assertion("d3-dddddddddd", "e2", AssertionKind::Contract, "z", AssertionStatus::Active);
    let issues = check_assertion_issues("m::f", &a, &vec![], &vec![d1, d2, d3], &vec![]);
    let kinds: Vec<VerificationIssueKind> = issues.iter().map(|i| i.kind).collect();
    assert_eq!(
        kinds,
        vec![
            VerificationIssueKind::MissingEvidence,
            VerificationIssueKind::DependencyOnRetracted,
            VerificationIssueKind::DependencyOnUncertain,
        ]
    );
    assert_eq!(issues[1].detail, "depends on retracted assertion d1-bbbbb");
    assert_eq!(issues[2].detail, "depends on uncertain assertion d2-ccccc");
    assert_eq!(issues[0].assertion_id.as_deref(), Some("a1-aaaaaaaa"));
}

#[test]
fn verify_flags_orphan_manual_entity() {
    let e = entity("e1", "design::Lexer", EntityKind::Type, EntityOrigin::Manual);
    let a = assertion("a1-aaaaaaaa", "e1", AssertionKind::Intent, "tokenizes", AssertionStatus::Active);
    let ev = vec![vec![evidence("a1-aaaaaaaa", "plan:design.md")]];
    let (issues, delete) = check_entity(&e, &vec![a], 0, &ev, &vec![vec![]], &vec![], true);
    assert!(!delete);
    assert_eq!(issues.len(), 1);
    assert_eq!(issues[0].kind, VerificationIssueKind::OrphanManualEntity);
    assert_eq!(issues[0].detail, "Manual entity with 1 active assertion(s) but no relations");
}

#[test]
fn verify_cleans_isolated_entities() {
    let e = entity("e1", "orphan", EntityKind::Module, EntityOrigin::Scan);
    let (issues, delete) = check_entity(&e, &vec![], 0, &vec![], &vec![], &vec![], true);
    assert!(delete);
    let (report, code) = verification_report(1, issues, 1, 0, &vec![], true);
    assert!(report.success);
    assert_eq!(report.cleaned_count, 1);
    assert_eq!(code, 0);
}

#[test]
fn scan_diff_messages() {
    let stale = vec!["a::x".to_string(), "a::y".to_string()];
    assert_eq!(
        build_scan_diff_messages(3, &stale, false),
        vec![
            "Scan diff: 3 unmodeled definition(s) not in model (run cog init to add)".to_string(),
            "Scan diff: 2 stale auto-scanned entities no longer in code (run cog verify --scan --clean to remove)"
                .to_string(),
            "  - a::x".to_string(),
            "  - a::y".to_string(),
        ]
    );
    assert_eq!(
        build_scan_diff_messages(0, &vec!["a::x".to_string()], true),
        vec!["Scan diff: cleaned 1 stale auto-scanned entity".to_string()]
    );
    assert!(build_scan_diff_messages(0, &vec![], false).is_empty());
}

// ── assert ────────────────────────────────────────────────────────────────

#[test]
fn rejects_duplicate_kind_without_flag() {
    let e = entity("e1", "auth::login", EntityKind::Function, EntityOrigin::Manual);
    let existing = vec![assertion(
        "12345678-aaaa",
        "e1",
        AssertionKind::Contract,
        "returns token",
        AssertionStatus::Active,
    )];
    match enforce_kind_gate(&e, &existing, AssertionKind::Contract, false, false) {
        KindDecision::Blocked(text) => {
            let output = CommandOutput::with_exit_code(text, 1);
            assert_eq!(output.exit_code, 1);
            assert!(output.text.contains("already has 1 active contract assertion"));
            assert!(output.text.contains("--replace"));
            assert!(output.text.contains("  12345678: \"returns token\"\n"));
        }
        other => panic!("expected a block, got {other:?}"),
    }
}

#[test]
fn replace_retracts_old_creates_new() {
    let e = entity("e1", "auth::login", EntityKind::Function, EntityOrigin::Manual);
    let old = assertion("11111111-old", "e1", AssertionKind::Contract, "returns token", AssertionStatus::Active);
    let existing = vec![old.clone()];
    assert!(matches!(
        enforce_kind_gate(&e, &existing, AssertionKind::Contract, true, false),
        KindDecision::CheckReplacement
    ));
    assert_eq!(check_replacement("11111111", Some(&old), &e, AssertionKind::Contract), None);
    assert_eq!(replace_reason(AssertionKind::Contract), "replaced by newer contract assertion");
    let new = assertion(
        "22222222-new",
        "e1",
        AssertionKind::Contract,
        "returns token on success",
        AssertionStatus::Active,
    );
    let msg = format_replaced_message(&new, &e, &vec![old.id.clone()]);
    assert!(msg.contains("Auto-retracted"));
    assert_eq!(
        msg,
        "Created 22222222 [contract] on auth::login\n  \"returns token on success\"\n\nAuto-retracted 11111111 (replaced).\n"
    );
}

#[test]
fn force_allows_duplicate_kind() {
    let e = entity("e1", "auth::login", EntityKind::Function, EntityOrigin::Manual);
    let existing = vec![assertion(
        "11111111-old",
        "e1",
        AssertionKind::Fragility,
        "slow with large inputs",
        AssertionStatus::Active,
    )];
    assert!(matches!(
        enforce_kind_gate(&e, &existing, AssertionKind::Fragility, false, true),
        KindDecision::Proceed
    ));
}

#[test]
fn replacement_refusals() {
    let e = entity("e1", "auth::login", EntityKind::Function, EntityOrigin::Manual);
    let retracted = assertion("11111111", "e1", AssertionKind::Contract, "x", AssertionStatus::Retracted);
    let other_kind = assertion("22222222", "e1", AssertionKind::Intent, "x", AssertionStatus::Active);
    assert_eq!(
        check_replacement("abc", None, &e, AssertionKind::Contract).as_deref(),
        Some("assertion not found: abc")
    );
    assert_eq!(
        check_replacement("111", Some(&retracted), &e, AssertionKind::Contract).as_deref(),
        Some("assertion 111 is already retracted")
    );
    assert_eq!(
        check_replacement("222", Some(&other_kind), &e, AssertionKind::Contract).as_deref(),
        Some("assertion 222 is not a contract assertion on auth::login")
    );
}

// ── export, index, recover ────────────────────────────────────────────────

#[test]
fn exports_dot_snapshot() {
    let e = entity("e1", "auth::login", EntityKind::Function, EntityOrigin::Manual);
    let a = assertion("a1", "e1", AssertionKind::Contract, "returns \"token\"", AssertionStatus::Active);
    let snapshot = ModelSnapshot {
        entities: vec![e],
        assertions: vec![a],
        evidences: vec![],
        entity_relations: vec![],
        assertion_relations: vec![AssertionRelation {
            id: "r1".to_string(),
            from_assertion: "a1".to_string(),
            to_assertion: "a2".to_string(),
            kind: AssertionRelationKind::DependsOn,
        }],
        changelog: vec![],
    };
    let output = CommandOutput::success(snapshot_to_dot(&snapshot));
    assert_eq!(output.exit_code, 0);
    assert!(output.text.contains("digraph cognitive_model"));
    assert!(output.text.contains("has"));
    assert_eq!(
        output.text,
        "digraph cognitive_model {\n  rankdir=LR;\n  \"entity:e1\" [shape=box,label=\"auth::login\\nfunction\"];\n  \"assertion:a1\" [shape=ellipse,label=\"contract\\nreturns \\\"token\\\"\"];\n  \"entity:e1\" -> \"assertion:a1\" [label=\"has\"];\n  \"assertion:a1\" -> \"assertion:a2\" [label=\"depends_on\"];\n}\n"
    );
}

#[test]
fn summary_mode_is_default() {
    let mut hot = entity("e3", "db::connect", EntityKind::Function, EntityOrigin::Scan);
    hot.metrics.fan_out = Some(5);
    let all = vec![
        (entity("e1", "auth::login", EntityKind::Function, EntityOrigin::Scan), 0),
        (entity("e2", "auth::logout", EntityKind::Function, EntityOrigin::Scan), 2),
        (hot, 0),
        (entity("e4", "auth", EntityKind::Module, EntityOrigin::Scan), 0),
    ];
    let c = build_coverage_summary(&all);
    assert_eq!(c.total, 4);
    assert_eq!(c.covered, 1);
    let rows: Vec<(&str, usize, usize)> = c.modules.iter().map(|m| (m.path.as_str(), m.covered, m.total)).collect();
    assert_eq!(rows, vec![("auth", 1, 3), ("db", 0, 1)]);
    let top: Vec<(&str, usize)> = c.top_uncovered.iter().map(|t| (t.entity_name.as_str(), t.dependents)).collect();
    assert_eq!(top, vec![("db::connect", 5), ("auth::login", 0), ("auth", 0)]);
    assert_eq!(top_module("a::b::c"), "a");
    assert_eq!(top_module("plain"), "plain");
}

#[test]
fn recover_splits_recoverable_and_blocked() {
    let u1 = assertion("u1aaaaaaaa", "e", AssertionKind::Contract, "one", AssertionStatus::Uncertain);
    let u2 = assertion("u2bbbbbbbb", "e", AssertionKind::Intent, "two", AssertionStatus::Uncertain);
    let ok = assertion("d1", "e", AssertionKind::Contract, "dep", AssertionStatus::Active);
    let bad = assertion("d2", "e", AssertionKind::Contract, "dep", AssertionStatus::Retracted);
    let all = vec![u1.clone(), ok.clone(), u2.clone()];
    let uncertain = uncertain_assertions(&all);
    assert_eq!(uncertain.len(), 2);
    let (rec, blocked) = plan_recovery(&uncertain, &vec![vec![ok.clone()], vec![ok, bad]]);
    assert_eq!(rec.len(), 1);
    assert_eq!(rec[0].id, "u1aaaaaaaa");
    assert_eq!(blocked.len(), 1);
    assert_eq!(blocked[0].1, 1);
    let text = recover_report(&rec, &blocked, false);
    assert_eq!(
        text,
        "1 assertion(s) eligible for recovery:\n  [u1aaaaaa] contract \u{2014} \"one\"\n\nApply with: cog recover --apply\n\n1 uncertain assertion(s) still blocked:\n  [u2bbbbbb] intent \u{2014} \"two\" (1 inactive dep(s))\n"
    );
}

#[test]
fn scan_config_filters_languages() {
    let cfg = ScanConfig { root: ".".to_string(), languages: Some(vec![Language::Rust]) };
    assert!(cfg.allows(Language::Rust));
    assert!(!cfg.allows(Language::Python));
    let all = ScanConfig { root: ".".to_string(), languages: None };
    assert!(all.allows(Language::Go));
}

#[test]
fn scan_report_counts_languages_and_entities() {
    let report = scan(&[
        ("src/a.rs", "fn a() {}\n"),
        ("tools/b.py", "def b():\n    pass\n"),
        ("src/c.rs", "struct C;\n"),
    ]);
    assert_eq!(report.files_scanned, 3);
    assert_eq!(report.files_by_language, vec![("rust".to_string(), 2), ("python".to_string(), 1)]);
    assert_eq!(report.languages_detected, vec![Language::Python, Language::Rust]);
    assert_eq!(report.entities.len(), report.definitions.len());
    assert_eq!(report.entities[0].qualified_name, "a::a");
    assert_eq!(report.entities[0].origin, EntityOrigin::Scan);
    let fs: &FileScan = &report.file_scans[1];
    assert_eq!(fs.path, "tools/b.py");
    let d: &Definition = &report.definitions[1];
    assert_eq!(d.qualified_name, "tools::b::b");
}

#[test]
fn verbose_restores_full_listing() {
    let all = vec![(entity("e1", "auth::login", EntityKind::Function, EntityOrigin::Scan), 0)];
    let report = index_report(all, false, true, false);
    assert!(!report.summary_mode);
    assert!(report.coverage_summary.is_none());
    assert!(report.entities.iter().any(|(e, _)| e.qualified_name == "auth::login"));
}

#[test]
fn uncovered_filters_zero_assertions() {
    let all = vec![
        (entity("e1", "covered", EntityKind::Function, EntityOrigin::Manual), 1),
        (entity("e2", "bare", EntityKind::Function, EntityOrigin::Manual), 0),
    ];
    let report = index_report(all, false, false, true);
    let names: Vec<&str> = report.entities.iter().map(|(e, _)| e.qualified_name.as_str()).collect();
    assert!(names.contains(&"bare"));
    assert!(!names.contains(&"covered"));
}

#[test]
fn index_defaults_to_the_summary() {
    let all = vec![
        (entity("e1", "auth::login", EntityKind::Function, EntityOrigin::Scan), 0),
        (entity("e2", "auth::logout", EntityKind::Function, EntityOrigin::Scan), 1),
    ];
    let report = index_report(all, false, false, false);
    assert!(report.summary_mode);
    let c = report.coverage_summary.expect("summary");
    assert_eq!((c.covered, c.total), (1, 2));
    let filtered = index_report(
        vec![(entity("e1", "auth::login", EntityKind::Function, EntityOrigin::Scan), 0)],
        true,
        false,
        false,
    );
    assert!(!filtered.summary_mode);
}

#[test]
fn query_shows_active_assertions_unless_all() {
    let v = vec![
        assertion("a1", "e", AssertionKind::Contract, "one", AssertionStatus::Active),
        assertion("a2", "e", AssertionKind::Contract, "two", AssertionStatus::Retracted),
        assertion("a3", "e", AssertionKind::Intent, "three", AssertionStatus::Uncertain),
    ];
    let ids = |r: Vec<Assertion>| r.into_iter().map(|a| a.id).collect::<Vec<_>>();
    assert_eq!(ids(cog::command::query::visible_assertions(&v, false)), vec!["a1"]);
    assert_eq!(ids(cog::command::query::visible_assertions(&v, true)), vec!["a1", "a2", "a3"]);
    assert_eq!(ids(cog::command::retract::remaining_assertions(&v)), vec!["a1", "a3"]);
}

#[test]
fn related_counts_count_active_assertions_per_entity() {
    let v = vec![
        assertion("a1", "e2", AssertionKind::Contract, "x", AssertionStatus::Active),
        assertion("a2", "e1", AssertionKind::Contract, "x", AssertionStatus::Active),
        assertion("a3", "e2", AssertionKind::Contract, "x", AssertionStatus::Active),
        assertion("a4", "e3", AssertionKind::Contract, "x", AssertionStatus::Retracted),
    ];
    assert_eq!(
        cog::command::query::related_assertion_counts(&v),
        vec![("e2".to_string(), 2), ("e1".to_string(), 1)]
    );
}

#[test]
fn entity_deletion_reports() {
    let e = entity("e1", "app::old", EntityKind::Function, EntityOrigin::Manual);
    assert_eq!(
        cog::command::entity_cmd::deletion_report(&e, 2, 0),
        "deleting entity: app::old [function]\n  assertions: 2\nentity deleted"
    );
    assert_eq!(
        cog::command::entity_cmd::deletion_report(&e, 0, 3),
        "deleting entity: app::old [function]\n  relations: 3\nentity deleted"
    );
    let missing = cog::command::entity_cmd::entity_not_found("nope");
    assert_eq!((missing.text.as_str(), missing.exit_code), ("entity not found: nope", 1));
    assert_eq!(
        cog::command::entity_cmd::deletion_detail("app::old", 2, 3),
        "deleted entity app::old with 2 assertions, 3 relations"
    );
    assert_eq!(
        cog::command::depend::depend_detail("a", "b", EntityRelationKind::Uses),
        "from=a to=b kind=uses"
    );
}

#[test]
fn init_reports_count_what_was_planned() {
    let report = scan(&[
        ("src/auth/login.rs", "fn login() {}\nstruct Session;\n"),
        ("src/main.rs", "fn main() {}\n"),
    ]);
    let plan = plan_structure(&report.file_scans, &report.definitions, &report.imports);
    let r = init_report(&report, &plan);
    assert!(!r.dry_run);
    assert_eq!(r.files_scanned, 2);
    assert_eq!(r.entities_created, plan.dirs.len() + plan.files.len() + report.definitions.len());
    assert_eq!(r.relations_created, plan.contains_count + plan.uses_count);
    let modules = plan.dirs.len() + plan.files.len();
    assert_eq!(
        r.entity_counts_by_kind,
        vec![("module".to_string(), modules), ("type".to_string(), 1), ("function".to_string(), 2)]
    );
    let d = init_dry_run_report(&report);
    assert!(d.dry_run);
    assert_eq!((d.entities_created, d.relations_created), (0, 0));
    assert_eq!(no_sources_message("/p"), "No source files found at /p");
}

#[test]
fn whole_scan_equals_file_by_file_recording() {
    let files = [("src/a.rs", "fn a() {}\n"), ("tools/b.py", "def b():\n    pass\n")];
    let whole = scan(&files);
    let mut report = ScanReport::new();
    for (path, source) in files {
        let lang = cog::analysis::languages::language_for_path(path).unwrap();
        record_file(&mut report, lang, scan_source(path, lang, source).unwrap());
    }
    finish_scan(&mut report);
    assert_eq!(whole.files_scanned, report.files_scanned);
    assert_eq!(whole.files_by_language, report.files_by_language);
    assert_eq!(whole.languages_detected, report.languages_detected);
    let names = |r: &ScanReport| r.entities.iter().map(|e| e.qualified_name.clone()).collect::<Vec<_>>();
    assert_eq!(names(&whole), names(&report));
    assert_eq!(names(&whole), vec!["a::a".to_string(), "tools::b::b".to_string()]);
}

#[test]
fn whole_scan_keeps_only_allowed_languages() {
    let files = [("src/a.rs", "fn a() {}\n"), ("tools/b.py", "def b():\n    pass\n"), ("src/c.rs", "struct C;\n")];
    let mut scanned = Vec::new();
    for (path, source) in files {
        let lang = cog::analysis::languages::language_for_path(path).unwrap();
        scanned.push((lang, scan_source(path, lang, source).unwrap()));
    }
    let config = ScanConfig { root: ".".to_string(), languages: Some(vec![Language::Rust]) };
    let report = scan_report_of(&config, scanned);
    assert_eq!(report.files_scanned, 2);
    assert_eq!(report.files_by_language, vec![("rust".to_string(), 2)]);
    assert_eq!(report.languages_detected, vec![Language::Rust]);
    let total: usize = report.files_by_language.iter().map(|(_, n)| n).sum();
    assert_eq!(total, report.files_scanned);
}
