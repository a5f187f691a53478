use cog::command::next_cmd::{active_experiment_of, active_experiments_of, experiment_file_readable};
use cog::cli::{phase_change, workflow_transition, MigrateArgs, QueryArgs, Transition, UsageArgs};
use cog::domain::time::{compact_stamp, CivilTime};
use cog::command::next_cmd::sort_active_experiments;
use cog::domain::report::ActiveExperiment;
use cog::domain::time::Timestamp;
use cog::domain::metrics::Visibility;
use cog::analysis::scan::{qualified_name_from_path, should_skip_dir};
use cog::backup::{backup_name, backup_names, list_message, BackupManager};
use cog::cli::{
    BackupAction, Cli, Commands, ExperimentAction, NextArgs, OutputFormat, SyncArgs, VerifyArgs,
    parse_languages,
};
use cog::command::experiment_cmd::{generate_scout_suggestions, TryArgs};
use cog::command::migrate_cmd::{migrate_detail, migrate_message, same_entity_refusal, same_name_refusal};
use cog::command::next_cmd::{
    action_kind_label, experiment_status_label, model_summary, split_suggestions, ActionKind,
    SuggestedAction,
};
use cog::command::output::CommandOutput;
use cog::domain::assertion::AssertionKind;
use cog::domain::display::{entities_word, partition_by_assertion, plural_s, MAX_ASSERTED};
use cog::domain::entity::{Entity, EntityKind};
use cog::domain::metrics::EntityMetrics;
use cog::domain::report::{
    ExportFormat, ModelStats, ScoutAction, VerificationIssue, VerificationIssueKind,
};
use cog::analysis::languages::Language;
use cog::text::usize_text;

fn scanned(name: &str) -> Entity {
    Entity::from_scan(name.to_string(), EntityKind::Function, EntityMetrics::empty())
}

#[test]
fn partition_keeps_order_and_splits_on_count() {
    let items = vec![(scanned("a"), 2), (scanned("b"), 0), (scanned("c"), 1), (scanned("d"), 0)];
    let (asserted, blind) = partition_by_assertion(items);
    let a: Vec<(&str, usize)> = asserted.iter().map(|x| (x.entity.qualified_name.as_str(), x.active_assertions)).collect();
    let b: Vec<&str> = blind.iter().map(|x| x.entity.qualified_name.as_str()).collect();
    assert_eq!(a, vec![("a", 2), ("c", 1)]);
    assert_eq!(b, vec!["b", "d"]);
    assert!(asserted[0].is_asserted());
    assert!(!blind[0].is_asserted());
    assert_eq!(MAX_ASSERTED, 15);
}

#[test]
fn pluralisation_helpers() {
    assert_eq!(plural_s(1), "");
    assert_eq!(plural_s(0), "s");
    assert_eq!(plural_s(2), "s");
    assert_eq!(entities_word(1), "entity");
    assert_eq!(entities_word(3), "entities");
}

#[test]
fn report_types() {
    let issue = VerificationIssue::new(VerificationIssueKind::MissingEvidence, "m::f", Some("a1"), "d".to_string());
    assert_eq!(issue.entity_name.as_deref(), Some("m::f"));
    assert_eq!(issue.assertion_id.as_deref(), Some("a1"));
    assert_eq!(issue.detail, "d");
    let none = VerificationIssue::new(VerificationIssueKind::IsolatedEntity, "m", None, String::new());
    assert_eq!(none.assertion_id, None);
    assert_eq!(ExportFormat::Dot.as_str(), "dot");
    assert_eq!(ExportFormat::parse("toml"), Some(ExportFormat::Toml));
    assert_eq!(ExportFormat::parse("yaml"), None);
    let stats = ModelStats::default();
    assert_eq!(stats.entities, 0);
    assert_eq!(stats.covered_entities, 0);
}

#[test]
fn cli_db_path_and_sync_init() {
    let cli = Cli {
        db: Some("x/cog.db".to_string()),
        output: OutputFormat::Text,
        command: Commands::Sync(SyncArgs { init: true, dry_run: false, lang: Some("python, rust ,cobol".to_string()) }),
    };
    assert!(cli.is_sync_init());
    assert_eq!(cli.command_name(), "sync");
    let found = vec![("/w/.cog/cog.db".to_string(), false), ("/.cog/cog.db".to_string(), true)];
    assert_eq!(cli.db_path(true, &vec![]), "x/cog.db");
    assert_eq!(cli.db_path(false, &found), "x/cog.db");
    assert_eq!(cli.find_existing_db(false, &found), None);
    assert_eq!(cli.find_existing_db(true, &vec![]), Some("x/cog.db".to_string()));
    let bare = Cli { db: None, output: OutputFormat::Json, command: Commands::Next(NextArgs) };
    assert!(!bare.is_sync_init());
    assert_eq!(bare.db_path(false, &vec![]), ".cog/cog.db");
    assert_eq!(bare.db_path(false, &found), "/.cog/cog.db");
    assert_eq!(bare.find_existing_db(false, &found), Some("/.cog/cog.db".to_string()));
    assert_eq!(bare.find_existing_db(false, &vec![("/w/.cog/cog.db".to_string(), false)]), None);
    assert_eq!(bare.init_db_path("/work"), "/work/.cog/cog.db");
    assert_eq!(cli.init_db_path("/work"), "x/cog.db");
    assert_eq!(bare.command_name(), "next");
    if let Commands::Sync(args) = &cli.command {
        let names = args.languages().unwrap();
        assert_eq!(names, vec!["python", "rust", "cobol"]);
        assert_eq!(parse_languages(&names), vec![Language::Python, Language::Rust]);
    }
}

#[test]
fn cli_variant_names_and_scan_root() {
    assert_eq!(ExperimentAction::Commit { id: "x".to_string() }.variant_name(), "commit");
    assert_eq!(
        ExperimentAction::HypotheticalDelete { id: "x".to_string(), entity: "e".to_string() }.variant_name(),
        "hypotheticaldelete"
    );
    assert_eq!(ExperimentAction::List.variant_name(), "list");
    assert_eq!(BackupAction::Restore { name: "b".to_string() }.variant_name(), "restore");
    let v = VerifyArgs { scope: None, clean: false, scan: true, scan_path: None };
    assert_eq!(v.scan_root(), Some(".".to_string()));
    let off = VerifyArgs { scope: None, clean: false, scan: false, scan_path: Some("p".to_string()) };
    assert_eq!(off.scan_root(), None);
}

#[test]
fn backup_paths_and_names() {
    let mgr = BackupManager::new(".cog/cog.db");
    assert_eq!(mgr.backup_dir(), ".cog/backups");
    assert_eq!(mgr.backup_path("b1"), ".cog/backups/b1.db");
    assert_eq!(BackupManager::new("cog.db").backup_dir(), "backups");
    assert_eq!(BackupManager::new("/cog.db").backup_dir(), "/backups");
    assert_eq!(BackupManager::new("").backup_dir(), "./backups");
    let files = vec!["z.db".to_string(), "notes.txt".to_string(), "a.db".to_string(), ".db".to_string()];
    assert_eq!(backup_names(&files), vec!["a".to_string(), "z".to_string()]);
    assert_eq!(list_message(&vec![]), "no backups found");
    assert_eq!(list_message(&vec!["a".to_string(), "z".to_string()]), "backups:\n  a\n  z\n");
    assert_eq!(backup_name(None, "20240101-120000"), "backup-20240101-120000");
    assert_eq!(backup_name(Some("mine".to_string()), "x"), "mine");
}

#[test]
fn next_suggestions_and_labels() {
    let actions = vec![
        SuggestedAction {
            action: ActionKind::VerifyConsistency,
            description: "check".to_string(),
            example_command: "cog verify".to_string(),
        },
        SuggestedAction {
            action: ActionKind::SyncModel,
            description: "code drifted".to_string(),
            example_command: "cog sync".to_string(),
        },
    ];
    let (suggestions, warning) = split_suggestions(&actions);
    assert_eq!(suggestions.len(), 1);
    assert_eq!(suggestions[0].kind, "verify");
    assert_eq!(suggestions[0].next_command, "cog verify");
    assert_eq!(warning.as_deref(), Some("WARNING: code drifted\n  Next: cog sync"));
    assert_eq!(action_kind_label(&ActionKind::ImplementPlanned), "descent");
    assert_eq!(action_kind_label(&ActionKind::InitProject), "init");
    assert_eq!(experiment_status_label("Open"), Some("draft"));
    assert_eq!(experiment_status_label("Evaluated"), Some("evaluated"));
    assert_eq!(experiment_status_label("Committed"), None);
    let mut stats = ModelStats::default();
    stats.entities = 4;
    stats.retracted_assertions = 1;
    let m = model_summary(&stats);
    assert_eq!((m.entities, m.retracted), (4, 1));
}

#[test]
fn experiment_helpers() {
    let args = TryArgs {
        entity: "auth::login".to_string(),
        kind: AssertionKind::Contract,
        claim: "returns token".to_string(),
        grounds: "code:auth::login".to_string(),
        desc: None,
        depends_on: None,
        cog_dir: ".cog".to_string(),
    };
    assert_eq!(args.description(), "auth::login: returns token");
    let scouts = generate_scout_suggestions(&vec!["m::f".to_string()]);
    assert_eq!(scouts.len(), 1);
    assert_eq!(scouts[0].entity_name, "m::f");
    assert_eq!(scouts[0].entity_kind, "entity");
    assert_eq!(scouts[0].reason, "blind (no assertions)");
    assert_eq!(scouts[0].action, ScoutAction::Assert);
}

#[test]
fn migrate_messages() {
    assert_eq!(same_name_refusal("a", "a").as_deref(), Some("source and target are the same: a"));
    assert_eq!(same_name_refusal("a", "b"), None);
    assert_eq!(
        same_entity_refusal("a", "id1", "id1").as_deref(),
        Some("source and target resolve to the same entity: a")
    );
    assert_eq!(
        migrate_detail("x::A", "src::x::A", 2, 3),
        "migrated x::A -> src::x::A (2 assertions, 3 relations); source deleted"
    );
    assert_eq!(
        migrate_message("x::A", "src::x::A", 2, 3),
        "Migrated 2 assertion(s) and 3 relation(s):\n  x::A -> src::x::A\nSource entity deleted.\nNext: cog query src::x::A"
    );
}

#[test]
fn output_constructors_and_numbers() {
    let ok = CommandOutput::success("done".to_string());
    assert_eq!((ok.exit_code, ok.has_drift, ok.metrics.is_none()), (0, false, true));
    let bad = CommandOutput::with_exit_code("no".to_string(), 2);
    assert_eq!(bad.exit_code, 2);
    assert_eq!(usize_text(0), "0");
    assert_eq!(usize_text(1907), "1907");
}

#[test]
fn scan_helpers() {
    assert!(should_skip_dir(".git"));
    assert!(should_skip_dir("node_modules"));
    assert!(should_skip_dir("target"));
    assert!(!should_skip_dir("src"));
    assert_eq!(qualified_name_from_path("auth/login.rs"), "auth::login");
    assert_eq!(qualified_name_from_path("src/pkg/mod.py"), "pkg::mod");
    assert_eq!(qualified_name_from_path("Makefile"), "Makefile");
    assert_eq!(qualified_name_from_path("a/.hidden"), "a::.hidden");
}

#[test]
fn active_experiments_most_recent_first() {
    let exp = |id: &str, t: Option<i64>| ActiveExperiment {
        short_id: id.to_string(),
        description: String::new(),
        status: "draft".to_string(),
        mtime: t.map(|secs| Timestamp { secs, nanos: 0 }),
    };
    let sorted = sort_active_experiments(vec![
        exp("old", Some(10)),
        exp("unknown", None),
        exp("new", Some(30)),
        exp("mid", Some(20)),
        exp("mid2", Some(20)),
    ]);
    let ids: Vec<&str> = sorted.iter().map(|e| e.short_id.as_str()).collect();
    assert_eq!(ids, vec!["new", "mid", "mid2", "old", "unknown"]);
}

#[test]
fn visibility_is_public() {
    assert!(Visibility::Public.is_public());
    assert!(!Visibility::Private.is_public());
}

#[test]
fn backup_reports() {
    assert_eq!(cog::backup::new_backup_name(Some("pre".to_string())), "pre");
    let auto = cog::backup::new_backup_name(None);
    assert!(auto.starts_with("backup-"));
    assert_eq!(auto.len(), "backup-".len() + 15);
    assert_eq!(cog::backup::created_message("pre", "/d/pre.db"), "backup created: pre (/d/pre.db)");
    assert_eq!(cog::backup::restored_message("pre"), "restored from backup: pre");
    assert_eq!(cog::backup::deleted_message("pre"), "deleted backup: pre");
}

#[test]
fn workflow_transitions_follow_the_command() {
    let query = Commands::Query(QueryArgs { entity: "a".to_string(), all: false, compact: false, relations: false });
    assert_eq!(workflow_transition(&query, true, 0, false, false, true), Transition::Explore);
    assert_eq!(workflow_transition(&query, false, 0, false, false, true), Transition::Keep);
    let migrate = Commands::Migrate(MigrateArgs { from: "a".to_string(), to: "b".to_string() });
    assert_eq!(workflow_transition(&migrate, true, 0, false, false, true), Transition::Explore);
    let verify = Commands::Verify(VerifyArgs { scope: None, clean: false, scan: false, scan_path: None });
    assert_eq!(workflow_transition(&verify, true, 1, false, false, true), Transition::Verify(false));
    assert_eq!(workflow_transition(&verify, true, 0, false, false, true), Transition::Verify(true));
    let sync = |dry_run: bool| Commands::Sync(SyncArgs { init: false, dry_run, lang: None });
    assert_eq!(workflow_transition(&sync(false), true, 0, false, true, false), Transition::Init);
    assert_eq!(workflow_transition(&sync(false), true, 0, true, false, true), Transition::Sync(true));
    assert_eq!(workflow_transition(&sync(true), true, 0, true, false, true), Transition::Keep);
    assert_eq!(workflow_transition(&sync(false), true, 1, true, false, true), Transition::Keep);
    assert_eq!(workflow_transition(&Commands::Recover { apply: true }, true, 0, false, false, true), Transition::Explore);
    assert_eq!(workflow_transition(&Commands::Recover { apply: false }, true, 0, false, false, true), Transition::Keep);
    let commit = || Commands::Experiment { action: ExperimentAction::Commit { id: "x".to_string() } };
    assert_eq!(workflow_transition(&commit(), true, 0, false, false, true), Transition::PendingImplement);
    assert_eq!(workflow_transition(&commit(), true, 0, false, true, false), Transition::Keep);
    let usage = Commands::Usage(UsageArgs { raw: true });
    assert_eq!(workflow_transition(&usage, true, 0, false, false, true), Transition::Keep);
    assert_eq!(Cli { db: None, output: OutputFormat::Text, command: usage }.command_name(), "usage");
    assert_eq!(Cli { db: None, output: OutputFormat::Text, command: migrate }.command_name(), "migrate");
    assert_eq!(phase_change("exploring", "exploring"), (None, None));
    assert_eq!(
        phase_change("fresh_scan", "exploring"),
        (Some("fresh_scan".to_string()), Some("exploring".to_string()))
    );
}

#[test]
fn compact_stamps_are_zero_padded() {
    let t = CivilTime { year: 2024, month: 3, day: 7, hour: 9, minute: 5, second: 59, nanosecond: 1_500_000_000 };
    assert_eq!(compact_stamp(&t, "_"), "20240307_090560");
    assert_eq!(compact_stamp(&t, "-"), "20240307-090560");
    let early = CivilTime { year: 42, month: 12, day: 31, hour: 23, minute: 59, second: 0, nanosecond: 999_999_999 };
    assert_eq!(compact_stamp(&early, "-"), "00421231-235900");
    let far = CivilTime { year: 12345, month: 1, day: 1, hour: 0, minute: 0, second: 0, nanosecond: 999_999_999 };
    assert_eq!(compact_stamp(&far, "_"), "+123450101_000000");
    let before = CivilTime { year: -7, month: 1, day: 1, hour: 0, minute: 0, second: 0, nanosecond: 999_999_999 };
    assert_eq!(compact_stamp(&before, "_"), "-00070101_000000");
}

#[test]
fn active_experiments_are_read_from_their_files() {
    let open = r#"{
  "id": "0123456789abcdef",
  "description": "what if",
  "status": "Open"
}"#;
    let evaluated = r#"{"id": "abc", "description": "second", "status":   "Evaluated"}"#;
    let committed = r#"{"id": "zzzzzzzzzz", "description": "done", "status": "Committed"}"#;
    let no_id = r#"{"status": "Open"}"#;
    assert!(experiment_file_readable(open));
    let e = active_experiment_of(open, Some(100)).unwrap();
    assert_eq!(
        (e.short_id.as_str(), e.description.as_str(), e.status.as_str()),
        ("01234567", "what if", "draft")
    );
    assert_eq!(e.mtime, Some(Timestamp { secs: 100, nanos: 0 }));
    let e = active_experiment_of(evaluated, None).unwrap();
    assert_eq!((e.short_id.as_str(), e.status.as_str(), e.mtime), ("abc", "evaluated", None));
    assert!(active_experiment_of(committed, Some(5)).is_none());
    let e = active_experiment_of(no_id, None).unwrap();
    assert_eq!((e.short_id.as_str(), e.description.as_str()), ("unknown", ""));
    assert!(!experiment_file_readable(r#"{"status": "Open", "description":"#));
    let all = active_experiments_of(vec![
        (open.to_string(), Some(100)),
        (committed.to_string(), Some(300)),
        (evaluated.to_string(), Some(200)),
        (no_id.to_string(), None),
    ]);
    let ids: Vec<&str> = all.iter().map(|e| e.short_id.as_str()).collect();
    assert_eq!(ids, vec!["abc", "01234567", "unknown"]);
}
