//! Statistics and the report types the commands produce.
//!
//! Maps keyed by a name are held as vectors of `(name, count)` pairs in which
//! no name occurs twice.

use vstd::prelude::*;
use crate::domain::assertion::Assertion;
use crate::domain::changelog::ChangelogEntry;
use crate::domain::entity::Entity;
use crate::domain::evidence::Evidence;
use crate::domain::relations::{AssertionRelation, EntityRelation, RelatedEntity};
use crate::domain::time::Timestamp;
use crate::analysis::extractors::calls::opt_view;
use crate::text::str_is;

verus! {

/// Counts over the whole model.
#[derive(Debug, Clone, Copy, PartialEq, Eq, Structural)]
pub struct ModelStats {
    pub entities: u64,
    pub assertions: u64,
    pub active_assertions: u64,
    pub uncertain_assertions: u64,
    pub retracted_assertions: u64,
    pub evidences: u64,
    pub corrections: u64,
    pub covered_entities: u64,
}

impl Default for ModelStats {
    fn default() -> (r: ModelStats)
        ensures
            r == (ModelStats {
                entities: 0,
                assertions: 0,
                active_assertions: 0,
                uncertain_assertions: 0,
                retracted_assertions: 0,
                evidences: 0,
                corrections: 0,
                covered_entities: 0,
            }),
    {
        ModelStats {
            entities: 0,
            assertions: 0,
            active_assertions: 0,
            uncertain_assertions: 0,
            retracted_assertions: 0,
            evidences: 0,
            corrections: 0,
            covered_entities: 0,
        }
    }
}

/// The formats `export` writes.
#[derive(Debug, Clone, Copy, PartialEq, Eq, Structural)]
pub enum ExportFormat {
    Json,
    Toml,
    Dot,
}

impl ExportFormat {
    pub open spec fn text(self) -> Seq<char> {
        match self {
            ExportFormat::Json => "json"@,
            ExportFormat::Toml => "toml"@,
            ExportFormat::Dot => "dot"@,
        }
    }

    pub open spec fn from_text(s: Seq<char>) -> Option<ExportFormat> {
        if s == "json"@ {
            Some(ExportFormat::Json)
        } else if s == "toml"@ {
            Some(ExportFormat::Toml)
        } else if s == "dot"@ {
            Some(ExportFormat::Dot)
        } else {
            None
        }
    }

    /// The display text of the format.
    pub fn as_str(&self) -> (r: &'static str)
        ensures
            r@ == self.text(),
    {
        match self {
            ExportFormat::Json => "json",
            ExportFormat::Toml => "toml",
            ExportFormat::Dot => "dot",
        }
    }

    /// The format named by `s`, if any.
    pub fn parse(s: &str) -> (r: Option<ExportFormat>)
        ensures
            r == ExportFormat::from_text(s@),
    {
        if str_is(s, "json") {
            Some(ExportFormat::Json)
        } else if str_is(s, "toml") {
            Some(ExportFormat::Toml)
        } else if str_is(s, "dot") {
            Some(ExportFormat::Dot)
        } else {
            None
        }
    }
}

/// Reading a format's own text gives the format back.
pub proof fn lemma_export_format_roundtrip(f: ExportFormat)
    ensures
        ExportFormat::from_text(f.text()) == Some(f),
{
    reveal_strlit("json");
    reveal_strlit("toml");
    reveal_strlit("dot");
    assert("json"@[0] != "toml"@[0]);
    assert("json"@.len() != "dot"@.len());
    assert("toml"@.len() != "dot"@.len());
}

/// What `verify` can find wrong with the model.
#[derive(Debug, Clone, Copy, PartialEq, Eq, Structural)]
pub enum VerificationIssueKind {
    IsolatedEntity,
    MissingEvidence,
    DependencyOnRetracted,
    DependencyOnUncertain,
    DanglingGrounds,
    /// Manual-origin entity with assertions but no relations.
    OrphanManualEntity,
}

impl VerificationIssueKind {
    pub open spec fn text(self) -> Seq<char> {
        match self {
            VerificationIssueKind::IsolatedEntity => "IsolatedEntity"@,
            VerificationIssueKind::MissingEvidence => "MissingEvidence"@,
            VerificationIssueKind::DependencyOnRetracted => "DependencyOnRetracted"@,
            VerificationIssueKind::DependencyOnUncertain => "DependencyOnUncertain"@,
            VerificationIssueKind::DanglingGrounds => "DanglingGrounds"@,
            VerificationIssueKind::OrphanManualEntity => "OrphanManualEntity"@,
        }
    }

    /// The variant's name, as the text report shows it.
    pub fn as_str(&self) -> (r: &'static str)
        ensures
            r@ == self.text(),
    {
        match self {
            VerificationIssueKind::IsolatedEntity => "IsolatedEntity",
            VerificationIssueKind::MissingEvidence => "MissingEvidence",
            VerificationIssueKind::DependencyOnRetracted => "DependencyOnRetracted",
            VerificationIssueKind::DependencyOnUncertain => "DependencyOnUncertain",
            VerificationIssueKind::DanglingGrounds => "DanglingGrounds",
            VerificationIssueKind::OrphanManualEntity => "OrphanManualEntity",
        }
    }
}

/// One problem found by `verify`.
#[derive(Debug, PartialEq, Eq)]
pub struct VerificationIssue {
    pub kind: VerificationIssueKind,
    pub entity_name: Option<String>,
    pub assertion_id: Option<String>,
    pub detail: String,
}

impl Clone for VerificationIssue {
    fn clone(&self) -> (r: Self)
        ensures
            r == *self,
    {
        VerificationIssue {
            kind: self.kind,
            entity_name: match &self.entity_name {
                Some(s) => Some(s.clone()),
                None => None,
            },
            assertion_id: match &self.assertion_id {
                Some(s) => Some(s.clone()),
                None => None,
            },
            detail: self.detail.clone(),
        }
    }
}

/// The view of an issue: `(kind, entity name, assertion id, detail)`.
pub type IssueV = (VerificationIssueKind, Option<Seq<char>>, Option<Seq<char>>, Seq<char>);

impl View for VerificationIssue {
    type V = IssueV;

    open spec fn view(&self) -> IssueV {
        (self.kind, opt_view(self.entity_name), opt_view(self.assertion_id), self.detail@)
    }
}

/// The views of a vector of issues.
pub open spec fn issues_view(v: Seq<VerificationIssue>) -> Seq<IssueV> {
    v.map_values(|i: VerificationIssue| i@)
}

impl VerificationIssue {
    /// An issue scoped to an entity (and optionally an assertion).
    pub fn new(
        kind: VerificationIssueKind,
        entity_name: &str,
        assertion_id: Option<&str>,
        detail: String,
    ) -> (r: Self)
        ensures
            r.kind == kind,
            r.entity_name is Some && r.entity_name->0@ == entity_name@,
            match assertion_id {
                Some(a) => r.assertion_id is Some && r.assertion_id->0@ == a@,
                None => r.assertion_id is None,
            },
            r.detail == detail,
    {
        VerificationIssue {
            kind,
            entity_name: Some(entity_name.to_string()),
            assertion_id: match assertion_id {
                Some(a) => Some(a.to_string()),
                None => None,
            },
            detail,
        }
    }
}

/// The whole model, for export, diff and merge.
#[derive(Debug, Clone, PartialEq, Eq)]
pub struct ModelSnapshot {
    pub entities: Vec<Entity>,
    pub assertions: Vec<Assertion>,
    pub evidences: Vec<Evidence>,
    pub entity_relations: Vec<EntityRelation>,
    pub assertion_relations: Vec<AssertionRelation>,
    pub changelog: Vec<ChangelogEntry>,
}

/// What a retraction did to the assertions that depend on it.
#[derive(Debug, Clone, PartialEq, Eq)]
pub struct CascadeReport {
    pub retracted: Assertion,
    pub affected: Vec<AffectedAssertion>,
}

#[derive(Debug, Clone, PartialEq, Eq)]
pub struct AffectedAssertion {
    pub assertion: Assertion,
    pub cascade_reason: CascadeReason,
}

#[derive(Debug, Clone, Copy, PartialEq, Eq, Structural)]
pub enum CascadeReason {
    MarkedUncertain,
    GroundWeakened,
}

/// An entity with its assertions (and their evidence and dependencies) and
/// its related entities.
#[derive(Debug, PartialEq, Eq)]
pub struct TraceTree {
    pub entity: Entity,
    pub assertions: Vec<TraceAssertion>,
    pub related_entities: Vec<RelatedEntity>,
}

#[derive(Debug, PartialEq, Eq)]
pub struct TraceAssertion {
    pub assertion: Assertion,
    pub evidences: Vec<Evidence>,
    pub dependencies: Vec<TraceAssertion>,
}

/// Result of a `query` command.
#[derive(Debug, Clone)]
pub struct QueryCard {
    pub entity: Entity,
    pub assertions: Vec<(Assertion, Vec<Evidence>)>,
    pub related: Vec<RelatedEntity>,
    /// `(entity_id, active_assertion_count)` for each related target.
    pub related_assertion_counts: Vec<(String, usize)>,
    /// When true, render full relation details instead of the summary.
    pub relations_detail: bool,
}

/// Result of an `index` command.
#[derive(Debug, Clone)]
pub struct EntityIndex {
    pub entities: Vec<(Entity, usize)>,
    pub summary_mode: bool,
    pub coverage_summary: Option<IndexCoverage>,
}

/// Result of a `sync` command.
#[derive(Debug, Clone)]
pub struct SyncReport {
    pub files_scanned: usize,
    pub files_by_language: Vec<(String, usize)>,
    pub entities_created: usize,
    pub entities_removed: usize,
    pub relations_created: usize,
    pub entity_counts_by_kind: Vec<(String, usize)>,
    /// Stale entities that were removed.
    pub stale_entities: Vec<String>,
    /// Stale entities that were kept because they have assertions.
    pub stale_skipped: Vec<String>,
    pub dry_run: bool,
    /// Whether the scan found any drift (new, stale or kept entities).
    pub has_drift: bool,
    pub after_entities: usize,
    pub after_assertions: usize,
    /// Active assertions on kept stale entities, as `(entity_name, assertion)`.
    pub affected_assertions: Vec<(String, Assertion)>,
    /// Experiment-origin entities not found in the code.
    pub unresolved_provisional: Vec<String>,
}

/// Result of a `verify` command.
#[derive(Debug, Clone)]
pub struct VerificationReport {
    pub checked_count: usize,
    pub issues: Vec<VerificationIssue>,
    pub cleaned_count: usize,
    pub scan_issues: Vec<String>,
    pub success: bool,
}

/// Suggestion from the scout subcommand.
#[derive(Debug, Clone, PartialEq, Eq)]
pub struct ScoutSuggestion {
    pub entity_name: String,
    pub entity_kind: String,
    pub reason: String,
    pub action: ScoutAction,
}

#[derive(Debug, Clone, Copy, PartialEq, Eq, Structural)]
pub enum ScoutAction {
    Assert,
}

/// An experiment that is still open or evaluated.
#[derive(Debug)]
pub struct ActiveExperiment {
    pub short_id: String,
    pub description: String,
    /// "draft" or "evaluated".
    pub status: String,
    /// When the experiment was last written, when known.
    pub mtime: Option<Timestamp>,
}

impl Clone for ActiveExperiment {
    fn clone(&self) -> (r: Self)
        ensures
            r == *self,
    {
        ActiveExperiment {
            short_id: self.short_id.clone(),
            description: self.description.clone(),
            status: self.status.clone(),
            mtime: self.mtime,
        }
    }
}

#[derive(Debug, Clone, Copy, PartialEq, Eq, Structural)]
pub struct NextModelSummary {
    pub entities: u64,
    pub assertions: u64,
    pub active: u64,
    pub retracted: u64,
}

#[derive(Debug, Clone)]
pub struct NextSuggestion {
    pub kind: String,
    pub description: String,
    pub next_command: String,
}

/// Coverage breakdown for the index summary view; the percentage is
/// `covered / total` and is left to the renderer.
#[derive(Debug, Clone)]
pub struct IndexCoverage {
    pub covered: usize,
    pub total: usize,
    pub modules: Vec<ModuleCoverage>,
    pub top_uncovered: Vec<TopUncovered>,
}

#[derive(Debug, Clone, PartialEq, Eq)]
pub struct ModuleCoverage {
    pub path: String,
    pub covered: usize,
    pub total: usize,
}

#[derive(Debug, Clone, PartialEq, Eq)]
pub struct TopUncovered {
    pub entity_name: String,
    pub entity_kind: String,
    pub assertions: usize,
    pub dependents: usize,
}

/// Status message for commands with simple output.
#[derive(Debug, Clone, PartialEq, Eq)]
pub struct StatusMessage {
    pub message: String,
}

} // verus!
