//! The command-line surface: the commands and their arguments, and the small
//! decisions taken on them before a command runs.

use vstd::prelude::*;
use vstd::string::*;
use crate::analysis::languages::{lowercase_of, Language};
use crate::domain::assertion::AssertionKind;
use crate::domain::entity::{EntityKind, EntityOrigin};
use crate::domain::relations::EntityRelationKind;
use crate::domain::report::ExportFormat;
use crate::order::strs_view;
use crate::text::{chars_of, last_index_of, rfind_char, slice_chars, string_of, trim_white_space, trim_ws};

verus! {

/// How a command's report is written.
#[derive(Debug, Clone, Copy, PartialEq, Eq, Structural)]
pub enum OutputFormat {
    Text,
    Json,
}

/// `query <entity>`.
#[derive(Debug)]
pub struct QueryArgs {
    /// Entity qualified name (e.g. auth::login).
    pub entity: String,
    /// Show all assertions including retracted.
    pub all: bool,
    /// One assertion per line, no evidence or relations.
    pub compact: bool,
    /// Show the full relation details instead of their summary.
    pub relations: bool,
}

/// `impact <entity>`.
#[derive(Debug)]
pub struct ImpactArgs {
    pub entity: String,
}

/// `trace <entity>`.
#[derive(Debug)]
pub struct TraceArgs {
    pub entity: String,
}

/// `index`.
#[derive(Debug)]
pub struct IndexArgs {
    pub kind: Option<EntityKind>,
    pub origin: Option<EntityOrigin>,
    /// Qualified-name prefix filter.
    pub prefix: Option<String>,
    /// Full listing instead of the summary.
    pub verbose: bool,
    /// Only entities without assertions.
    pub uncovered: bool,
}

/// `assert <entity>`.
#[derive(Debug)]
pub struct AssertArgs {
    pub entity: String,
    pub kind: AssertionKind,
    pub claim: String,
    pub grounds: String,
    /// Id of an assertion this one depends on.
    pub depends_on: Option<String>,
    /// Id of an active assertion of the same kind to replace.
    pub replace: Option<String>,
    /// Create alongside active assertions of the same kind.
    pub force: bool,
}

/// `retract <id>`.
#[derive(Debug)]
pub struct RetractArgs {
    pub id: String,
    pub reason: String,
}

/// `depend <entity_a> --on <entity_b>`.
#[derive(Debug)]
pub struct DependArgs {
    pub entity_a: String,
    pub on: String,
    pub kind: EntityRelationKind,
}

/// `verify`.
#[derive(Debug)]
pub struct VerifyArgs {
    /// Restrict checks to entities with this prefix.
    pub scope: Option<String>,
    /// Delete isolated (and, with a scan, stale) entities.
    pub clean: bool,
    /// Compare the model with the code.
    pub scan: bool,
    /// Where to scan (default: the current directory).
    pub scan_path: Option<String>,
}

impl VerifyArgs {
    /// The directory to scan: `scan_path` (or `.`) when scanning, else none.
    pub fn scan_root(&self) -> (r: Option<String>)
        ensures
            self.scan ==> r is Some && r->0@ == match self.scan_path {
                Some(p) => p@,
                None => "."@,
            },
            !self.scan ==> r is None,
    {
        if self.scan {
            match &self.scan_path {
                Some(p) => Some(p.clone()),
                None => Some(String::from_str(".")),
            }
        } else {
            None
        }
    }
}

/// `export`.
#[derive(Debug)]
pub struct ExportArgs {
    pub format: ExportFormat,
}

/// `stats`.
#[derive(Debug)]
pub struct StatsArgs;

/// `delete-entity <entity>`.
#[derive(Debug)]
pub struct DeleteEntityArgs {
    pub entity: String,
}

/// `migrate <from> <to>`.
#[derive(Debug)]
pub struct MigrateArgs {
    /// The entity whose assertions and relations move.
    pub from: String,
    /// The entity that receives them.
    pub to: String,
}

/// `usage`.
#[derive(Debug)]
pub struct UsageArgs {
    /// Print the raw usage events only.
    pub raw: bool,
}

/// `sync`.
#[derive(Debug)]
pub struct SyncArgs {
    /// Create a new model in the current directory first.
    pub init: bool,
    /// Report without writing.
    pub dry_run: bool,
    /// Comma-separated languages to scan.
    pub lang: Option<String>,
}

/// `s` split at every `c` (like `str::split`).
pub open spec fn split_at_char(s: Seq<char>, c: char) -> Seq<Seq<char>>
    decreases s.len(),
{
    let k = rfind_char(s, c, s.len() - 1);
    if k < 0 {
        seq![s]
    } else {
        proof {
            crate::text::lemma_rfind_char_bounds(s, c, s.len() - 1);
        }
        split_at_char(s.subrange(0, k), c).push(s.subrange(k + 1, s.len() as int))
    }
}

/// Exec form of [`split_at_char`].
fn split_chars(v: Vec<char>, c: char) -> (r: Vec<Vec<char>>)
    ensures
        r@.map_values(|x: Vec<char>| x@) == split_at_char(v@, c),
    decreases v@.len(),
{
    match last_index_of(&v, c) {
        None => {
            let mut r: Vec<Vec<char>> = Vec::new();
            r.push(v);
            assert(r@.map_values(|x: Vec<char>| x@) =~= seq![v@]);
            r
        },
        Some(k) => {
            let head = slice_chars(&v, 0, k);
            let tail = slice_chars(&v, k + 1, v.len());
            let mut r = split_chars(head, c);
            let ghost r0 = r@.map_values(|x: Vec<char>| x@);
            r.push(tail);
            assert(r@.map_values(|x: Vec<char>| x@) =~= r0.push(tail@));
            r
        },
    }
}

/// The language names of a `--lang` list: split at `,`, each trimmed.
pub open spec fn spec_language_list(s: Seq<char>) -> Seq<Seq<char>> {
    split_at_char(s, ',').map_values(|x: Seq<char>| trim_ws(x))
}

impl SyncArgs {
    /// The language names given with `--lang`, split at `,` and trimmed.
    pub fn languages(&self) -> (r: Option<Vec<String>>)
        ensures
            match self.lang {
                None => r is None,
                Some(l) => r is Some && strs_view(r->0@) == spec_language_list(l@),
            },
    {
        match &self.lang {
            None => None,
            Some(l) => {
                let parts = split_chars(chars_of(l.as_str()), ',');
                let ghost pv = parts@.map_values(|x: Vec<char>| x@);
                let mut out: Vec<String> = Vec::new();
                let mut i: usize = 0;
                while i < parts.len()
                    invariant
                        i <= parts@.len(),
                        pv == parts@.map_values(|x: Vec<char>| x@),
                        strs_view(out@) == pv.subrange(0, i as int).map_values(
                            |x: Seq<char>| trim_ws(x),
                        ),
                    decreases parts@.len() - i,
                {
                    let t = trim_white_space(&parts[i]);
                    let ghost o0 = strs_view(out@);
                    out.push(string_of(&t));
                    assert(strs_view(out@) =~= o0.push(trim_ws(pv[i as int])));
                    assert(pv.subrange(0, i + 1).map_values(|x: Seq<char>| trim_ws(x))
                        =~= pv.subrange(0, i as int).map_values(|x: Seq<char>| trim_ws(x)).push(
                        trim_ws(pv[i as int]),
                    ));
                    i += 1;
                }
                assert(pv.subrange(0, pv.len() as int) =~= pv);
                Some(out)
            },
        }
    }
}

/// The languages named in `names[..n]`, dropping names that are no
/// language, in order.
pub open spec fn spec_parse_languages(names: Seq<Seq<char>>, n: int) -> Seq<Language>
    decreases n,
{
    if n <= 0 || n > names.len() {
        seq![]
    } else {
        spec_parse_languages(names, n - 1) + match Language::spec_from_lower_name(
            lowercase_of(names[n - 1]),
        ) {
            Some(l) => seq![l],
            None => seq![],
        }
    }
}

/// The languages named in `names`, unknown names dropped.
pub fn parse_languages(names: &Vec<String>) -> (r: Vec<Language>)
    ensures
        r@ == spec_parse_languages(strs_view(names@), names@.len() as int),
{
    let mut out: Vec<Language> = Vec::new();
    let mut i: usize = 0;
    while i < names.len()
        invariant
            i <= names@.len(),
            out@ == spec_parse_languages(strs_view(names@), i as int),
        decreases names@.len() - i,
    {
        assert(strs_view(names@)[i as int] == names@[i as int]@);
        match Language::parse(names[i].as_str()) {
            Ok(l) => {
                out.push(l);
            },
            Err(_) => {},
        }
        assert(out@ =~= spec_parse_languages(strs_view(names@), i + 1));
        i += 1;
    }
    out
}

/// `next`.
#[derive(Debug)]
pub struct NextArgs;

/// `backup <action>`.
#[derive(Debug)]
pub enum BackupAction {
    /// Create a full backup of the current model.
    Create { name: Option<String> },
    /// List all backups.
    List,
    /// Restore from a backup (overwrites the current model).
    Restore { name: String },
    /// Delete a backup.
    Drop { name: String },
}

impl BackupAction {
    /// The action's name in lower case, for the usage log.
    pub fn variant_name(&self) -> (r: &'static str)
        ensures
            r@ == match self {
                BackupAction::Create { .. } => "create"@,
                BackupAction::List => "list"@,
                BackupAction::Restore { .. } => "restore"@,
                BackupAction::Drop { .. } => "drop"@,
            },
    {
        match self {
            BackupAction::Create { .. } => "create",
            BackupAction::List => "list",
            BackupAction::Restore { .. } => "restore",
            BackupAction::Drop { .. } => "drop",
        }
    }
}

/// `experiment <action>`.
#[derive(Debug)]
pub enum ExperimentAction {
    /// Start, hypothesize and evaluate in one go.
    Try {
        entity: String,
        kind: AssertionKind,
        claim: String,
        grounds: String,
        desc: Option<String>,
        depends_on: Option<String>,
    },
    /// Start a new experiment on an entity.
    Start { entity: String, description: Option<String>, max_nodes: usize },
    /// Add a hypothetical assertion.
    Hypothesize {
        id: String,
        entity: String,
        kind: AssertionKind,
        claim: String,
        grounds: String,
    },
    /// Stage a hypothetical relation.
    HypotheticalRelation { id: String, from: String, to: String, kind: EntityRelationKind },
    /// Stage a hypothetical deletion.
    HypotheticalDelete { id: String, entity: String },
    /// Simulate the cascade and detect contradictions.
    Evaluate { id: String },
    /// Show the experiment report.
    Report { id: String },
    /// Apply the experiment to the model.
    Commit { id: String },
    /// Drop the experiment.
    Discard { id: String },
    /// List saved experiments.
    List,
    /// Save the experiment to disk.
    Save { id: String },
    /// Load a saved experiment.
    Load { id: String },
}

impl ExperimentAction {
    /// The action's name in lower case, for the usage log.
    pub fn variant_name(&self) -> (r: &'static str)
        ensures
            r@ == match self {
                ExperimentAction::Try { .. } => "try"@,
                ExperimentAction::Start { .. } => "start"@,
                ExperimentAction::Hypothesize { .. } => "hypothesize"@,
                ExperimentAction::HypotheticalRelation { .. } => "hypotheticalrelation"@,
                ExperimentAction::HypotheticalDelete { .. } => "hypotheticaldelete"@,
                ExperimentAction::Evaluate { .. } => "evaluate"@,
                ExperimentAction::Report { .. } => "report"@,
                ExperimentAction::Commit { .. } => "commit"@,
                ExperimentAction::Discard { .. } => "discard"@,
                ExperimentAction::List => "list"@,
                ExperimentAction::Save { .. } => "save"@,
                ExperimentAction::Load { .. } => "load"@,
            },
    {
        match self {
            ExperimentAction::Try { .. } => "try",
            ExperimentAction::Start { .. } => "start",
            ExperimentAction::Hypothesize { .. } => "hypothesize",
            ExperimentAction::HypotheticalRelation { .. } => "hypotheticalrelation",
            ExperimentAction::HypotheticalDelete { .. } => "hypotheticaldelete",
            ExperimentAction::Evaluate { .. } => "evaluate",
            ExperimentAction::Report { .. } => "report",
            ExperimentAction::Commit { .. } => "commit",
            ExperimentAction::Discard { .. } => "discard",
            ExperimentAction::List => "list",
            ExperimentAction::Save { .. } => "save",
            ExperimentAction::Load { .. } => "load",
        }
    }
}

/// The commands.
#[derive(Debug)]
pub enum Commands {
    Query(QueryArgs),
    Impact(ImpactArgs),
    Trace(TraceArgs),
    Index(IndexArgs),
    Assert(AssertArgs),
    Retract(RetractArgs),
    Depend(DependArgs),
    Verify(VerifyArgs),
    Export(ExportArgs),
    Stats(StatsArgs),
    DeleteEntity(DeleteEntityArgs),
    Migrate(MigrateArgs),
    Experiment { action: ExperimentAction },
    Backup { action: BackupAction },
    Recover { apply: bool },
    Next(NextArgs),
    Sync(SyncArgs),
    Usage(UsageArgs),
}

/// A parsed command line.
#[derive(Debug)]
pub struct Cli {
    /// Path to the model database.
    pub db: Option<String>,
    pub output: OutputFormat,
    pub command: Commands,
}

/// Where the model database is when none is found and none is given.
pub open spec fn default_db_path() -> Seq<char> {
    ".cog/cog.db"@
}

/// The first of `candidates` that exists, in order.
pub open spec fn first_existing(candidates: Seq<(Seq<char>, bool)>) -> Option<Seq<char>>
    decreases candidates.len(),
{
    if candidates.len() == 0 {
        None
    } else if candidates[0].1 {
        Some(candidates[0].0)
    } else {
        first_existing(candidates.drop_first())
    }
}

/// The `(path, exists)` pairs as views.
pub open spec fn candidates_view(c: Seq<(String, bool)>) -> Seq<(Seq<char>, bool)> {
    c.map_values(|p: (String, bool)| (p.0@, p.1))
}

impl Cli {
    /// An existing model database: with `--db`, that path when it exists
    /// (`db_exists`); without, the first of `candidates` that exists, where
    /// `candidates` are `<dir>/.cog/cog.db` for the working directory and
    /// each of its ancestors, innermost first, with whether each exists.
    pub fn find_existing_db(&self, db_exists: bool, candidates: &Vec<(String, bool)>) -> (r: Option<String>)
        ensures
            self.db is Some ==> (r is Some <==> db_exists),
            self.db is Some && r is Some ==> r->0@ == self.db->0@,
            self.db is None ==> (r is Some <==> first_existing(candidates_view(candidates@)) is Some),
            self.db is None && r is Some ==> first_existing(candidates_view(candidates@)) == Some(
                r->0@,
            ),
    {
        match &self.db {
            Some(p) => {
                if db_exists {
                    let c = p.clone();
                    assert(c@ == p@);
                    Some(c)
                } else {
                    None
                }
            },
            None => {
                let ghost cv = candidates_view(candidates@);
                assert(cv.subrange(0, cv.len() as int) =~= cv);
                let mut i: usize = 0;
                while i < candidates.len()
                    invariant
                        i <= candidates@.len(),
                        self.db is None,
                        cv == candidates_view(candidates@),
                        first_existing(cv) == first_existing(cv.subrange(i as int, cv.len() as int)),
                    decreases candidates@.len() - i,
                {
                    assert(cv.subrange(i as int, cv.len() as int).drop_first() =~= cv.subrange(
                        i + 1,
                        cv.len() as int,
                    ));
                    if candidates[i].1 {
                        assert(cv.subrange(i as int, cv.len() as int)[0] == cv[i as int]);
                        return Some(candidates[i].0.clone());
                    }
                    i += 1;
                }
                assert(cv.subrange(i as int, cv.len() as int).len() == 0);
                None
            },
        }
    }

    /// The database path: the `--db` path when given (whether or not it
    /// exists yet), else the first existing `.cog/cog.db` walking up from
    /// the working directory (see [`Cli::find_existing_db`]), else
    /// `.cog/cog.db`. Nothing is created.
    pub fn db_path(&self, db_exists: bool, candidates: &Vec<(String, bool)>) -> (r: String)
        ensures
            r@ == match self.db {
                Some(p) => p@,
                None => match first_existing(candidates_view(candidates@)) {
                    Some(c) => c,
                    None => default_db_path(),
                },
            },
    {
        match self.find_existing_db(db_exists, candidates) {
            Some(f) => f,
            None => match &self.db {
                Some(d) => d.clone(),
                None => String::from_str(".cog/cog.db"),
            },
        }
    }

    /// The database path of `sync --init`: the `--db` path, else
    /// `.cog/cog.db` under the working directory `cwd`.
    pub fn init_db_path(&self, cwd: &str) -> (r: String)
        ensures
            r@ == match self.db {
                Some(d) => d@,
                None => crate::backup::join_path(
                    crate::backup::join_path(cwd@, ".cog"@),
                    "cog.db"@,
                ),
            },
    {
        match &self.db {
            Some(d) => d.clone(),
            None => {
                let dir = crate::backup::join(cwd, ".cog");
                crate::backup::join(dir.as_str(), "cog.db")
            },
        }
    }

    /// Whether this is `sync --init`.
    pub fn is_sync_init(&self) -> (r: bool)
        ensures
            r == match self.command {
                Commands::Sync(a) => a.init,
                _ => false,
            },
    {
        match &self.command {
            Commands::Sync(a) => a.init,
            _ => false,
        }
    }

    /// The command verb, for the usage log.
    pub fn command_name(&self) -> (r: &'static str)
        ensures
            r@ == match self.command {
                Commands::Query(_) => "query"@,
                Commands::Impact(_) => "impact"@,
                Commands::Trace(_) => "trace"@,
                Commands::Index(_) => "index"@,
                Commands::Assert(_) => "assert"@,
                Commands::Retract(_) => "retract"@,
                Commands::Depend(_) => "depend"@,
                Commands::Verify(_) => "verify"@,
                Commands::Export(_) => "export"@,
                Commands::Stats(_) => "stats"@,
                Commands::DeleteEntity(_) => "delete-entity"@,
                Commands::Migrate(_) => "migrate"@,
                Commands::Experiment { .. } => "experiment"@,
                Commands::Backup { .. } => "backup"@,
                Commands::Recover { .. } => "recover"@,
                Commands::Next(_) => "next"@,
                Commands::Sync(_) => "sync"@,
                Commands::Usage(_) => "usage"@,
            },
    {
        match &self.command {
            Commands::Query(_) => "query",
            Commands::Impact(_) => "impact",
            Commands::Trace(_) => "trace",
            Commands::Index(_) => "index",
            Commands::Assert(_) => "assert",
            Commands::Retract(_) => "retract",
            Commands::Depend(_) => "depend",
            Commands::Verify(_) => "verify",
            Commands::Export(_) => "export",
            Commands::Stats(_) => "stats",
            Commands::DeleteEntity(_) => "delete-entity",
            Commands::Migrate(_) => "migrate",
            Commands::Experiment { .. } => "experiment",
            Commands::Backup { .. } => "backup",
            Commands::Recover { .. } => "recover",
            Commands::Next(_) => "next",
            Commands::Sync(_) => "sync",
            Commands::Usage(_) => "usage",
        }
    }
}

/// How a command moves the workflow state.
#[derive(Debug, Clone, Copy, PartialEq, Eq, Structural)]
pub enum Transition {
    /// The state stays as it is.
    Keep,
    /// The agent is exploring the model.
    Explore,
    /// An assertion was retracted: debugging.
    Retract,
    /// Verification ran; whether it passed.
    Verify(bool),
    /// The first sync initialised the model.
    Init,
    /// A sync ran; whether it found code drift.
    Sync(bool),
    /// The model was changed ahead of the code.
    PendingImplement,
}

/// The workflow transition after `cmd`: `ok` says whether it succeeded,
/// `exit_code` and `has_drift` come from its output, `uninit` says whether
/// the workflow is not yet initialised and `ready` whether it is.
pub open spec fn spec_transition(
    cmd: Commands,
    ok: bool,
    exit_code: i32,
    has_drift: bool,
    uninit: bool,
    ready: bool,
) -> Transition {
    if !ok {
        Transition::Keep
    } else {
        match cmd {
            Commands::Query(_) => Transition::Explore,
            Commands::Assert(_) => Transition::Explore,
            Commands::Depend(_) => Transition::Explore,
            Commands::Migrate(_) => Transition::Explore,
            Commands::Retract(_) => Transition::Retract,
            Commands::Verify(_) => Transition::Verify(exit_code == 0),
            Commands::Sync(a) => if exit_code == 0 && !a.dry_run {
                if uninit {
                    Transition::Init
                } else {
                    Transition::Sync(has_drift)
                }
            } else {
                Transition::Keep
            },
            Commands::Recover { apply } => if apply {
                Transition::Explore
            } else {
                Transition::Keep
            },
            Commands::Experiment { action } => if (action matches ExperimentAction::Commit { .. }) && ready {
                Transition::PendingImplement
            } else {
                Transition::Keep
            },
            _ => Transition::Keep,
        }
    }
}

/// How commands move the workflow: a failed command never moves it;
/// reading or recording knowledge (query, assert, depend, migrate) is
/// exploring; a retraction is debugging; a verification passes exactly when
/// it exits with 0; a sync that wrote the model initialises an
/// uninitialised workflow and otherwise reports its drift, while a dry run
/// or a failed sync moves nothing; committing an experiment on a ready
/// workflow leaves code to implement; and commands that only read or manage
/// files (impact, trace, index, export, stats, delete-entity, backup, next,
/// usage) move nothing.
pub proof fn lemma_transitions(
    cmd: Commands,
    ok: bool,
    exit_code: i32,
    has_drift: bool,
    uninit: bool,
    ready: bool,
)
    ensures
        !ok ==> spec_transition(cmd, ok, exit_code, has_drift, uninit, ready) == Transition::Keep,
        ok && ((cmd is Query) || (cmd is Assert) || (cmd is Depend) || (cmd is Migrate)) ==> spec_transition(
            cmd,
            ok,
            exit_code,
            has_drift,
            uninit,
            ready,
        ) == Transition::Explore,
        ok && (cmd is Retract) ==> spec_transition(cmd, ok, exit_code, has_drift, uninit, ready)
            == Transition::Retract,
        ok && (cmd is Verify) ==> (spec_transition(cmd, ok, exit_code, has_drift, uninit, ready)
            == Transition::Verify(true) <==> exit_code == 0),
        ok && (cmd is Verify) ==> (spec_transition(cmd, ok, exit_code, has_drift, uninit, ready)
            is Verify),
        ok && (cmd is Sync) && !cmd->Sync_0.dry_run && exit_code == 0 && uninit ==> spec_transition(
            cmd,
            ok,
            exit_code,
            has_drift,
            uninit,
            ready,
        ) == Transition::Init,
        ok && (cmd is Sync) && !cmd->Sync_0.dry_run && exit_code == 0 && !uninit ==> spec_transition(
            cmd,
            ok,
            exit_code,
            has_drift,
            uninit,
            ready,
        ) == Transition::Sync(has_drift),
        (cmd is Sync) && (cmd->Sync_0.dry_run || exit_code != 0) ==> spec_transition(
            cmd,
            ok,
            exit_code,
            has_drift,
            uninit,
            ready,
        ) == Transition::Keep,
        ok && (cmd is Experiment) && (cmd->Experiment_action is Commit) && ready ==> spec_transition(
            cmd,
            ok,
            exit_code,
            has_drift,
            uninit,
            ready,
        ) == Transition::PendingImplement,
        (cmd is Impact) || (cmd is Trace) || (cmd is Index) || (cmd is Export) || (cmd is Stats)
            || (cmd is DeleteEntity) || (cmd is Backup) || (cmd is Next) || (cmd is Usage) ==> spec_transition(
            cmd,
            ok,
            exit_code,
            has_drift,
            uninit,
            ready,
        ) == Transition::Keep,
{
}

/// The workflow transition after a command (see [`spec_transition`]).
pub fn workflow_transition(
    cmd: &Commands,
    ok: bool,
    exit_code: i32,
    has_drift: bool,
    uninit: bool,
    ready: bool,
) -> (r: Transition)
    ensures
        r == spec_transition(*cmd, ok, exit_code, has_drift, uninit, ready),
{
    if !ok {
        return Transition::Keep;
    }
    match cmd {
        Commands::Query(_) => Transition::Explore,
        Commands::Assert(_) => Transition::Explore,
        Commands::Depend(_) => Transition::Explore,
        Commands::Migrate(_) => Transition::Explore,
        Commands::Retract(_) => Transition::Retract,
        Commands::Verify(_) => Transition::Verify(exit_code == 0),
        Commands::Sync(a) => {
            if exit_code == 0 && !a.dry_run {
                if uninit {
                    Transition::Init
                } else {
                    Transition::Sync(has_drift)
                }
            } else {
                Transition::Keep
            }
        },
        Commands::Recover { apply } => {
            if *apply {
                Transition::Explore
            } else {
                Transition::Keep
            }
        },
        Commands::Experiment { action } => {
            let commit = match action {
                ExperimentAction::Commit { .. } => true,
                _ => false,
            };
            if commit && ready {
                Transition::PendingImplement
            } else {
                Transition::Keep
            }
        },
        _ => Transition::Keep,
    }
}

/// The phases a command moved the workflow between, for the usage log:
/// both when the phase label changed, neither when it stayed.
pub fn phase_change(before: &str, after: &str) -> (r: (Option<String>, Option<String>))
    ensures
        before@ != after@ ==> (r.0 matches Some(b) && b@ == before@),
        before@ != after@ ==> (r.1 matches Some(a) && a@ == after@),
        before@ == after@ ==> r.0 is None && r.1 is None,
{
    if crate::text::str_is(before, after) {
        (None, None)
    } else {
        (Some(before.to_string()), Some(after.to_string()))
    }
}

} // verus!
