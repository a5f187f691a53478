//! `next`: turning suggested workflow actions into the report's suggestions.

use vstd::prelude::*;
use vstd::string::*;
use crate::domain::report::{ActiveExperiment, ModelStats, NextModelSummary, NextSuggestion};
use crate::domain::assertion::short_chars;
use crate::domain::time::{chrono_represents, timestamp_from_secs, Timestamp};
use crate::text::{
    chars_of, first_index_of, find_char, find_text, index_of_text,
    slice_chars, starts_with, string_of, trim_start_ws,
};

verus! {

/// The actions the workflow can suggest.
#[derive(Debug, Clone, Copy, PartialEq, Eq, Structural)]
pub enum ActionKind {
    InitProject,
    RecordMissingContracts,
    ReviewUncertainAssertions,
    StartRecording,
    AssessImpact,
    RecordFix,
    VerifyConsistency,
    StartExperiment,
    SyncModel,
    ImplementNow,
    CommitExperiment,
    RecoverContext,
    RecordConstraint,
    ImplementPlanned,
}

/// A suggested action: what to do, and an example command.
#[derive(Debug)]
pub struct SuggestedAction {
    pub action: ActionKind,
    pub description: String,
    pub example_command: String,
}

/// The label each action kind is listed under.
pub open spec fn spec_label(kind: ActionKind) -> Seq<char> {
    match kind {
        ActionKind::InitProject => "init"@,
        ActionKind::RecordMissingContracts => "model"@,
        ActionKind::ReviewUncertainAssertions => "review"@,
        ActionKind::StartRecording => "model"@,
        ActionKind::AssessImpact => "assess"@,
        ActionKind::RecordFix => "model"@,
        ActionKind::VerifyConsistency => "verify"@,
        ActionKind::StartExperiment => "descent"@,
        ActionKind::SyncModel => "drift"@,
        ActionKind::ImplementNow => "descent"@,
        ActionKind::CommitExperiment => "descent"@,
        ActionKind::RecoverContext => "recover"@,
        ActionKind::RecordConstraint => "model"@,
        ActionKind::ImplementPlanned => "descent"@,
    }
}

/// Exec form of [`spec_label`].
pub fn action_kind_label(kind: &ActionKind) -> (r: &'static str)
    ensures
        r@ == spec_label(*kind),
{
    match kind {
        ActionKind::InitProject => "init",
        ActionKind::RecordMissingContracts => "model",
        ActionKind::ReviewUncertainAssertions => "review",
        ActionKind::StartRecording => "model",
        ActionKind::AssessImpact => "assess",
        ActionKind::RecordFix => "model",
        ActionKind::VerifyConsistency => "verify",
        ActionKind::StartExperiment => "descent",
        ActionKind::SyncModel => "drift",
        ActionKind::ImplementNow => "descent",
        ActionKind::CommitExperiment => "descent",
        ActionKind::RecoverContext => "recover",
        ActionKind::RecordConstraint => "model",
        ActionKind::ImplementPlanned => "descent",
    }
}

/// The view of a suggestion: `(kind label, description, next command)`.
pub open spec fn suggestion_view(s: NextSuggestion) -> (Seq<char>, Seq<char>, Seq<char>) {
    (s.kind@, s.description@, s.next_command@)
}

/// The suggestions of `actions[..n]`: every action but a model sync, in
/// order, under its label.
pub open spec fn spec_suggestions(actions: Seq<SuggestedAction>, n: int) -> Seq<
    (Seq<char>, Seq<char>, Seq<char>),
>
    decreases n,
{
    if n <= 0 || n > actions.len() {
        seq![]
    } else {
        let a = actions[n - 1];
        spec_suggestions(actions, n - 1) + if a.action == ActionKind::SyncModel {
            seq![]
        } else {
            seq![(spec_label(a.action), a.description@, a.example_command@)]
        }
    }
}

/// The drift warning of `actions[..n]`: from the last model-sync action, if
/// any.
pub open spec fn spec_stagnation(actions: Seq<SuggestedAction>, n: int) -> Option<Seq<char>>
    decreases n,
{
    if n <= 0 || n > actions.len() {
        None
    } else {
        let a = actions[n - 1];
        if a.action == ActionKind::SyncModel {
            Some("WARNING: "@ + a.description@ + "\n  Next: "@ + a.example_command@)
        } else {
            spec_stagnation(actions, n - 1)
        }
    }
}

/// How suggestions are split: a model-sync action is never listed, every
/// other action is listed with its description and example under its label,
/// and a drift warning is raised exactly when some action is a model sync.
pub proof fn lemma_suggestions_split(actions: Seq<SuggestedAction>, n: int)
    requires
        0 <= n <= actions.len(),
    ensures
        forall|i: int|
            0 <= i < n && (#[trigger] actions[i]).action != ActionKind::SyncModel ==> spec_suggestions(
                actions,
                n,
            ).contains((spec_label(actions[i].action), actions[i].description@, actions[i].example_command@)),
        forall|k: int|
            0 <= k < spec_suggestions(actions, n).len() ==> (#[trigger] spec_suggestions(actions, n)[k]).0
                != "drift"@,
        spec_stagnation(actions, n) is Some <==> exists|i: int|
            0 <= i < n && (#[trigger] actions[i]).action == ActionKind::SyncModel,
    decreases n,
{
    reveal_strlit("drift");
    reveal_strlit("init");
    reveal_strlit("model");
    reveal_strlit("review");
    reveal_strlit("assess");
    reveal_strlit("verify");
    reveal_strlit("descent");
    reveal_strlit("recover");
    assert("init"@[0] != "drift"@[0]);
    assert("model"@[0] != "drift"@[0]);
    assert("review"@[0] != "drift"@[0]);
    assert("assess"@[0] != "drift"@[0]);
    assert("verify"@[0] != "drift"@[0]);
    assert("descent"@[1] != "drift"@[1]);
    assert("recover"@[0] != "drift"@[0]);
    if n > 0 {
        lemma_suggestions_split(actions, n - 1);
        let prev = spec_suggestions(actions, n - 1);
        let r = spec_suggestions(actions, n);
        let a = actions[n - 1];
        assert forall|i: int|
            0 <= i < n && (#[trigger] actions[i]).action != ActionKind::SyncModel implies r.contains(
                (spec_label(actions[i].action), actions[i].description@, actions[i].example_command@),
            ) by {
            let x = (spec_label(actions[i].action), actions[i].description@, actions[i].example_command@);
            if i < n - 1 {
                let t = choose|t: int| 0 <= t < prev.len() && #[trigger] prev[t] == x;
                assert(r[t] == x);
            } else {
                assert(r[prev.len() as int] == x);
            }
        }
        assert forall|k: int| 0 <= k < r.len() implies (#[trigger] r[k]).0 != "drift"@ by {
            if k < prev.len() {
                assert(r[k] == prev[k]);
            } else {
                assert(a.action != ActionKind::SyncModel);
                assert(r[k].0 == spec_label(a.action));
            }
        }
        if a.action == ActionKind::SyncModel {
            assert(0 <= n - 1 < n && actions[n - 1].action == ActionKind::SyncModel);
        }
        if exists|i: int| 0 <= i < n && (#[trigger] actions[i]).action == ActionKind::SyncModel {
            let i = choose|i: int| 0 <= i < n && (#[trigger] actions[i]).action == ActionKind::SyncModel;
            if i < n - 1 {
                assert(0 <= i < n - 1 && actions[i].action == ActionKind::SyncModel);
            }
        }
    }
}

/// Splits suggested actions into the listed suggestions and the drift
/// warning a model-sync action raises.
pub fn split_suggestions(actions: &Vec<SuggestedAction>) -> (r: (Vec<NextSuggestion>, Option<String>))
    ensures
        r.0@.map_values(|s: NextSuggestion| suggestion_view(s)) == spec_suggestions(
            actions@,
            actions@.len() as int,
        ),
        match r.1 {
            Some(w) => spec_stagnation(actions@, actions@.len() as int) == Some(w@),
            None => spec_stagnation(actions@, actions@.len() as int) is None,
        },
{
    let mut out: Vec<NextSuggestion> = Vec::new();
    let mut warning: Option<String> = None;
    let mut i: usize = 0;
    while i < actions.len()
        invariant
            i <= actions@.len(),
            out@.map_values(|s: NextSuggestion| suggestion_view(s)) == spec_suggestions(
                actions@,
                i as int,
            ),
            match warning {
                Some(w) => spec_stagnation(actions@, i as int) == Some(w@),
                None => spec_stagnation(actions@, i as int) is None,
            },
        decreases actions@.len() - i,
    {
        let a = &actions[i];
        let ghost o0 = out@.map_values(|s: NextSuggestion| suggestion_view(s));
        if a.action == ActionKind::SyncModel {
            let mut w = String::from_str("WARNING: ");
            w.append(a.description.as_str());
            w.append("\n  Next: ");
            w.append(a.example_command.as_str());
            warning = Some(w);
        } else {
            out.push(
                NextSuggestion {
                    kind: String::from_str(action_kind_label(&a.action)),
                    description: a.description.clone(),
                    next_command: a.example_command.clone(),
                },
            );
            assert(out@.map_values(|s: NextSuggestion| suggestion_view(s)) =~= o0.push(
                (spec_label(a.action), a.description@, a.example_command@),
            ));
        }
        assert(out@.map_values(|s: NextSuggestion| suggestion_view(s)) =~= spec_suggestions(
            actions@,
            i + 1,
        ));
        i += 1;
    }
    (out, warning)
}

/// The model summary of `next`, from the model statistics.
pub fn model_summary(stats: &ModelStats) -> (r: NextModelSummary)
    ensures
        r.entities == stats.entities,
        r.assertions == stats.assertions,
        r.active == stats.active_assertions,
        r.retracted == stats.retracted_assertions,
{
    NextModelSummary {
        entities: stats.entities,
        assertions: stats.assertions,
        active: stats.active_assertions,
        retracted: stats.retracted_assertions,
    }
}

/// The status label of an experiment file's `status` field: `evaluated` or
/// `draft` for the active ones, none for committed or discarded ones.
pub fn experiment_status_label(raw: &str) -> (r: Option<&'static str>)
    ensures
        raw@ == "Evaluated"@ ==> r is Some && r->0@ == "evaluated"@,
        raw@ == "Open"@ ==> r is Some && r->0@ == "draft"@,
        raw@ != "Evaluated"@ && raw@ != "Open"@ ==> r is None,
{
    proof {
        reveal_strlit("Evaluated");
        reveal_strlit("Open");
        assert("Evaluated"@[0] != "Open"@[0]);
    }
    if crate::text::str_is(raw, "Evaluated") {
        Some("evaluated")
    } else if crate::text::str_is(raw, "Open") {
        Some("draft")
    } else {
        None
    }
}

/// `a` is listed no later than `b` by recency: a known time before an
/// unknown one, later times first.
pub open spec fn not_older(a: Option<Timestamp>, b: Option<Timestamp>) -> bool {
    match (a, b) {
        (_, None) => true,
        (None, Some(_)) => false,
        (Some(x), Some(y)) => !x.before(y),
    }
}

/// `s` with `e` inserted after every experiment at least as recent.
pub open spec fn insert_by_recency(s: Seq<ActiveExperiment>, e: ActiveExperiment) -> Seq<
    ActiveExperiment,
>
    decreases s.len(),
{
    if s.len() == 0 {
        seq![e]
    } else if !not_older(s[0].mtime, e.mtime) {
        seq![e] + s
    } else {
        seq![s[0]] + insert_by_recency(s.drop_first(), e)
    }
}

/// `s` with the most recently written experiments first, those of equal
/// time (or both unknown) in their order in `s`.
pub open spec fn sort_by_recency(s: Seq<ActiveExperiment>) -> Seq<ActiveExperiment>
    decreases s.len(),
{
    if s.len() == 0 {
        seq![]
    } else {
        insert_by_recency(sort_by_recency(s.drop_last()), s.last())
    }
}

proof fn lemma_insert_by_recency_at(s: Seq<ActiveExperiment>, e: ActiveExperiment, p: int)
    requires
        0 <= p <= s.len(),
        forall|j: int| 0 <= j < p ==> not_older((#[trigger] s[j]).mtime, e.mtime),
        p == s.len() || !not_older(s[p].mtime, e.mtime),
    ensures
        insert_by_recency(s, e) == s.insert(p, e),
    decreases p,
{
    if s.len() == 0 {
        assert(s.insert(p, e) =~= seq![e]);
    } else if p == 0 {
        assert(s.insert(0, e) =~= seq![e] + s);
    } else {
        let t = s.drop_first();
        assert forall|j: int| 0 <= j < p - 1 implies not_older((#[trigger] t[j]).mtime, e.mtime) by {
            assert(t[j] == s[j + 1]);
        }
        lemma_insert_by_recency_at(t, e, p - 1);
        assert(s.insert(p, e) =~= seq![s[0]] + t.insert(p - 1, e));
    }
}

proof fn lemma_not_older_transitive(a: Option<Timestamp>, b: Option<Timestamp>, c: Option<Timestamp>)
    requires
        not_older(a, b),
        not_older(b, c),
    ensures
        not_older(a, c),
{
}

proof fn lemma_not_older_total(a: Option<Timestamp>, b: Option<Timestamp>)
    ensures
        not_older(a, b) || not_older(b, a),
{
}

proof fn lemma_insert_keeps_recency(s: Seq<ActiveExperiment>, e: ActiveExperiment)
    requires
        forall|i: int, j: int| 0 <= i < j < s.len() ==> not_older((#[trigger] s[i]).mtime, (#[trigger] s[j]).mtime),
    ensures
        insert_by_recency(s, e).len() == s.len() + 1,
        forall|i: int, j: int|
            0 <= i < j < insert_by_recency(s, e).len() ==> not_older(
                (#[trigger] insert_by_recency(s, e)[i]).mtime,
                (#[trigger] insert_by_recency(s, e)[j]).mtime,
            ),
        forall|i: int|
            0 <= i < insert_by_recency(s, e).len() ==> (#[trigger] insert_by_recency(s, e)[i] == e || s.contains(
                insert_by_recency(s, e)[i],
            )),
    decreases s.len(),
{
    if s.len() > 0 && not_older(s[0].mtime, e.mtime) {
        let t = s.drop_first();
        assert forall|i: int, j: int| 0 <= i < j < t.len() implies not_older(
            (#[trigger] t[i]).mtime,
            (#[trigger] t[j]).mtime,
        ) by {
            assert(t[i] == s[i + 1] && t[j] == s[j + 1]);
        }
        lemma_insert_keeps_recency(t, e);
        let r = insert_by_recency(s, e);
        let rt = insert_by_recency(t, e);
        assert(r =~= seq![s[0]] + rt);
        assert forall|i: int| 0 <= i < r.len() implies (#[trigger] r[i] == e || s.contains(r[i])) by {
            if i == 0 {
                assert(s[0] == r[i]);
            } else {
                assert(r[i] == rt[i - 1]);
                if rt[i - 1] != e {
                    let k = choose|k: int| 0 <= k < t.len() && t[k] == rt[i - 1];
                    assert(s[k + 1] == r[i]);
                }
            }
        }
        assert forall|i: int, j: int| 0 <= i < j < r.len() implies not_older(
            (#[trigger] r[i]).mtime,
            (#[trigger] r[j]).mtime,
        ) by {
            if i == 0 {
                assert(r[j] == rt[j - 1]);
                if rt[j - 1] != e {
                    let k = choose|k: int| 0 <= k < t.len() && t[k] == rt[j - 1];
                    assert(s[k + 1] == r[j]);
                }
            } else {
                assert(r[i] == rt[i - 1] && r[j] == rt[j - 1]);
            }
        }
    } else {
        let r = insert_by_recency(s, e);
        assert(r =~= seq![e] + s);
        assert forall|i: int| 0 <= i < r.len() implies (#[trigger] r[i] == e || s.contains(r[i])) by {
            if i > 0 {
                assert(s[i - 1] == r[i]);
            }
        }
        assert forall|i: int, j: int| 0 <= i < j < r.len() implies not_older(
            (#[trigger] r[i]).mtime,
            (#[trigger] r[j]).mtime,
        ) by {
            if i == 0 {
                assert(r[j] == s[j - 1]);
                lemma_not_older_total(s[0].mtime, e.mtime);
                if j - 1 > 0 {
                    assert(not_older(s[0].mtime, s[j - 1].mtime));
                    lemma_not_older_transitive(e.mtime, s[0].mtime, s[j - 1].mtime);
                }
            } else {
                assert(r[i] == s[i - 1] && r[j] == s[j - 1]);
            }
        }
    }
}

/// Recency order: `sort_by_recency` lists every experiment no older than
/// each one after it, and keeps the number of experiments.
pub proof fn lemma_sort_by_recency_ordered(s: Seq<ActiveExperiment>)
    ensures
        sort_by_recency(s).len() == s.len(),
        forall|i: int, j: int|
            0 <= i < j < sort_by_recency(s).len() ==> not_older(
                (#[trigger] sort_by_recency(s)[i]).mtime,
                (#[trigger] sort_by_recency(s)[j]).mtime,
            ),
    decreases s.len(),
{
    if s.len() > 0 {
        lemma_sort_by_recency_ordered(s.drop_last());
        lemma_insert_keeps_recency(sort_by_recency(s.drop_last()), s.last());
    }
}

fn is_not_older(a: &Option<Timestamp>, b: &Option<Timestamp>) -> (r: bool)
    ensures
        r == not_older(*a, *b),
{
    match (a, b) {
        (_, None) => true,
        (None, Some(_)) => false,
        (Some(x), Some(y)) => !x.is_before(y),
    }
}

/// Orders active experiments with the most recently written first (a
/// stable sort; unknown times last).
pub fn sort_active_experiments(v: Vec<ActiveExperiment>) -> (r: Vec<ActiveExperiment>)
    ensures
        r@ == sort_by_recency(v@),
{
    let mut sorted: Vec<ActiveExperiment> = Vec::new();
    let mut rest = v;
    let ghost all = rest@;
    let mut i: usize = 0;
    while i < rest.len()
        invariant
            i <= rest@.len(),
            rest@ == all,
            sorted@ == sort_by_recency(all.subrange(0, i as int)),
        decreases rest@.len() - i,
    {
        let e = rest[i].clone();
        assert(e == all[i as int]);
        let mut p: usize = 0;
        while p < sorted.len() && is_not_older(&sorted[p].mtime, &e.mtime)
            invariant
                p <= sorted@.len(),
                forall|j: int| 0 <= j < p ==> not_older((#[trigger] sorted@[j]).mtime, e.mtime),
            decreases sorted@.len() - p,
        {
            p += 1;
        }
        proof {
            lemma_insert_by_recency_at(sorted@, e, p as int);
            assert(all.subrange(0, i + 1).drop_last() =~= all.subrange(0, i as int));
        }
        sorted.insert(p, e);
        i += 1;
    }
    assert(all.subrange(0, all.len() as int) =~= all);
    sorted
}

/// The view of an active experiment: short id, description, status label
/// and time.
pub open spec fn experiment_view(e: ActiveExperiment) -> (Seq<char>, Seq<char>, Seq<char>, Option<Timestamp>) {
    (e.short_id@, e.description@, e.status@, e.mtime)
}

/// The status label of an experiment file: the text after the first
/// `"status":`, white space skipped, must start with `"Evaluated"`
/// (`evaluated`) or `"Open"` (`draft`); other files are not active.
pub open spec fn spec_file_status(content: Seq<char>) -> Option<Seq<char>> {
    let i = find_text(content, "\"status\":"@);
    if i < 0 {
        None
    } else {
        let t = trim_start_ws(content.subrange(i + 9, content.len() as int));
        if starts_with(t, "\"Evaluated\""@) {
            Some("evaluated"@)
        } else if starts_with(t, "\"Open\""@) {
            Some("draft"@)
        } else {
            None
        }
    }
}

/// The quoted value after the first `key`: the text between the first two
/// `"` at or after `skip` characters from where `key` starts.
pub open spec fn quoted_value(content: Seq<char>, key: Seq<char>, skip: int) -> Option<Seq<char>> {
    let i = find_text(content, key);
    if i < 0 {
        None
    } else {
        let r = content.subrange(i + skip, content.len() as int);
        let a = find_char(r, '"', 0);
        if a < 0 {
            None
        } else {
            let r2 = r.subrange(a + 1, r.len() as int);
            let e = find_char(r2, '"', 0);
            if e < 0 {
                None
            } else {
                Some(r2.subrange(0, e))
            }
        }
    }
}

/// Whether the description of an experiment file can be read: where it
/// has a `"description":`, a character follows it and that character is
/// ASCII (the value is read from one character past the colon).
pub open spec fn description_readable(content: Seq<char>) -> bool {
    let i = find_text(content, "\"description\":"@);
    i < 0 || (i + 15 <= content.len() && content[i + 14] < '\u{80}')
}

/// The time an experiment file was last written, from its modification
/// time in whole seconds since the Unix epoch.
pub open spec fn mtime_stamp(mtime_secs: Option<i64>) -> Option<Timestamp> {
    match mtime_secs {
        Some(s) => if chrono_represents(s) {
            Some(Timestamp { secs: s, nanos: 0 })
        } else {
            None
        },
        None => None,
    }
}

/// The active experiment an experiment file describes, if it is active:
/// its status label, the first 8 characters of its `"id"` value
/// (`unknown` without one), its `"description"` value (empty without one)
/// and its modification time.
pub open spec fn spec_active_experiment(content: Seq<char>, mtime: Option<Timestamp>) -> Option<
    (Seq<char>, Seq<char>, Seq<char>, Option<Timestamp>),
> {
    match spec_file_status(content) {
        None => None,
        Some(status) => Some(
            (
                match quoted_value(content, "\"id\":"@, 5) {
                    Some(v) => short_chars(v),
                    None => "unknown"@,
                },
                match quoted_value(content, "\"description\":"@, 15) {
                    Some(v) => v,
                    None => Seq::empty(),
                },
                status,
                mtime,
            ),
        ),
    }
}

/// Exec form of `trim_start_ws(v[from..])`: where the first non-white
/// character at or after `from` is.
fn skip_white_space(v: &Vec<char>, from: usize) -> (r: usize)
    requires
        from <= v@.len(),
    ensures
        from <= r <= v@.len(),
        v@.subrange(r as int, v@.len() as int) == trim_start_ws(v@.subrange(from as int, v@.len() as int)),
{
    let mut a = from;
    while a < v.len() && crate::text::char_is_white_space(v[a])
        invariant
            from <= a <= v@.len(),
            trim_start_ws(v@.subrange(from as int, v@.len() as int)) == trim_start_ws(
                v@.subrange(a as int, v@.len() as int),
            ),
        decreases v@.len() - a,
    {
        assert(v@.subrange(a as int, v@.len() as int).drop_first() =~= v@.subrange(
            a + 1,
            v@.len() as int,
        ));
        a += 1;
    }
    a
}

/// Whether `p` starts `v` at `from`.
fn starts_at(v: &Vec<char>, from: usize, p: &Vec<char>) -> (r: bool)
    requires
        from <= v@.len(),
    ensures
        r == starts_with(v@.subrange(from as int, v@.len() as int), p@),
{
    let tail = slice_chars(v, from, v.len());
    crate::text::has_prefix(&tail, p)
}

/// Exec form of [`quoted_value`].
fn quoted_value_of(v: &Vec<char>, key: &Vec<char>, skip: usize) -> (r: Option<Vec<char>>)
    requires
        find_text(v@, key@) >= 0 ==> find_text(v@, key@) + skip <= v@.len(),
    ensures
        match r {
            Some(x) => quoted_value(v@, key@, skip as int) == Some(x@),
            None => quoted_value(v@, key@, skip as int) is None,
        },
{
    let n = v.len();
    let i = match index_of_text(v, key) {
        Some(i) => i,
        None => return None,
    };
    assert(i + skip <= n);
    let r = slice_chars(v, i + skip, v.len());
    let a = match first_index_of(&r, '"') {
        Some(a) => a,
        None => return None,
    };
    let r2 = slice_chars(&r, a + 1, r.len());
    let e = match first_index_of(&r2, '"') {
        Some(e) => e,
        None => return None,
    };
    Some(slice_chars(&r2, 0, e))
}

/// The description of an experiment file can be read (see
/// [`description_readable`]).
pub fn experiment_file_readable(content: &str) -> (r: bool)
    ensures
        r == description_readable(content@),
{
    let v = chars_of(content);
    let key = chars_of("\"description\":");
    proof {
        reveal_strlit("\"description\":");
    }
    match index_of_text(&v, &key) {
        None => true,
        Some(i) => v.len() >= 15 && i <= v.len() - 15 && v[i + 14] < '\u{80}',
    }
}

/// The active experiment an experiment file describes (see
/// [`spec_active_experiment`]), with its modification time in whole seconds
/// since the Unix epoch when known.
pub fn active_experiment_of(content: &str, mtime_secs: Option<i64>) -> (r: Option<ActiveExperiment>)
    requires
        spec_file_status(content@) is Some ==> description_readable(content@),
    ensures
        match r {
            Some(e) => spec_active_experiment(content@, mtime_stamp(mtime_secs)) == Some(
                experiment_view(e),
            ),
            None => spec_active_experiment(content@, mtime_stamp(mtime_secs)) is None,
        },
{
    proof {
        reveal_strlit("\"status\":");
        reveal_strlit("\"Evaluated\"");
        reveal_strlit("\"Open\"");
        reveal_strlit("\"id\":");
        reveal_strlit("\"description\":");
        reveal_strlit("unknown");
        reveal_strlit("evaluated");
        reveal_strlit("draft");
    }
    let v = chars_of(content);
    let n = v.len();
    let status_key = chars_of("\"status\":");
    let i = match index_of_text(&v, &status_key) {
        Some(i) => i,
        None => return None,
    };
    assert(i + 9 <= n);
    let t = skip_white_space(&v, i + 9);
    let status = if starts_at(&v, t, &chars_of("\"Evaluated\"")) {
        "evaluated"
    } else if starts_at(&v, t, &chars_of("\"Open\"")) {
        "draft"
    } else {
        return None;
    };
    let id_key = chars_of("\"id\":");
    proof {
        crate::text::lemma_find_text_bounds(v@, id_key@, 0);
    }
    let short_id = match quoted_value_of(&v, &id_key, 5) {
        Some(id) => crate::domain::assertion::short_id_string(string_of(&id).as_str()),
        None => String::from_str("unknown"),
    };
    let description = match quoted_value_of(&v, &chars_of("\"description\":"), 15) {
        Some(d) => string_of(&d),
        None => String::new(),
    };
    let mtime = match mtime_secs {
        Some(s) => timestamp_from_secs(s),
        None => None,
    };
    Some(ActiveExperiment { short_id, description, status: String::from_str(status), mtime })
}

/// The `(content, modification seconds)` pairs as views.
pub open spec fn files_view(files: Seq<(String, Option<i64>)>) -> Seq<(Seq<char>, Option<i64>)> {
    files.map_values(|p: (String, Option<i64>)| (p.0@, p.1))
}

/// The views of the active experiments among `files`, in order.
pub open spec fn active_views(files: Seq<(Seq<char>, Option<i64>)>) -> Seq<
    (Seq<char>, Seq<char>, Seq<char>, Option<Timestamp>),
>
    decreases files.len(),
{
    if files.len() == 0 {
        seq![]
    } else {
        let last = files.last();
        active_views(files.drop_last()) + match spec_active_experiment(last.0, mtime_stamp(last.1)) {
            Some(x) => seq![x],
            None => seq![],
        }
    }
}

/// The active experiments among experiment files, given each file's content
/// and modification time: the most recently written first (a stable sort;
/// unknown times last).
pub fn active_experiments_of(files: Vec<(String, Option<i64>)>) -> (r: Vec<ActiveExperiment>)
    requires
        forall|j: int|
            0 <= j < files@.len() ==> (spec_file_status(#[trigger] files@[j].0@) is Some
                ==> description_readable(files@[j].0@)),
    ensures
        exists|found: Seq<ActiveExperiment>|
            #[trigger] sort_by_recency(found) == r@ && found.map_values(
                |e: ActiveExperiment| experiment_view(e),
            ) == active_views(files_view(files@)),
{
    let mut found: Vec<ActiveExperiment> = Vec::new();
    let mut i: usize = 0;
    while i < files.len()
        invariant
            i <= files@.len(),
            forall|j: int|
                0 <= j < files@.len() ==> (spec_file_status(#[trigger] files@[j].0@) is Some
                    ==> description_readable(files@[j].0@)),
            found@.map_values(|e: ActiveExperiment| experiment_view(e)) == active_views(
                files_view(files@).subrange(0, i as int),
            ),
        decreases files@.len() - i,
    {
        let ghost before = found@.map_values(|e: ActiveExperiment| experiment_view(e));
        let ghost fv = files_view(files@);
        assert(fv.subrange(0, i + 1).drop_last() =~= fv.subrange(0, i as int));
        assert(fv.subrange(0, i + 1).last() == fv[i as int]);
        let parsed = active_experiment_of(files[i].0.as_str(), files[i].1);
        match parsed {
            Some(e) => {
                found.push(e);
                assert(found@.map_values(|e: ActiveExperiment| experiment_view(e)) =~= before.push(
                    experiment_view(e),
                ));
            },
            None => {},
        }
        i += 1;
    }
    assert(files_view(files@).subrange(0, files@.len() as int) =~= files_view(files@));
    let ghost f = found@;
    let r = sort_active_experiments(found);
    assert(sort_by_recency(f) == r@);
    r
}

} // verus!
