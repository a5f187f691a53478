//! `experiment`: the parts of the experiment commands that do not touch the
//! experiment store: arguments, descriptions, scout suggestions.

use vstd::prelude::*;
use vstd::string::*;
use crate::domain::assertion::{short_chars, short_id_string, AssertionKind};
use crate::domain::relations::EntityRelationKind;
use crate::domain::report::{ScoutAction, ScoutSuggestion};
use crate::order::strs_view;
use crate::text::{decimal, usize_text};

verus! {

/// Arguments of `experiment try`.
#[derive(Debug)]
pub struct TryArgs {
    pub entity: String,
    pub kind: AssertionKind,
    pub claim: String,
    pub grounds: String,
    pub desc: Option<String>,
    pub depends_on: Option<String>,
    /// The model directory experiments are saved in.
    pub cog_dir: String,
}

impl TryArgs {
    /// The experiment's description: the given one, or `<entity>: <claim>`.
    pub fn description(&self) -> (r: String)
        ensures
            r@ == match self.desc {
                Some(d) => d@,
                None => self.entity@ + ": "@ + self.claim@,
            },
    {
        match &self.desc {
            Some(d) => d.clone(),
            None => {
                let mut s = self.entity.clone();
                s.append(": ");
                s.append(self.claim.as_str());
                s
            },
        }
    }
}

/// The view of a scout suggestion.
pub open spec fn scout_view(s: ScoutSuggestion) -> (Seq<char>, Seq<char>, Seq<char>, ScoutAction) {
    (s.entity_name@, s.entity_kind@, s.reason@, s.action)
}

/// The suggestion for one blind entity: assert something about it.
pub open spec fn blind_scout(name: Seq<char>) -> (Seq<char>, Seq<char>, Seq<char>, ScoutAction) {
    (name, "entity"@, "blind (no assertions)"@, ScoutAction::Assert)
}

/// One scout suggestion per blind entity of an evaluation, in order.
pub fn generate_scout_suggestions(blind_entities: &Vec<String>) -> (r: Vec<ScoutSuggestion>)
    ensures
        r@.map_values(|s: ScoutSuggestion| scout_view(s)) == strs_view(blind_entities@).map_values(
            |n: Seq<char>| blind_scout(n),
        ),
{
    let ghost bv = strs_view(blind_entities@);
    let mut out: Vec<ScoutSuggestion> = Vec::new();
    let mut i: usize = 0;
    while i < blind_entities.len()
        invariant
            i <= bv.len(),
            bv == strs_view(blind_entities@),
            out@.map_values(|s: ScoutSuggestion| scout_view(s)) == bv.subrange(0, i as int).map_values(
                |n: Seq<char>| blind_scout(n),
            ),
        decreases bv.len() - i,
    {
        let ghost o0 = out@.map_values(|s: ScoutSuggestion| scout_view(s));
        out.push(
            ScoutSuggestion {
                entity_name: blind_entities[i].clone(),
                entity_kind: String::from_str("entity"),
                reason: String::from_str("blind (no assertions)"),
                action: ScoutAction::Assert,
            },
        );
        assert(out@.map_values(|s: ScoutSuggestion| scout_view(s)) =~= o0.push(blind_scout(bv[i as int])));
        assert(bv.subrange(0, i + 1).map_values(|n: Seq<char>| blind_scout(n)) =~= bv.subrange(
            0,
            i as int,
        ).map_values(|n: Seq<char>| blind_scout(n)).push(blind_scout(bv[i as int])));
        i += 1;
    }
    assert(bv.subrange(0, bv.len() as int) =~= bv);
    out
}

/// The description of a new experiment: the given one, else
/// `experiment on <entity>`.
pub fn start_description(entity: &str, description: Option<String>) -> (r: String)
    ensures
        description matches Some(d) ==> r == d,
        description is None ==> r@ == "experiment on "@ + entity@,
{
    match description {
        Some(d) => d,
        None => {
            let mut s = String::from_str("experiment on ");
            s.append(entity);
            s
        },
    }
}

/// The report of starting an experiment.
pub open spec fn spec_started_message(
    id: Seq<char>,
    focus: Seq<char>,
    entities: nat,
    assertions: nat,
    boundary: nat,
) -> Seq<char> {
    "experiment started: "@ + short_chars(id) + " (focus: "@ + focus + ")\nloaded "@ + decimal(entities)
        + " entities, "@ + decimal(assertions) + " assertions\nboundary: "@ + decimal(boundary)
        + " entities\nstatus: draft (unsaved)\nuse 'cog experiment save --id "@ + short_chars(id)
        + "' to checkpoint"@
}

/// The report of starting an experiment on `focus` that loaded `entities`
/// entities and `assertions` assertions, with `boundary` entities at its
/// boundary.
pub fn started_message(id: &str, focus: &str, entities: usize, assertions: usize, boundary: usize) -> (r:
    String)
    ensures
        r@ == spec_started_message(id@, focus@, entities as nat, assertions as nat, boundary as nat),
{
    let short = short_id_string(id);
    let mut s = String::from_str("experiment started: ");
    s.append(short.as_str());
    s.append(" (focus: ");
    s.append(focus);
    s.append(")\nloaded ");
    s.append(usize_text(entities).as_str());
    s.append(" entities, ");
    s.append(usize_text(assertions).as_str());
    s.append(" assertions\nboundary: ");
    s.append(usize_text(boundary).as_str());
    s.append(" entities\nstatus: draft (unsaved)\nuse 'cog experiment save --id ");
    s.append(short.as_str());
    s.append("' to checkpoint");
    s
}

/// The report of adding a hypothesis to an experiment that then holds
/// `ops` operations.
pub fn hypothesis_added_message(id: &str, ops: usize) -> (r: String)
    ensures
        r@ == "hypothesis added to experiment "@ + short_chars(id@) + " ("@ + decimal(ops as nat)
            + " ops total)"@,
{
    let mut s = String::from_str("hypothesis added to experiment ");
    s.append(short_id_string(id).as_str());
    s.append(" (");
    s.append(usize_text(ops).as_str());
    s.append(" ops total)");
    s
}

/// The report of staging the deletion of an entity in an experiment.
pub fn staged_delete_message(entity: &str, id: &str) -> (r: String)
    ensures
        r@ == "staged hypothetical delete of entity "@ + entity@ + " on experiment "@ + short_chars(id@),
{
    let mut s = String::from_str("staged hypothetical delete of entity ");
    s.append(entity);
    s.append(" on experiment ");
    s.append(short_id_string(id).as_str());
    s
}

/// The report of staging a relation in an experiment.
pub fn staged_relation_message(from: &str, to: &str, kind: EntityRelationKind, id: &str) -> (r: String)
    ensures
        r@ == "staged hypothetical relation "@ + from@ + " -> "@ + to@ + " ("@ + kind.text()
            + ") on experiment "@ + short_chars(id@),
{
    let mut s = String::from_str("staged hypothetical relation ");
    s.append(from);
    s.append(" -> ");
    s.append(to);
    s.append(" (");
    s.append(kind.as_str());
    s.append(") on experiment ");
    s.append(short_id_string(id).as_str());
    s
}

/// The detail lines of a commit, each indented by two spaces.
pub open spec fn detail_lines(details: Seq<Seq<char>>) -> Seq<char>
    decreases details.len(),
{
    if details.len() == 0 {
        Seq::empty()
    } else {
        detail_lines(details.drop_last()) + "  "@ + details.last() + "\n"@
    }
}

/// The report of committing an experiment.
pub open spec fn spec_committed_message(
    id: Seq<char>,
    applied: nat,
    skipped: nat,
    details: Seq<Seq<char>>,
) -> Seq<char> {
    "experiment "@ + short_chars(id) + " committed\napplied: "@ + decimal(applied) + " ops, skipped: "@
        + decimal(skipped) + "\n"@ + detail_lines(details)
}

/// The report of committing an experiment: how many of its operations were
/// applied and skipped, then one line per detail.
pub fn committed_message(id: &str, applied: usize, skipped: usize, details: &Vec<String>) -> (r: String)
    ensures
        r@ == spec_committed_message(id@, applied as nat, skipped as nat, strs_view(details@)),
{
    let ghost dv = strs_view(details@);
    let mut s = String::from_str("experiment ");
    s.append(short_id_string(id).as_str());
    s.append(" committed\napplied: ");
    s.append(usize_text(applied).as_str());
    s.append(" ops, skipped: ");
    s.append(usize_text(skipped).as_str());
    s.append("\n");
    let ghost head = s@;
    let mut i: usize = 0;
    while i < details.len()
        invariant
            i <= dv.len(),
            dv == strs_view(details@),
            s@ == head + detail_lines(dv.subrange(0, i as int)),
        decreases dv.len() - i,
    {
        assert(dv.subrange(0, i + 1).drop_last() =~= dv.subrange(0, i as int));
        s.append("  ");
        s.append(details[i].as_str());
        s.append("\n");
        i = i + 1;
    }
    assert(dv.subrange(0, dv.len() as int) =~= dv);
    s
}

/// The report of discarding an experiment.
pub fn discarded_message(id: &str) -> (r: String)
    ensures
        r@ == "experiment "@ + short_chars(id@) + " discarded"@,
{
    let mut s = String::from_str("experiment ");
    s.append(short_id_string(id).as_str());
    s.append(" discarded");
    s
}

/// The entity a tried hypothesis is about: the experiment's resolved focus
/// when the model has it, else the name as given.
pub fn hypothesis_entity(entity: &str, focus: &str, focus_exists: bool) -> (r: String)
    ensures
        r@ == if focus_exists { focus@ } else { entity@ },
{
    if focus_exists {
        focus.to_string()
    } else {
        entity.to_string()
    }
}

/// The note printed when a tried hypothesis names an entity the model does
/// not have.
pub open spec fn missing_entity_note(entity: Seq<char>) -> Seq<char> {
    "Note: entity \""@ + entity
        + "\" does not exist in the model yet. Committing will create it as a provisional entity (origin=experiment). Run `cog sync` after implementing the code to promote it.\n"@
}

/// The opening of the `experiment try` report.
pub open spec fn spec_try_intro(
    id: Seq<char>,
    description: Seq<char>,
    kind: AssertionKind,
    target: Seq<char>,
    claim: Seq<char>,
    entity: Seq<char>,
    focus_exists: bool,
) -> Seq<char> {
    "Experiment "@ + short_chars(id) + ": \""@ + description + "\"\n\nHypothesis:\n  + ["@ + kind.text()
        + "] "@ + target + ": \""@ + claim + "\"\n\n"@ + if focus_exists {
        Seq::empty()
    } else {
        missing_entity_note(entity)
    }
}

/// The opening of the `experiment try` report: the experiment, the
/// hypothesis on `target`, and a note when the entity as given is not in
/// the model.
pub fn try_intro(
    id: &str,
    description: &str,
    kind: AssertionKind,
    target: &str,
    claim: &str,
    entity: &str,
    focus_exists: bool,
) -> (r: String)
    ensures
        r@ == spec_try_intro(id@, description@, kind, target@, claim@, entity@, focus_exists),
{
    let mut s = String::from_str("Experiment ");
    s.append(short_id_string(id).as_str());
    s.append(": \"");
    s.append(description);
    s.append("\"\n\nHypothesis:\n  + [");
    s.append(kind.as_str());
    s.append("] ");
    s.append(target);
    s.append(": \"");
    s.append(claim);
    s.append("\"\n\n");
    if !focus_exists {
        s.append("Note: entity \"");
        s.append(entity);
        s.append(
            "\" does not exist in the model yet. Committing will create it as a provisional entity (origin=experiment). Run `cog sync` after implementing the code to promote it.\n",
        );
    }
    s
}

/// The closing of the `experiment try` report.
pub fn try_outro(id: &str) -> (r: String)
    ensures
        r@ == "\nNext: cog experiment commit "@ + short_chars(id@) + "  # or: cog experiment discard "@
            + short_chars(id@) + "\n"@,
{
    let short = short_id_string(id);
    let mut s = String::from_str("\nNext: cog experiment commit ");
    s.append(short.as_str());
    s.append("  # or: cog experiment discard ");
    s.append(short.as_str());
    s.append("\n");
    s
}

} // verus!
