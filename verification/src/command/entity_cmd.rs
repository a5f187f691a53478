//! `entity delete`: what deleting an entity reports.

use vstd::prelude::*;
use vstd::string::*;
use crate::command::output::CommandOutput;
use crate::domain::entity::Entity;
use crate::text::{decimal, usize_text};

verus! {

/// The report of an entity that is not in the model: exit code 1.
pub fn entity_not_found(name: &str) -> (r: CommandOutput)
    ensures
        r.text@ == "entity not found: "@ + name@,
        r.exit_code == 1,
        !r.has_drift,
        r.metrics is None,
{
    let mut s = String::from_str("entity not found: ");
    s.append(name);
    CommandOutput::with_exit_code(s, 1)
}

/// The report of deleting an entity that had `assertions` assertions and
/// `relations` relations; a count that is zero gets no line.
pub open spec fn spec_deletion_report(e: Entity, assertions: nat, relations: nat) -> Seq<char> {
    "deleting entity: "@ + e.qualified_name@ + " ["@ + e.kind.text() + "]\n"@ + (if assertions > 0 {
        "  assertions: "@ + decimal(assertions) + "\n"@
    } else {
        Seq::empty()
    }) + (if relations > 0 {
        "  relations: "@ + decimal(relations) + "\n"@
    } else {
        Seq::empty()
    }) + "entity deleted"@
}

/// The report of deleting an entity.
pub fn deletion_report(e: &Entity, assertions: usize, relations: usize) -> (r: String)
    ensures
        r@ == spec_deletion_report(*e, assertions as nat, relations as nat),
{
    let mut s = String::from_str("deleting entity: ");
    s.append(e.qualified_name.as_str());
    s.append(" [");
    s.append(e.kind.as_str());
    s.append("]\n");
    if assertions > 0 {
        s.append("  assertions: ");
        s.append(usize_text(assertions).as_str());
        s.append("\n");
    }
    if relations > 0 {
        s.append("  relations: ");
        s.append(usize_text(relations).as_str());
        s.append("\n");
    }
    s.append("entity deleted");
    s
}

/// The changelog detail of deleting an entity.
pub fn deletion_detail(name: &str, assertions: usize, relations: usize) -> (r: String)
    ensures
        r@ == "deleted entity "@ + name@ + " with "@ + decimal(assertions as nat) + " assertions, "@
            + decimal(relations as nat) + " relations"@,
{
    let mut s = String::from_str("deleted entity ");
    s.append(name);
    s.append(" with ");
    s.append(usize_text(assertions).as_str());
    s.append(" assertions, ");
    s.append(usize_text(relations).as_str());
    s.append(" relations");
    s
}

} // verus!
