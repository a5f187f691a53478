//! `export`: the Graphviz rendering of a model snapshot.  JSON and TOML
//! exports are serialisations of the snapshot and are left to the caller.

use vstd::prelude::*;
use vstd::string::*;
use crate::domain::assertion::Assertion;
use crate::domain::entity::Entity;
use crate::domain::relations::{AssertionRelation, EntityRelation};
use crate::domain::report::ModelSnapshot;
use crate::text::{chars_of, replace_all, replace_char, string_of};

verus! {

/// A claim with every `"` escaped as `\"`.
pub open spec fn escaped(claim: Seq<char>) -> Seq<char> {
    replace_char(claim, '"', seq!['\\', '"'])
}

/// The node line of an entity.
pub open spec fn entity_line(e: Entity) -> Seq<char> {
    "  \"entity:"@ + e.id@ + "\" [shape=box,label=\""@ + e.qualified_name@ + "\\n"@
        + e.kind.text() + "\"];\n"@
}

/// The node line of an assertion and its `has` edge from its entity.
pub open spec fn assertion_lines(a: Assertion) -> Seq<char> {
    "  \"assertion:"@ + a.id@ + "\" [shape=ellipse,label=\""@ + a.kind.text() + "\\n"@ + escaped(
        a.claim@,
    ) + "\"];\n"@ + "  \"entity:"@ + a.entity_id@ + "\" -> \"assertion:"@ + a.id@
        + "\" [label=\"has\"];\n"@
}

/// The edge line of an entity relation.
pub open spec fn entity_relation_line(r: EntityRelation) -> Seq<char> {
    "  \"entity:"@ + r.from_entity@ + "\" -> \"entity:"@ + r.to_entity@ + "\" [label=\""@
        + r.kind.text() + "\"];\n"@
}

/// The edge line of an assertion relation.
pub open spec fn assertion_relation_line(r: AssertionRelation) -> Seq<char> {
    "  \"assertion:"@ + r.from_assertion@ + "\" -> \"assertion:"@ + r.to_assertion@
        + "\" [label=\""@ + r.kind.text() + "\"];\n"@
}

pub open spec fn entity_lines(s: Seq<Entity>) -> Seq<char>
    decreases s.len(),
{
    if s.len() == 0 {
        seq![]
    } else {
        entity_lines(s.drop_last()) + entity_line(s.last())
    }
}

pub open spec fn all_assertion_lines(s: Seq<Assertion>) -> Seq<char>
    decreases s.len(),
{
    if s.len() == 0 {
        seq![]
    } else {
        all_assertion_lines(s.drop_last()) + assertion_lines(s.last())
    }
}

pub open spec fn entity_relation_lines(s: Seq<EntityRelation>) -> Seq<char>
    decreases s.len(),
{
    if s.len() == 0 {
        seq![]
    } else {
        entity_relation_lines(s.drop_last()) + entity_relation_line(s.last())
    }
}

pub open spec fn assertion_relation_lines(s: Seq<AssertionRelation>) -> Seq<char>
    decreases s.len(),
{
    if s.len() == 0 {
        seq![]
    } else {
        assertion_relation_lines(s.drop_last()) + assertion_relation_line(s.last())
    }
}

/// The Graphviz digraph of a snapshot: entities as boxes, assertions as
/// ellipses tied to their entity, then the entity and assertion relations.
pub open spec fn spec_dot(s: ModelSnapshot) -> Seq<char> {
    "digraph cognitive_model {\n  rankdir=LR;\n"@ + entity_lines(s.entities@) + all_assertion_lines(
        s.assertions@,
    ) + entity_relation_lines(s.entity_relations@) + assertion_relation_lines(
        s.assertion_relations@,
    ) + "}\n"@
}

fn entity_text(e: &Entity) -> (r: String)
    ensures
        r@ == entity_line(*e),
{
    let mut out = String::from_str("  \"entity:");
    out.append(e.id.as_str());
    out.append("\" [shape=box,label=\"");
    out.append(e.qualified_name.as_str());
    out.append("\\n");
    out.append(e.kind.as_str());
    out.append("\"];\n");
    out
}

fn assertion_text(x: &Assertion) -> (r: String)
    ensures
        r@ == assertion_lines(*x),
{
    let quote_to = vec!['\\', '"'];
    let claim = string_of(&replace_all(&chars_of(x.claim.as_str()), '"', &quote_to));
    let mut out = String::from_str("  \"assertion:");
    out.append(x.id.as_str());
    out.append("\" [shape=ellipse,label=\"");
    out.append(x.kind.as_str());
    out.append("\\n");
    out.append(claim.as_str());
    out.append("\"];\n");
    let ghost first = out@;
    let mut edge = String::from_str("  \"entity:");
    edge.append(x.entity_id.as_str());
    edge.append("\" -> \"assertion:");
    edge.append(x.id.as_str());
    edge.append("\" [label=\"has\"];\n");
    out.append(edge.as_str());
    out
}

fn entity_relation_text(r: &EntityRelation) -> (o: String)
    ensures
        o@ == entity_relation_line(*r),
{
    let mut out = String::from_str("  \"entity:");
    out.append(r.from_entity.as_str());
    out.append("\" -> \"entity:");
    out.append(r.to_entity.as_str());
    out.append("\" [label=\"");
    out.append(r.kind.as_str());
    out.append("\"];\n");
    out
}

fn assertion_relation_text(r: &AssertionRelation) -> (o: String)
    ensures
        o@ == assertion_relation_line(*r),
{
    let mut out = String::from_str("  \"assertion:");
    out.append(r.from_assertion.as_str());
    out.append("\" -> \"assertion:");
    out.append(r.to_assertion.as_str());
    out.append("\" [label=\"");
    out.append(r.kind.as_str());
    out.append("\"];\n");
    out
}

/// Renders a snapshot as a Graphviz digraph.
pub fn snapshot_to_dot(snapshot: &ModelSnapshot) -> (r: String)
    ensures
        r@ == spec_dot(*snapshot),
{
    let mut out = String::from_str("digraph cognitive_model {\n  rankdir=LR;\n");
    let ghost h0 = out@;
    let ghost es = snapshot.entities@;
    let mut i: usize = 0;
    while i < snapshot.entities.len()
        invariant
            i <= es.len(),
            es == snapshot.entities@,
            out@ == h0 + entity_lines(es.subrange(0, i as int)),
        decreases es.len() - i,
    {
        out.append(entity_text(&snapshot.entities[i]).as_str());
        assert(es.subrange(0, i + 1).drop_last() =~= es.subrange(0, i as int));
        i += 1;
    }
    assert(es.subrange(0, es.len() as int) =~= es);
    let ghost h1 = out@;
    let ghost a = snapshot.assertions@;
    let mut j: usize = 0;
    while j < snapshot.assertions.len()
        invariant
            j <= a.len(),
            a == snapshot.assertions@,
            out@ == h1 + all_assertion_lines(a.subrange(0, j as int)),
        decreases a.len() - j,
    {
        out.append(assertion_text(&snapshot.assertions[j]).as_str());
        assert(a.subrange(0, j + 1).drop_last() =~= a.subrange(0, j as int));
        j += 1;
    }
    assert(a.subrange(0, a.len() as int) =~= a);
    let ghost h2 = out@;
    let ghost er = snapshot.entity_relations@;
    let mut k: usize = 0;
    while k < snapshot.entity_relations.len()
        invariant
            k <= er.len(),
            er == snapshot.entity_relations@,
            out@ == h2 + entity_relation_lines(er.subrange(0, k as int)),
        decreases er.len() - k,
    {
        out.append(entity_relation_text(&snapshot.entity_relations[k]).as_str());
        assert(er.subrange(0, k + 1).drop_last() =~= er.subrange(0, k as int));
        k += 1;
    }
    assert(er.subrange(0, er.len() as int) =~= er);
    let ghost h3 = out@;
    let ghost ar = snapshot.assertion_relations@;
    let mut m: usize = 0;
    while m < snapshot.assertion_relations.len()
        invariant
            m <= ar.len(),
            ar == snapshot.assertion_relations@,
            out@ == h3 + assertion_relation_lines(ar.subrange(0, m as int)),
        decreases ar.len() - m,
    {
        out.append(assertion_relation_text(&snapshot.assertion_relations[m]).as_str());
        assert(ar.subrange(0, m + 1).drop_last() =~= ar.subrange(0, m as int));
        m += 1;
    }
    assert(ar.subrange(0, ar.len() as int) =~= ar);
    out.append("}\n");
    out
}

} // verus!
