//! `assert`: recording a knowledge claim, with the rule that keeps an entity
//! from holding two active assertions of one kind unless asked to.

use vstd::prelude::*;
use vstd::string::*;
use crate::cli::OutputFormat;
use crate::domain::assertion::{
    short_chars, short_id_string, Assertion, AssertionKind, AssertionStatus,
};
use crate::domain::entity::Entity;
use crate::text::{decimal, str_is, usize_text};

verus! {

/// Bundled input of `assert`.
#[derive(Debug)]
pub struct AssertInput<'a> {
    pub entity: &'a str,
    pub kind: AssertionKind,
    pub claim: &'a str,
    pub grounds: &'a str,
    pub depends_on: Option<&'a str>,
    /// Assertion to retract before creating this one.
    pub replace_id: Option<&'a str>,
    /// Create alongside existing active assertions (for different aspects).
    pub force: bool,
    pub output: OutputFormat,
}

/// The active assertions of kind `kind` among `a[..n]`, in order.
pub open spec fn active_of_kind(a: Seq<Assertion>, kind: AssertionKind, n: int) -> Seq<Assertion>
    decreases n,
{
    if n <= 0 || n > a.len() {
        seq![]
    } else {
        active_of_kind(a, kind, n - 1) + if a[n - 1].status == AssertionStatus::Active && a[n
            - 1].kind == kind {
            seq![a[n - 1]]
        } else {
            seq![]
        }
    }
}

/// What `active_of_kind` keeps: every assertion it lists is active and of
/// `kind` and comes from `a[..n]`, and every active assertion of `kind` in
/// `a[..n]` is listed.
pub proof fn lemma_active_of_kind(a: Seq<Assertion>, kind: AssertionKind, n: int)
    requires
        0 <= n <= a.len(),
    ensures
        forall|j: int|
            0 <= j < active_of_kind(a, kind, n).len() ==> {
                let x = #[trigger] active_of_kind(a, kind, n)[j];
                &&& x.status == AssertionStatus::Active
                &&& x.kind == kind
                &&& a.subrange(0, n).contains(x)
            },
        forall|i: int|
            0 <= i < n && (#[trigger] a[i]).status == AssertionStatus::Active && a[i].kind == kind
                ==> active_of_kind(a, kind, n).contains(a[i]),
    decreases n,
{
    if n > 0 {
        lemma_active_of_kind(a, kind, n - 1);
        let prev = active_of_kind(a, kind, n - 1);
        let r = active_of_kind(a, kind, n);
        assert forall|j: int| 0 <= j < r.len() implies {
            let x = #[trigger] r[j];
            &&& x.status == AssertionStatus::Active
            &&& x.kind == kind
            &&& a.subrange(0, n).contains(x)
        } by {
            if j < prev.len() {
                assert(r[j] == prev[j]);
                let k = choose|k: int| 0 <= k < n - 1 && #[trigger] a.subrange(0, n - 1)[k] == prev[j];
                assert(a.subrange(0, n)[k] == prev[j]);
            } else {
                assert(r[j] == a[n - 1]);
                assert(a.subrange(0, n)[n - 1] == a[n - 1]);
            }
        }
        assert forall|i: int|
            0 <= i < n && (#[trigger] a[i]).status == AssertionStatus::Active && a[i].kind == kind
                implies r.contains(a[i]) by {
            if i < n - 1 {
                let k = choose|k: int| 0 <= k < prev.len() && #[trigger] prev[k] == a[i];
                assert(r[k] == a[i]);
            } else {
                assert(r[prev.len() as int] == a[i]);
            }
        }
    }
}

/// The kind rule looks at the requested kind only: when no existing assertion
/// is both active and of `kind`, the assertion goes ahead, whatever other
/// assertions are active and whatever the flags.
pub proof fn lemma_kind_gate_ignores_other_kinds(
    entity: Entity,
    existing: Seq<Assertion>,
    kind: AssertionKind,
    replace: bool,
    force: bool,
)
    requires
        forall|i: int|
            0 <= i < existing.len() ==> !((#[trigger] existing[i]).status == AssertionStatus::Active
                && existing[i].kind == kind),
    ensures
        spec_kind_rule(entity, existing, kind, replace, force) is None,
{
    lemma_active_of_kind(existing, kind, existing.len() as int);
    let same = active_of_kind(existing, kind, existing.len() as int);
    if same.len() > 0 {
        let x = same[0];
        assert(existing.subrange(0, existing.len() as int) =~= existing);
        let k = choose|k: int| 0 <= k < existing.len() && #[trigger] existing[k] == x;
    }
}

/// The kind rule holds on an active assertion of the requested kind: without
/// `--replace` or `--force` the new one is blocked; with `--replace` the
/// replacement is checked first; with only `--force` it goes ahead.
pub proof fn lemma_kind_gate_blocks_same_kind(
    entity: Entity,
    existing: Seq<Assertion>,
    kind: AssertionKind,
    replace: bool,
    force: bool,
    i: int,
)
    requires
        0 <= i < existing.len(),
        existing[i].status == AssertionStatus::Active,
        existing[i].kind == kind,
    ensures
        !replace && !force ==> spec_kind_rule(entity, existing, kind, replace, force) matches Some(
            Some(_),
        ),
        replace ==> spec_kind_rule(entity, existing, kind, replace, force) == Some(None::<Seq<char>>),
        !replace && force ==> spec_kind_rule(entity, existing, kind, replace, force) is None,
{
    lemma_active_of_kind(existing, kind, existing.len() as int);
}

/// Whether an assertion may be made, as the kind rule decides it.
#[derive(Debug)]
pub enum KindDecision {
    /// Nothing stands in the way.
    Proceed,
    /// The assertion to replace must be looked up and checked first.
    CheckReplacement,
    /// Blocked, with the message that lists the active assertions.
    Blocked(String),
}

/// The lines listing the active assertions `s`: `  <short id>: "<claim>"`.
pub open spec fn listing(s: Seq<Assertion>) -> Seq<char>
    decreases s.len(),
{
    if s.len() == 0 {
        seq![]
    } else {
        listing(s.drop_last()) + "  "@ + short_chars(s.last().id@) + ": \""@ + s.last().claim@
            + "\"\n"@
    }
}

/// The message of a blocked assertion.
pub open spec fn blocked_message(qname: Seq<char>, kind: AssertionKind, same: Seq<Assertion>) -> Seq<
    char,
> {
    let plural: Seq<char> = if same.len() == 1 {
        ""@
    } else {
        "s"@
    };
    qname + " already has "@ + decimal(same.len()) + " active "@ + kind.text() + " assertion"@
        + plural + ":\n"@ + listing(same) + "Avoid contradictory assertions on the same entity.\n"@
        + "  --replace "@ + short_chars(same[0].id@)
        + "   Replace that one and create this new assertion\n"@
        + "  --force          Create alongside (only if this describes a different aspect)"@
}

/// The kind rule: go ahead when no active assertion of `kind` exists;
/// otherwise check the replacement when one is named, go ahead when forced,
/// and block otherwise.
pub open spec fn spec_kind_rule(
    entity: Entity,
    existing: Seq<Assertion>,
    kind: AssertionKind,
    replace: bool,
    force: bool,
) -> Option<Option<Seq<char>>> {
    let same = active_of_kind(existing, kind, existing.len() as int);
    if same.len() == 0 {
        None
    } else if replace {
        Some(None)
    } else if force {
        None
    } else {
        Some(Some(blocked_message(entity.qualified_name@, kind, same)))
    }
}

/// The view of a decision in terms of [`spec_kind_rule`].
pub open spec fn decision_view(d: KindDecision) -> Option<Option<Seq<char>>> {
    match d {
        KindDecision::Proceed => None,
        KindDecision::CheckReplacement => Some(None),
        KindDecision::Blocked(m) => Some(Some(m@)),
    }
}

/// Decides whether an assertion of `kind` may be created on `entity`, whose
/// assertions are `existing`.
pub fn enforce_kind_gate(
    entity: &Entity,
    existing: &Vec<Assertion>,
    kind: AssertionKind,
    replace: bool,
    force: bool,
) -> (r: KindDecision)
    ensures
        decision_view(r) == spec_kind_rule(*entity, existing@, kind, replace, force),
{
    let ghost a = existing@;
    let mut same: Vec<Assertion> = Vec::new();
    let mut i: usize = 0;
    while i < existing.len()
        invariant
            i <= a.len(),
            a == existing@,
            same@ == active_of_kind(a, kind, i as int),
        decreases a.len() - i,
    {
        if existing[i].is_active() && existing[i].kind == kind {
            same.push(existing[i].clone());
        }
        assert(same@ =~= active_of_kind(a, kind, i + 1));
        i += 1;
    }
    if same.len() == 0 {
        return KindDecision::Proceed;
    }
    if replace {
        return KindDecision::CheckReplacement;
    }
    if force {
        return KindDecision::Proceed;
    }
    let ghost sv = same@;
    let mut msg = entity.qualified_name.clone();
    msg.append(" already has ");
    msg.append(usize_text(same.len()).as_str());
    msg.append(" active ");
    msg.append(kind.as_str());
    msg.append(" assertion");
    msg.append(if same.len() == 1 {
        ""
    } else {
        "s"
    });
    msg.append(":\n");
    let ghost head = msg@;
    let mut k: usize = 0;
    while k < same.len()
        invariant
            k <= sv.len(),
            sv == same@,
            msg@ == head + listing(sv.subrange(0, k as int)),
        decreases sv.len() - k,
    {
        msg.append("  ");
        msg.append(short_id_string(same[k].id.as_str()).as_str());
        msg.append(": \"");
        msg.append(same[k].claim.as_str());
        msg.append("\"\n");
        assert(sv.subrange(0, k + 1).drop_last() =~= sv.subrange(0, k as int));
        k += 1;
    }
    assert(sv.subrange(0, sv.len() as int) =~= sv);
    msg.append("Avoid contradictory assertions on the same entity.\n");
    msg.append("  --replace ");
    msg.append(short_id_string(same[0].id.as_str()).as_str());
    msg.append("   Replace that one and create this new assertion\n");
    msg.append("  --force          Create alongside (only if this describes a different aspect)");
    KindDecision::Blocked(msg)
}

/// Why a named replacement is refused, or `None` when it may go ahead: it
/// must exist, be active, and be an assertion of `kind` on `entity`.
pub open spec fn spec_replacement_error(
    id: Seq<char>,
    target: Option<&Assertion>,
    entity: Entity,
    kind: AssertionKind,
) -> Option<Seq<char>> {
    match target {
        None => Some("assertion not found: "@ + id),
        Some(t) => if t.status != AssertionStatus::Active {
            Some("assertion "@ + id + " is already retracted"@)
        } else if t.entity_id@ != entity.id@ || t.kind != kind {
            Some(
                "assertion "@ + id + " is not a "@ + kind.text() + " assertion on "@
                    + entity.qualified_name@,
            )
        } else {
            None
        },
    }
}

/// Checks the assertion named by `--replace <id>` (`target`, when it was
/// found); the error message when it cannot be replaced.
pub fn check_replacement(
    id: &str,
    target: Option<&Assertion>,
    entity: &Entity,
    kind: AssertionKind,
) -> (r: Option<String>)
    ensures
        match r {
            None => spec_replacement_error(id@, target, *entity, kind) is None,
            Some(m) => spec_replacement_error(id@, target, *entity, kind)
                == Some(m@),
        },
{
    match target {
        None => {
            let mut m = String::from_str("assertion not found: ");
            m.append(id);
            Some(m)
        },
        Some(t) => {
            if !t.is_active() {
                let mut m = String::from_str("assertion ");
                m.append(id);
                m.append(" is already retracted");
                Some(m)
            } else if !str_is(t.entity_id.as_str(), entity.id.as_str()) || t.kind != kind {
                let mut m = String::from_str("assertion ");
                m.append(id);
                m.append(" is not a ");
                m.append(kind.as_str());
                m.append(" assertion on ");
                m.append(entity.qualified_name.as_str());
                Some(m)
            } else {
                None
            }
        },
    }
}

/// The retraction reason of a replaced assertion.
pub fn replace_reason(kind: AssertionKind) -> (r: String)
    ensures
        r@ == "replaced by newer "@ + kind.text() + " assertion"@,
{
    let mut s = String::from_str("replaced by newer ");
    s.append(kind.as_str());
    s.append(" assertion");
    s
}

/// The lines naming the auto-retracted assertions.
pub open spec fn retracted_lines(ids: Seq<Seq<char>>) -> Seq<char>
    decreases ids.len(),
{
    if ids.len() == 0 {
        seq![]
    } else {
        retracted_lines(ids.drop_last()) + "Auto-retracted "@ + short_chars(ids.last())
            + " (replaced).\n"@
    }
}

/// The message after an assertion replaced others: what was created, and
/// which assertions were retracted.
pub open spec fn spec_replaced_message(a: Assertion, e: Entity, retracted: Seq<Seq<char>>) -> Seq<
    char,
> {
    "Created "@ + short_chars(a.id@) + " ["@ + a.kind.text() + "] on "@ + e.qualified_name@
        + "\n  \""@ + a.claim@ + "\"\n\n"@ + retracted_lines(retracted)
}

/// Exec form of [`spec_replaced_message`].
pub fn format_replaced_message(a: &Assertion, e: &Entity, retracted_ids: &Vec<String>) -> (r:
    String)
    ensures
        r@ == spec_replaced_message(*a, *e, crate::order::strs_view(retracted_ids@)),
{
    let ghost rv = crate::order::strs_view(retracted_ids@);
    let mut msg = String::from_str("Created ");
    msg.append(short_id_string(a.id.as_str()).as_str());
    msg.append(" [");
    msg.append(a.kind.as_str());
    msg.append("] on ");
    msg.append(e.qualified_name.as_str());
    msg.append("\n  \"");
    msg.append(a.claim.as_str());
    msg.append("\"\n\n");
    let ghost head = msg@;
    let mut i: usize = 0;
    while i < retracted_ids.len()
        invariant
            i <= rv.len(),
            rv == crate::order::strs_view(retracted_ids@),
            msg@ == head + retracted_lines(rv.subrange(0, i as int)),
        decreases rv.len() - i,
    {
        msg.append("Auto-retracted ");
        msg.append(short_id_string(retracted_ids[i].as_str()).as_str());
        msg.append(" (replaced).\n");
        assert(rv.subrange(0, i + 1).drop_last() =~= rv.subrange(0, i as int));
        i += 1;
    }
    assert(rv.subrange(0, rv.len() as int) =~= rv);
    msg
}

} // verus!
