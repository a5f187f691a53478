//! `verify`: the structural checks of the model, the comparison of the model
//! against a scan of the code, and the outcome.
//!
//! The caller reads, for each entity in scope, its assertions, its relation
//! count, and for each active assertion its evidence and dependencies; the
//! checks run here on what was read.

use vstd::prelude::*;
use vstd::string::*;
use crate::domain::assertion::{short_chars, short_id_string, Assertion, AssertionStatus};
use crate::domain::display::entities_word;
use crate::domain::entity::{Entity, EntityOrigin};
use crate::domain::evidence::Evidence;
use crate::domain::report::{
    issues_view, IssueV, VerificationIssue, VerificationIssueKind, VerificationReport,
};
use crate::order::{contains_str, spec_without_names, strs_view, without_names};
use crate::text::{chars_of, decimal, has_prefix, starts_with, str_is, usize_text};

verus! {

/// The detail of a dangling `code:` ground.
pub open spec fn dangling_detail(d: Seq<char>) -> Seq<char> {
    "grounds \"code:"@ + d + "\" references entity not in model"@
}

/// The dangling-grounds issues of the evidence `ev[..n]`: each `code:` ground
/// naming an entity that is not in the model (`model`).
pub open spec fn evidence_issues(
    name: Seq<char>,
    aid: Seq<char>,
    ev: Seq<Evidence>,
    model: Seq<Seq<char>>,
    n: int,
) -> Seq<IssueV>
    decreases n,
{
    if n <= 0 || n > ev.len() {
        seq![]
    } else {
        evidence_issues(name, aid, ev, model, n - 1) + if ev[n - 1].source@ == "code"@
            && !model.contains(ev[n - 1].detail@) {
            seq![
                (
                    VerificationIssueKind::DanglingGrounds,
                    Some(name),
                    Some(aid),
                    dangling_detail(ev[n - 1].detail@),
                ),
            ]
        } else {
            seq![]
        }
    }
}

/// The issue a dependency raises: one for a retracted or an uncertain
/// dependency, none for an active one.
pub open spec fn dep_issue(name: Seq<char>, aid: Seq<char>, dep: Assertion) -> Seq<IssueV> {
    match dep.status {
        AssertionStatus::Retracted => seq![
            (
                VerificationIssueKind::DependencyOnRetracted,
                Some(name),
                Some(aid),
                "depends on retracted assertion "@ + short_chars(dep.id@),
            ),
        ],
        AssertionStatus::Uncertain => seq![
            (
                VerificationIssueKind::DependencyOnUncertain,
                Some(name),
                Some(aid),
                "depends on uncertain assertion "@ + short_chars(dep.id@),
            ),
        ],
        AssertionStatus::Active => seq![],
    }
}

/// The dependency issues of `deps[..n]`, in order.
pub open spec fn dep_issues(name: Seq<char>, aid: Seq<char>, deps: Seq<Assertion>, n: int) -> Seq<
    IssueV,
>
    decreases n,
{
    if n <= 0 || n > deps.len() {
        seq![]
    } else {
        dep_issues(name, aid, deps, n - 1) + dep_issue(name, aid, deps[n - 1])
    }
}

/// The issues of one active assertion `a` of entity `name`: missing
/// evidence, dangling `code:` grounds, then weak dependencies.
pub open spec fn spec_assertion_issues(
    name: Seq<char>,
    a: Assertion,
    ev: Seq<Evidence>,
    deps: Seq<Assertion>,
    model: Seq<Seq<char>>,
) -> Seq<IssueV> {
    (if ev.len() == 0 {
        seq![
            (
                VerificationIssueKind::MissingEvidence,
                Some(name),
                Some(a.id@),
                "active assertion has no evidence"@,
            ),
        ]
    } else {
        seq![]
    }) + evidence_issues(name, a.id@, ev, model, ev.len() as int) + dep_issues(
        name,
        a.id@,
        deps,
        deps.len() as int,
    )
}

/// Checks one active assertion of the entity `entity_name`, given its
/// evidence, its dependencies and the names of all entities in the model.
pub fn check_assertion_issues(
    entity_name: &str,
    assertion: &Assertion,
    evidence: &Vec<Evidence>,
    deps: &Vec<Assertion>,
    model_names: &Vec<String>,
) -> (r: Vec<VerificationIssue>)
    ensures
        issues_view(r@) == spec_assertion_issues(
            entity_name@,
            *assertion,
            evidence@,
            deps@,
            strs_view(model_names@),
        ),
{
    let ghost name = entity_name@;
    let ghost aid = assertion.id@;
    let ghost model = strs_view(model_names@);
    let mut issues: Vec<VerificationIssue> = Vec::new();
    if evidence.len() == 0 {
        issues.push(
            VerificationIssue::new(
                VerificationIssueKind::MissingEvidence,
                entity_name,
                Some(assertion.id.as_str()),
                String::from_str("active assertion has no evidence"),
            ),
        );
    }
    let ghost first = issues_view(issues@);
    assert(first =~= if evidence@.len() == 0 {
        seq![
            (
                VerificationIssueKind::MissingEvidence,
                Some(name),
                Some(aid),
                "active assertion has no evidence"@,
            ),
        ]
    } else {
        seq![]
    });
    let mut i: usize = 0;
    while i < evidence.len()
        invariant
            i <= evidence@.len(),
            name == entity_name@,
            aid == assertion.id@,
            model == strs_view(model_names@),
            issues_view(issues@) == first + evidence_issues(name, aid, evidence@, model, i as int),
        decreases evidence@.len() - i,
    {
        let ev = &evidence[i];
        let ghost i0 = issues_view(issues@);
        if str_is(ev.source.as_str(), "code") && !contains_str(model_names, ev.detail.as_str()) {
            let mut detail = String::from_str("grounds \"code:");
            detail.append(ev.detail.as_str());
            detail.append("\" references entity not in model");
            issues.push(
                VerificationIssue::new(
                    VerificationIssueKind::DanglingGrounds,
                    entity_name,
                    Some(assertion.id.as_str()),
                    detail,
                ),
            );
            assert(issues_view(issues@) =~= i0.push(
                (
                    VerificationIssueKind::DanglingGrounds,
                    Some(name),
                    Some(aid),
                    dangling_detail(ev.detail@),
                ),
            ));
        }
        assert(issues_view(issues@) =~= first + evidence_issues(
            name,
            aid,
            evidence@,
            model,
            i + 1,
        ));
        i += 1;
    }
    let ghost second = issues_view(issues@);
    let mut j: usize = 0;
    while j < deps.len()
        invariant
            j <= deps@.len(),
            name == entity_name@,
            aid == assertion.id@,
            issues_view(issues@) == second + dep_issues(name, aid, deps@, j as int),
        decreases deps@.len() - j,
    {
        let dep = &deps[j];
        let ghost i0 = issues_view(issues@);
        match dep.status {
            AssertionStatus::Retracted => {
                let mut detail = String::from_str("depends on retracted assertion ");
                detail.append(short_id_string(dep.id.as_str()).as_str());
                issues.push(
                    VerificationIssue::new(
                        VerificationIssueKind::DependencyOnRetracted,
                        entity_name,
                        Some(assertion.id.as_str()),
                        detail,
                    ),
                );
                assert(issues_view(issues@) =~= i0 + dep_issue(name, aid, *dep));
            },
            AssertionStatus::Uncertain => {
                let mut detail = String::from_str("depends on uncertain assertion ");
                detail.append(short_id_string(dep.id.as_str()).as_str());
                issues.push(
                    VerificationIssue::new(
                        VerificationIssueKind::DependencyOnUncertain,
                        entity_name,
                        Some(assertion.id.as_str()),
                        detail,
                    ),
                );
                assert(issues_view(issues@) =~= i0 + dep_issue(name, aid, *dep));
            },
            AssertionStatus::Active => {
                assert(issues_view(issues@) =~= i0 + dep_issue(name, aid, *dep));
            },
        }
        assert(issues_view(issues@) =~= second + dep_issues(name, aid, deps@, j + 1));
        j += 1;
    }
    issues
}

/// The number of active assertions of `a[..n]`.
pub open spec fn count_active(a: Seq<Assertion>, n: int) -> nat
    decreases n,
{
    if n <= 0 || n > a.len() {
        0
    } else {
        count_active(a, n - 1) + if a[n - 1].status == AssertionStatus::Active {
            1nat
        } else {
            0nat
        }
    }
}

/// The number of assertions of `a[..n]` that are not retracted (active or
/// uncertain: both still hold knowledge).
pub open spec fn count_non_retracted(a: Seq<Assertion>, n: int) -> nat
    decreases n,
{
    if n <= 0 || n > a.len() {
        0
    } else {
        count_non_retracted(a, n - 1) + if a[n - 1].status != AssertionStatus::Retracted {
            1nat
        } else {
            0nat
        }
    }
}

proof fn lemma_counts_bounded(a: Seq<Assertion>, n: int)
    requires
        0 <= n <= a.len(),
    ensures
        count_active(a, n) <= n,
        count_non_retracted(a, n) <= n,
    decreases n,
{
    if n > 0 {
        lemma_counts_bounded(a, n - 1);
    }
}

/// The detail of an orphan manual entity.
pub open spec fn orphan_detail(active: nat) -> Seq<char> {
    "Manual entity with "@ + decimal(active) + " active assertion(s) but no relations"@
}

/// Whether an entity is isolated: no assertion holding knowledge and no
/// relation.
pub open spec fn is_isolated(a: Seq<Assertion>, relation_count: nat) -> bool {
    count_non_retracted(a, a.len() as int) == 0 && relation_count == 0
}

/// The entity-level issues: isolated entity, then orphan manual entity.
pub open spec fn entity_level_issues(e: Entity, a: Seq<Assertion>, relation_count: nat) -> Seq<
    IssueV,
> {
    let active = count_active(a, a.len() as int);
    (if is_isolated(a, relation_count) {
        seq![
            (
                VerificationIssueKind::IsolatedEntity,
                Some(e.qualified_name@),
                None,
                "entity has no assertions and no relations"@,
            ),
        ]
    } else {
        seq![]
    }) + (if e.origin == EntityOrigin::Manual && relation_count == 0 && active > 0 {
        seq![
            (
                VerificationIssueKind::OrphanManualEntity,
                Some(e.qualified_name@),
                None,
                orphan_detail(active),
            ),
        ]
    } else {
        seq![]
    })
}

/// The issues of the active assertions among `a[..n]`, in order.
pub open spec fn assertions_issues(
    name: Seq<char>,
    a: Seq<Assertion>,
    evs: Seq<Vec<Evidence>>,
    deps: Seq<Vec<Assertion>>,
    model: Seq<Seq<char>>,
    n: int,
) -> Seq<IssueV>
    decreases n,
{
    if n <= 0 || n > a.len() {
        seq![]
    } else {
        assertions_issues(name, a, evs, deps, model, n - 1) + if a[n - 1].status
            == AssertionStatus::Active {
            spec_assertion_issues(name, a[n - 1], evs[n - 1]@, deps[n - 1]@, model)
        } else {
            seq![]
        }
    }
}

/// All issues of one entity.
pub open spec fn spec_entity_issues(
    e: Entity,
    a: Seq<Assertion>,
    relation_count: nat,
    evs: Seq<Vec<Evidence>>,
    deps: Seq<Vec<Assertion>>,
    model: Seq<Seq<char>>,
) -> Seq<IssueV> {
    entity_level_issues(e, a, relation_count) + assertions_issues(
        e.qualified_name@,
        a,
        evs,
        deps,
        model,
        a.len() as int,
    )
}

/// Checks one entity: its assertions `assertions`, its relation count, and
/// for each assertion `i` its evidence `evidence[i]` and dependencies
/// `deps[i]`.  Returns the issues and whether the entity is to be deleted
/// (it is isolated and `clean` is set).
pub fn check_entity(
    entity: &Entity,
    assertions: &Vec<Assertion>,
    relation_count: usize,
    evidence: &Vec<Vec<Evidence>>,
    deps: &Vec<Vec<Assertion>>,
    model_names: &Vec<String>,
    clean: bool,
) -> (r: (Vec<VerificationIssue>, bool))
    requires
        evidence@.len() == assertions@.len(),
        deps@.len() == assertions@.len(),
    ensures
        issues_view(r.0@) == spec_entity_issues(
            *entity,
            assertions@,
            relation_count as nat,
            evidence@,
            deps@,
            strs_view(model_names@),
        ),
        r.1 == (clean && is_isolated(assertions@, relation_count as nat)),
{
    let ghost a = assertions@;
    let mut active: usize = 0;
    let mut non_retracted: usize = 0;
    let mut i: usize = 0;
    while i < assertions.len()
        invariant
            i <= a.len(),
            a == assertions@,
            active == count_active(a, i as int),
            non_retracted == count_non_retracted(a, i as int),
        decreases a.len() - i,
    {
        proof {
            lemma_counts_bounded(a, i as int);
        }
        if assertions[i].status == AssertionStatus::Active {
            active += 1;
        }
        if assertions[i].status != AssertionStatus::Retracted {
            non_retracted += 1;
        }
        i += 1;
    }
    let mut issues: Vec<VerificationIssue> = Vec::new();
    let isolated = non_retracted == 0 && relation_count == 0;
    if isolated {
        issues.push(
            VerificationIssue::new(
                VerificationIssueKind::IsolatedEntity,
                entity.qualified_name.as_str(),
                None,
                String::from_str("entity has no assertions and no relations"),
            ),
        );
    }
    if entity.origin == EntityOrigin::Manual && relation_count == 0 && active > 0 {
        let mut detail = String::from_str("Manual entity with ");
        detail.append(usize_text(active).as_str());
        detail.append(" active assertion(s) but no relations");
        issues.push(
            VerificationIssue::new(
                VerificationIssueKind::OrphanManualEntity,
                entity.qualified_name.as_str(),
                None,
                detail,
            ),
        );
    }
    let ghost first = issues_view(issues@);
    assert(first =~= entity_level_issues(*entity, a, relation_count as nat));
    let ghost name = entity.qualified_name@;
    let ghost model = strs_view(model_names@);
    let mut k: usize = 0;
    while k < assertions.len()
        invariant
            k <= a.len(),
            a == assertions@,
            evidence@.len() == a.len(),
            deps@.len() == a.len(),
            name == entity.qualified_name@,
            model == strs_view(model_names@),
            issues_view(issues@) == first + assertions_issues(
                name,
                a,
                evidence@,
                deps@,
                model,
                k as int,
            ),
        decreases a.len() - k,
    {
        let ghost i0 = issues_view(issues@);
        if assertions[k].is_active() {
            let mut more = check_assertion_issues(
                entity.qualified_name.as_str(),
                &assertions[k],
                &evidence[k],
                &deps[k],
                model_names,
            );
            let ghost m = issues_view(more@);
            issues.append(&mut more);
            assert(issues_view(issues@) =~= i0 + m);
        }
        assert(issues_view(issues@) =~= first + assertions_issues(
            name,
            a,
            evidence@,
            deps@,
            model,
            k + 1,
        ));
        k += 1;
    }
    (issues, clean && isolated)
}

/// Whether qualified name `q` is in the scope `prefix` (every name is in the
/// empty scope).
pub fn in_scope(q: &str, prefix: &str) -> (r: bool)
    ensures
        r == starts_with(q@, prefix@),
{
    let qv = chars_of(q);
    let pv = chars_of(prefix);
    has_prefix(&qv, &pv)
}

/// The entities of `all[..n]` in the scope `prefix`, in order.
pub open spec fn scoped(all: Seq<Entity>, prefix: Seq<char>, n: int) -> Seq<Entity>
    decreases n,
{
    if n <= 0 || n > all.len() {
        seq![]
    } else {
        scoped(all, prefix, n - 1) + if starts_with(all[n - 1].qualified_name@, prefix) {
            seq![all[n - 1]]
        } else {
            seq![]
        }
    }
}

/// The entities whose qualified name starts with `prefix`, in order.
pub fn entities_in_scope(all: &Vec<Entity>, prefix: &str) -> (r: Vec<Entity>)
    ensures
        r@ == scoped(all@, prefix@, all@.len() as int),
{
    let mut out: Vec<Entity> = Vec::new();
    let mut i: usize = 0;
    while i < all.len()
        invariant
            i <= all@.len(),
            out@ == scoped(all@, prefix@, i as int),
        decreases all@.len() - i,
    {
        if in_scope(all[i].qualified_name.as_str(), prefix) {
            out.push(all[i].clone());
        }
        assert(out@ =~= scoped(all@, prefix@, i + 1));
        i += 1;
    }
    out
}

/// The number of names of `scanned[..n]` in the scope `prefix` that are not
/// in the model.
pub open spec fn unmodeled(
    scanned: Seq<Seq<char>>,
    prefix: Seq<char>,
    model: Seq<Seq<char>>,
    n: int,
) -> nat
    decreases n,
{
    if n <= 0 || n > scanned.len() {
        0
    } else {
        unmodeled(scanned, prefix, model, n - 1) + if (prefix.len() == 0 || starts_with(
            scanned[n - 1],
            prefix,
        )) && !model.contains(scanned[n - 1]) {
            1nat
        } else {
            0nat
        }
    }
}

proof fn lemma_unmodeled_bounded(
    scanned: Seq<Seq<char>>,
    prefix: Seq<char>,
    model: Seq<Seq<char>>,
    n: int,
)
    requires
        0 <= n <= scanned.len(),
    ensures
        unmodeled(scanned, prefix, model, n) <= n,
    decreases n,
{
    if n > 0 {
        lemma_unmodeled_bounded(scanned, prefix, model, n - 1);
    }
}

/// The comparison of the model with a scan: the auto-scanned names of the
/// model the scan does not account for (in the model's order), and the
/// number of scanned names in scope that are not in the model.
pub fn scan_diff(
    scanned: &Vec<String>,
    auto_scanned: &Vec<String>,
    scope_prefix: &str,
    model_names: &Vec<String>,
) -> (r: (Vec<String>, usize))
    ensures
        strs_view(r.0@) == spec_without_names(strs_view(auto_scanned@), strs_view(scanned@)),
        r.1 == unmodeled(
            strs_view(scanned@),
            scope_prefix@,
            strs_view(model_names@),
            scanned@.len() as int,
        ),
{
    let stale = without_names(auto_scanned, scanned);
    let ghost sv = strs_view(scanned@);
    let ghost mv = strs_view(model_names@);
    let empty_scope = scope_prefix.is_empty();
    let mut count: usize = 0;
    let mut i: usize = 0;
    while i < scanned.len()
        invariant
            i <= scanned@.len(),
            sv == strs_view(scanned@),
            mv == strs_view(model_names@),
            empty_scope == (scope_prefix@.len() == 0),
            count == unmodeled(sv, scope_prefix@, mv, i as int),
        decreases scanned@.len() - i,
    {
        proof {
            lemma_unmodeled_bounded(sv, scope_prefix@, mv, i as int);
        }
        let name = scanned[i].as_str();
        if (empty_scope || in_scope(name, scope_prefix)) && !contains_str(model_names, name) {
            count += 1;
        }
        i += 1;
    }
    (stale, count)
}

/// The scan-diff lines of the report.
pub open spec fn spec_scan_messages(unmodeled: nat, stale: Seq<Seq<char>>, clean: bool) -> Seq<
    Seq<char>,
> {
    let n = stale.len();
    let word: Seq<char> = if n == 1 {
        "entity"@
    } else {
        "entities"@
    };
    (if unmodeled > 0 {
        seq![
            "Scan diff: "@ + decimal(unmodeled)
                + " unmodeled definition(s) not in model (run cog init to add)"@,
        ]
    } else {
        seq![]
    }) + if n > 0 && !clean {
        seq![
            "Scan diff: "@ + decimal(n) + " stale auto-scanned "@ + word
                + " no longer in code (run cog verify --scan --clean to remove)"@,
        ] + stale.map_values(|s: Seq<char>| "  - "@ + s)
    } else if n > 0 && clean {
        seq!["Scan diff: cleaned "@ + decimal(n) + " stale auto-scanned "@ + word]
    } else {
        seq![]
    }
}

/// The scan-diff lines: unmodeled definitions, then the stale entities
/// (listed, or counted as cleaned).
pub fn build_scan_diff_messages(unmodeled_count: usize, stale_names: &Vec<String>, clean: bool) -> (r:
    Vec<String>)
    ensures
        strs_view(r@) == spec_scan_messages(unmodeled_count as nat, strs_view(stale_names@), clean),
{
    let ghost sv = strs_view(stale_names@);
    let n = stale_names.len();
    let mut out: Vec<String> = Vec::new();
    if unmodeled_count > 0 {
        let mut s = String::from_str("Scan diff: ");
        s.append(usize_text(unmodeled_count).as_str());
        s.append(" unmodeled definition(s) not in model (run cog init to add)");
        out.push(s);
    }
    let ghost first = strs_view(out@);
    let word = entities_word(n);
    if n > 0 && !clean {
        let mut s = String::from_str("Scan diff: ");
        s.append(usize_text(n).as_str());
        s.append(" stale auto-scanned ");
        s.append(word);
        s.append(" no longer in code (run cog verify --scan --clean to remove)");
        out.push(s);
        let ghost second = strs_view(out@);
        let mut i: usize = 0;
        while i < stale_names.len()
            invariant
                i <= sv.len(),
                sv == strs_view(stale_names@),
                strs_view(out@) == second + sv.subrange(0, i as int).map_values(
                    |s: Seq<char>| "  - "@ + s,
                ),
            decreases sv.len() - i,
        {
            let mut line = String::from_str("  - ");
            line.append(stale_names[i].as_str());
            let ghost o0 = strs_view(out@);
            out.push(line);
            assert(strs_view(out@) =~= o0.push("  - "@ + sv[i as int]));
            assert(sv.subrange(0, i + 1).map_values(|s: Seq<char>| "  - "@ + s) =~= sv.subrange(
                0,
                i as int,
            ).map_values(|s: Seq<char>| "  - "@ + s).push("  - "@ + sv[i as int]));
            i += 1;
        }
        assert(sv.subrange(0, sv.len() as int) =~= sv);
    } else if n > 0 && clean {
        let mut s = String::from_str("Scan diff: cleaned ");
        s.append(usize_text(n).as_str());
        s.append(" stale auto-scanned ");
        s.append(word);
        out.push(s);
    }
    assert(strs_view(out@) =~= spec_scan_messages(unmodeled_count as nat, sv, clean));
    out
}

/// Whether every issue is an isolated entity.
pub open spec fn all_isolated(issues: Seq<IssueV>) -> bool {
    forall|i: int| 0 <= i < issues.len() ==> #[trigger] issues[i].0 == VerificationIssueKind::IsolatedEntity
}

/// Structural success: no issue, or only isolated entities and some were
/// cleaned.
pub open spec fn structural_ok(issues: Seq<IssueV>, cleaned: nat) -> bool {
    issues.len() == 0 || (all_isolated(issues) && cleaned > 0)
}

/// Overall success: the structure is fine, and the scan found nothing, or
/// only unmodeled definitions (advisory), or its stale entities were cleaned.
pub open spec fn overall_ok(
    issues: Seq<IssueV>,
    cleaned: nat,
    unmodeled: nat,
    stale: nat,
    clean: bool,
) -> bool {
    let success = structural_ok(issues, cleaned);
    let has_scan_diff = unmodeled > 0 || stale > 0;
    (success && (!has_scan_diff || (unmodeled > 0 && stale == 0))) || (success && clean && stale
        > 0)
}

/// The report of a verification: the checked count, the issues, the number
/// of entities cleaned (isolated ones, and the stale ones when cleaning), the
/// scan-diff lines and the outcome; with the exit code (0 on success, 1
/// otherwise).
pub fn verification_report(
    checked_count: usize,
    issues: Vec<VerificationIssue>,
    cleaned: usize,
    unmodeled_count: usize,
    stale_names: &Vec<String>,
    clean: bool,
) -> (r: (VerificationReport, i32))
    requires
        cleaned + stale_names@.len() <= usize::MAX,
    ensures
        r.0.checked_count == checked_count,
        r.0.issues@ == issues@,
        r.0.cleaned_count == cleaned + if clean {
            stale_names@.len()
        } else {
            0
        },
        strs_view(r.0.scan_issues@) == spec_scan_messages(
            unmodeled_count as nat,
            strs_view(stale_names@),
            clean,
        ),
        r.0.success == overall_ok(
            issues_view(issues@),
            cleaned as nat,
            unmodeled_count as nat,
            stale_names@.len() as nat,
            clean,
        ),
        r.1 == if r.0.success {
            0i32
        } else {
            1i32
        },
{
    let ghost iv = issues_view(issues@);
    let mut only_isolated = true;
    let mut i: usize = 0;
    while i < issues.len()
        invariant
            i <= issues@.len(),
            iv == issues_view(issues@),
            only_isolated == (forall|j: int|
                0 <= j < i ==> #[trigger] iv[j].0 == VerificationIssueKind::IsolatedEntity),
        decreases issues@.len() - i,
    {
        assert(iv[i as int].0 == issues@[i as int].kind);
        if issues[i].kind != VerificationIssueKind::IsolatedEntity {
            only_isolated = false;
        }
        i += 1;
    }
    let success = issues.len() == 0 || (only_isolated && cleaned > 0);
    let stale = stale_names.len();
    let has_scan_diff = unmodeled_count > 0 || stale > 0;
    let scan_cleaned = clean && stale > 0;
    let ok = (success && (!has_scan_diff || (unmodeled_count > 0 && stale == 0))) || (success
        && scan_cleaned);
    let total = cleaned + if clean {
        stale
    } else {
        0
    };
    let scan_issues = build_scan_diff_messages(unmodeled_count, stale_names, clean);
    let report = VerificationReport {
        checked_count,
        issues,
        cleaned_count: total,
        scan_issues,
        success: ok,
    };
    let code: i32 = if ok {
        0
    } else {
        1
    };
    (report, code)
}

/// A model with no structural issue and no stale entity passes
/// verification, whatever the number of unmodeled definitions (they are
/// advisory).
pub proof fn lemma_unmodeled_is_advisory(cleaned: nat, unmodeled: nat, clean: bool)
    ensures
        overall_ok(seq![], cleaned, unmodeled, 0, clean),
{
}

/// Stale entities that are reported and not cleaned fail verification.
pub proof fn lemma_stale_fails_unless_cleaned(
    issues: Seq<IssueV>,
    cleaned: nat,
    unmodeled: nat,
    stale: nat,
)
    requires
        stale > 0,
    ensures
        !overall_ok(issues, cleaned, unmodeled, stale, false),
{
}

/// Any issue other than an isolated entity fails verification.
pub proof fn lemma_real_issue_fails(
    issues: Seq<IssueV>,
    i: int,
    cleaned: nat,
    unmodeled: nat,
    stale: nat,
    clean: bool,
)
    requires
        0 <= i < issues.len(),
        issues[i].0 != VerificationIssueKind::IsolatedEntity,
    ensures
        !overall_ok(issues, cleaned, unmodeled, stale, clean),
{
}

proof fn lemma_dep_issues_keep(name: Seq<char>, aid: Seq<char>, deps: Seq<Assertion>, n: int, j: int)
    requires
        0 <= j < n <= deps.len(),
    ensures
        forall|x: IssueV| dep_issue(name, aid, deps[j]).contains(x) ==> #[trigger] dep_issues(
            name,
            aid,
            deps,
            n,
        ).contains(x),
    decreases n,
{
    let prev = dep_issues(name, aid, deps, n - 1);
    let here = dep_issue(name, aid, deps[n - 1]);
    if j < n - 1 {
        lemma_dep_issues_keep(name, aid, deps, n - 1, j);
        assert forall|x: IssueV| dep_issue(name, aid, deps[j]).contains(x) implies #[trigger] dep_issues(
            name,
            aid,
            deps,
            n,
        ).contains(x) by {
            assert(dep_issues(name, aid, deps, n - 1).contains(x));
            let k = choose|k: int| 0 <= k < prev.len() && #[trigger] prev[k] == x;
            assert((prev + here)[k] == x);
        }
    } else {
        assert forall|x: IssueV| dep_issue(name, aid, deps[j]).contains(x) implies #[trigger] dep_issues(
            name,
            aid,
            deps,
            n,
        ).contains(x) by {
            let k = choose|k: int| 0 <= k < here.len() && #[trigger] here[k] == x;
            assert((prev + here)[prev.len() + k] == x);
        }
    }
}

proof fn lemma_dep_issues_kinds(name: Seq<char>, aid: Seq<char>, deps: Seq<Assertion>, n: int)
    ensures
        forall|k: int|
            0 <= k < dep_issues(name, aid, deps, n).len() ==> {
                let x = #[trigger] dep_issues(name, aid, deps, n)[k];
                x.0 == VerificationIssueKind::DependencyOnRetracted || x.0
                    == VerificationIssueKind::DependencyOnUncertain
            },
        (forall|j: int| 0 <= j < deps.len() ==> (#[trigger] deps[j]).status == AssertionStatus::Active)
            ==> dep_issues(name, aid, deps, n).len() == 0,
    decreases n,
{
    if 0 < n <= deps.len() {
        lemma_dep_issues_kinds(name, aid, deps, n - 1);
        let prev = dep_issues(name, aid, deps, n - 1);
        let here = dep_issue(name, aid, deps[n - 1]);
        assert forall|k: int| 0 <= k < (prev + here).len() implies {
            let x = #[trigger] (prev + here)[k];
            x.0 == VerificationIssueKind::DependencyOnRetracted || x.0
                == VerificationIssueKind::DependencyOnUncertain
        } by {
            if k >= prev.len() {
                assert((prev + here)[k] == here[k - prev.len()]);
            } else {
                assert((prev + here)[k] == prev[k]);
            }
        }
    }
}

proof fn lemma_evidence_issues(
    name: Seq<char>,
    aid: Seq<char>,
    ev: Seq<Evidence>,
    model: Seq<Seq<char>>,
    n: int,
)
    requires
        0 <= n <= ev.len(),
    ensures
        forall|k: int|
            0 <= k < evidence_issues(name, aid, ev, model, n).len() ==> (#[trigger] evidence_issues(
                name,
                aid,
                ev,
                model,
                n,
            )[k]).0 == VerificationIssueKind::DanglingGrounds,
        forall|k: int|
            0 <= k < n && (#[trigger] ev[k]).source@ == "code"@ && !model.contains(ev[k].detail@)
                ==> evidence_issues(name, aid, ev, model, n).contains(
                (
                    VerificationIssueKind::DanglingGrounds,
                    Some(name),
                    Some(aid),
                    dangling_detail(ev[k].detail@),
                ),
            ),
        (forall|k: int|
            0 <= k < n && (#[trigger] ev[k]).source@ == "code"@ ==> model.contains(ev[k].detail@))
            ==> evidence_issues(name, aid, ev, model, n).len() == 0,
    decreases n,
{
    if n > 0 {
        lemma_evidence_issues(name, aid, ev, model, n - 1);
        let prev = evidence_issues(name, aid, ev, model, n - 1);
        let r = evidence_issues(name, aid, ev, model, n);
        assert forall|k: int| 0 <= k < r.len() implies (#[trigger] r[k]).0
            == VerificationIssueKind::DanglingGrounds by {
            if k < prev.len() {
                assert(r[k] == prev[k]);
            }
        }
        assert forall|k: int|
            0 <= k < n && (#[trigger] ev[k]).source@ == "code"@ && !model.contains(ev[k].detail@)
                implies r.contains(
                (
                    VerificationIssueKind::DanglingGrounds,
                    Some(name),
                    Some(aid),
                    dangling_detail(ev[k].detail@),
                ),
            ) by {
            if k < n - 1 {
                let x = (
                    VerificationIssueKind::DanglingGrounds,
                    Some(name),
                    Some(aid),
                    dangling_detail(ev[k].detail@),
                );
                assert(prev.contains(x));
                let t = choose|t: int| 0 <= t < prev.len() && #[trigger] prev[t] == x;
                assert(r[t] == x);
            } else {
                assert(r[prev.len() as int] == (
                    VerificationIssueKind::DanglingGrounds,
                    Some(name),
                    Some(aid),
                    dangling_detail(ev[k].detail@),
                ));
            }
        }
    }
}

/// What an active assertion is checked for: it raises `MissingEvidence`
/// exactly when it has no evidence; a `code:` ground naming an entity not
/// in the model raises `DanglingGrounds` for it, and when every `code:`
/// ground names a modeled entity there is none; a retracted dependency
/// raises `DependencyOnRetracted` and an uncertain one
/// `DependencyOnUncertain`, while active dependencies raise nothing.
pub proof fn lemma_assertion_checks(
    name: Seq<char>,
    a: Assertion,
    ev: Seq<Evidence>,
    deps: Seq<Assertion>,
    model: Seq<Seq<char>>,
)
    ensures
        ev.len() == 0 ==> spec_assertion_issues(name, a, ev, deps, model).contains(
            (
                VerificationIssueKind::MissingEvidence,
                Some(name),
                Some(a.id@),
                "active assertion has no evidence"@,
            ),
        ),
        ev.len() > 0 ==> forall|k: int|
            0 <= k < spec_assertion_issues(name, a, ev, deps, model).len() ==> (
            #[trigger] spec_assertion_issues(name, a, ev, deps, model)[k]).0
                != VerificationIssueKind::MissingEvidence,
        forall|k: int|
            0 <= k < ev.len() && (#[trigger] ev[k]).source@ == "code"@ && !model.contains(ev[k].detail@)
                ==> spec_assertion_issues(name, a, ev, deps, model).contains(
                (
                    VerificationIssueKind::DanglingGrounds,
                    Some(name),
                    Some(a.id@),
                    dangling_detail(ev[k].detail@),
                ),
            ),
        (forall|k: int| 0 <= k < ev.len() && (#[trigger] ev[k]).source@ == "code"@ ==> model.contains(
            ev[k].detail@,
        )) ==> forall|k: int|
            0 <= k < spec_assertion_issues(name, a, ev, deps, model).len() ==> (
            #[trigger] spec_assertion_issues(name, a, ev, deps, model)[k]).0
                != VerificationIssueKind::DanglingGrounds,
        forall|j: int|
            0 <= j < deps.len() && (#[trigger] deps[j]).status == AssertionStatus::Retracted
                ==> spec_assertion_issues(name, a, ev, deps, model).contains(
                (
                    VerificationIssueKind::DependencyOnRetracted,
                    Some(name),
                    Some(a.id@),
                    "depends on retracted assertion "@ + short_chars(deps[j].id@),
                ),
            ),
        forall|j: int|
            0 <= j < deps.len() && (#[trigger] deps[j]).status == AssertionStatus::Uncertain
                ==> spec_assertion_issues(name, a, ev, deps, model).contains(
                (
                    VerificationIssueKind::DependencyOnUncertain,
                    Some(name),
                    Some(a.id@),
                    "depends on uncertain assertion "@ + short_chars(deps[j].id@),
                ),
            ),
        (forall|j: int| 0 <= j < deps.len() ==> (#[trigger] deps[j]).status == AssertionStatus::Active)
            ==> forall|k: int|
            0 <= k < spec_assertion_issues(name, a, ev, deps, model).len() ==> {
                let x = #[trigger] spec_assertion_issues(name, a, ev, deps, model)[k];
                x.0 != VerificationIssueKind::DependencyOnRetracted && x.0
                    != VerificationIssueKind::DependencyOnUncertain
            },
{
    let me: Seq<IssueV> = if ev.len() == 0 {
        seq![
            (
                VerificationIssueKind::MissingEvidence,
                Some(name),
                Some(a.id@),
                "active assertion has no evidence"@,
            ),
        ]
    } else {
        seq![]
    };
    let ei = evidence_issues(name, a.id@, ev, model, ev.len() as int);
    let di = dep_issues(name, a.id@, deps, deps.len() as int);
    let all = spec_assertion_issues(name, a, ev, deps, model);
    assert(all == me + ei + di);
    lemma_evidence_issues(name, a.id@, ev, model, ev.len() as int);
    lemma_dep_issues_kinds(name, a.id@, deps, deps.len() as int);
    if ev.len() == 0 {
        assert(all[0] == me[0]);
    }
    assert forall|k: int| 0 <= k < all.len() implies {
        let x = #[trigger] all[k];
        &&& (k < me.len() ==> x == me[k])
        &&& (me.len() <= k < me.len() + ei.len() ==> x == ei[k - me.len()])
        &&& (me.len() + ei.len() <= k ==> x == di[k - me.len() - ei.len()])
    } by {}
    assert forall|k: int|
        0 <= k < ev.len() && (#[trigger] ev[k]).source@ == "code"@ && !model.contains(ev[k].detail@)
            implies all.contains(
            (
                VerificationIssueKind::DanglingGrounds,
                Some(name),
                Some(a.id@),
                dangling_detail(ev[k].detail@),
            ),
        ) by {
        let x = (VerificationIssueKind::DanglingGrounds, Some(name), Some(a.id@), dangling_detail(ev[k].detail@));
        assert(ei.contains(x));
        let t = choose|t: int| 0 <= t < ei.len() && #[trigger] ei[t] == x;
        assert(all[me.len() + t] == x);
    }
    assert forall|j: int|
        0 <= j < deps.len() && (#[trigger] deps[j]).status == AssertionStatus::Retracted implies all.contains(
            (
                VerificationIssueKind::DependencyOnRetracted,
                Some(name),
                Some(a.id@),
                "depends on retracted assertion "@ + short_chars(deps[j].id@),
            ),
        ) by {
        lemma_dep_issues_keep(name, a.id@, deps, deps.len() as int, j);
        let x = dep_issue(name, a.id@, deps[j])[0];
        assert(dep_issue(name, a.id@, deps[j]).contains(x));
        assert(di.contains(x));
        let t = choose|t: int| 0 <= t < di.len() && #[trigger] di[t] == x;
        assert(all[me.len() + ei.len() + t] == x);
    }
    assert forall|j: int|
        0 <= j < deps.len() && (#[trigger] deps[j]).status == AssertionStatus::Uncertain implies all.contains(
            (
                VerificationIssueKind::DependencyOnUncertain,
                Some(name),
                Some(a.id@),
                "depends on uncertain assertion "@ + short_chars(deps[j].id@),
            ),
        ) by {
        lemma_dep_issues_keep(name, a.id@, deps, deps.len() as int, j);
        let x = dep_issue(name, a.id@, deps[j])[0];
        assert(dep_issue(name, a.id@, deps[j]).contains(x));
        assert(di.contains(x));
        let t = choose|t: int| 0 <= t < di.len() && #[trigger] di[t] == x;
        assert(all[me.len() + ei.len() + t] == x);
    }
}

proof fn lemma_counts_zero(a: Seq<Assertion>, n: int)
    requires
        0 <= n <= a.len(),
    ensures
        count_non_retracted(a, n) == 0 <==> forall|i: int|
            0 <= i < n ==> (#[trigger] a[i]).status == AssertionStatus::Retracted,
        count_active(a, n) > 0 <==> exists|i: int|
            0 <= i < n && (#[trigger] a[i]).status == AssertionStatus::Active,
    decreases n,
{
    if n > 0 {
        lemma_counts_zero(a, n - 1);
        if a[n - 1].status == AssertionStatus::Active {
            assert(0 <= n - 1 < n && a[n - 1].status == AssertionStatus::Active);
        }
        if exists|i: int| 0 <= i < n && (#[trigger] a[i]).status == AssertionStatus::Active {
            let i = choose|i: int| 0 <= i < n && (#[trigger] a[i]).status == AssertionStatus::Active;
            if i < n - 1 {
                assert(0 <= i < n - 1 && a[i].status == AssertionStatus::Active);
            }
        }
    }
}

/// What an entity is checked for: it is isolated (and deleted on `--clean`)
/// exactly when every assertion on it is retracted and it has no relation,
/// and then it raises `IsolatedEntity`; a manual entity with an active
/// assertion and no relation raises `OrphanManualEntity`.
pub proof fn lemma_entity_checks(
    e: Entity,
    a: Seq<Assertion>,
    relation_count: nat,
    evs: Seq<Vec<Evidence>>,
    deps: Seq<Vec<Assertion>>,
    model: Seq<Seq<char>>,
)
    ensures
        is_isolated(a, relation_count) <==> (relation_count == 0 && forall|i: int|
            0 <= i < a.len() ==> (#[trigger] a[i]).status == AssertionStatus::Retracted),
        is_isolated(a, relation_count) ==> spec_entity_issues(e, a, relation_count, evs, deps, model).contains(
            (
                VerificationIssueKind::IsolatedEntity,
                Some(e.qualified_name@),
                None,
                "entity has no assertions and no relations"@,
            ),
        ),
        e.origin == EntityOrigin::Manual && relation_count == 0 && (exists|i: int|
            0 <= i < a.len() && (#[trigger] a[i]).status == AssertionStatus::Active)
            ==> exists|k: int|
            0 <= k < spec_entity_issues(e, a, relation_count, evs, deps, model).len() && (
            #[trigger] spec_entity_issues(e, a, relation_count, evs, deps, model)[k]).0
                == VerificationIssueKind::OrphanManualEntity,
{
    lemma_counts_zero(a, a.len() as int);
    let lv = entity_level_issues(e, a, relation_count);
    let all = spec_entity_issues(e, a, relation_count, evs, deps, model);
    if is_isolated(a, relation_count) {
        assert(all[0] == lv[0]);
    }
    if e.origin == EntityOrigin::Manual && relation_count == 0 && (exists|i: int|
        0 <= i < a.len() && (#[trigger] a[i]).status == AssertionStatus::Active) {
        let k = lv.len() - 1;
        assert(all[k] == lv[k]);
        assert(all[k].0 == VerificationIssueKind::OrphanManualEntity);
    }
}

} // verus!
