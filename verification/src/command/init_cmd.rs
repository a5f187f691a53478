//! `init`: the one-shot scan that first populates a model.  It creates the
//! same directory, file and definition entities and the same `contains` and
//! `uses` relations a sync plans (see [`crate::command::sync_cmd`]), without
//! `calls` relations, and reports counts by kind.

use vstd::prelude::*;
use vstd::string::*;
use crate::analysis::extractors::calls::Definition;
use crate::analysis::scan::{counts_view, ScanReport};
use crate::command::sync_cmd::{clone_counts, count_kinds, kind_counts, SyncPlan};
use crate::domain::entity::EntityKind;
use crate::order::strs_view;

verus! {

/// The report of an `init`.
#[derive(Debug)]
pub struct InitReport {
    pub files_scanned: usize,
    pub files_by_language: Vec<(String, usize)>,
    pub entities_created: usize,
    pub relations_created: usize,
    pub entity_counts_by_kind: Vec<(String, usize)>,
    pub dry_run: bool,
}

/// The number of definitions of `defs[..n]` of kind `k`.
pub open spec fn count_kind(defs: Seq<Definition>, k: EntityKind, n: int) -> nat
    decreases n,
{
    if n <= 0 || n > defs.len() {
        0
    } else {
        count_kind(defs, k, n - 1) + if defs[n - 1].kind == k {
            1nat
        } else {
            0nat
        }
    }
}

proof fn lemma_count_kind_bounded(defs: Seq<Definition>, k: EntityKind, n: int)
    requires
        0 <= n <= defs.len(),
    ensures
        count_kind(defs, k, n) <= n,
    decreases n,
{
    if n > 0 {
        lemma_count_kind_bounded(defs, k, n - 1);
    }
}

fn kind_count(defs: &Vec<Definition>, k: EntityKind) -> (r: usize)
    ensures
        r == count_kind(defs@, k, defs@.len() as int),
{
    let mut n: usize = 0;
    let mut i: usize = 0;
    while i < defs.len()
        invariant
            i <= defs@.len(),
            n == count_kind(defs@, k, i as int),
        decreases defs@.len() - i,
    {
        proof {
            lemma_count_kind_bounded(defs@, k, i as int);
        }
        if defs[i].kind == k {
            n += 1;
        }
        i += 1;
    }
    n
}

/// The module count of an init: definitions of kind module, directory
/// modules and distinct file modules.
pub open spec fn init_module_count(plan: SyncPlan, defs: Seq<Definition>) -> int {
    (count_kind(defs, EntityKind::Module, defs.len() as int) + plan.dirs@.len() + strs_view(
        plan.files@,
    ).to_set().len()) as int
}

/// The counts by kind an init reports: modules, then types, functions,
/// methods and fields, each only when positive.
pub open spec fn init_kind_counts(plan: SyncPlan, defs: Seq<Definition>) -> Seq<(Seq<char>, usize)> {
    let m = init_module_count(plan, defs);
    let n = defs.len() as int;
    (if m > 0 {
        seq![("module"@, m as usize)]
    } else {
        seq![]
    }) + (if count_kind(defs, EntityKind::Type, n) > 0 {
        seq![("type"@, count_kind(defs, EntityKind::Type, n) as usize)]
    } else {
        seq![]
    }) + (if count_kind(defs, EntityKind::Function, n) > 0 {
        seq![("function"@, count_kind(defs, EntityKind::Function, n) as usize)]
    } else {
        seq![]
    }) + (if count_kind(defs, EntityKind::Method, n) > 0 {
        seq![("method"@, count_kind(defs, EntityKind::Method, n) as usize)]
    } else {
        seq![]
    }) + (if count_kind(defs, EntityKind::Field, n) > 0 {
        seq![("field"@, count_kind(defs, EntityKind::Field, n) as usize)]
    } else {
        seq![]
    })
}

fn push_positive(counts: &mut Vec<(String, usize)>, name: &str, n: usize)
    ensures
        counts_view(final(counts)@) == counts_view(old(counts)@) + if n > 0 {
            seq![(name@, n)]
        } else {
            seq![]
        },
{
    let ghost c0 = counts_view(counts@);
    if n > 0 {
        counts.push((name.to_string(), n));
        assert(counts_view(counts@) =~= c0.push((name@, n)));
    } else {
        assert(counts_view(counts@) =~= c0);
    }
}

/// The report of an init that wrote the planned entities and the planned
/// `contains` and `uses` relations.
pub fn init_report(scan: &ScanReport, plan: &SyncPlan) -> (r: InitReport)
    requires
        plan.dirs@.len() + plan.files@.len() + scan.definitions@.len() <= usize::MAX,
        plan.contains_count + plan.uses_count <= usize::MAX,
    ensures
        r.files_scanned == scan.files_scanned,
        counts_view(r.files_by_language@) == counts_view(scan.files_by_language@),
        r.entities_created == plan.dirs@.len() + strs_view(plan.files@).to_set().len()
            + scan.definitions@.len(),
        r.relations_created == plan.contains_count + plan.uses_count,
        counts_view(r.entity_counts_by_kind@) == init_kind_counts(*plan, scan.definitions@),
        !r.dry_run,
{
    let distinct_files = crate::order::sorted_distinct(&plan.files);
    proof {
        crate::order::lemma_sorted_len_is_set_len(
            strs_view(distinct_files@),
            strs_view(plan.files@),
        );
        strs_view(plan.files@).lemma_cardinality_of_set();
        lemma_count_kind_bounded(scan.definitions@, EntityKind::Module, scan.definitions@.len() as int);
    }
    let files = distinct_files.len();
    let defs = &scan.definitions;
    let modules = kind_count(defs, EntityKind::Module) + plan.dirs.len() + files;
    let mut counts: Vec<(String, usize)> = Vec::new();
    proof {
        reveal_strlit("module");
        reveal_strlit("type");
        reveal_strlit("function");
        reveal_strlit("method");
        reveal_strlit("field");
    }
    push_positive(&mut counts, "module", modules);
    push_positive(&mut counts, "type", kind_count(defs, EntityKind::Type));
    push_positive(&mut counts, "function", kind_count(defs, EntityKind::Function));
    push_positive(&mut counts, "method", kind_count(defs, EntityKind::Method));
    push_positive(&mut counts, "field", kind_count(defs, EntityKind::Field));
    assert(counts_view(counts@) =~= init_kind_counts(*plan, scan.definitions@));
    InitReport {
        files_scanned: scan.files_scanned,
        files_by_language: clone_counts(&scan.files_by_language),
        entities_created: plan.dirs.len() + files + defs.len(),
        relations_created: plan.contains_count + plan.uses_count,
        entity_counts_by_kind: counts,
        dry_run: false,
    }
}

/// The report of an init dry run: the definitions counted by kind, nothing
/// written.
pub fn init_dry_run_report(scan: &ScanReport) -> (r: InitReport)
    requires
        scan.definitions@.len() < usize::MAX,
    ensures
        r.files_scanned == scan.files_scanned,
        counts_view(r.files_by_language@) == counts_view(scan.files_by_language@),
        r.entities_created == 0,
        r.relations_created == 0,
        counts_view(r.entity_counts_by_kind@) == kind_counts(
            scan.definitions@,
            scan.definitions@.len() as int,
        ),
        r.dry_run,
{
    InitReport {
        files_scanned: scan.files_scanned,
        files_by_language: clone_counts(&scan.files_by_language),
        entities_created: 0,
        relations_created: 0,
        entity_counts_by_kind: count_kinds(&scan.definitions),
        dry_run: true,
    }
}

/// The message of an init that found no source file (it exits with 1).
pub fn no_sources_message(path: &str) -> (r: String)
    ensures
        r@ == "No source files found at "@ + path@,
{
    let mut s = String::from_str("No source files found at ");
    s.append(path);
    s
}

} // verus!
