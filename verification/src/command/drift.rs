//! Drift between the model and the code: the names a scan accounts for, the
//! stale scan-origin entities, which of them may be deleted, and the fan
//! metrics recomputed after a sync.

use vstd::prelude::*;
use crate::analysis::extractors::calls::Definition;
use crate::analysis::scan::FileScan;
use crate::command::sync_cmd::{def_qnames, file_qnames, parent_path, parent_path_of};
use crate::domain::assertion::{Assertion, AssertionStatus};
use crate::domain::entity::Entity;
use crate::domain::metrics::EntityMetrics;
use crate::domain::relations::EntityRelation;
use crate::naming::{path_to_qualified, spec_path_to_qualified};
use crate::order::{insert_sorted, lemma_contains_push, sorted_distinct, strictly_sorted, strs_view, without_names};
use crate::text::{str_is};

verus! {

/// The directory names a file's path passes through, innermost first: each
/// directory part of the path, taken as a qualified name, up to the first
/// that is empty.
pub open spec fn dir_chain(p: Seq<char>) -> Seq<Seq<char>>
    decreases p.len(),
{
    let d = parent_path(p);
    let q = spec_path_to_qualified(d);
    if p.len() == 0 || q.len() == 0 {
        seq![]
    } else {
        proof {
            crate::text::lemma_rfind_char_bounds(p, '/', p.len() - 1);
        }
        seq![q] + dir_chain(d)
    }
}

/// Whether `n` is a name the scan accounts for: a definition, a file module,
/// or a directory on the path of a file.
pub open spec fn is_scanned_name(defs: Seq<Definition>, fs: Seq<FileScan>, n: Seq<char>) -> bool {
    def_qnames(defs).contains(n) || file_qnames(fs).contains(n) || exists|i: int|
        0 <= i < fs.len() && #[trigger] dir_chain(fs[i].path@).contains(n)
}

/// Adds the directory names on the path `p` to the sorted set `names`.
fn insert_dir_chain(names: &mut Vec<String>, p: &str)
    requires
        strictly_sorted(strs_view(old(names)@)),
    ensures
        strictly_sorted(strs_view(final(names)@)),
        forall|y: Seq<char>|
            #[trigger] strs_view(final(names)@).contains(y) <==> (strs_view(
                old(names)@,
            ).contains(y) || dir_chain(p@).contains(y)),
    decreases p@.len(),
{
    if p.is_empty() {
        return;
    }
    let d = parent_path_of(p);
    let q = path_to_qualified(d.as_str());
    if q.as_str().is_empty() {
        return;
    }
    proof {
        crate::text::lemma_rfind_char_bounds(p@, '/', p@.len() - 1);
    }
    let ghost n0 = strs_view(names@);
    insert_sorted(names, q.as_str());
    let ghost n1 = strs_view(names@);
    insert_dir_chain(names, d.as_str());
    proof {
        assert(dir_chain(p@) == seq![q@] + dir_chain(d@));
        crate::order::lemma_contains_concat(seq![q@], dir_chain(d@));
        assert forall|y: Seq<char>|
            #[trigger] strs_view(names@).contains(y) <==> (n0.contains(y) || dir_chain(
                p@,
            ).contains(y)) by {
            assert(seq![q@].contains(y) <==> y == q@) by {
                if y == q@ {
                    assert(seq![q@][0] == y);
                }
            }
            assert(n1.contains(y) <==> (n0.contains(y) || y == q@));
        }
    }
}

/// The names a scan accounts for (see [`is_scanned_name`]), sorted, each
/// once.
pub fn collect_scanned_names(defs: &Vec<Definition>, fs: &Vec<FileScan>) -> (r: Vec<String>)
    ensures
        strictly_sorted(strs_view(r@)),
        forall|n: Seq<char>| #[trigger] strs_view(r@).contains(n) <==> is_scanned_name(defs@, fs@, n),
{
    let mut names: Vec<String> = Vec::new();
    let mut i: usize = 0;
    while i < defs.len()
        invariant
            i <= defs@.len(),
            strictly_sorted(strs_view(names@)),
            forall|n: Seq<char>|
                #[trigger] strs_view(names@).contains(n) <==> def_qnames(defs@).subrange(
                    0,
                    i as int,
                ).contains(n),
        decreases defs@.len() - i,
    {
        let ghost n0 = strs_view(names@);
        insert_sorted(&mut names, defs[i].qualified_name.as_str());
        proof {
            let dq = def_qnames(defs@);
            assert(dq.subrange(0, i + 1) =~= dq.subrange(0, i as int).push(dq[i as int]));
            lemma_contains_push(dq.subrange(0, i as int), dq[i as int]);
            assert forall|n: Seq<char>|
                #[trigger] strs_view(names@).contains(n) <==> dq.subrange(0, i + 1).contains(n) by {
                assert(strs_view(names@).contains(n) <==> (n0.contains(n) || n == dq[i as int]));
            }
        }
        i += 1;
    }
    assert(def_qnames(defs@).subrange(0, defs@.len() as int) =~= def_qnames(defs@));
    let mut j: usize = 0;
    while j < fs.len()
        invariant
            j <= fs@.len(),
            strictly_sorted(strs_view(names@)),
            forall|n: Seq<char>|
                #[trigger] strs_view(names@).contains(n) <==> (def_qnames(defs@).contains(n)
                    || file_qnames(fs@).subrange(0, j as int).contains(n) || exists|k: int|
                    0 <= k < j && #[trigger] dir_chain(fs@[k].path@).contains(n)),
        decreases fs@.len() - j,
    {
        let ghost n0 = strs_view(names@);
        let fq = path_to_qualified(fs[j].path.as_str());
        insert_sorted(&mut names, fq.as_str());
        let ghost n1 = strs_view(names@);
        insert_dir_chain(&mut names, fs[j].path.as_str());
        proof {
            let fqs = file_qnames(fs@);
            assert(fqs.subrange(0, j + 1) =~= fqs.subrange(0, j as int).push(fqs[j as int]));
            lemma_contains_push(fqs.subrange(0, j as int), fqs[j as int]);
            assert forall|n: Seq<char>|
                #[trigger] strs_view(names@).contains(n) <==> (def_qnames(defs@).contains(n)
                    || fqs.subrange(0, j + 1).contains(n) || exists|k: int|
                    0 <= k < j + 1 && #[trigger] dir_chain(fs@[k].path@).contains(n)) by {
                assert(n1.contains(n) <==> (n0.contains(n) || n == fq@));
                assert(strs_view(names@).contains(n) <==> (n1.contains(n) || dir_chain(
                    fs@[j as int].path@,
                ).contains(n)));
                if exists|k: int| 0 <= k < j + 1 && #[trigger] dir_chain(fs@[k].path@).contains(n) {
                    let k = choose|k: int|
                        0 <= k < j + 1 && #[trigger] dir_chain(fs@[k].path@).contains(n);
                    if k < j {
                        assert(exists|k: int|
                            0 <= k < j && #[trigger] dir_chain(fs@[k].path@).contains(n));
                    }
                }
                if exists|k: int| 0 <= k < j && #[trigger] dir_chain(fs@[k].path@).contains(n) {
                    let k = choose|k: int|
                        0 <= k < j && #[trigger] dir_chain(fs@[k].path@).contains(n);
                    assert(0 <= k < j + 1 && dir_chain(fs@[k].path@).contains(n));
                }
                if dir_chain(fs@[j as int].path@).contains(n) {
                    assert(0 <= j < j + 1 && dir_chain(fs@[j as int].path@).contains(n));
                }
            }
        }
        j += 1;
    }
    assert(file_qnames(fs@).subrange(0, fs@.len() as int) =~= file_qnames(fs@));
    names
}

/// The stale scan-origin names: those of `model_names` the scan does not
/// account for (`scanned`), sorted, each once.
pub fn stale_names(model_names: &Vec<String>, scanned: &Vec<String>) -> (r: Vec<String>)
    ensures
        strictly_sorted(strs_view(r@)),
        forall|n: Seq<char>|
            #[trigger] strs_view(r@).contains(n) <==> (strs_view(model_names@).contains(n)
                && !strs_view(scanned@).contains(n)),
{
    let kept = without_names(model_names, scanned);
    let r = sorted_distinct(&kept);
    proof {
        let pred = |n: Seq<char>| !strs_view(scanned@).contains(n);
        assert forall|n: Seq<char>|
            #[trigger] strs_view(r@).contains(n) <==> (strs_view(model_names@).contains(n)
                && !strs_view(scanned@).contains(n)) by {
            let f = strs_view(model_names@).filter(pred);
            assert(strs_view(kept@) == f);
            let m = strs_view(model_names@);
            if f.contains(n) {
                let k = choose|k: int| 0 <= k < f.len() && f[k] == n;
                m.lemma_filter_pred(pred, k);
                m.lemma_filter_contains_rev(pred, n);
            }
            if m.contains(n) && !strs_view(scanned@).contains(n) {
                let k = choose|k: int| 0 <= k < m.len() && m[k] == n;
                m.lemma_filter_contains(pred, k);
            }
        }
    }
    r
}

/// The names whose `flags` entry is `want`, in order.
pub open spec fn flagged(names: Seq<Seq<char>>, flags: Seq<bool>, want: bool, n: int) -> Seq<
    Seq<char>,
>
    decreases n,
{
    if n <= 0 || n > names.len() {
        seq![]
    } else {
        flagged(names, flags, want, n - 1) + if flags[n - 1] == want {
            seq![names[n - 1]]
        } else {
            seq![]
        }
    }
}

/// Splits stale names into those that may be deleted and those kept
/// because assertions are recorded against them (`has_assertions[i]` for
/// `names[i]`), each in order.
pub fn plan_stale_deletion(names: &Vec<String>, has_assertions: &Vec<bool>) -> (r: (
    Vec<String>,
    Vec<String>,
))
    requires
        names@.len() == has_assertions@.len(),
    ensures
        strs_view(r.0@) == flagged(
            strs_view(names@),
            has_assertions@,
            false,
            names@.len() as int,
        ),
        strs_view(r.1@) == flagged(strs_view(names@), has_assertions@, true, names@.len() as int),
{
    let ghost nv = strs_view(names@);
    let mut delete: Vec<String> = Vec::new();
    let mut protect: Vec<String> = Vec::new();
    let mut i: usize = 0;
    while i < names.len()
        invariant
            i <= names@.len(),
            names@.len() == has_assertions@.len(),
            nv == strs_view(names@),
            strs_view(delete@) == flagged(nv, has_assertions@, false, i as int),
            strs_view(protect@) == flagged(nv, has_assertions@, true, i as int),
        decreases names@.len() - i,
    {
        let ghost d0 = strs_view(delete@);
        let ghost p0 = strs_view(protect@);
        if has_assertions[i] {
            protect.push(names[i].clone());
            assert(strs_view(protect@) =~= p0.push(nv[i as int]));
        } else {
            delete.push(names[i].clone());
            assert(strs_view(delete@) =~= d0.push(nv[i as int]));
        }
        assert(strs_view(delete@) =~= flagged(nv, has_assertions@, false, i + 1));
        assert(strs_view(protect@) =~= flagged(nv, has_assertions@, true, i + 1));
        i += 1;
    }
    (delete, protect)
}

/// A stale name is put up for deletion only where no assertion is recorded
/// against it, and every name with assertions is kept.
pub proof fn lemma_stale_with_assertions_never_deleted(
    names: Seq<Seq<char>>,
    flags: Seq<bool>,
    n: int,
)
    requires
        names.len() == flags.len(),
        0 <= n <= names.len(),
    ensures
        forall|k: int| 0 <= k < n && flags[k] ==> flagged(names, flags, true, n).contains(names[k]),
        forall|x: Seq<char>|
            #[trigger] flagged(names, flags, false, n).contains(x) ==> exists|j: int|
                0 <= j < n && !flags[j] && names[j] == x,
    decreases n,
{
    if n > 0 {
        lemma_stale_with_assertions_never_deleted(names, flags, n - 1);
        let a = flagged(names, flags, false, n - 1);
        let b = flagged(names, flags, true, n - 1);
        let last = if !flags[n - 1] {
            seq![names[n - 1]]
        } else {
            seq![]
        };
        crate::order::lemma_contains_concat(a, last);
        let lastp = if flags[n - 1] {
            seq![names[n - 1]]
        } else {
            seq![]
        };
        crate::order::lemma_contains_concat(b, lastp);
        assert forall|k: int| 0 <= k < n && flags[k] implies flagged(names, flags, true, n).contains(
            names[k],
        ) by {
            if k == n - 1 {
                assert(lastp[0] == names[k]);
            }
        }
        assert forall|x: Seq<char>| #[trigger]
            flagged(names, flags, false, n).contains(x) implies exists|j: int|
            0 <= j < n && !flags[j] && names[j] == x by {
            if a.contains(x) {
                let j = choose|j: int| 0 <= j < n - 1 && !flags[j] && names[j] == x;
                assert(0 <= j < n && !flags[j] && names[j] == x);
            } else {
                assert(last.contains(x));
                assert(last[0] == x);
                assert(0 <= n - 1 < n && !flags[n - 1] && names[n - 1] == x);
            }
        }
    }
}

/// The names of `to_delete` whose deletion the store confirmed
/// (`deleted[i]` for `to_delete[i]`), in order.
pub fn confirmed_deletions(to_delete: &Vec<String>, deleted: &Vec<bool>) -> (r: Vec<String>)
    requires
        to_delete@.len() == deleted@.len(),
    ensures
        strs_view(r@) == flagged(strs_view(to_delete@), deleted@, true, to_delete@.len() as int),
{
    let ghost nv = strs_view(to_delete@);
    let mut out: Vec<String> = Vec::new();
    let mut i: usize = 0;
    while i < to_delete.len()
        invariant
            i <= to_delete@.len(),
            to_delete@.len() == deleted@.len(),
            nv == strs_view(to_delete@),
            strs_view(out@) == flagged(nv, deleted@, true, i as int),
        decreases to_delete@.len() - i,
    {
        let ghost o0 = strs_view(out@);
        if deleted[i] {
            out.push(to_delete[i].clone());
            assert(strs_view(out@) =~= o0.push(nv[i as int]));
        }
        assert(strs_view(out@) =~= flagged(nv, deleted@, true, i + 1));
        i += 1;
    }
    out
}

/// The active assertions of `assertions`, each paired with `name`, in order.
pub open spec fn spec_active_affected(name: Seq<char>, a: Seq<Assertion>, n: int) -> Seq<
    (Seq<char>, Assertion),
>
    decreases n,
{
    if n <= 0 || n > a.len() {
        seq![]
    } else {
        spec_active_affected(name, a, n - 1) + if a[n - 1].status == AssertionStatus::Active {
            seq![(name, a[n - 1])]
        } else {
            seq![]
        }
    }
}

/// The active assertions recorded against a kept stale entity `name`, each
/// paired with the name.
pub fn active_affected(name: &str, assertions: &Vec<Assertion>) -> (r: Vec<(String, Assertion)>)
    ensures
        r@.map_values(|p: (String, Assertion)| (p.0@, p.1)) == spec_active_affected(
            name@,
            assertions@,
            assertions@.len() as int,
        ),
{
    let mut out: Vec<(String, Assertion)> = Vec::new();
    let mut i: usize = 0;
    while i < assertions.len()
        invariant
            i <= assertions@.len(),
            out@.map_values(|p: (String, Assertion)| (p.0@, p.1)) == spec_active_affected(
                name@,
                assertions@,
                i as int,
            ),
        decreases assertions@.len() - i,
    {
        let ghost o0 = out@.map_values(|p: (String, Assertion)| (p.0@, p.1));
        if assertions[i].is_active() {
            out.push((name.to_string(), assertions[i].clone()));
            assert(out@.map_values(|p: (String, Assertion)| (p.0@, p.1)) =~= o0.push(
                (name@, assertions@[i as int]),
            ));
        }
        assert(out@.map_values(|p: (String, Assertion)| (p.0@, p.1)) =~= spec_active_affected(
            name@,
            assertions@,
            i + 1,
        ));
        i += 1;
    }
    out
}

/// The number of relations of `rels[..n]` that end at entity `id`.
pub open spec fn fan_in_of(rels: Seq<EntityRelation>, id: Seq<char>, n: int) -> nat
    decreases n,
{
    if n <= 0 || n > rels.len() {
        0
    } else {
        fan_in_of(rels, id, n - 1) + if rels[n - 1].to_entity@ == id {
            1nat
        } else {
            0nat
        }
    }
}

/// The number of relations of `rels[..n]` that start at entity `id`.
pub open spec fn fan_out_of(rels: Seq<EntityRelation>, id: Seq<char>, n: int) -> nat
    decreases n,
{
    if n <= 0 || n > rels.len() {
        0
    } else {
        fan_out_of(rels, id, n - 1) + if rels[n - 1].from_entity@ == id {
            1nat
        } else {
            0nat
        }
    }
}

proof fn lemma_fan_bounded(rels: Seq<EntityRelation>, id: Seq<char>, n: int)
    requires
        0 <= n <= rels.len(),
    ensures
        fan_in_of(rels, id, n) <= n,
        fan_out_of(rels, id, n) <= n,
    decreases n,
{
    if n > 0 {
        lemma_fan_bounded(rels, id, n - 1);
    }
}

/// The fan-in and fan-out of entity `id` over `rels`.
fn fan_of(rels: &Vec<EntityRelation>, id: &str) -> (r: (u32, u32))
    requires
        rels@.len() <= u32::MAX,
    ensures
        r.0 == fan_in_of(rels@, id@, rels@.len() as int),
        r.1 == fan_out_of(rels@, id@, rels@.len() as int),
{
    let mut fin: u32 = 0;
    let mut fout: u32 = 0;
    let mut i: usize = 0;
    while i < rels.len()
        invariant
            i <= rels@.len(),
            rels@.len() <= u32::MAX,
            fin == fan_in_of(rels@, id@, i as int),
            fout == fan_out_of(rels@, id@, i as int),
        decreases rels@.len() - i,
    {
        proof {
            lemma_fan_bounded(rels@, id@, i as int);
        }
        if str_is(rels[i].to_entity.as_str(), id) {
            fin = fin + 1;
        }
        if str_is(rels[i].from_entity.as_str(), id) {
            fout = fout + 1;
        }
        i += 1;
    }
    (fin, fout)
}

/// Fan-in counts relations into an entity and fan-out relations out of
/// it: one more relation from `a` to `b` raises `b`'s fan-in and `a`'s
/// fan-out by one, and leaves the fan-in of every entity other than `b` and
/// the fan-out of every entity other than `a` as it was; no relation means
/// no fan at all.
pub proof fn lemma_fan_counts(rels: Seq<EntityRelation>, r: EntityRelation, id: Seq<char>)
    ensures
        fan_in_of(rels.push(r), id, rels.len() + 1int) == fan_in_of(rels, id, rels.len() as int) + if r.to_entity@
            == id {
            1int
        } else {
            0int
        },
        fan_out_of(rels.push(r), id, rels.len() + 1int) == fan_out_of(rels, id, rels.len() as int)
            + if r.from_entity@ == id {
            1int
        } else {
            0int
        },
        fan_in_of(Seq::<EntityRelation>::empty(), id, 0) == 0,
        fan_out_of(Seq::<EntityRelation>::empty(), id, 0) == 0,
{
    lemma_fan_prefix(rels.push(r), rels, id, rels.len() as int);
}

proof fn lemma_fan_prefix(long: Seq<EntityRelation>, short: Seq<EntityRelation>, id: Seq<char>, n: int)
    requires
        0 <= n <= short.len() < long.len(),
        forall|k: int| 0 <= k < short.len() ==> #[trigger] long[k] == short[k],
    ensures
        fan_in_of(long, id, n) == fan_in_of(short, id, n),
        fan_out_of(long, id, n) == fan_out_of(short, id, n),
    decreases n,
{
    if n > 0 {
        lemma_fan_prefix(long, short, id, n - 1);
    }
}

/// The metrics update of one entity after a sync: its metrics with the
/// fan-in and fan-out it has in `rels`, when either is positive.
pub open spec fn fan_update(e: Entity, rels: Seq<EntityRelation>) -> Seq<(Seq<char>, EntityMetrics)> {
    let fin = fan_in_of(rels, e.id@, rels.len() as int);
    let fout = fan_out_of(rels, e.id@, rels.len() as int);
    if fin > 0 || fout > 0 {
        seq![(e.id@, EntityMetrics { fan_in: Some(fin as u32), fan_out: Some(fout as u32), ..e.metrics })]
    } else {
        seq![]
    }
}

/// The metrics updates of `entities[..n]`, in order.
pub open spec fn fan_updates(entities: Seq<Entity>, rels: Seq<EntityRelation>, n: int) -> Seq<
    (Seq<char>, EntityMetrics),
>
    decreases n,
{
    if n <= 0 || n > entities.len() {
        seq![]
    } else {
        fan_updates(entities, rels, n - 1) + fan_update(entities[n - 1], rels)
    }
}

/// The fan metrics to store after a sync: for each entity with at least one
/// relation, `(entity id, metrics with fan_in and fan_out set)`.
pub fn compute_fan_metrics(entities: &Vec<Entity>, rels: &Vec<EntityRelation>) -> (r: Vec<
    (String, EntityMetrics),
>)
    requires
        rels@.len() <= u32::MAX,
    ensures
        r@.map_values(|p: (String, EntityMetrics)| (p.0@, p.1)) == fan_updates(
            entities@,
            rels@,
            entities@.len() as int,
        ),
{
    let mut out: Vec<(String, EntityMetrics)> = Vec::new();
    let mut i: usize = 0;
    while i < entities.len()
        invariant
            i <= entities@.len(),
            rels@.len() <= u32::MAX,
            out@.map_values(|p: (String, EntityMetrics)| (p.0@, p.1)) == fan_updates(
                entities@,
                rels@,
                i as int,
            ),
        decreases entities@.len() - i,
    {
        let e = &entities[i];
        let (fin, fout) = fan_of(rels, e.id.as_str());
        let ghost o0 = out@.map_values(|p: (String, EntityMetrics)| (p.0@, p.1));
        if fin > 0 || fout > 0 {
            let mut m = e.metrics;
            m.fan_in = Some(fin);
            m.fan_out = Some(fout);
            out.push((e.id.clone(), m));
            assert(out@.map_values(|p: (String, EntityMetrics)| (p.0@, p.1)) =~= o0.push(
                (e.id@, m),
            ));
        }
        assert(out@.map_values(|p: (String, EntityMetrics)| (p.0@, p.1)) =~= fan_updates(
            entities@,
            rels@,
            i + 1,
        ));
        i += 1;
    }
    out
}

} // verus!
