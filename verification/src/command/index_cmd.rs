//! `index`: the coverage summary of the model — per top-level module, and
//! the uncovered entities with the most dependents.

use vstd::prelude::*;
use vstd::string::*;
use crate::domain::entity::Entity;
use crate::domain::report::{EntityIndex, IndexCoverage, ModuleCoverage, TopUncovered};
use crate::naming::is_sep_at;
use crate::order::{lemma_lex_total, lemma_lex_transitive, lex_lt, str_lt};
use crate::text::{chars_of, slice_chars, str_is, string_of};

verus! {

/// The first `::` at or after `i`, or -1.
pub open spec fn first_sep_from(s: Seq<char>, i: int) -> int
    decreases s.len() - i,
{
    if i < 0 || i + 1 >= s.len() {
        -1
    } else if is_sep_at(s, i) {
        i
    } else {
        first_sep_from(s, i + 1)
    }
}

proof fn lemma_first_sep_bounds(s: Seq<char>, i: int)
    requires
        0 <= i,
    ensures
        first_sep_from(s, i) == -1 || (i <= first_sep_from(s, i) && first_sep_from(s, i) + 1
            < s.len()),
    decreases s.len() - i,
{
    if i + 1 < s.len() && !is_sep_at(s, i) {
        lemma_first_sep_bounds(s, i + 1);
    }
}

/// The top-level module of a qualified name: the text before its first
/// `::` (the whole name when there is none).
pub open spec fn module_prefix(q: Seq<char>) -> Seq<char> {
    let k = first_sep_from(q, 0);
    if k < 0 {
        q
    } else {
        q.subrange(0, k)
    }
}

/// Exec form of [`module_prefix`].
pub fn top_module(q: &str) -> (r: String)
    ensures
        r@ == module_prefix(q@),
{
    let v = chars_of(q);
    proof {
        lemma_first_sep_bounds(v@, 0);
    }
    let mut i: usize = 0;
    while v.len() > 0 && i < v.len() - 1 && !(v[i] == ':' && v[i + 1] == ':')
        invariant
            i <= v@.len(),
            v@ == q@,
            first_sep_from(v@, 0) == first_sep_from(v@, i as int),
        decreases v@.len() - i,
    {
        i += 1;
    }
    if v.len() > 0 && i < v.len() - 1 {
        string_of(&slice_chars(&v, 0, i))
    } else {
        string_of(&v)
    }
}

/// The number of entities of `all[..n]` under module `p`.
pub open spec fn module_total(all: Seq<(Entity, usize)>, p: Seq<char>, n: int) -> nat
    decreases n,
{
    if n <= 0 || n > all.len() {
        0
    } else {
        module_total(all, p, n - 1) + if module_prefix(all[n - 1].0.qualified_name@) == p {
            1nat
        } else {
            0nat
        }
    }
}

/// The number of covered entities (with assertions) of `all[..n]` under
/// module `p`.
pub open spec fn module_covered(all: Seq<(Entity, usize)>, p: Seq<char>, n: int) -> nat
    decreases n,
{
    if n <= 0 || n > all.len() {
        0
    } else {
        module_covered(all, p, n - 1) + if module_prefix(all[n - 1].0.qualified_name@) == p
            && all[n - 1].1 > 0 {
            1nat
        } else {
            0nat
        }
    }
}

proof fn lemma_module_counts(all: Seq<(Entity, usize)>, p: Seq<char>, n: int)
    requires
        0 <= n <= all.len(),
    ensures
        module_covered(all, p, n) <= module_total(all, p, n) <= n,
    decreases n,
{
    if n > 0 {
        lemma_module_counts(all, p, n - 1);
    }
}

/// Whether some entity of `all[..n]` is under module `p`.
pub open spec fn has_module(all: Seq<(Entity, usize)>, p: Seq<char>, n: int) -> bool {
    exists|i: int| 0 <= i < n && #[trigger] module_prefix(all[i].0.qualified_name@) == p
}

/// A module row as `(path, covered, total)`.
pub open spec fn row_view(m: ModuleCoverage) -> (Seq<char>, nat, nat) {
    (m.path@, m.covered as nat, m.total as nat)
}

/// Row `a` is listed before row `b`: more uncovered entities first, then by
/// path.
pub open spec fn row_before(a: (Seq<char>, nat, nat), b: (Seq<char>, nat, nat)) -> bool {
    let ua = a.2 - a.1;
    let ub = b.2 - b.1;
    ua > ub || (ua == ub && lex_lt(a.0, b.0))
}

proof fn lemma_row_before_transitive(
    a: (Seq<char>, nat, nat),
    b: (Seq<char>, nat, nat),
    c: (Seq<char>, nat, nat),
)
    requires
        row_before(a, b),
        row_before(b, c),
    ensures
        row_before(a, c),
{
    if (a.2 - a.1) == (b.2 - b.1) && (b.2 - b.1) == (c.2 - c.1) {
        lemma_lex_transitive(a.0, b.0, c.0);
    }
}

/// Rows in listing order, none twice.
pub open spec fn rows_ordered(s: Seq<(Seq<char>, nat, nat)>) -> bool {
    forall|i: int, j: int| 0 <= i < j < s.len() ==> row_before(#[trigger] s[i], #[trigger] s[j])
}

/// The rows of a module listing as views.
pub open spec fn rows_view(v: Seq<ModuleCoverage>) -> Seq<(Seq<char>, nat, nat)> {
    v.map_values(|m: ModuleCoverage| row_view(m))
}

fn row_lt(a: &ModuleCoverage, b: &ModuleCoverage) -> (r: bool)
    requires
        a.covered <= a.total,
        b.covered <= b.total,
    ensures
        r == row_before(row_view(*a), row_view(*b)),
{
    let ua = a.total - a.covered;
    let ub = b.total - b.covered;
    ua > ub || (ua == ub && str_lt(a.path.as_str(), b.path.as_str()))
}

fn row_lt_at(rows: &Vec<ModuleCoverage>, p: usize, x: &ModuleCoverage) -> (r: bool)
    requires
        p < rows@.len(),
        rows@[p as int].covered <= rows@[p as int].total,
        x.covered <= x.total,
    ensures
        r == row_before(rows_view(rows@)[p as int], row_view(*x)),
{
    row_lt(&rows[p], x)
}

/// Inserts a row with a path not yet listed at its place.
fn insert_row(rows: &mut Vec<ModuleCoverage>, x: ModuleCoverage)
    requires
        rows_ordered(rows_view(old(rows)@)),
        forall|j: int| 0 <= j < old(rows)@.len() ==> (#[trigger] old(rows)@[j]).covered <= old(rows)@[j].total,
        x.covered <= x.total,
        forall|j: int| 0 <= j < old(rows)@.len() ==> (#[trigger] old(rows)@[j]).path@ != x.path@,
    ensures
        rows_ordered(rows_view(final(rows)@)),
        forall|j: int| 0 <= j < final(rows)@.len() ==> (#[trigger] final(rows)@[j]).covered <= final(rows)@[j].total,
        forall|y: (Seq<char>, nat, nat)|
            #[trigger] rows_view(final(rows)@).contains(y) <==> (rows_view(old(rows)@).contains(y)
                || y == row_view(x)),
{
    let ghost s = rows_view(rows@);
    let ghost xv = row_view(x);
    let mut p: usize = 0;
    while p < rows.len() && row_lt_at(rows, p, &x)
        invariant
            p <= rows@.len(),
            rows@ == old(rows)@,
            s == rows_view(rows@),
            forall|j: int| 0 <= j < rows@.len() ==> (#[trigger] rows@[j]).covered <= rows@[j].total,
            x.covered <= x.total,
            xv == row_view(x),
            forall|j: int| 0 <= j < p ==> row_before(#[trigger] s[j], xv),
        decreases rows@.len() - p,
    {
        p += 1;
    }
    proof {
        if p < s.len() {
            assert(s[p as int].0 != xv.0);
            lemma_lex_total(s[p as int].0, xv.0);
            assert(row_before(xv, s[p as int]));
        }
    }
    rows.insert(p, x);
    proof {
        let t = rows_view(rows@);
        assert(t =~= s.insert(p as int, xv));
        assert forall|i: int, j: int| 0 <= i < j < t.len() implies row_before(
            #[trigger] t[i],
            #[trigger] t[j],
        ) by {
            if j < p {
                assert(row_before(s[i], s[j]));
            } else if j == p {
                assert(row_before(s[i], xv));
            } else if i == p {
                if j - 1 > p {
                    assert(row_before(s[p as int], s[j - 1]));
                    lemma_row_before_transitive(xv, s[p as int], s[j - 1]);
                }
            } else if i < p {
                assert(row_before(s[i], s[j - 1]));
            } else {
                assert(row_before(s[i - 1], s[j - 1]));
            }
        }
        assert forall|j: int| 0 <= j < rows@.len() implies (#[trigger] rows@[j]).covered <= rows@[j].total by {
            if j < p {
                assert(rows@[j] == old(rows)@[j]);
            } else if j > p {
                assert(rows@[j] == old(rows)@[j - 1]);
            }
        }
        assert forall|y: (Seq<char>, nat, nat)| #[trigger] t.contains(y) <==> (s.contains(y) || y == xv) by {
            if t.contains(y) {
                let k = choose|k: int| 0 <= k < t.len() && t[k] == y;
                if k < p {
                    assert(s[k] == y);
                } else if k > p {
                    assert(s[k - 1] == y);
                }
            }
            if s.contains(y) {
                let k = choose|k: int| 0 <= k < s.len() && s[k] == y;
                if k < p {
                    assert(t[k] == y);
                } else {
                    assert(t[k + 1] == y);
                }
            }
            if y == xv {
                assert(t[p as int] == y);
            }
        }
    }
}

/// The rows the module listing holds: one per top-level module, with its
/// covered and total counts.
pub open spec fn is_module_row(all: Seq<(Entity, usize)>, y: (Seq<char>, nat, nat)) -> bool {
    has_module(all, y.0, all.len() as int) && y.1 == module_covered(all, y.0, all.len() as int)
        && y.2 == module_total(all, y.0, all.len() as int)
}

/// The per-module coverage rows of `all`, in listing order.
pub fn module_rows(all: &Vec<(Entity, usize)>) -> (r: Vec<ModuleCoverage>)
    ensures
        rows_ordered(rows_view(r@)),
        forall|y: (Seq<char>, nat, nat)| #[trigger] rows_view(r@).contains(y) <==> is_module_row(all@, y),
{
    let ghost a = all@;
    let mut groups: Vec<ModuleCoverage> = Vec::new();
    let mut i: usize = 0;
    while i < all.len()
        invariant
            i <= a.len(),
            a == all@,
            forall|j: int, k: int|
                0 <= j < k < groups@.len() ==> (#[trigger] groups@[j]).path@ != (#[trigger] groups@[k]).path@,
            forall|j: int|
                0 <= j < groups@.len() ==> {
                    &&& (#[trigger] groups@[j]).total as nat == module_total(a, groups@[j].path@, i as int)
                    &&& groups@[j].covered as nat == module_covered(a, groups@[j].path@, i as int)
                    &&& has_module(a, groups@[j].path@, i as int)
                },
            forall|k: int|
                0 <= k < i ==> exists|j: int|
                    0 <= j < groups@.len() && (#[trigger] groups@[j]).path@ == module_prefix(
                        #[trigger] a[k].0.qualified_name@,
                    ),
        decreases a.len() - i,
    {
        let p = top_module(all[i].0.qualified_name.as_str());
        let covered_one = all[i].1 > 0;
        let ghost g0 = groups@;
        let mut k: usize = 0;
        while k < groups.len() && !str_is(groups[k].path.as_str(), p.as_str())
            invariant
                k <= groups@.len(),
                groups@ == g0,
                forall|j: int| 0 <= j < k ==> (#[trigger] groups@[j]).path@ != p@,
            decreases groups@.len() - k,
        {
            k += 1;
        }
        proof {
            assert forall|j: int| 0 <= j < g0.len() implies (#[trigger] g0[j]).total <= i && g0[j].covered <= g0[j].total by {
                lemma_module_counts(a, g0[j].path@, i as int);
            }
        }
        if k < groups.len() {
            let old_row = &groups[k];
            let row = ModuleCoverage {
                path: old_row.path.clone(),
                covered: if covered_one {
                    old_row.covered + 1
                } else {
                    old_row.covered
                },
                total: old_row.total + 1,
            };
            groups.set(k, row);
        } else {
            groups.push(
                ModuleCoverage {
                    path: p.clone(),
                    covered: if covered_one {
                        1
                    } else {
                        0
                    },
                    total: 1,
                },
            );
        }
        proof {
            let pv = p@;
            assert(module_prefix(a[i as int].0.qualified_name@) == pv);
            if k >= g0.len() {
                assert forall|q: int| 0 <= q < i implies module_prefix(#[trigger] a[q].0.qualified_name@) != pv by {
                    if module_prefix(a[q].0.qualified_name@) == pv {
                        let j = choose|j: int|
                            0 <= j < g0.len() && (#[trigger] g0[j]).path@ == module_prefix(
                                a[q].0.qualified_name@,
                            );
                    }
                }
                lemma_no_module_zero(a, pv, i as int);
            }
            assert forall|j: int|
                0 <= j < groups@.len() implies {
                    &&& (#[trigger] groups@[j]).total as nat == module_total(a, groups@[j].path@, i + 1)
                    &&& groups@[j].covered as nat == module_covered(a, groups@[j].path@, i + 1)
                    &&& has_module(a, groups@[j].path@, i + 1)
                } by {
                if j < g0.len() && j != k {
                    assert(groups@[j] == g0[j]);
                    assert(g0[j].path@ != pv);
                    let w = choose|w: int|
                        0 <= w < i && #[trigger] module_prefix(a[w].0.qualified_name@) == g0[j].path@;
                    assert(0 <= w < i + 1);
                } else {
                    assert(j == k);
                    assert(groups@[j].path@ == pv);
                    assert(0 <= i < i + 1 && module_prefix(a[i as int].0.qualified_name@) == pv);
                }
            }
            assert forall|j1: int, j2: int|
                0 <= j1 < j2 < groups@.len() implies (#[trigger] groups@[j1]).path@ != (#[trigger] groups@[j2]).path@ by {
                if j2 < g0.len() {
                    assert(groups@[j1].path@ == g0[j1].path@);
                    assert(groups@[j2].path@ == g0[j2].path@);
                } else {
                    assert(groups@[j1].path@ == g0[j1].path@);
                }
            }
            assert forall|q: int|
                0 <= q < i + 1 implies exists|j: int|
                    0 <= j < groups@.len() && (#[trigger] groups@[j]).path@ == module_prefix(
                        #[trigger] a[q].0.qualified_name@,
                    ) by {
                if q < i {
                    let j = choose|j: int|
                        0 <= j < g0.len() && (#[trigger] g0[j]).path@ == module_prefix(
                            a[q].0.qualified_name@,
                        );
                    assert(groups@[j].path@ == g0[j].path@);
                } else {
                    assert(groups@[k as int].path@ == p@);
                }
            }
        }
        i += 1;
    }
    let mut rows: Vec<ModuleCoverage> = Vec::new();
    let mut m: usize = 0;
    while m < groups.len()
        invariant
            m <= groups@.len(),
            rows_ordered(rows_view(rows@)),
            forall|j: int| 0 <= j < rows@.len() ==> (#[trigger] rows@[j]).covered <= rows@[j].total,
            forall|j: int, k: int|
                0 <= j < k < groups@.len() ==> (#[trigger] groups@[j]).path@ != (#[trigger] groups@[k]).path@,
            forall|j: int|
                0 <= j < groups@.len() ==> {
                    &&& (#[trigger] groups@[j]).total as nat == module_total(a, groups@[j].path@, a.len() as int)
                    &&& groups@[j].covered as nat == module_covered(a, groups@[j].path@, a.len() as int)
                    &&& has_module(a, groups@[j].path@, a.len() as int)
                },
            forall|y: (Seq<char>, nat, nat)|
                #[trigger] rows_view(rows@).contains(y) <==> rows_view(groups@.subrange(0, m as int)).contains(y),
        decreases groups@.len() - m,
    {
        proof {
            lemma_module_counts(a, groups@[m as int].path@, a.len() as int);
            assert forall|j: int| 0 <= j < rows@.len() implies (#[trigger] rows@[j]).path@ != groups@[m as int].path@ by {
                let y = row_view(rows@[j]);
                assert(rows_view(rows@)[j] == y);
                assert(rows_view(rows@).contains(y));
                let t = rows_view(groups@.subrange(0, m as int));
                let w = choose|w: int| 0 <= w < t.len() && t[w] == y;
                assert(groups@[w].path@ == y.0);
            }
        }
        let row = ModuleCoverage {
            path: groups[m].path.clone(),
            covered: groups[m].covered,
            total: groups[m].total,
        };
        let ghost r0 = rows_view(rows@);
        insert_row(&mut rows, row);
        proof {
            let g = rows_view(groups@.subrange(0, m + 1));
            assert(g =~= rows_view(groups@.subrange(0, m as int)).push(row_view(groups@[m as int])));
            crate::order::lemma_contains_push(rows_view(groups@.subrange(0, m as int)), row_view(groups@[m as int]));
        }
        m += 1;
    }
    proof {
        assert(groups@.subrange(0, groups@.len() as int) =~= groups@);
        assert forall|y: (Seq<char>, nat, nat)| #[trigger] rows_view(rows@).contains(y) <==> is_module_row(a, y) by {
            let gv = rows_view(groups@);
            if gv.contains(y) {
                let w = choose|w: int| 0 <= w < gv.len() && gv[w] == y;
                assert(gv[w] == row_view(groups@[w]));
            }
            if is_module_row(a, y) {
                let q = choose|q: int| 0 <= q < a.len() && #[trigger] module_prefix(a[q].0.qualified_name@) == y.0;
                let j = choose|j: int|
                    0 <= j < groups@.len() && (#[trigger] groups@[j]).path@ == module_prefix(
                        a[q].0.qualified_name@,
                    );
                assert(gv[j] == y);
            }
        }
    }
    rows
}

/// The fan-out of an entity (0 when unknown).
pub open spec fn fan_out(e: Entity) -> nat {
    match e.metrics.fan_out {
        Some(f) => f as nat,
        None => 0,
    }
}

/// `s` with `e` inserted after every entity whose fan-out is at least its
/// own (a stable insertion by descending fan-out).
pub open spec fn insert_by_fan(s: Seq<Entity>, e: Entity) -> Seq<Entity>
    decreases s.len(),
{
    if s.len() == 0 {
        seq![e]
    } else if fan_out(s[0]) < fan_out(e) {
        seq![e] + s
    } else {
        seq![s[0]] + insert_by_fan(s.drop_first(), e)
    }
}

/// `s` sorted by descending fan-out, entities of equal fan-out in their
/// order in `s`.
pub open spec fn sort_by_fan(s: Seq<Entity>) -> Seq<Entity>
    decreases s.len(),
{
    if s.len() == 0 {
        seq![]
    } else {
        insert_by_fan(sort_by_fan(s.drop_last()), s.last())
    }
}

proof fn lemma_insert_by_fan_at(s: Seq<Entity>, e: Entity, p: int)
    requires
        0 <= p <= s.len(),
        forall|j: int| 0 <= j < p ==> fan_out(#[trigger] s[j]) >= fan_out(e),
        p == s.len() || fan_out(s[p]) < fan_out(e),
    ensures
        insert_by_fan(s, e) == s.insert(p, e),
    decreases p,
{
    if s.len() == 0 {
        assert(s.insert(p, e) =~= seq![e]);
    } else if p == 0 {
        assert(s.insert(0, e) =~= seq![e] + s);
    } else {
        let t = s.drop_first();
        assert forall|j: int| 0 <= j < p - 1 implies fan_out(#[trigger] t[j]) >= fan_out(e) by {
            assert(t[j] == s[j + 1]);
        }
        lemma_insert_by_fan_at(t, e, p - 1);
        assert(s.insert(p, e) =~= seq![s[0]] + t.insert(p - 1, e));
    }
}

/// The entities without assertions of `all[..n]`, in order.
pub open spec fn uncovered_of(all: Seq<(Entity, usize)>, n: int) -> Seq<Entity>
    decreases n,
{
    if n <= 0 || n > all.len() {
        seq![]
    } else {
        uncovered_of(all, n - 1) + if all[n - 1].1 == 0 {
            seq![all[n - 1].0]
        } else {
            seq![]
        }
    }
}

/// Whether `e` is the entity of a pair of `all[..n]` with count 0.
pub open spec fn is_uncovered_in(all: Seq<(Entity, usize)>, n: int, e: Entity) -> bool {
    exists|i: int| 0 <= i < n && (#[trigger] all[i]).1 == 0 && all[i].0 == e
}

/// The uncovered entities are exactly those without assertions: each
/// entity `uncovered_of` lists comes from a pair of `all[..n]` with count 0,
/// and each such pair's entity is listed.
pub proof fn lemma_uncovered_of(all: Seq<(Entity, usize)>, n: int)
    requires
        0 <= n <= all.len(),
    ensures
        forall|k: int|
            0 <= k < uncovered_of(all, n).len() ==> is_uncovered_in(all, n, #[trigger] uncovered_of(all, n)[k]),
        forall|i: int| 0 <= i < n && (#[trigger] all[i]).1 == 0 ==> uncovered_of(all, n).contains(all[i].0),
    decreases n,
{
    if n > 0 {
        lemma_uncovered_of(all, n - 1);
        let prev = uncovered_of(all, n - 1);
        let r = uncovered_of(all, n);
        assert forall|k: int| 0 <= k < r.len() implies is_uncovered_in(all, n, #[trigger] r[k]) by {
            if k < prev.len() {
                assert(r[k] == prev[k]);
                assert(is_uncovered_in(all, n - 1, prev[k]));
                let i = choose|i: int| 0 <= i < n - 1 && (#[trigger] all[i]).1 == 0 && all[i].0 == prev[k];
                assert(0 <= i < n && all[i].1 == 0 && all[i].0 == r[k]);
            } else {
                assert(r[k] == all[n - 1].0);
                assert(0 <= n - 1 < n && all[n - 1].1 == 0 && all[n - 1].0 == r[k]);
            }
        }
        assert forall|i: int| 0 <= i < n && (#[trigger] all[i]).1 == 0 implies r.contains(all[i].0) by {
            if i < n - 1 {
                let t = choose|t: int| 0 <= t < prev.len() && #[trigger] prev[t] == all[i].0;
                assert(r[t] == all[i].0);
            } else {
                assert(r[prev.len() as int] == all[i].0);
            }
        }
    }
}

fn fan_of_entity(e: &Entity) -> (r: u32)
    ensures
        r as nat == fan_out(*e),
{
    match e.metrics.fan_out {
        Some(f) => f,
        None => 0,
    }
}

/// The entities without assertions, by descending fan-out (stable).
pub fn uncovered_by_fan(all: &Vec<(Entity, usize)>) -> (r: Vec<Entity>)
    ensures
        r@ == sort_by_fan(uncovered_of(all@, all@.len() as int)),
{
    let mut sorted: Vec<Entity> = Vec::new();
    let mut i: usize = 0;
    while i < all.len()
        invariant
            i <= all@.len(),
            sorted@ == sort_by_fan(uncovered_of(all@, i as int)),
        decreases all@.len() - i,
    {
        if all[i].1 == 0 {
            let e = all[i].0.clone();
            let fe = fan_of_entity(&e);
            let mut p: usize = 0;
            while p < sorted.len() && fan_of_entity(&sorted[p]) >= fe
                invariant
                    p <= sorted@.len(),
                    fe as nat == fan_out(e),
                    forall|j: int| 0 <= j < p ==> fan_out(#[trigger] sorted@[j]) >= fan_out(e),
                decreases sorted@.len() - p,
            {
                p += 1;
            }
            let ghost s0 = sorted@;
            proof {
                lemma_insert_by_fan_at(s0, e, p as int);
                let u = uncovered_of(all@, i + 1);
                assert(u == uncovered_of(all@, i as int).push(all@[i as int].0));
                assert(u.drop_last() =~= uncovered_of(all@, i as int));
            }
            sorted.insert(p, e);
        } else {
            assert(uncovered_of(all@, i + 1) == uncovered_of(all@, i as int));
        }
        i += 1;
    }
    sorted
}

/// Fan-out order: `sort_by_fan` lists entities by descending fan-out.
pub proof fn lemma_sort_by_fan_descending(s: Seq<Entity>)
    ensures
        sort_by_fan(s).len() == s.len(),
        forall|i: int, j: int|
            0 <= i < j < sort_by_fan(s).len() ==> fan_out(#[trigger] sort_by_fan(s)[i]) >= fan_out(
                #[trigger] sort_by_fan(s)[j],
            ),
    decreases s.len(),
{
    if s.len() > 0 {
        lemma_sort_by_fan_descending(s.drop_last());
        lemma_insert_keeps_descending(sort_by_fan(s.drop_last()), s.last());
    }
}

proof fn lemma_insert_keeps_descending(s: Seq<Entity>, e: Entity)
    requires
        forall|i: int, j: int| 0 <= i < j < s.len() ==> fan_out(#[trigger] s[i]) >= fan_out(#[trigger] s[j]),
    ensures
        insert_by_fan(s, e).len() == s.len() + 1,
        forall|i: int, j: int|
            0 <= i < j < insert_by_fan(s, e).len() ==> fan_out(#[trigger] insert_by_fan(s, e)[i])
                >= fan_out(#[trigger] insert_by_fan(s, e)[j]),
        forall|i: int| 0 <= i < insert_by_fan(s, e).len() ==> (#[trigger] insert_by_fan(s, e)[i] == e
            || s.contains(insert_by_fan(s, e)[i])),
    decreases s.len(),
{
    if s.len() > 0 && fan_out(s[0]) >= fan_out(e) {
        let t = s.drop_first();
        assert forall|i: int, j: int| 0 <= i < j < t.len() implies fan_out(#[trigger] t[i]) >= fan_out(#[trigger] t[j]) by {
            assert(t[i] == s[i + 1] && t[j] == s[j + 1]);
        }
        lemma_insert_keeps_descending(t, e);
        let r = insert_by_fan(s, e);
        let rt = insert_by_fan(t, e);
        assert(r =~= seq![s[0]] + rt);
        assert forall|i: int| 0 <= i < r.len() implies (#[trigger] r[i] == e || s.contains(r[i])) by {
            if i == 0 {
                assert(s[0] == r[i]);
            } else {
                assert(r[i] == rt[i - 1]);
                if rt[i - 1] != e {
                    let k = choose|k: int| 0 <= k < t.len() && t[k] == rt[i - 1];
                    assert(s[k + 1] == r[i]);
                }
            }
        }
        assert forall|i: int, j: int| 0 <= i < j < r.len() implies fan_out(#[trigger] r[i]) >= fan_out(#[trigger] r[j]) by {
            if i == 0 {
                assert(r[j] == rt[j - 1]);
                if rt[j - 1] == e {
                } else {
                    let k = choose|k: int| 0 <= k < t.len() && t[k] == rt[j - 1];
                    assert(s[k + 1] == r[j]);
                }
            } else {
                assert(r[i] == rt[i - 1] && r[j] == rt[j - 1]);
            }
        }
    } else {
        let r = insert_by_fan(s, e);
        assert(r =~= seq![e] + s);
        assert forall|i: int| 0 <= i < r.len() implies (#[trigger] r[i] == e || s.contains(r[i])) by {
            if i > 0 {
                assert(s[i - 1] == r[i]);
            }
        }
        assert forall|i: int, j: int| 0 <= i < j < r.len() implies fan_out(#[trigger] r[i]) >= fan_out(#[trigger] r[j]) by {
            if i == 0 {
                assert(r[j] == s[j - 1]);
                if j - 1 > 0 {
                    assert(fan_out(s[0]) >= fan_out(s[j - 1]));
                }
            } else {
                assert(r[i] == s[i - 1] && r[j] == s[j - 1]);
            }
        }
    }
}

/// The row of an uncovered entity.
pub open spec fn top_view(t: TopUncovered) -> (Seq<char>, Seq<char>, nat, nat) {
    (t.entity_name@, t.entity_kind@, t.assertions as nat, t.dependents as nat)
}

/// The listing of an uncovered entity: no assertion, its fan-out as its
/// dependents.
pub open spec fn top_of(e: Entity) -> (Seq<char>, Seq<char>, nat, nat) {
    (e.qualified_name@, e.kind.text(), 0, fan_out(e))
}

/// At most the first `k` entities of `s`.
pub open spec fn first_k(s: Seq<Entity>, k: int) -> Seq<Entity> {
    if s.len() <= k {
        s
    } else {
        s.subrange(0, k)
    }
}

/// Whether `c` summarizes the coverage of `(entity, assertion count)`
/// pairs: covered and total counts, one row per top-level module (most
/// uncovered first, then by name), and the ten uncovered entities with the
/// largest fan-out (stable among equals).
pub open spec fn is_coverage_of(all: Seq<(Entity, usize)>, c: IndexCoverage) -> bool {
    &&& c.total == all.len()
    &&& c.covered == all.len() - uncovered_of(all, all.len() as int).len()
    &&& rows_ordered(rows_view(c.modules@))
    &&& forall|y: (Seq<char>, nat, nat)| #[trigger] rows_view(c.modules@).contains(y) <==> is_module_row(all, y)
    &&& c.top_uncovered@.map_values(|t: TopUncovered| top_view(t)) == first_k(
        sort_by_fan(uncovered_of(all, all.len() as int)),
        10,
    ).map_values(|e: Entity| top_of(e))
}

/// The coverage summary of `(entity, assertion count)` pairs: covered and
/// total counts, the per-module rows, and the ten uncovered entities with
/// the largest fan-out.
pub fn build_coverage_summary(all: &Vec<(Entity, usize)>) -> (r: IndexCoverage)
    ensures
        is_coverage_of(all@, r),
{
    let modules = module_rows(all);
    let sorted = uncovered_by_fan(all);
    proof {
        lemma_sort_by_fan_descending(uncovered_of(all@, all@.len() as int));
        lemma_uncovered_len(all@, all@.len() as int);
    }
    let n = if sorted.len() <= 10 {
        sorted.len()
    } else {
        10
    };
    let ghost chosen = first_k(sorted@, 10);
    let mut top: Vec<TopUncovered> = Vec::new();
    let mut i: usize = 0;
    while i < n
        invariant
            i <= n,
            n == chosen.len(),
            chosen == first_k(sorted@, 10),
            top@.map_values(|t: TopUncovered| top_view(t)) == chosen.subrange(0, i as int).map_values(
                |e: Entity| top_of(e),
            ),
        decreases n - i,
    {
        let e = &sorted[i];
        assert(chosen[i as int] == sorted@[i as int]);
        let ghost t0 = top@.map_values(|t: TopUncovered| top_view(t));
        top.push(
            TopUncovered {
                entity_name: e.qualified_name.clone(),
                entity_kind: String::from_str(e.kind.as_str()),
                assertions: 0,
                dependents: fan_of_entity(e) as usize,
            },
        );
        assert(top@.map_values(|t: TopUncovered| top_view(t)) =~= t0.push(top_of(*e)));
        assert(chosen.subrange(0, i + 1).map_values(|e: Entity| top_of(e)) =~= chosen.subrange(
            0,
            i as int,
        ).map_values(|e: Entity| top_of(e)).push(top_of(chosen[i as int])));
        i += 1;
    }
    assert(chosen.subrange(0, n as int) =~= chosen);
    IndexCoverage {
        covered: all.len() - sorted.len(),
        total: all.len(),
        modules,
        top_uncovered: top,
    }
}

proof fn lemma_no_module_zero(all: Seq<(Entity, usize)>, p: Seq<char>, n: int)
    requires
        0 <= n <= all.len(),
        forall|q: int| 0 <= q < n ==> module_prefix(#[trigger] all[q].0.qualified_name@) != p,
    ensures
        module_total(all, p, n) == 0,
        module_covered(all, p, n) == 0,
    decreases n,
{
    if n > 0 {
        lemma_no_module_zero(all, p, n - 1);
    }
}

proof fn lemma_uncovered_len(all: Seq<(Entity, usize)>, n: int)
    requires
        0 <= n <= all.len(),
    ensures
        uncovered_of(all, n).len() <= n,
    decreases n,
{
    if n > 0 {
        lemma_uncovered_len(all, n - 1);
    }
}

/// The pairs of `all[..n]` whose entity has no assertion, in order.
pub open spec fn uncovered_pairs(all: Seq<(Entity, usize)>, n: int) -> Seq<(Entity, usize)>
    decreases n,
{
    if n <= 0 || n > all.len() {
        seq![]
    } else {
        uncovered_pairs(all, n - 1) + if all[n - 1].1 == 0 {
            seq![all[n - 1]]
        } else {
            seq![]
        }
    }
}

/// The `index` report of the listed entities: with `uncovered`, only those
/// without assertions; with `verbose` or when the listing was `filtered` by
/// kind, origin or prefix, all of them; else all of them with the coverage
/// summary.
pub fn index_report(all: Vec<(Entity, usize)>, filtered: bool, verbose: bool, uncovered: bool) -> (r:
    EntityIndex)
    ensures
        uncovered ==> r.entities@ == uncovered_pairs(all@, all@.len() as int) && !r.summary_mode
            && r.coverage_summary is None,
        !uncovered && (verbose || filtered) ==> r.entities@ == all@ && !r.summary_mode
            && r.coverage_summary is None,
        !uncovered && !verbose && !filtered ==> r.entities@ == all@ && r.summary_mode && (
        r.coverage_summary matches Some(c) && is_coverage_of(all@, c)),
{
    if uncovered {
        let mut kept: Vec<(Entity, usize)> = Vec::new();
        let mut i: usize = 0;
        while i < all.len()
            invariant
                i <= all@.len(),
                kept@ == uncovered_pairs(all@, i as int),
            decreases all@.len() - i,
        {
            if all[i].1 == 0 {
                let e = all[i].0.clone();
                kept.push((e, all[i].1));
                assert(kept@ =~= uncovered_pairs(all@, i + 1));
            } else {
                assert(uncovered_pairs(all@, i + 1) =~= uncovered_pairs(all@, i as int));
            }
            i += 1;
        }
        EntityIndex { entities: kept, summary_mode: false, coverage_summary: None }
    } else if verbose || filtered {
        EntityIndex { entities: all, summary_mode: false, coverage_summary: None }
    } else {
        let coverage = build_coverage_summary(&all);
        EntityIndex { entities: all, summary_mode: true, coverage_summary: Some(coverage) }
    }
}

} // verus!
