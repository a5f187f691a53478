//! `recover`: which uncertain assertions can become active again (all their
//! dependencies are active), and the report of it.

use vstd::prelude::*;
use vstd::string::*;
use crate::domain::assertion::{short_chars, short_id_string, Assertion, AssertionStatus};
use crate::text::{decimal, usize_text};

verus! {

/// The number of dependencies of `deps[..n]` that are not active.
pub open spec fn inactive_count(deps: Seq<Assertion>, n: int) -> nat
    decreases n,
{
    if n <= 0 || n > deps.len() {
        0
    } else {
        inactive_count(deps, n - 1) + if deps[n - 1].status != AssertionStatus::Active {
            1nat
        } else {
            0nat
        }
    }
}

proof fn lemma_inactive_bounded(deps: Seq<Assertion>, n: int)
    requires
        0 <= n <= deps.len(),
    ensures
        inactive_count(deps, n) <= n,
        inactive_count(deps, n) == 0 <==> forall|j: int|
            0 <= j < n ==> #[trigger] deps[j].status == AssertionStatus::Active,
    decreases n,
{
    if n > 0 {
        lemma_inactive_bounded(deps, n - 1);
    }
}

/// The number of dependencies that are not active; an uncertain assertion
/// can be recovered exactly when it is zero.
pub fn count_inactive(deps: &Vec<Assertion>) -> (r: usize)
    ensures
        r == inactive_count(deps@, deps@.len() as int),
        r == 0 <==> forall|j: int| 0 <= j < deps@.len() ==> #[trigger] deps@[j].status
            == AssertionStatus::Active,
{
    let mut n: usize = 0;
    let mut i: usize = 0;
    while i < deps.len()
        invariant
            i <= deps@.len(),
            n == inactive_count(deps@, i as int),
        decreases deps@.len() - i,
    {
        proof {
            lemma_inactive_bounded(deps@, i as int);
        }
        if deps[i].status != AssertionStatus::Active {
            n += 1;
        }
        i += 1;
    }
    proof {
        lemma_inactive_bounded(deps@, deps@.len() as int);
    }
    n
}

/// The uncertain assertions of `all[..n]`, in order.
pub open spec fn uncertain_of(all: Seq<Assertion>, n: int) -> Seq<Assertion>
    decreases n,
{
    if n <= 0 || n > all.len() {
        seq![]
    } else {
        uncertain_of(all, n - 1) + if all[n - 1].status == AssertionStatus::Uncertain {
            seq![all[n - 1]]
        } else {
            seq![]
        }
    }
}

/// The uncertain assertions, in order.
pub fn uncertain_assertions(all: &Vec<Assertion>) -> (r: Vec<Assertion>)
    ensures
        r@ == uncertain_of(all@, all@.len() as int),
{
    let mut out: Vec<Assertion> = Vec::new();
    let mut i: usize = 0;
    while i < all.len()
        invariant
            i <= all@.len(),
            out@ == uncertain_of(all@, i as int),
        decreases all@.len() - i,
    {
        if all[i].status == AssertionStatus::Uncertain {
            out.push(all[i].clone());
        }
        assert(out@ =~= uncertain_of(all@, i + 1));
        i += 1;
    }
    out
}

/// The recoverable assertions of `u[..n]` (every dependency active), in
/// order.
pub open spec fn recoverable_of(u: Seq<Assertion>, deps: Seq<Vec<Assertion>>, n: int) -> Seq<
    Assertion,
>
    decreases n,
{
    if n <= 0 || n > u.len() {
        seq![]
    } else {
        recoverable_of(u, deps, n - 1) + if inactive_count(deps[n - 1]@, deps[n - 1]@.len() as int)
            == 0 {
            seq![u[n - 1]]
        } else {
            seq![]
        }
    }
}

/// The blocked assertions of `u[..n]` with their count of inactive
/// dependencies, in order.
pub open spec fn blocked_of(u: Seq<Assertion>, deps: Seq<Vec<Assertion>>, n: int) -> Seq<
    (Assertion, nat),
>
    decreases n,
{
    if n <= 0 || n > u.len() {
        seq![]
    } else {
        let c = inactive_count(deps[n - 1]@, deps[n - 1]@.len() as int);
        blocked_of(u, deps, n - 1) + if c > 0 {
            seq![(u[n - 1], c)]
        } else {
            seq![]
        }
    }
}

/// Splits the uncertain assertions `u` (with the dependencies `deps[i]` of
/// `u[i]`) into the recoverable ones and the blocked ones with their count
/// of inactive dependencies.
pub fn plan_recovery(u: &Vec<Assertion>, deps: &Vec<Vec<Assertion>>) -> (r: (
    Vec<Assertion>,
    Vec<(Assertion, usize)>,
))
    requires
        deps@.len() == u@.len(),
    ensures
        r.0@ == recoverable_of(u@, deps@, u@.len() as int),
        r.1@.map_values(|p: (Assertion, usize)| (p.0, p.1 as nat)) == blocked_of(
            u@,
            deps@,
            u@.len() as int,
        ),
{
    let mut rec: Vec<Assertion> = Vec::new();
    let mut blocked: Vec<(Assertion, usize)> = Vec::new();
    let mut i: usize = 0;
    while i < u.len()
        invariant
            i <= u@.len(),
            deps@.len() == u@.len(),
            rec@ == recoverable_of(u@, deps@, i as int),
            blocked@.map_values(|p: (Assertion, usize)| (p.0, p.1 as nat)) == blocked_of(
                u@,
                deps@,
                i as int,
            ),
        decreases u@.len() - i,
    {
        let n = count_inactive(&deps[i]);
        let ghost b0 = blocked@.map_values(|p: (Assertion, usize)| (p.0, p.1 as nat));
        if n == 0 {
            rec.push(u[i].clone());
        } else {
            blocked.push((u[i].clone(), n));
            assert(blocked@.map_values(|p: (Assertion, usize)| (p.0, p.1 as nat)) =~= b0.push(
                (u@[i as int], n as nat),
            ));
        }
        assert(rec@ =~= recoverable_of(u@, deps@, i + 1));
        assert(blocked@.map_values(|p: (Assertion, usize)| (p.0, p.1 as nat)) =~= blocked_of(
            u@,
            deps@,
            i + 1,
        ));
        i += 1;
    }
    (rec, blocked)
}

/// An assertion is recovered only when every one of its dependencies is
/// active, and an uncertain assertion with an inactive dependency stays
/// blocked.
pub proof fn lemma_recovery_requires_active_deps(
    u: Seq<Assertion>,
    deps: Seq<Vec<Assertion>>,
    i: int,
)
    requires
        deps.len() == u.len(),
        0 <= i < u.len(),
    ensures
        (forall|j: int| 0 <= j < deps[i]@.len() ==> #[trigger] deps[i]@[j].status
            == AssertionStatus::Active) <==> inactive_count(deps[i]@, deps[i]@.len() as int) == 0,
{
    lemma_inactive_bounded(deps[i]@, deps[i]@.len() as int);
}

/// Recovery looks at uncertain assertions only: every assertion
/// `uncertain_of` lists is uncertain and from the input, and every uncertain
/// assertion of the input is listed.
pub proof fn lemma_uncertain_of(all: Seq<Assertion>, n: int)
    requires
        0 <= n <= all.len(),
    ensures
        forall|k: int|
            0 <= k < uncertain_of(all, n).len() ==> (#[trigger] uncertain_of(all, n)[k]).status
                == AssertionStatus::Uncertain && all.subrange(0, n).contains(uncertain_of(all, n)[k]),
        forall|i: int|
            0 <= i < n && (#[trigger] all[i]).status == AssertionStatus::Uncertain ==> uncertain_of(
                all,
                n,
            ).contains(all[i]),
    decreases n,
{
    if n > 0 {
        lemma_uncertain_of(all, n - 1);
        let prev = uncertain_of(all, n - 1);
        let r = uncertain_of(all, n);
        assert forall|k: int| 0 <= k < r.len() implies (#[trigger] r[k]).status
            == AssertionStatus::Uncertain && all.subrange(0, n).contains(r[k]) by {
            if k < prev.len() {
                assert(r[k] == prev[k]);
                let t = choose|t: int| 0 <= t < n - 1 && #[trigger] all.subrange(0, n - 1)[t] == prev[k];
                assert(all.subrange(0, n)[t] == prev[k]);
            } else {
                assert(r[k] == all[n - 1]);
                assert(all.subrange(0, n)[n - 1] == all[n - 1]);
            }
        }
        assert forall|i: int|
            0 <= i < n && (#[trigger] all[i]).status == AssertionStatus::Uncertain implies r.contains(all[i]) by {
            if i < n - 1 {
                let t = choose|t: int| 0 <= t < prev.len() && #[trigger] prev[t] == all[i];
                assert(r[t] == all[i]);
            } else {
                assert(r[prev.len() as int] == all[i]);
            }
        }
    }
}

proof fn lemma_split_keeps(u: Seq<Assertion>, deps: Seq<Vec<Assertion>>, n: int, i: int)
    requires
        deps.len() == u.len(),
        0 <= i < n <= u.len(),
    ensures
        inactive_count(deps[i]@, deps[i]@.len() as int) == 0 ==> recoverable_of(u, deps, n).contains(u[i]),
        inactive_count(deps[i]@, deps[i]@.len() as int) > 0 ==> blocked_of(u, deps, n).contains(
            (u[i], inactive_count(deps[i]@, deps[i]@.len() as int)),
        ),
    decreases n,
{
    let rp = recoverable_of(u, deps, n - 1);
    let bp = blocked_of(u, deps, n - 1);
    let c = inactive_count(deps[i]@, deps[i]@.len() as int);
    if i < n - 1 {
        lemma_split_keeps(u, deps, n - 1, i);
        if c == 0 {
            let t = choose|t: int| 0 <= t < rp.len() && #[trigger] rp[t] == u[i];
            assert(recoverable_of(u, deps, n)[t] == u[i]);
        } else {
            let t = choose|t: int| 0 <= t < bp.len() && #[trigger] bp[t] == (u[i], c);
            assert(blocked_of(u, deps, n)[t] == (u[i], c));
        }
    } else {
        if c == 0 {
            assert(recoverable_of(u, deps, n)[rp.len() as int] == u[i]);
        } else {
            assert(blocked_of(u, deps, n)[bp.len() as int] == (u[i], c));
        }
    }
}

/// How recovery splits the uncertain assertions: one whose dependencies
/// are all active is recovered; one with an inactive dependency is blocked,
/// reported with its positive number of inactive dependencies.
pub proof fn lemma_recovery_split(u: Seq<Assertion>, deps: Seq<Vec<Assertion>>, i: int)
    requires
        deps.len() == u.len(),
        0 <= i < u.len(),
    ensures
        (forall|j: int| 0 <= j < deps[i]@.len() ==> #[trigger] deps[i]@[j].status == AssertionStatus::Active)
            ==> recoverable_of(u, deps, u.len() as int).contains(u[i]),
        (exists|j: int| 0 <= j < deps[i]@.len() && #[trigger] deps[i]@[j].status != AssertionStatus::Active)
            ==> inactive_count(deps[i]@, deps[i]@.len() as int) > 0 && blocked_of(
            u,
            deps,
            u.len() as int,
        ).contains((u[i], inactive_count(deps[i]@, deps[i]@.len() as int))),
{
    lemma_inactive_bounded(deps[i]@, deps[i]@.len() as int);
    lemma_split_keeps(u, deps, u.len() as int, i);
}

/// The line of one assertion in the report: `  [<short id>] <kind> — "<claim>"`.
pub open spec fn assertion_line(a: Assertion) -> Seq<char> {
    "  ["@ + short_chars(a.id@) + "] "@ + a.kind.text() + " \u{2014} \""@ + a.claim@ + "\""@
}

pub open spec fn recoverable_lines(s: Seq<Assertion>) -> Seq<char>
    decreases s.len(),
{
    if s.len() == 0 {
        seq![]
    } else {
        recoverable_lines(s.drop_last()) + assertion_line(s.last()) + "\n"@
    }
}

pub open spec fn blocked_lines(s: Seq<(Assertion, nat)>) -> Seq<char>
    decreases s.len(),
{
    if s.len() == 0 {
        seq![]
    } else {
        blocked_lines(s.drop_last()) + assertion_line(s.last().0) + " ("@ + decimal(s.last().1)
            + " inactive dep(s))\n"@
    }
}

/// The report of `recover` on the recoverable and blocked assertions.
pub open spec fn spec_recover_report(rec: Seq<Assertion>, blocked: Seq<(Assertion, nat)>, apply: bool) -> Seq<char> {
    (if rec.len() > 0 {
        (if apply {
            "Recovered "@ + decimal(rec.len()) + " assertion(s):\n"@
        } else {
            decimal(rec.len()) + " assertion(s) eligible for recovery:\n"@
        }) + recoverable_lines(rec) + if !apply {
            "\nApply with: cog recover --apply\n"@
        } else {
            seq![]
        }
    } else {
        seq![]
    }) + if blocked.len() > 0 {
        "\n"@ + decimal(blocked.len()) + " uncertain assertion(s) still blocked:\n"@
            + blocked_lines(blocked)
    } else {
        seq![]
    }
}

fn assertion_line_text(a: &Assertion) -> (r: String)
    ensures
        r@ == assertion_line(*a),
{
    let mut s = String::from_str("  [");
    s.append(short_id_string(a.id.as_str()).as_str());
    s.append("] ");
    s.append(a.kind.as_str());
    s.append(" \u{2014} \"");
    s.append(a.claim.as_str());
    s.append("\"");
    s
}

/// The text of `recover` (the message when nothing is uncertain is the
/// caller's).
pub fn recover_report(rec: &Vec<Assertion>, blocked: &Vec<(Assertion, usize)>, apply: bool) -> (r:
    String)
    ensures
        r@ == spec_recover_report(
            rec@,
            blocked@.map_values(|p: (Assertion, usize)| (p.0, p.1 as nat)),
            apply,
        ),
{
    let ghost rv = rec@;
    let ghost bv = blocked@.map_values(|p: (Assertion, usize)| (p.0, p.1 as nat));
    let mut text = String::new();
    if rec.len() > 0 {
        if apply {
            text.append("Recovered ");
            text.append(usize_text(rec.len()).as_str());
            text.append(" assertion(s):\n");
        } else {
            text.append(usize_text(rec.len()).as_str());
            text.append(" assertion(s) eligible for recovery:\n");
        }
        let ghost h = text@;
        let mut i: usize = 0;
        while i < rec.len()
            invariant
                i <= rv.len(),
                rv == rec@,
                text@ == h + recoverable_lines(rv.subrange(0, i as int)),
            decreases rv.len() - i,
        {
            text.append(assertion_line_text(&rec[i]).as_str());
            text.append("\n");
            assert(rv.subrange(0, i + 1).drop_last() =~= rv.subrange(0, i as int));
            i += 1;
        }
        assert(rv.subrange(0, rv.len() as int) =~= rv);
        if !apply {
            text.append("\nApply with: cog recover --apply\n");
        }
    }
    let ghost mid = text@;
    if blocked.len() > 0 {
        text.append("\n");
        text.append(usize_text(blocked.len()).as_str());
        text.append(" uncertain assertion(s) still blocked:\n");
        let ghost h = text@;
        let mut k: usize = 0;
        while k < blocked.len()
            invariant
                k <= bv.len(),
                bv == blocked@.map_values(|p: (Assertion, usize)| (p.0, p.1 as nat)),
                text@ == h + blocked_lines(bv.subrange(0, k as int)),
            decreases bv.len() - k,
        {
            text.append(assertion_line_text(&blocked[k].0).as_str());
            text.append(" (");
            text.append(usize_text(blocked[k].1).as_str());
            text.append(" inactive dep(s))\n");
            assert(bv.subrange(0, k + 1).drop_last() =~= bv.subrange(0, k as int));
            assert(bv[k as int] == (blocked@[k as int].0, blocked@[k as int].1 as nat));
            k += 1;
        }
        assert(bv.subrange(0, bv.len() as int) =~= bv);
    }
    assert(text@ =~= spec_recover_report(rv, bv, apply));
    text
}

} // verus!
