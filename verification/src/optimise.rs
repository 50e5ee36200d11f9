//! The order-quantity optimizer: drives the evaluator in cost mode over
//! candidate order quantities.
//!
//! The exhaustive scan is always correct and is the default strategy. The
//! directional local search is faster but returns a local optimum; its
//! global optimality rests on the cost-versus-quantity curve being
//! unimodal, which is not verified here.

use vstd::prelude::*;

use crate::distributions::Pmf;
use crate::evaluate::{cp_wf, evaluate, spec_total_expectation, CostParameters, EvalMode};
use crate::thinning::ThinningTable;
use crate::{Q_LIMIT, X_LIMIT};

verus! {

/// The cost-mode expectation the optimizer minimizes, as a function of the
/// candidate order quantity `q`.
pub open spec fn cost_at(
    pmf1: Seq<u64>,
    pmf2: Seq<u64>,
    tbl: Seq<Seq<u64>>,
    cp: CostParameters,
    x: int,
    q: int,
) -> int {
    spec_total_expectation(pmf1, pmf2, tbl, cp, x, q)
}

/// Exhaustive scan: evaluates the cost-mode expectation for every integer
/// order quantity in `0 ..= max_q` and returns the cheapest, ties broken
/// toward the smaller quantity. No quantity in range is strictly cheaper
/// than the one returned, and every quantity below it is strictly dearer.
#[verifier::loop_isolation(false)]
pub fn minimise_q(
    max_q: usize,
    x: usize,
    pmf1: &Pmf,
    pmf2: &Pmf,
    table: &ThinningTable,
    cost: &CostParameters,
) -> (best: usize)
    requires
        pmf1.wf(),
        pmf2.wf(),
        table.wf(),
        x <= X_LIMIT,
        max_q <= Q_LIMIT,
        cp_wf(*cost),
    ensures
        best <= max_q,
        forall|q2: int|
            0 <= q2 <= max_q ==> cost_at(pmf1@, pmf2@, table@, *cost, x as int, best as int)
                <= cost_at(pmf1@, pmf2@, table@, *cost, x as int, q2),
        forall|q2: int|
            0 <= q2 < best ==> cost_at(pmf1@, pmf2@, table@, *cost, x as int, best as int)
                < cost_at(pmf1@, pmf2@, table@, *cost, x as int, q2),
{
    let first = evaluate(x, 0, pmf1, pmf2, table, EvalMode::Cost(*cost));
    let mut best: usize = 0;
    let mut best_cost: u64 = first.0;
    let mut q: usize = 1;
    while q <= max_q
        invariant
            1 <= q <= max_q + 1,
            best < q,
            best_cost == cost_at(pmf1@, pmf2@, table@, *cost, x as int, best as int),
            forall|q2: int|
                0 <= q2 < q ==> best_cost <= cost_at(pmf1@, pmf2@, table@, *cost, x as int, q2),
            forall|q2: int|
                0 <= q2 < best ==> best_cost < cost_at(pmf1@, pmf2@, table@, *cost, x as int, q2),
        decreases max_q + 1 - q,
    {
        let r = evaluate(x, q, pmf1, pmf2, table, EvalMode::Cost(*cost));
        if r.0 < best_cost {
            best = q;
            best_cost = r.0;
        }
        q = q + 1;
    }
    best
}

/// Directional local search: starts at the midpoint of `0 ..= max_q`,
/// probes both neighbors, then walks in the improving direction, stopping
/// as soon as a step fails to improve (a tie included) or a boundary is
/// reached. The result is no dearer than the midpoint and, past the
/// trivial early return, no dearer than either of its neighbors in range:
/// a local optimum. It equals the exhaustive argmin only when the cost
/// curve is unimodal in `q`, which is not verified.
#[verifier::loop_isolation(false)]
pub fn minimise_q_search(
    max_q: usize,
    x: usize,
    pmf1: &Pmf,
    pmf2: &Pmf,
    table: &ThinningTable,
    cost: &CostParameters,
) -> (best: usize)
    requires
        pmf1.wf(),
        pmf2.wf(),
        table.wf(),
        x <= X_LIMIT,
        max_q <= Q_LIMIT,
        cp_wf(*cost),
    ensures
        best <= max_q,
        max_q / 2 == 0 ==> best == 0,
        cost_at(pmf1@, pmf2@, table@, *cost, x as int, best as int) <= cost_at(
            pmf1@,
            pmf2@,
            table@,
            *cost,
            x as int,
            (max_q / 2) as int,
        ),
        max_q / 2 > 0 && best > 0 ==> cost_at(pmf1@, pmf2@, table@, *cost, x as int, best as int)
            <= cost_at(pmf1@, pmf2@, table@, *cost, x as int, best as int - 1),
        max_q / 2 > 0 && best < max_q ==> cost_at(
            pmf1@,
            pmf2@,
            table@,
            *cost,
            x as int,
            best as int,
        ) <= cost_at(pmf1@, pmf2@, table@, *cost, x as int, best as int + 1),
{
    let q_mid: usize = max_q / 2;
    if q_mid == 0 {
        return 0;
    }
    let mode = EvalMode::Cost(*cost);
    let c_mid = evaluate(x, q_mid, pmf1, pmf2, table, mode).0;
    let c_plus = evaluate(x, q_mid + 1, pmf1, pmf2, table, mode).0;
    let c_minus = evaluate(x, q_mid - 1, pmf1, pmf2, table, mode).0;
    if c_mid <= c_plus && c_mid <= c_minus {
        return q_mid;
    }
    if c_plus <= c_minus {
        // walk upward: the step to q_mid + 1 already improved strictly
        assert(c_plus < c_mid);
        let mut cur: usize = q_mid + 1;
        let mut cur_cost: u64 = c_plus;
        while cur < max_q
            invariant
                q_mid + 1 <= cur <= max_q,
                cur_cost == cost_at(pmf1@, pmf2@, table@, *cost, x as int, cur as int),
                cur_cost < c_mid,
                cost_at(pmf1@, pmf2@, table@, *cost, x as int, cur as int) < cost_at(
                    pmf1@,
                    pmf2@,
                    table@,
                    *cost,
                    x as int,
                    cur as int - 1,
                ),
            decreases max_q - cur,
        {
            let next = cur + 1;
            let next_cost = evaluate(x, next, pmf1, pmf2, table, mode).0;
            if next_cost >= cur_cost {
                return cur;
            }
            cur = next;
            cur_cost = next_cost;
        }
        cur
    } else {
        // walk downward: the step to q_mid - 1 already improved strictly
        assert(c_minus < c_mid);
        let mut cur: usize = q_mid - 1;
        let mut cur_cost: u64 = c_minus;
        while cur > 0
            invariant
                cur <= q_mid - 1,
                cur_cost == cost_at(pmf1@, pmf2@, table@, *cost, x as int, cur as int),
                cur_cost < c_mid,
                cost_at(pmf1@, pmf2@, table@, *cost, x as int, cur as int) < cost_at(
                    pmf1@,
                    pmf2@,
                    table@,
                    *cost,
                    x as int,
                    cur as int + 1,
                ),
            decreases cur,
        {
            let next = cur - 1;
            let next_cost = evaluate(x, next, pmf1, pmf2, table, mode).0;
            if next_cost >= cur_cost {
                return cur;
            }
            cur = next;
            cur_cost = next_cost;
        }
        cur
    }
}

} // verus!
