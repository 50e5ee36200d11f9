//! The engine's top-level operations: quantity-mode expectations for a
//! caller-derived order quantity, and the lookahead policy that optimizes
//! the order quantity before reporting expectations at it.
//!
//! Each call builds its own thinning table from the diversion probability
//! and discards it with the result; nothing is cached across calls.

use vstd::prelude::*;

use crate::distributions::Pmf;
use crate::evaluate::{
    cp_wf, evaluate, mode_cp, spec_stage1_expectation, spec_total_expectation, CostParameters,
    EvalMode,
};
use crate::optimise::{cost_at, minimise_q};
use crate::thinning::{spec_thinning_table, ThinningTable};
use crate::{EngineError, Q_LIMIT, SCALE, X_LIMIT};

verus! {

/// Diversion probability used when the caller supplies none (0.8).
pub const DEFAULT_DIVERSION_PROBABILITY: u64 = 800_000;

/// Unit shortage cost used when the caller supplies none (18.0).
pub const DEFAULT_UNIT_SHORTAGE_COST: u64 = 18_000_000;

/// Unit holding cost used when the caller supplies none (1.0).
pub const DEFAULT_UNIT_HOLDING_COST: u64 = 1_000_000;

/// Unit diversion cost used when the caller supplies none (0.0).
pub const DEFAULT_UNIT_DIVERSION_COST: u64 = 0;

/// The diversion probability after applying the default.
pub open spec fn spec_diversion_probability(p: Option<u64>) -> u64 {
    match p {
        Some(v) => v,
        None => DEFAULT_DIVERSION_PROBABILITY,
    }
}

/// The cost weights after applying the defaults.
pub open spec fn spec_cost_parameters(
    cu: Option<u64>,
    co: Option<u64>,
    cdfw: Option<u64>,
) -> CostParameters {
    CostParameters {
        cu: match cu {
            Some(v) => v,
            None => DEFAULT_UNIT_SHORTAGE_COST,
        },
        co: match co {
            Some(v) => v,
            None => DEFAULT_UNIT_HOLDING_COST,
        },
        cdfw: match cdfw {
            Some(v) => v,
            None => DEFAULT_UNIT_DIVERSION_COST,
        },
    }
}

/// The order quantity the expectation operation evaluates: what is missing
/// up to the maximum inventory `st_out`, capped by the reorder point when
/// one is given.
pub open spec fn spec_order_quantity(x: int, st_out: int, reorder: Option<usize>) -> int {
    let cap = match reorder {
        Some(c) => c as int,
        None => st_out,
    };
    let raw = if st_out > x {
        st_out - x
    } else {
        0
    };
    if raw < cap {
        raw
    } else {
        cap
    }
}

/// Derives the order quantity `min(max(st_out - x, 0), reorder or st_out)`.
pub fn order_quantity(x: usize, st_out: usize, reorder: Option<usize>) -> (q: usize)
    ensures
        q == spec_order_quantity(x as int, st_out as int, reorder),
        q <= st_out,
{
    let raw: usize = if st_out > x {
        st_out - x
    } else {
        0
    };
    let cap: usize = match reorder {
        Some(c) => c,
        None => st_out,
    };
    if raw < cap {
        raw
    } else {
        cap
    }
}

/// Quantity-mode expectations for the order quantity derived from the
/// maximum inventory `st_out` and the optional reorder point: returns
/// `(totalExpectation, stage1Expectation)` in `SCALE` units, the expected
/// unfulfilled units over both stages and over stage 1 alone. Fails with
/// InvalidProbability exactly when the diversion probability exceeds 1.
pub fn expectation(
    x: usize,
    st_out: usize,
    reorder: Option<usize>,
    p: Option<u64>,
    pmf1: &Pmf,
    pmf2: &Pmf,
) -> (r: Result<(u64, u64), EngineError>)
    requires
        pmf1.wf(),
        pmf2.wf(),
        x <= X_LIMIT,
        st_out <= Q_LIMIT,
    ensures
        spec_diversion_probability(p) > SCALE ==> r == Err::<(u64, u64), EngineError>(
            EngineError::InvalidProbability,
        ),
        spec_diversion_probability(p) <= SCALE ==> (r matches Ok(v) && {
            let tbl = spec_thinning_table(spec_diversion_probability(p));
            let cp = mode_cp(EvalMode::Quantity);
            let q = spec_order_quantity(x as int, st_out as int, reorder);
            &&& v.0 == spec_total_expectation(pmf1@, pmf2@, tbl, cp, x as int, q)
            &&& v.1 == spec_stage1_expectation(pmf1@, tbl, cp, x as int)
            &&& v.1 <= v.0
        }),
{
    let dp: u64 = match p {
        Some(v) => v,
        None => DEFAULT_DIVERSION_PROBABILITY,
    };
    match ThinningTable::build(dp) {
        Err(e) => Err(e),
        Ok(table) => {
            let q = order_quantity(x, st_out, reorder);
            let res = evaluate(x, q, pmf1, pmf2, &table, EvalMode::Quantity);
            Ok(res)
        },
    }
}

/// The lookahead policy: finds the order quantity in `0 ..= max_q` with the
/// least cost-mode expectation (exhaustive scan, ties toward the smaller
/// quantity) and returns `(stage1Expectation, totalExpectation, bestQ)`,
/// the expectations being quantity-mode values at the chosen quantity.
/// Fails with InvalidProbability exactly when the diversion probability
/// exceeds 1.
pub fn lookahead(
    x: usize,
    max_q: usize,
    p: Option<u64>,
    cu: Option<u64>,
    co: Option<u64>,
    cdfw: Option<u64>,
    pmf1: &Pmf,
    pmf2: &Pmf,
) -> (r: Result<(u64, u64, usize), EngineError>)
    requires
        pmf1.wf(),
        pmf2.wf(),
        x <= X_LIMIT,
        max_q <= Q_LIMIT,
        cp_wf(spec_cost_parameters(cu, co, cdfw)),
    ensures
        spec_diversion_probability(p) > SCALE ==> r == Err::<(u64, u64, usize), EngineError>(
            EngineError::InvalidProbability,
        ),
        spec_diversion_probability(p) <= SCALE ==> (r matches Ok(v) && {
            let tbl = spec_thinning_table(spec_diversion_probability(p));
            let cp = spec_cost_parameters(cu, co, cdfw);
            let qty = mode_cp(EvalMode::Quantity);
            &&& v.2 <= max_q
            &&& forall|q2: int|
                0 <= q2 <= max_q ==> cost_at(pmf1@, pmf2@, tbl, cp, x as int, v.2 as int)
                    <= #[trigger] cost_at(pmf1@, pmf2@, tbl, cp, x as int, q2)
            &&& forall|q2: int|
                0 <= q2 < v.2 ==> cost_at(pmf1@, pmf2@, tbl, cp, x as int, v.2 as int)
                    < #[trigger] cost_at(pmf1@, pmf2@, tbl, cp, x as int, q2)
            &&& v.0 == spec_stage1_expectation(pmf1@, tbl, qty, x as int)
            &&& v.1 == spec_total_expectation(pmf1@, pmf2@, tbl, qty, x as int, v.2 as int)
            &&& v.0 <= v.1
        }),
{
    let cp = CostParameters {
        cu: match cu {
            Some(v) => v,
            None => DEFAULT_UNIT_SHORTAGE_COST,
        },
        co: match co {
            Some(v) => v,
            None => DEFAULT_UNIT_HOLDING_COST,
        },
        cdfw: match cdfw {
            Some(v) => v,
            None => DEFAULT_UNIT_DIVERSION_COST,
        },
    };
    proof {
        assert(cp == spec_cost_parameters(cu, co, cdfw));
    }
    let dp: u64 = match p {
        Some(v) => v,
        None => DEFAULT_DIVERSION_PROBABILITY,
    };
    match ThinningTable::build(dp) {
        Err(e) => Err(e),
        Ok(table) => {
            let best = minimise_q(max_q, x, pmf1, pmf2, &table, &cp);
            let res = evaluate(x, best, pmf1, pmf2, &table, EvalMode::Quantity);
            Ok((res.1, res.0, best))
        },
    }
}

} // verus!
