//! The nested-expectation evaluator: combines two demand PMFs, a starting
//! inventory, an order quantity and the thinning table into expected
//! shortage quantities or expected costs.
//!
//! All sums are accumulated exactly as integers. A stage-1 term carries two
//! probability factors and a stage-2 term three, so stage-1 terms are scaled
//! by one extra factor of `SCALE`; the grand total is divided once by
//! `SCALE^3` at the end, rounding down, leaving a result in `SCALE` units.

use vstd::prelude::*;

use vstd::arithmetic::div_mod::{lemma_div_is_ordered, lemma_div_pos_is_pos};

use crate::distributions::{pmf_wf, Pmf};
use crate::thinning::{table_wf, ThinningTable};
use crate::{COST_LIMIT, D_MAX, Q_LIMIT, SCALE, SCALE_CUBED, X_LIMIT};

verus! {

/// The three per-unit cost weights, in `SCALE` units: `cu` for a shortage
/// unit that is lost, `co` for a unit of excess inventory held after stage
/// 2, `cdfw` for a shortage unit satisfied through the secondary channel.
#[derive(Clone, Copy, Debug, PartialEq, Eq, Structural)]
pub struct CostParameters {
    pub cu: u64,
    pub co: u64,
    pub cdfw: u64,
}

/// What the evaluator accumulates: expected unfulfilled units (ignoring the
/// cost weights), or expected monetary cost under the given cost weights.
#[derive(Clone, Copy, Debug)]
pub enum EvalMode {
    Quantity,
    Cost(CostParameters),
}

/// Every cost weight is within the fixed-point budget.
pub open spec fn cp_wf(cp: CostParameters) -> bool {
    &&& cp.cu <= COST_LIMIT
    &&& cp.co <= COST_LIMIT
    &&& cp.cdfw <= COST_LIMIT
}

/// The cost weights a mode evaluates under. Quantity mode counts units:
/// each lost shortage unit weighs exactly 1 (that is, `SCALE` in fixed
/// point), with no diversion or holding weight.
pub open spec fn mode_cp(mode: EvalMode) -> CostParameters {
    match mode {
        EvalMode::Quantity => CostParameters { cu: SCALE, co: 0, cdfw: 0 },
        EvalMode::Cost(cp) => cp,
    }
}

pub open spec fn mode_wf(mode: EvalMode) -> bool {
    cp_wf(mode_cp(mode))
}

/// Shortage: how far demand `d` exceeds the available quantity `avail`.
pub open spec fn spec_shortage(d: int, avail: int) -> int {
    if d > avail {
        d - avail
    } else {
        0
    }
}

/// Surplus: how far the available quantity `avail` exceeds demand `d`.
pub open spec fn spec_surplus(avail: int, d: int) -> int {
    if avail > d {
        avail - d
    } else {
        0
    }
}

/// The cost of the diversion outcome in which `j` of `s` shortage units go
/// through the secondary channel and the remaining `s - j` are lost.
pub open spec fn spec_weight(cp: CostParameters, s: int, j: int) -> int {
    cp.cdfw * j + cp.cu * (s - j)
}

/// Sum over diversion outcomes `j < jmax` of the thinning probability of
/// `j` successes among `s` trials times the outcome's cost.
pub open spec fn thin_sum(row: Seq<u64>, cp: CostParameters, s: int, jmax: int) -> int
    decreases jmax,
{
    if jmax <= 0 {
        0
    } else {
        thin_sum(row, cp, s, jmax - 1) + row[jmax - 1] * spec_weight(cp, s, jmax - 1)
    }
}

/// Stage-1 accumulator over demand values `d1 < n`: the probability of `d1`
/// times the thinned cost of the stage-1 shortage, scaled by one extra
/// `SCALE` so that every term of the grand total carries `SCALE^3`.
pub open spec fn stage1_total(
    pmf1: Seq<u64>,
    tbl: Seq<Seq<u64>>,
    cp: CostParameters,
    x: int,
    n: int,
) -> int
    decreases n,
{
    if n <= 0 {
        0
    } else {
        let d1 = n - 1;
        let s1 = spec_shortage(d1, x);
        stage1_total(pmf1, tbl, cp, x, n - 1) + pmf1[d1] * SCALE * thin_sum(tbl[s1], cp, s1, s1 + 1)
    }
}

/// Stage-2 accumulator over demand values `d2 < m`, for a fixed stage-2
/// available quantity `avail`: the probability of `d2` times the thinned
/// cost of the stage-2 shortage plus the holding cost of the surplus.
pub open spec fn pair_total(
    pmf2: Seq<u64>,
    tbl: Seq<Seq<u64>>,
    cp: CostParameters,
    avail: int,
    m: int,
) -> int
    decreases m,
{
    if m <= 0 {
        0
    } else {
        let d2 = m - 1;
        let s2 = spec_shortage(d2, avail);
        pair_total(pmf2, tbl, cp, avail, m - 1) + pmf2[d2] * (thin_sum(tbl[s2], cp, s2, s2 + 1)
            + cp.co * spec_surplus(avail, d2) * SCALE)
    }
}

/// Stage-2 accumulator over stage-1 demand values `d1 < n`: residual
/// inventory entering stage 2 is what stage-1 demand left of `x`, plus the
/// order quantity `q`.
pub open spec fn stage2_total(
    pmf1: Seq<u64>,
    pmf2: Seq<u64>,
    tbl: Seq<Seq<u64>>,
    cp: CostParameters,
    x: int,
    q: int,
    n: int,
) -> int
    decreases n,
{
    if n <= 0 {
        0
    } else {
        let d1 = n - 1;
        stage2_total(pmf1, pmf2, tbl, cp, x, q, n - 1) + pmf1[d1] * pair_total(
            pmf2,
            tbl,
            cp,
            spec_surplus(x, d1) + q,
            D_MAX as int,
        )
    }
}

/// The exact integer numerator of the total expectation, in `SCALE^3`
/// units.
pub open spec fn expectation_num(
    pmf1: Seq<u64>,
    pmf2: Seq<u64>,
    tbl: Seq<Seq<u64>>,
    cp: CostParameters,
    x: int,
    q: int,
) -> int {
    stage1_total(pmf1, tbl, cp, x, D_MAX as int) + stage2_total(
        pmf1,
        pmf2,
        tbl,
        cp,
        x,
        q,
        D_MAX as int,
    )
}

/// The total expectation in `SCALE` units: both stages' thinned shortage
/// costs plus holding costs, rounded down once.
pub open spec fn spec_total_expectation(
    pmf1: Seq<u64>,
    pmf2: Seq<u64>,
    tbl: Seq<Seq<u64>>,
    cp: CostParameters,
    x: int,
    q: int,
) -> int {
    expectation_num(pmf1, pmf2, tbl, cp, x, q) / (SCALE_CUBED as int)
}

/// The stage-1 share of the expectation in `SCALE` units: it depends on
/// neither the order quantity nor the stage-2 demand.
pub open spec fn spec_stage1_expectation(
    pmf1: Seq<u64>,
    tbl: Seq<Seq<u64>>,
    cp: CostParameters,
    x: int,
) -> int {
    stage1_total(pmf1, tbl, cp, x, D_MAX as int) / (SCALE_CUBED as int)
}

/// A thinned cost sum over at most `D_MAX + 1` outcomes is non-negative and
/// at most `jmax` times the largest term, `SCALE * COST_LIMIT * D_MAX`.
proof fn lemma_thin_sum_bounds(row: Seq<u64>, cp: CostParameters, s: int, jmax: int)
    requires
        row.len() == D_MAX + 1,
        forall|k: int| 0 <= k < row.len() ==> row[k] <= SCALE,
        cp_wf(cp),
        0 <= s <= D_MAX,
        0 <= jmax <= s + 1,
    ensures
        0 <= thin_sum(row, cp, s, jmax),
        thin_sum(row, cp, s, jmax) <= jmax * 50_000_000_000_000_000_000,
    decreases jmax,
{
    if jmax <= 0 {
    } else {
        lemma_thin_sum_bounds(row, cp, s, jmax - 1);
        let j = jmax - 1;
        let w = row[j] as int;
        let wt = spec_weight(cp, s, j);
        assert(0 <= cp.cdfw * j + cp.cu * (s - j) <= 50_000_000_000_000) by (nonlinear_arith)
            requires
                0 <= j <= s <= 50,
                0 <= cp.cdfw <= 1_000_000_000_000,
                0 <= cp.cu <= 1_000_000_000_000,
        ;
        assert(0 <= w * wt <= 50_000_000_000_000_000_000) by (nonlinear_arith)
            requires
                0 <= w <= 1_000_000,
                0 <= wt <= 50_000_000_000_000,
        ;
    }
}

/// A stage-2 accumulator for one stage-1 outcome is non-negative and at
/// most `m` times its largest term.
proof fn lemma_pair_total_bounds(
    pmf2: Seq<u64>,
    tbl: Seq<Seq<u64>>,
    cp: CostParameters,
    avail: int,
    m: int,
)
    requires
        pmf_wf(pmf2),
        table_wf(tbl),
        cp_wf(cp),
        0 <= avail <= 2000,
        0 <= m <= D_MAX,
    ensures
        0 <= pair_total(pmf2, tbl, cp, avail, m),
        pair_total(pmf2, tbl, cp, avail, m) <= m * 4_500_000_000_000_000_000_000_000_000,
    decreases m,
{
    if m <= 0 {
    } else {
        lemma_pair_total_bounds(pmf2, tbl, cp, avail, m - 1);
        let d2 = m - 1;
        let s2 = spec_shortage(d2, avail);
        lemma_thin_sum_bounds(tbl[s2], cp, s2, s2 + 1);
        let ts = thin_sum(tbl[s2], cp, s2, s2 + 1);
        assert(ts <= 2_500_000_000_000_000_000_000);
        let sur = spec_surplus(avail, d2);
        assert(0 <= cp.co * sur * SCALE <= 2_000_000_000_000_000_000_000) by (nonlinear_arith)
            requires
                0 <= cp.co <= 1_000_000_000_000,
                0 <= sur <= 2000,
                SCALE == 1_000_000,
        ;
        let inner = ts + cp.co * sur * SCALE;
        let p2 = pmf2[d2] as int;
        assert(0 <= p2 * inner <= 4_500_000_000_000_000_000_000_000_000) by (nonlinear_arith)
            requires
                0 <= p2 <= 1_000_000,
                0 <= inner <= 4_500_000_000_000_000_000_000,
        ;
    }
}

/// The stage-1 accumulator is non-negative and at most `n` times its
/// largest term.
proof fn lemma_stage1_total_bounds(
    pmf1: Seq<u64>,
    tbl: Seq<Seq<u64>>,
    cp: CostParameters,
    x: int,
    n: int,
)
    requires
        pmf_wf(pmf1),
        table_wf(tbl),
        cp_wf(cp),
        0 <= x,
        0 <= n <= D_MAX,
    ensures
        0 <= stage1_total(pmf1, tbl, cp, x, n),
        stage1_total(pmf1, tbl, cp, x, n) <= n * 2_500_000_000_000_000_000_000_000_000_000_000,
    decreases n,
{
    if n <= 0 {
    } else {
        lemma_stage1_total_bounds(pmf1, tbl, cp, x, n - 1);
        let d1 = n - 1;
        let s1 = spec_shortage(d1, x);
        lemma_thin_sum_bounds(tbl[s1], cp, s1, s1 + 1);
        let ts = thin_sum(tbl[s1], cp, s1, s1 + 1);
        assert(ts <= 2_500_000_000_000_000_000_000);
        let p1 = pmf1[d1] as int;
        assert(0 <= p1 * SCALE * ts <= 2_500_000_000_000_000_000_000_000_000_000_000)
            by (nonlinear_arith)
            requires
                0 <= p1 <= 1_000_000,
                SCALE == 1_000_000,
                0 <= ts <= 2_500_000_000_000_000_000_000,
        ;
    }
}

/// The stage-2 accumulator is non-negative and at most `n` times its
/// largest term.
proof fn lemma_stage2_total_bounds(
    pmf1: Seq<u64>,
    pmf2: Seq<u64>,
    tbl: Seq<Seq<u64>>,
    cp: CostParameters,
    x: int,
    q: int,
    n: int,
)
    requires
        pmf_wf(pmf1),
        pmf_wf(pmf2),
        table_wf(tbl),
        cp_wf(cp),
        0 <= x <= X_LIMIT,
        0 <= q <= Q_LIMIT,
        0 <= n <= D_MAX,
    ensures
        0 <= stage2_total(pmf1, pmf2, tbl, cp, x, q, n),
        stage2_total(pmf1, pmf2, tbl, cp, x, q, n) <= n
            * 225_000_000_000_000_000_000_000_000_000_000_000,
    decreases n,
{
    if n <= 0 {
    } else {
        lemma_stage2_total_bounds(pmf1, pmf2, tbl, cp, x, q, n - 1);
        let d1 = n - 1;
        let avail = spec_surplus(x, d1) + q;
        lemma_pair_total_bounds(pmf2, tbl, cp, avail, D_MAX as int);
        let pt = pair_total(pmf2, tbl, cp, avail, D_MAX as int);
        assert(pt <= 225_000_000_000_000_000_000_000_000_000);
        let p1 = pmf1[d1] as int;
        assert(0 <= p1 * pt <= 225_000_000_000_000_000_000_000_000_000_000_000)
            by (nonlinear_arith)
            requires
                0 <= p1 <= 1_000_000,
                0 <= pt <= 225_000_000_000_000_000_000_000_000_000,
        ;
    }
}

/// The thinned cost of a shortage of `s` units, as the evaluator sums it:
/// row `s` of the thinning table against the per-outcome cost weights.
pub open spec fn shortage_cost(tbl: Seq<Seq<u64>>, cp: CostParameters, s: int) -> int {
    thin_sum(tbl[s], cp, s, s + 1)
}

/// A larger shortage is never cheaper after thinning. This holds of a
/// genuine thinning table, whose row `s` is the binomial distribution over
/// `s` trials; it is the hypothesis under which more stock cannot hurt.
pub open spec fn shortage_cost_monotone(tbl: Seq<Seq<u64>>, cp: CostParameters) -> bool {
    forall|s1: int, s2: int|
        0 <= s1 <= s2 <= D_MAX ==> #[trigger] shortage_cost(tbl, cp, s1) <= #[trigger] shortage_cost(
            tbl,
            cp,
            s2,
        )
}

proof fn lemma_stage1_total_monotone(
    pmf1: Seq<u64>,
    tbl: Seq<Seq<u64>>,
    cp: CostParameters,
    x1: int,
    x2: int,
    n: int,
)
    requires
        pmf_wf(pmf1),
        table_wf(tbl),
        cp_wf(cp),
        shortage_cost_monotone(tbl, cp),
        0 <= x1 <= x2,
        0 <= n <= D_MAX,
    ensures
        stage1_total(pmf1, tbl, cp, x2, n) <= stage1_total(pmf1, tbl, cp, x1, n),
    decreases n,
{
    if n <= 0 {
    } else {
        lemma_stage1_total_monotone(pmf1, tbl, cp, x1, x2, n - 1);
        let d1 = n - 1;
        let s_hi_stock = spec_shortage(d1, x2);
        let s_lo_stock = spec_shortage(d1, x1);
        assert(0 <= s_hi_stock <= s_lo_stock <= D_MAX);
        assert(shortage_cost(tbl, cp, s_hi_stock) <= shortage_cost(tbl, cp, s_lo_stock));
        let ts_hi = thin_sum(tbl[s_hi_stock], cp, s_hi_stock, s_hi_stock + 1);
        let ts_lo = thin_sum(tbl[s_lo_stock], cp, s_lo_stock, s_lo_stock + 1);
        let p1s = pmf1[d1] * SCALE;
        assert(p1s * ts_hi <= p1s * ts_lo) by (nonlinear_arith)
            requires
                0 <= p1s,
                ts_hi <= ts_lo,
        ;
    }
}

proof fn lemma_pair_total_monotone(
    pmf2: Seq<u64>,
    tbl: Seq<Seq<u64>>,
    cp: CostParameters,
    avail_lo: int,
    avail_hi: int,
    m: int,
)
    requires
        pmf_wf(pmf2),
        table_wf(tbl),
        cp_wf(cp),
        cp.co == 0,
        shortage_cost_monotone(tbl, cp),
        0 <= avail_lo <= avail_hi,
        0 <= m <= D_MAX,
    ensures
        pair_total(pmf2, tbl, cp, avail_hi, m) <= pair_total(pmf2, tbl, cp, avail_lo, m),
    decreases m,
{
    if m <= 0 {
    } else {
        lemma_pair_total_monotone(pmf2, tbl, cp, avail_lo, avail_hi, m - 1);
        let d2 = m - 1;
        let s_hi_avail = spec_shortage(d2, avail_hi);
        let s_lo_avail = spec_shortage(d2, avail_lo);
        assert(0 <= s_hi_avail <= s_lo_avail <= D_MAX);
        assert(shortage_cost(tbl, cp, s_hi_avail) <= shortage_cost(tbl, cp, s_lo_avail));
        let ts_hi = thin_sum(tbl[s_hi_avail], cp, s_hi_avail, s_hi_avail + 1);
        let ts_lo = thin_sum(tbl[s_lo_avail], cp, s_lo_avail, s_lo_avail + 1);
        assert(cp.co * spec_surplus(avail_hi, d2) * SCALE == 0) by (nonlinear_arith)
            requires
                cp.co == 0,
        ;
        assert(cp.co * spec_surplus(avail_lo, d2) * SCALE == 0) by (nonlinear_arith)
            requires
                cp.co == 0,
        ;
        let p2 = pmf2[d2] as int;
        assert(p2 * (ts_hi + 0) <= p2 * (ts_lo + 0)) by (nonlinear_arith)
            requires
                0 <= p2,
                ts_hi <= ts_lo,
        ;
    }
}

proof fn lemma_stage2_total_monotone(
    pmf1: Seq<u64>,
    pmf2: Seq<u64>,
    tbl: Seq<Seq<u64>>,
    cp: CostParameters,
    x1: int,
    x2: int,
    q: int,
    n: int,
)
    requires
        pmf_wf(pmf1),
        pmf_wf(pmf2),
        table_wf(tbl),
        cp_wf(cp),
        cp.co == 0,
        shortage_cost_monotone(tbl, cp),
        0 <= x1 <= x2,
        0 <= q,
        0 <= n <= D_MAX,
    ensures
        stage2_total(pmf1, pmf2, tbl, cp, x2, q, n) <= stage2_total(pmf1, pmf2, tbl, cp, x1, q, n),
    decreases n,
{
    if n <= 0 {
    } else {
        lemma_stage2_total_monotone(pmf1, pmf2, tbl, cp, x1, x2, q, n - 1);
        let d1 = n - 1;
        let avail_lo = spec_surplus(x1, d1) + q;
        let avail_hi = spec_surplus(x2, d1) + q;
        assert(0 <= avail_lo <= avail_hi);
        lemma_pair_total_monotone(pmf2, tbl, cp, avail_lo, avail_hi, D_MAX as int);
        let pt_hi = pair_total(pmf2, tbl, cp, avail_hi, D_MAX as int);
        let pt_lo = pair_total(pmf2, tbl, cp, avail_lo, D_MAX as int);
        let p1 = pmf1[d1] as int;
        assert(p1 * pt_hi <= p1 * pt_lo) by (nonlinear_arith)
            requires
                0 <= p1,
                pt_hi <= pt_lo,
        ;
    }
}

/// More starting stock never increases the expected shortage: with the
/// order quantity and everything else held fixed, in a mode without a
/// holding weight (quantity mode has none), and for a table whose thinned
/// shortage cost is monotone in the shortage, raising `x` cannot raise the
/// total expectation, nor the stage-1 expectation.
pub proof fn lemma_expectation_monotone_in_stock(
    pmf1: Seq<u64>,
    pmf2: Seq<u64>,
    tbl: Seq<Seq<u64>>,
    cp: CostParameters,
    x1: int,
    x2: int,
    q: int,
)
    requires
        pmf_wf(pmf1),
        pmf_wf(pmf2),
        table_wf(tbl),
        cp_wf(cp),
        cp.co == 0,
        shortage_cost_monotone(tbl, cp),
        0 <= x1 <= x2,
        0 <= q,
    ensures
        spec_total_expectation(pmf1, pmf2, tbl, cp, x2, q) <= spec_total_expectation(
            pmf1,
            pmf2,
            tbl,
            cp,
            x1,
            q,
        ),
        spec_stage1_expectation(pmf1, tbl, cp, x2) <= spec_stage1_expectation(pmf1, tbl, cp, x1),
{
    lemma_stage1_total_monotone(pmf1, tbl, cp, x1, x2, D_MAX as int);
    lemma_stage2_total_monotone(pmf1, pmf2, tbl, cp, x1, x2, q, D_MAX as int);
    lemma_div_is_ordered(
        expectation_num(pmf1, pmf2, tbl, cp, x2, q),
        expectation_num(pmf1, pmf2, tbl, cp, x1, q),
        SCALE_CUBED as int,
    );
    lemma_div_is_ordered(
        stage1_total(pmf1, tbl, cp, x2, D_MAX as int),
        stage1_total(pmf1, tbl, cp, x1, D_MAX as int),
        SCALE_CUBED as int,
    );
}

/// The thinned cost sum over all diversion outcomes of `s` shortage units.
#[verifier::loop_isolation(false)]
fn thin_cost_sum(table: &ThinningTable, cp: &CostParameters, s: usize) -> (r: u128)
    requires
        table.wf(),
        cp_wf(*cp),
        s < D_MAX,
    ensures
        r == thin_sum(table@[s as int], *cp, s as int, s as int + 1),
{
    let mut acc: u128 = 0;
    let mut j: usize = 0;
    while j <= s
        invariant
            j <= s + 1,
            acc == thin_sum(table@[s as int], *cp, s as int, j as int),
        decreases s + 1 - j,
    {
        proof {
            lemma_thin_sum_bounds(table@[s as int], *cp, s as int, j as int);
            assert(cp.cdfw * (j as u64) <= 49_000_000_000_000) by (nonlinear_arith)
                requires
                    0 <= cp.cdfw <= 1_000_000_000_000,
                    j <= 49,
            ;
            assert(cp.cu * ((s - j) as u64) <= 49_000_000_000_000) by (nonlinear_arith)
                requires
                    0 <= cp.cu <= 1_000_000_000_000,
                    0 <= s - j <= 49,
            ;
        }
        let w: u64 = table.get(s, j);
        let wc: u64 = cp.cdfw * (j as u64) + cp.cu * ((s - j) as u64);
        proof {
            assert(wc == spec_weight(*cp, s as int, j as int));
            assert(0 <= (w as int) * (wc as int) <= 98_000_000_000_000_000_000_000)
                by (nonlinear_arith)
                requires
                    0 <= wc <= 98_000_000_000_000,
                    0 <= w <= 1_000_000,
            ;
        }
        acc = acc + (w as u128) * (wc as u128);
        j = j + 1;
    }
    acc
}

/// Evaluates the two-stage expectation for starting inventory `x` and order
/// quantity `q`, returning `(totalExpectation, stage1Expectation)` in
/// `SCALE` units. The stage-1 expectation never exceeds the total: stage 2
/// only adds non-negative mass.
#[verifier::loop_isolation(false)]
pub fn evaluate(
    x: usize,
    q: usize,
    pmf1: &Pmf,
    pmf2: &Pmf,
    table: &ThinningTable,
    mode: EvalMode,
) -> (r: (u64, u64))
    requires
        pmf1.wf(),
        pmf2.wf(),
        table.wf(),
        x <= X_LIMIT,
        q <= Q_LIMIT,
        mode_wf(mode),
    ensures
        r.0 == spec_total_expectation(pmf1@, pmf2@, table@, mode_cp(mode), x as int, q as int),
        r.1 == spec_stage1_expectation(pmf1@, table@, mode_cp(mode), x as int),
        r.1 <= r.0,
{
    let cp: CostParameters = match mode {
        EvalMode::Quantity => CostParameters { cu: SCALE, co: 0, cdfw: 0 },
        EvalMode::Cost(c) => c,
    };
    proof {
        assert(cp == mode_cp(mode));
    }
    let mut acc1: u128 = 0;
    let mut acc2: u128 = 0;
    let mut d1: usize = 0;
    while d1 < D_MAX
        invariant
            d1 <= D_MAX,
            acc1 == stage1_total(pmf1@, table@, cp, x as int, d1 as int),
            acc2 == stage2_total(pmf1@, pmf2@, table@, cp, x as int, q as int, d1 as int),
        decreases D_MAX - d1,
    {
        let p1 = pmf1.get(d1);
        let s1: usize = if d1 > x {
            d1 - x
        } else {
            0
        };
        proof {
            assert(s1 as int == spec_shortage(d1 as int, x as int));
            lemma_stage1_total_bounds(pmf1@, table@, cp, x as int, d1 as int);
            lemma_stage2_total_bounds(pmf1@, pmf2@, table@, cp, x as int, q as int, d1 as int);
        }
        let ts = thin_cost_sum(table, &cp, s1);
        proof {
            lemma_thin_sum_bounds(table@[s1 as int], cp, s1 as int, s1 as int + 1);
            assert(0 <= (p1 as int) * (SCALE as int) * (ts as int)
                <= 2_500_000_000_000_000_000_000_000_000_000_000) by (nonlinear_arith)
                requires
                    0 <= p1 <= 1_000_000,
                    SCALE == 1_000_000,
                    0 <= ts <= 2_500_000_000_000_000_000_000,
            ;
        }
        acc1 = acc1 + (p1 as u128) * (SCALE as u128) * ts;

        let avail: usize = (if x > d1 {
            x - d1
        } else {
            0
        }) + q;
        let mut pair: u128 = 0;
        let mut d2: usize = 0;
        while d2 < D_MAX
            invariant
                d2 <= D_MAX,
                avail == spec_surplus(x as int, d1 as int) + q,
                d1 < D_MAX,
                pair == pair_total(pmf2@, table@, cp, avail as int, d2 as int),
            decreases D_MAX - d2,
        {
            let p2 = pmf2.get(d2);
            let s2: usize = if d2 > avail {
                d2 - avail
            } else {
                0
            };
            proof {
                assert(s2 as int == spec_shortage(d2 as int, avail as int));
                lemma_pair_total_bounds(pmf2@, table@, cp, avail as int, d2 as int);
            }
            let ts2 = thin_cost_sum(table, &cp, s2);
            let sur: usize = if avail > d2 {
                avail - d2
            } else {
                0
            };
            proof {
                assert(sur as int == spec_surplus(avail as int, d2 as int));
                lemma_thin_sum_bounds(table@[s2 as int], cp, s2 as int, s2 as int + 1);
                assert(0 <= (cp.co as int) * (sur as int) * (SCALE as int)
                    <= 2_000_000_000_000_000_000_000) by (nonlinear_arith)
                    requires
                        0 <= cp.co <= 1_000_000_000_000,
                        0 <= sur <= 2000,
                        SCALE == 1_000_000,
                ;
                assert(0 <= (p2 as int) * ((ts2 as int) + (cp.co as int) * (sur as int) * (
                SCALE as int)) <= 4_500_000_000_000_000_000_000_000_000) by (nonlinear_arith)
                    requires
                        0 <= p2 <= 1_000_000,
                        0 <= ts2 <= 2_500_000_000_000_000_000_000,
                        0 <= (cp.co as int) * (sur as int) * (SCALE as int)
                            <= 2_000_000_000_000_000_000_000,
                ;
            }
            pair = pair + (p2 as u128) * (ts2 + (cp.co as u128) * (sur as u128) * (SCALE as u128));
            d2 = d2 + 1;
        }
        proof {
            lemma_pair_total_bounds(pmf2@, table@, cp, avail as int, D_MAX as int);
            assert(0 <= (p1 as int) * (pair as int) <= 225_000_000_000_000_000_000_000_000_000_000_000)
                by (nonlinear_arith)
                requires
                    0 <= p1 <= 1_000_000,
                    0 <= pair <= 225_000_000_000_000_000_000_000_000_000,
            ;
        }
        acc2 = acc2 + (p1 as u128) * pair;
        d1 = d1 + 1;
    }
    proof {
        lemma_stage1_total_bounds(pmf1@, table@, cp, x as int, D_MAX as int);
        lemma_stage2_total_bounds(pmf1@, pmf2@, table@, cp, x as int, q as int, D_MAX as int);
        lemma_div_pos_is_pos(acc1 as int, SCALE_CUBED as int);
        lemma_div_pos_is_pos((acc1 + acc2) as int, SCALE_CUBED as int);
        lemma_div_is_ordered(
            acc1 as int,
            (acc1 + acc2) as int,
            SCALE_CUBED as int,
        );
        lemma_div_is_ordered(
            (acc1 + acc2) as int,
            11_375_000_000_000_000_000_000_000_000_000_000_000,
            SCALE_CUBED as int,
        );
        lemma_div_is_ordered(
            acc1 as int,
            125_000_000_000_000_000_000_000_000_000_000_000,
            SCALE_CUBED as int,
        );
    }
    let num: u128 = acc1 + acc2;
    let total: u64 = (num / SCALE_CUBED) as u64;
    let st1: u64 = (acc1 / SCALE_CUBED) as u64;
    (total, st1)
}

} // verus!
