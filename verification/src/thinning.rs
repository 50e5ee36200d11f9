//! The thinning table: for each trial count `i` in `0 ..= D_MAX`, the full
//! binomial distribution of the number of successes among `i` independent
//! trials, each succeeding with the configured diversion probability.
//!
//! Entries are computed exactly in fixed-point arithmetic by the Pascal
//! recurrence: a success count of `j` among `i` trials arises from `j`
//! successes among the first `i - 1` trials followed by a failure, or from
//! `j - 1` successes followed by a success. Each convolution step divides by
//! `SCALE` once, rounding down.

use vstd::prelude::*;

use vstd::arithmetic::div_mod::{
    lemma_div_is_ordered, lemma_div_pos_is_pos, lemma_fundamental_div_mod,
    lemma_mod_division_less_than_divisor,
};

use crate::{D_MAX, SCALE, EngineError};

verus! {

/// The fixed-point binomial probability of exactly `j` successes among `i`
/// trials with per-trial success probability `p / SCALE`, as the Pascal
/// recurrence computes it (one truncating division by `SCALE` per step).
pub open spec fn binom_entry(p: u64, i: int, j: int) -> int
    decreases i,
{
    if i <= 0 {
        if j == 0 {
            SCALE as int
        } else {
            0
        }
    } else if j < 0 {
        0
    } else {
        (binom_entry(p, i - 1, j) * (SCALE - p) + binom_entry(p, i - 1, j - 1) * p) / (
        SCALE as int)
    }
}

/// Every entry of the recurrence is a fixed-point probability: at least 0
/// and at most `SCALE`.
pub proof fn lemma_binom_entry_bounds(p: u64, i: int, j: int)
    requires
        p <= SCALE,
    ensures
        0 <= binom_entry(p, i, j) <= SCALE,
    decreases (if i < 0 { 0int } else { i }),
{
    if i <= 0 || j < 0 {
    } else {
        lemma_binom_entry_bounds(p, i - 1, j);
        lemma_binom_entry_bounds(p, i - 1, j - 1);
        let a = binom_entry(p, i - 1, j);
        let b = binom_entry(p, i - 1, j - 1);
        assert(0 <= a * (SCALE - p) + b * p && a * (SCALE - p) + b * p <= SCALE * SCALE)
            by (nonlinear_arith)
            requires
                0 <= a <= SCALE,
                0 <= b <= SCALE,
                0 <= p <= SCALE,
        ;
        let num = a * (SCALE - p) + b * p;
        lemma_div_pos_is_pos(num, SCALE as int);
        lemma_div_is_ordered(num, SCALE * SCALE, SCALE as int);
        assert(SCALE * SCALE / (SCALE as int) == SCALE) by (nonlinear_arith);
    }
}

/// Above the diagonal the recurrence is zero: more successes than trials
/// are impossible.
pub proof fn lemma_binom_entry_zero_beyond(p: u64, i: int, j: int)
    requires
        p <= SCALE,
        0 <= i,
        j > i,
    ensures
        binom_entry(p, i, j) == 0,
    decreases i,
{
    if i <= 0 {
    } else {
        lemma_binom_entry_zero_beyond(p, i - 1, j);
        lemma_binom_entry_zero_beyond(p, i - 1, j - 1);
        assert(binom_entry(p, i - 1, j) * (SCALE - p) == 0);
        assert(binom_entry(p, i - 1, j - 1) * p == 0);
    }
}

/// The partial sum of the first `jmax` entries of row `i`.
pub open spec fn binom_row_sum(p: u64, i: int, jmax: int) -> int
    decreases jmax,
{
    if jmax <= 0 {
        0
    } else {
        binom_row_sum(p, i, jmax - 1) + binom_entry(p, i, jmax - 1)
    }
}

proof fn lemma_row0_sum(p: u64, jmax: int)
    requires
        1 <= jmax,
    ensures
        binom_row_sum(p, 0, jmax) == SCALE,
    decreases jmax,
{
    if jmax == 1 {
        assert(binom_row_sum(p, 0, 0) == 0);
        assert(binom_entry(p, 0, 0) == SCALE);
    } else {
        lemma_row0_sum(p, jmax - 1);
        assert(binom_entry(p, 0, jmax - 1) == 0);
    }
}

/// One convolution step relates row `i`'s partial sum to row `i - 1`'s:
/// the exact numerator sum is split across at most `m` truncating
/// divisions, each losing less than one unit.
proof fn lemma_row_sum_step(p: u64, i: int, m: int)
    requires
        p <= SCALE,
        1 <= i <= D_MAX,
        0 <= m <= D_MAX + 1,
    ensures
        (SCALE - p) * binom_row_sum(p, i - 1, m) + p * binom_row_sum(p, i - 1, m - 1) - m * (
        SCALE - 1) <= SCALE * binom_row_sum(p, i, m),
        SCALE * binom_row_sum(p, i, m) <= (SCALE - p) * binom_row_sum(p, i - 1, m) + p
            * binom_row_sum(p, i - 1, m - 1),
    decreases m,
{
    if m <= 0 {
    } else {
        lemma_row_sum_step(p, i, m - 1);
        let a = binom_entry(p, i - 1, m - 1);
        let b = binom_entry(p, i - 1, m - 2);
        lemma_binom_entry_bounds(p, i - 1, m - 1);
        lemma_binom_entry_bounds(p, i - 1, m - 2);
        assert(0 <= a * (SCALE - p) + b * p) by (nonlinear_arith)
            requires
                0 <= a,
                0 <= b,
                0 <= p <= SCALE,
        ;
        let num = a * (SCALE - p) + b * p;
        assert(binom_entry(p, i, m - 1) == num / (SCALE as int));
        lemma_fundamental_div_mod(num, SCALE as int);
        lemma_mod_division_less_than_divisor(num, SCALE as int);
        assert((SCALE - p) * (binom_row_sum(p, i - 1, m - 1) + a) == (SCALE - p) * binom_row_sum(
            p,
            i - 1,
            m - 1,
        ) + (SCALE - p) * a) by (nonlinear_arith);
        assert(p * (binom_row_sum(p, i - 1, m - 2) + b) == p * binom_row_sum(p, i - 1, m - 2) + p
            * b) by (nonlinear_arith);
        assert(p * a == a * p && p * b == b * p && (SCALE - p) * a == a * (SCALE - p))
            by (nonlinear_arith);
        assert(SCALE * (binom_row_sum(p, i, m - 1) + binom_entry(p, i, m - 1)) == SCALE
            * binom_row_sum(p, i, m - 1) + SCALE * binom_entry(p, i, m - 1)) by (nonlinear_arith);
    }
}

/// Every row of the thinning table sums to 1 within a small slack: row `i`
/// keeps at least `SCALE - 51 * i` of its `SCALE` total, losing less than
/// one fixed-point unit per entry per convolution step.
pub proof fn lemma_thinning_row_sum(p: u64, i: int)
    requires
        p <= SCALE,
        0 <= i <= D_MAX,
    ensures
        SCALE - 51 * i <= binom_row_sum(p, i, D_MAX + 1),
        binom_row_sum(p, i, D_MAX + 1) <= SCALE,
    decreases i,
{
    if i == 0 {
        lemma_row0_sum(p, D_MAX + 1);
    } else {
        lemma_thinning_row_sum(p, i - 1);
        lemma_row_sum_step(p, i, D_MAX + 1);
        lemma_binom_entry_zero_beyond(p, i - 1, D_MAX as int);
        let prev_full = binom_row_sum(p, i - 1, D_MAX + 1);
        let prev_head = binom_row_sum(p, i - 1, D_MAX as int);
        assert(prev_full == prev_head);
        let cur = binom_row_sum(p, i, D_MAX + 1);
        assert((SCALE - p) * prev_full + p * prev_full == SCALE * prev_full) by (nonlinear_arith);
        assert(SCALE * prev_full - 51 * (SCALE - 1) <= SCALE * cur);
        assert(SCALE * cur <= SCALE * prev_full);
        assert(cur <= prev_full) by (nonlinear_arith)
            requires
                SCALE * cur <= SCALE * prev_full,
                SCALE == 1_000_000,
        ;
        assert(cur >= prev_full - 51) by (nonlinear_arith)
            requires
                SCALE * prev_full - 51 * (SCALE - 1) <= SCALE * cur,
                SCALE == 1_000_000,
        ;
    }
}

/// A Binomial demand PMF over fewer than `D_MAX` trials keeps its whole
/// mass inside the truncated support, so its `D_MAX` entries sum to 1
/// within the same per-step slack as a table row.
pub proof fn lemma_binomial_pmf_sum(p: u64, trials: int)
    requires
        p <= SCALE,
        0 <= trials < D_MAX,
    ensures
        SCALE - 51 * trials <= binom_row_sum(p, trials, D_MAX as int),
        binom_row_sum(p, trials, D_MAX as int) <= SCALE,
{
    lemma_thinning_row_sum(p, trials);
    lemma_binom_entry_zero_beyond(p, trials, D_MAX as int);
    assert(binom_row_sum(p, trials, D_MAX + 1) == binom_row_sum(p, trials, D_MAX as int));
}

/// True of a sequence of rows that has the thinning table's shape: one row
/// per trial count `0 ..= D_MAX`, each with one entry per success count
/// `0 ..= D_MAX`, every entry a fixed-point probability of at most 1.
pub open spec fn table_wf(t: Seq<Seq<u64>>) -> bool {
    &&& t.len() == D_MAX + 1
    &&& (forall|i: int| 0 <= i <= D_MAX ==> #[trigger] t[i].len() == D_MAX + 1)
    &&& (forall|i: int, j: int|
        0 <= i <= D_MAX && 0 <= j <= D_MAX ==> #[trigger] t[i][j] <= SCALE)
}

/// The full thinning table for diversion probability `p`, entry by entry.
pub open spec fn spec_thinning_table(p: u64) -> Seq<Seq<u64>> {
    Seq::new(
        (D_MAX + 1) as nat,
        |i: int| Seq::new((D_MAX + 1) as nat, |j: int| binom_entry(p, i, j) as u64),
    )
}

/// Builds all rows of the recurrence, row `i` from row `i - 1`.
pub(crate) fn build_rows(p: u64) -> (rows: Vec<Vec<u64>>)
    requires
        p <= SCALE,
    ensures
        rows@.len() == D_MAX + 1,
        forall|i: int| 0 <= i <= D_MAX ==> #[trigger] rows@[i]@.len() == D_MAX + 1,
        forall|i: int, j: int|
            0 <= i <= D_MAX && 0 <= j <= D_MAX ==> #[trigger] rows@[i]@[j] == binom_entry(
                p,
                i,
                j,
            ),
{
    let mut rows: Vec<Vec<u64>> = Vec::new();
    let mut row0: Vec<u64> = Vec::new();
    row0.push(SCALE);
    let mut j: usize = 1;
    while j < D_MAX + 1
        invariant
            1 <= j <= D_MAX + 1,
            row0@.len() == j,
            row0@[0] == SCALE,
            forall|k: int| 1 <= k < j ==> #[trigger] row0@[k] == 0u64,
        decreases D_MAX + 1 - j,
    {
        row0.push(0);
        j = j + 1;
    }
    assert(forall|k: int| 0 <= k <= D_MAX ==> #[trigger] row0@[k] == binom_entry(p, 0, k));
    rows.push(row0);

    let mut i: usize = 1;
    while i < D_MAX + 1
        invariant
            p <= SCALE,
            1 <= i <= D_MAX + 1,
            rows@.len() == i,
            forall|a: int| 0 <= a < i ==> #[trigger] rows@[a]@.len() == D_MAX + 1,
            forall|a: int, b: int|
                0 <= a < i && 0 <= b <= D_MAX ==> #[trigger] rows@[a]@[b] == binom_entry(p, a, b),
        decreases D_MAX + 1 - i,
    {
        let mut row: Vec<u64> = Vec::new();
        let mut j: usize = 0;
        while j < D_MAX + 1
            invariant
                p <= SCALE,
                1 <= i <= D_MAX,
                j <= D_MAX + 1,
                rows@.len() == i,
                forall|a: int| 0 <= a < i ==> #[trigger] rows@[a]@.len() == D_MAX + 1,
                forall|a: int, b: int|
                    0 <= a < i && 0 <= b <= D_MAX ==> #[trigger] rows@[a]@[b] == binom_entry(
                        p,
                        a,
                        b,
                    ),
                row@.len() == j,
                forall|b: int| 0 <= b < j ==> #[trigger] row@[b] == binom_entry(p, i as int, b),
            decreases D_MAX + 1 - j,
        {
            let a: u64 = rows[i - 1][j];
            let b: u64 = if j == 0 {
                0
            } else {
                rows[i - 1][j - 1]
            };
            proof {
                lemma_binom_entry_bounds(p, i - 1, j as int);
                lemma_binom_entry_bounds(p, i - 1, j as int - 1);
                assert(a * (SCALE - p) + b * p <= SCALE * SCALE) by (nonlinear_arith)
                    requires
                        0 <= a <= SCALE,
                        0 <= b <= SCALE,
                        0 <= p <= SCALE,
                ;
                if j == 0 {
                    assert(binom_entry(p, i as int - 1, -1) == 0);
                }
            }
            let val: u64 = (a * (SCALE - p) + b * p) / SCALE;
            assert(val == binom_entry(p, i as int, j as int));
            row.push(val);
            j = j + 1;
        }
        rows.push(row);
        i = i + 1;
    }
    rows
}

/// The precomputed thinning table: entry `[i][j]` is the fixed-point
/// probability that exactly `j` of `i` shortage units are satisfied through
/// the secondary channel. Built once per evaluation and immutable.
pub struct ThinningTable {
    rows: Vec<Vec<u64>>,
}

impl View for ThinningTable {
    type V = Seq<Seq<u64>>;

    closed spec fn view(&self) -> Seq<Seq<u64>> {
        Seq::new(self.rows@.len(), |i: int| self.rows@[i]@)
    }
}

impl ThinningTable {
    /// Well-formedness: the view has the thinning table's shape.
    pub open spec fn wf(&self) -> bool {
        table_wf(self@)
    }

    /// Builds the table for the given diversion probability, rejecting a
    /// probability above 1 with InvalidProbability.
    pub fn build(probability: u64) -> (r: Result<ThinningTable, EngineError>)
        ensures
            probability > SCALE ==> r == Err::<ThinningTable, EngineError>(
                EngineError::InvalidProbability,
            ),
            probability <= SCALE ==> (r matches Ok(t) && t.wf() && t@ == spec_thinning_table(
                probability,
            )),
    {
        if probability > SCALE {
            return Err(EngineError::InvalidProbability);
        }
        let rows = build_rows(probability);
        let table = ThinningTable { rows };
        proof {
            assert forall|i: int, j: int| 0 <= i <= D_MAX && 0 <= j <= D_MAX implies #[trigger] table@[i][j]
                <= SCALE by {
                lemma_binom_entry_bounds(probability, i, j);
            }
            assert forall|i: int| 0 <= i <= D_MAX implies #[trigger] table@[i]
                =~= spec_thinning_table(probability)[i] by {
                assert forall|j: int| 0 <= j <= D_MAX implies #[trigger] table@[i][j]
                    == spec_thinning_table(probability)[i][j] by {
                    lemma_binom_entry_bounds(probability, i, j);
                }
            }
            assert(table@ =~= spec_thinning_table(probability));
        }
        Ok(table)
    }

    /// The entry for `j` successes among `i` trials.
    pub fn get(&self, i: usize, j: usize) -> (v: u64)
        requires
            self.wf(),
            i <= D_MAX,
            j <= D_MAX,
        ensures
            v == self@[i as int][j as int],
    {
        proof {
            assert(self@.len() == D_MAX + 1);
            assert(self@[i as int].len() == D_MAX + 1);
        }
        self.rows[i][j]
    }
}

} // verus!
