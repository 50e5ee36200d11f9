//! Demand-distribution specifications and truncated probability mass
//! functions over the support `0 .. D_MAX - 1`.

use vstd::prelude::*;

use crate::{D_MAX, SCALE, EngineError};

verus! {

/// Largest accepted Poisson mean, in `SCALE` units (a real mean of 28):
/// beyond it the mass truncated away at `D_MAX` is no longer negligible.
pub const POISSON_MEAN_LIMIT: u64 = 28_000_000;

/// Largest accepted Binomial trial count, in `SCALE` units (50 trials),
/// coupled to the truncation width `D_MAX`.
pub const BINOMIAL_TRIALS_LIMIT: u64 = 50_000_000;

/// A Poisson mean of exactly zero is replaced by this small positive value
/// (a real mean of 0.0001): a documented approximation that avoids the
/// degenerate all-mass-at-zero construction.
pub const ZERO_MEAN_SUBSTITUTE: u64 = 100;

/// A validated demand distribution: each variant carries exactly the
/// parameters its probability formula requires, in `SCALE` units.
#[derive(Clone, Copy, Debug, PartialEq, Eq, Structural)]
pub enum DemandDistributionSpec {
    Poisson { mean: u64 },
    Binomial { trials: u64, probability: u64 },
    NegativeBinomial { r: u64, p: u64 },
}

/// What `distribution` returns for every input: the validated specification,
/// or the error owed to that input.
pub open spec fn spec_distribution(
    dist_type: char,
    param_1: u64,
    param_2: Option<u64>,
) -> Result<DemandDistributionSpec, EngineError> {
    if dist_type == 'P' {
        if param_1 > POISSON_MEAN_LIMIT {
            Err(EngineError::ParameterOutOfRange)
        } else {
            let mean = if param_1 == 0 { ZERO_MEAN_SUBSTITUTE } else { param_1 };
            Ok(DemandDistributionSpec::Poisson { mean })
        }
    } else if dist_type == 'B' {
        if param_1 > BINOMIAL_TRIALS_LIMIT {
            Err(EngineError::ParameterOutOfRange)
        } else if param_2 is None {
            Err(EngineError::MissingParameter)
        } else if param_2->0 > SCALE {
            Err(EngineError::InvalidProbability)
        } else {
            Ok(DemandDistributionSpec::Binomial {
                trials: (param_1 / SCALE) as u64,
                probability: param_2->0,
            })
        }
    } else if dist_type == 'N' {
        if param_2 is None {
            Err(EngineError::MissingParameter)
        } else if param_2->0 > SCALE {
            Err(EngineError::InvalidProbability)
        } else if param_2->0 == 0 {
            Err(EngineError::ParameterOutOfRange)
        } else if param_1 * (SCALE - param_2->0) / (param_2->0 as int) > POISSON_MEAN_LIMIT {
            Err(EngineError::ParameterOutOfRange)
        } else {
            Ok(DemandDistributionSpec::NegativeBinomial { r: param_1, p: param_2->0 })
        }
    } else {
        Err(EngineError::UnsupportedDistributionType)
    }
}

/// Validates a distribution code and its parameters (all in `SCALE` units)
/// into a demand-distribution specification.
///
/// Codes: 'P' Poisson(mean = param_1), 'B' Binomial(trials = param_1 cast to
/// a whole number, probability = param_2), 'N' NegativeBinomial(r = param_1,
/// p = param_2). Fails with ParameterOutOfRange when a mean or trial count
/// exceeds what the truncation width supports — for 'N' the implied mean
/// `r * (1 - p) / p` is held to the Poisson limit, and `p = 0` (an infinite
/// mean) is rejected — MissingParameter when a required second parameter is
/// absent, InvalidProbability when a probability exceeds 1, and
/// UnsupportedDistributionType on any other code.
pub fn distribution(
    dist_type: char,
    param_1: u64,
    param_2: Option<u64>,
) -> (r: Result<DemandDistributionSpec, EngineError>)
    ensures
        r == spec_distribution(dist_type, param_1, param_2),
{
    if dist_type == 'P' {
        if param_1 > POISSON_MEAN_LIMIT {
            Err(EngineError::ParameterOutOfRange)
        } else if param_1 == 0 {
            Ok(DemandDistributionSpec::Poisson { mean: ZERO_MEAN_SUBSTITUTE })
        } else {
            Ok(DemandDistributionSpec::Poisson { mean: param_1 })
        }
    } else if dist_type == 'B' {
        if param_1 > BINOMIAL_TRIALS_LIMIT {
            Err(EngineError::ParameterOutOfRange)
        } else {
            match param_2 {
                None => Err(EngineError::MissingParameter),
                Some(p2) => {
                    if p2 > SCALE {
                        Err(EngineError::InvalidProbability)
                    } else {
                        Ok(DemandDistributionSpec::Binomial {
                            trials: param_1 / SCALE,
                            probability: p2,
                        })
                    }
                },
            }
        }
    } else if dist_type == 'N' {
        match param_2 {
            None => Err(EngineError::MissingParameter),
            Some(p2) => {
                if p2 > SCALE {
                    Err(EngineError::InvalidProbability)
                } else if p2 == 0 {
                    Err(EngineError::ParameterOutOfRange)
                } else {
                    proof {
                        assert(
                            (param_1 as int) * ((SCALE - p2) as int) < 0x100000000000000000000000000
                        ) by (nonlinear_arith)
                            requires
                                param_1 <= 0xffff_ffff_ffff_ffff,
                                SCALE - p2 <= 1_000_000,
                        ;
                    }
                    let implied_mean: u128 = (param_1 as u128) * ((SCALE - p2) as u128) / (
                    p2 as u128);
                    if implied_mean > POISSON_MEAN_LIMIT as u128 {
                        Err(EngineError::ParameterOutOfRange)
                    } else {
                        Ok(DemandDistributionSpec::NegativeBinomial { r: param_1, p: p2 })
                    }
                }
            },
        }
    } else {
        Err(EngineError::UnsupportedDistributionType)
    }
}

/// True of a sequence that is a well-formed truncated PMF: exactly `D_MAX`
/// entries, each a fixed-point probability of at most 1.
pub open spec fn pmf_wf(s: Seq<u64>) -> bool {
    &&& s.len() == D_MAX
    &&& forall|i: int| 0 <= i < s.len() ==> s[i] <= SCALE
}

/// A truncated probability mass function: entry `i` holds `P(demand = i)` in
/// `SCALE` units, for `i` in `0 .. D_MAX`. Mass beyond the support is
/// truncated, not renormalized. Immutable once built.
pub struct Pmf {
    values: Vec<u64>,
}

impl View for Pmf {
    type V = Seq<u64>;

    closed spec fn view(&self) -> Seq<u64> {
        self.values@
    }
}

impl Pmf {
    /// Well-formedness: the view is a well-formed truncated PMF.
    pub open spec fn wf(&self) -> bool {
        pmf_wf(self@)
    }

    /// Wraps `D_MAX` fixed-point probabilities as a PMF, rejecting any entry
    /// above 1 with InvalidProbability.
    pub fn from_values(values: Vec<u64>) -> (r: Result<Pmf, EngineError>)
        requires
            values@.len() == D_MAX,
        ensures
            (forall|i: int| 0 <= i < values@.len() ==> values@[i] <= SCALE)
                ==> (r matches Ok(p) && p@ == values@ && p.wf()),
            (exists|i: int| 0 <= i < values@.len() && values@[i] > SCALE)
                ==> r == Err::<Pmf, EngineError>(EngineError::InvalidProbability),
    {
        let n: usize = values.len();
        let mut i: usize = 0;
        while i < n
            invariant
                n == values@.len(),
                i <= n,
                forall|k: int| 0 <= k < i ==> values@[k] <= SCALE,
            decreases n - i,
        {
            if values[i] > SCALE {
                return Err(EngineError::InvalidProbability);
            }
            i = i + 1;
        }
        Ok(Pmf { values })
    }

    /// The truncated Binomial demand PMF: entry `i` is the fixed-point
    /// probability of exactly `i` successes among `trials` trials, computed
    /// by the same exact recurrence as the thinning table. Mass at success
    /// counts of `D_MAX` and above is truncated away.
    pub fn binomial(trials: u64, probability: u64) -> (r: Pmf)
        requires
            trials <= D_MAX,
            probability <= SCALE,
        ensures
            r.wf(),
            forall|i: int|
                0 <= i < D_MAX ==> r@[i] == crate::thinning::binom_entry(
                    probability,
                    trials as int,
                    i,
                ),
    {
        let rows = crate::thinning::build_rows(probability);
        let row = &rows[trials as usize];
        let mut values: Vec<u64> = Vec::new();
        let mut i: usize = 0;
        while i < D_MAX
            invariant
                trials <= D_MAX,
                probability <= SCALE,
                row@.len() == D_MAX + 1,
                forall|k: int|
                    0 <= k <= D_MAX ==> #[trigger] row@[k] == crate::thinning::binom_entry(
                        probability,
                        trials as int,
                        k,
                    ),
                i <= D_MAX,
                values@.len() == i,
                forall|k: int|
                    0 <= k < i ==> #[trigger] values@[k] == crate::thinning::binom_entry(
                        probability,
                        trials as int,
                        k,
                    ),
            decreases D_MAX - i,
        {
            values.push(row[i]);
            i = i + 1;
        }
        proof {
            assert forall|k: int| 0 <= k < values@.len() implies #[trigger] values@[k] <= SCALE by {
                crate::thinning::lemma_binom_entry_bounds(probability, trials as int, k);
            }
        }
        Pmf { values }
    }

    /// The probability mass at demand value `i`.
    pub fn get(&self, i: usize) -> (v: u64)
        requires
            self.wf(),
            i < D_MAX,
        ensures
            v == self@[i as int],
    {
        self.values[i]
    }
}

} // verus!
