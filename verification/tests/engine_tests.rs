use inventory_lookahead::distributions::Pmf;
use inventory_lookahead::engine::{expectation, lookahead, order_quantity};
use inventory_lookahead::evaluate::{evaluate, CostParameters, EvalMode};
use inventory_lookahead::optimise::{minimise_q, minimise_q_search};
use inventory_lookahead::thinning::ThinningTable;
use inventory_lookahead::{EngineError, D_MAX, SCALE};

use statrs::distribution::{Discrete, Poisson};

fn point_mass(at: usize) -> Pmf {
    let mut values = vec![0u64; D_MAX];
    values[at] = SCALE;
    Pmf::from_values(values).unwrap()
}

fn poisson_pmf(mean: f64) -> Pmf {
    let d = Poisson::new(mean).unwrap();
    let mut values: Vec<u64> = Vec::new();
    for i in 0..D_MAX {
        values.push((d.pmf(i as u64) * SCALE as f64).round() as u64);
    }
    Pmf::from_values(values).unwrap()
}

#[test]
fn shortages_count_exactly_without_diversion() {
    let pmf1 = point_mass(2);
    let pmf2 = point_mass(3);
    let table = ThinningTable::build(0).unwrap();
    let (total, stage1) = evaluate(0, 0, &pmf1, &pmf2, &table, EvalMode::Quantity);
    assert_eq!(stage1, 2 * SCALE);
    assert_eq!(total, 5 * SCALE);
}

#[test]
fn the_order_quantity_covers_stage_two() {
    let pmf1 = point_mass(2);
    let pmf2 = point_mass(3);
    let table = ThinningTable::build(0).unwrap();
    let (total, stage1) = evaluate(0, 3, &pmf1, &pmf2, &table, EvalMode::Quantity);
    assert_eq!(stage1, 2 * SCALE);
    assert_eq!(total, 2 * SCALE);
}

#[test]
fn certain_diversion_loses_nothing() {
    let pmf1 = point_mass(2);
    let pmf2 = point_mass(3);
    let table = ThinningTable::build(SCALE).unwrap();
    let (total, stage1) = evaluate(0, 0, &pmf1, &pmf2, &table, EvalMode::Quantity);
    assert_eq!(stage1, 0);
    assert_eq!(total, 0);
}

#[test]
fn cost_mode_weighs_shortage_and_holding() {
    let pmf1 = point_mass(2);
    let pmf2 = point_mass(0);
    let table = ThinningTable::build(0).unwrap();
    let cp = CostParameters { cu: 2_000_000, co: 1_000_000, cdfw: 500_000 };
    let (total, stage1) = evaluate(0, 4, &pmf1, &pmf2, &table, EvalMode::Cost(cp));
    // stage 1: two units lost at cost 2 each; stage 2: four units held at cost 1 each
    assert_eq!(stage1, 4 * SCALE);
    assert_eq!(total, 8 * SCALE);
}

#[test]
fn cost_mode_weighs_diverted_units() {
    let pmf1 = point_mass(2);
    let pmf2 = point_mass(0);
    let table = ThinningTable::build(SCALE).unwrap();
    let cp = CostParameters { cu: 2_000_000, co: 1_000_000, cdfw: 500_000 };
    let (total, stage1) = evaluate(0, 4, &pmf1, &pmf2, &table, EvalMode::Cost(cp));
    // stage 1: two units diverted at cost 0.5 each; stage 2: four units held
    assert_eq!(stage1, SCALE);
    assert_eq!(total, 5 * SCALE);
}

#[test]
fn stage_one_never_exceeds_the_total() {
    let pmf1 = poisson_pmf(6.0);
    let pmf2 = poisson_pmf(4.0);
    let table = ThinningTable::build(800_000).unwrap();
    for x in [0usize, 1, 3, 10] {
        for q in [0usize, 2, 7] {
            let (total, stage1) = evaluate(x, q, &pmf1, &pmf2, &table, EvalMode::Quantity);
            assert!(stage1 <= total, "x {x}, q {q}: {stage1} > {total}");
        }
    }
}

#[test]
fn more_stock_never_increases_the_expected_shortage() {
    let pmf1 = poisson_pmf(6.0);
    let pmf2 = poisson_pmf(4.0);
    let table = ThinningTable::build(800_000).unwrap();
    for q in [0usize, 2, 7] {
        let mut prev = u64::MAX;
        for x in 0..15usize {
            let (total, _) = evaluate(x, q, &pmf1, &pmf2, &table, EvalMode::Quantity);
            assert!(total <= prev, "q {q}, x {x}: {total} > {prev}");
            prev = total;
        }
    }
}

#[test]
fn the_exhaustive_scan_finds_the_known_optimum() {
    let pmf1 = point_mass(0);
    let pmf2 = point_mass(3);
    let table = ThinningTable::build(0).unwrap();
    let cp = CostParameters { cu: 10_000_000, co: 1_000_000, cdfw: 0 };
    let best = minimise_q(5, 0, &pmf1, &pmf2, &table, &cp);
    assert_eq!(best, 3);
}

#[test]
fn ties_break_toward_the_smaller_quantity() {
    let pmf1 = point_mass(0);
    let pmf2 = point_mass(3);
    let table = ThinningTable::build(0).unwrap();
    let cp = CostParameters { cu: 0, co: 0, cdfw: 0 };
    let best = minimise_q(5, 0, &pmf1, &pmf2, &table, &cp);
    assert_eq!(best, 0);
}

#[test]
fn the_local_search_finds_a_convex_optimum() {
    let pmf1 = point_mass(0);
    let pmf2 = point_mass(3);
    let table = ThinningTable::build(0).unwrap();
    let cp = CostParameters { cu: 10_000_000, co: 1_000_000, cdfw: 0 };
    let best = minimise_q_search(5, 0, &pmf1, &pmf2, &table, &cp);
    assert_eq!(best, 3);
}

#[test]
fn the_local_search_stops_on_a_cost_plateau() {
    let pmf1 = point_mass(0);
    let pmf2 = point_mass(5);
    let table = ThinningTable::build(0).unwrap();
    let cp = CostParameters { cu: 10_000_000, co: 0, cdfw: 0 };
    // cost falls until q = 5 and stays flat beyond; a tied step stops the walk
    let best = minimise_q_search(8, 0, &pmf1, &pmf2, &table, &cp);
    assert_eq!(best, 5);
}

#[test]
fn the_local_search_returns_zero_for_a_tiny_range() {
    let pmf1 = point_mass(0);
    let pmf2 = point_mass(1);
    let table = ThinningTable::build(0).unwrap();
    let cp = CostParameters { cu: 10_000_000, co: 0, cdfw: 0 };
    // the midpoint of 0..=1 is 0: returned at once, even though q = 1 is cheaper
    let best = minimise_q_search(1, 0, &pmf1, &pmf2, &table, &cp);
    assert_eq!(best, 0);
}

#[test]
fn the_local_search_stops_at_the_boundary() {
    let pmf1 = point_mass(0);
    let pmf2 = point_mass(10);
    let table = ThinningTable::build(0).unwrap();
    let cp = CostParameters { cu: 10_000_000, co: 0, cdfw: 0 };
    let best = minimise_q_search(4, 0, &pmf1, &pmf2, &table, &cp);
    assert_eq!(best, 4);
}

#[test]
fn order_quantity_is_clamped() {
    assert_eq!(order_quantity(3, 10, None), 7);
    assert_eq!(order_quantity(12, 10, None), 0);
    assert_eq!(order_quantity(3, 10, Some(5)), 5);
    assert_eq!(order_quantity(3, 10, Some(20)), 7);
}

#[test]
fn expectation_uses_the_derived_order_quantity() {
    let pmf1 = point_mass(2);
    let pmf2 = point_mass(3);
    let (total, stage1) = expectation(0, 5, None, Some(0), &pmf1, &pmf2).unwrap();
    assert_eq!(stage1, 2 * SCALE);
    assert_eq!(total, 2 * SCALE);
    let (total, stage1) = expectation(0, 5, Some(1), Some(0), &pmf1, &pmf2).unwrap();
    assert_eq!(stage1, 2 * SCALE);
    assert_eq!(total, 4 * SCALE);
}

#[test]
fn expectation_rejects_a_probability_above_one() {
    let pmf1 = point_mass(2);
    let pmf2 = point_mass(3);
    let r = expectation(0, 5, None, Some(SCALE + 1), &pmf1, &pmf2);
    assert_eq!(r, Err(EngineError::InvalidProbability));
}

#[test]
fn lookahead_rejects_a_probability_above_one() {
    let pmf1 = point_mass(2);
    let pmf2 = point_mass(3);
    let r = lookahead(0, 5, Some(SCALE + 1), None, None, None, &pmf1, &pmf2);
    assert_eq!(r, Err(EngineError::InvalidProbability));
}

#[test]
fn lookahead_matches_an_independent_exhaustive_scan() {
    let pmf1 = poisson_pmf(5.0);
    let pmf2 = poisson_pmf(5.0);
    let (stage1, total, best) = lookahead(0, 10, None, None, None, None, &pmf1, &pmf2).unwrap();
    assert!(best <= 10);
    assert!(stage1 <= total);

    let table = ThinningTable::build(800_000).unwrap();
    let cp = CostParameters { cu: 18_000_000, co: 1_000_000, cdfw: 0 };
    let best_cost = evaluate(0, best, &pmf1, &pmf2, &table, EvalMode::Cost(cp)).0;
    for q in 0..=10usize {
        let cost = evaluate(0, q, &pmf1, &pmf2, &table, EvalMode::Cost(cp)).0;
        assert!(best_cost <= cost, "q {q} is cheaper: {cost} < {best_cost}");
        if q < best {
            assert!(cost > best_cost, "tie not broken toward {q}");
        }
    }

    let (want_total, want_stage1) = evaluate(0, best, &pmf1, &pmf2, &table, EvalMode::Quantity);
    assert_eq!(total, want_total);
    assert_eq!(stage1, want_stage1);
}
