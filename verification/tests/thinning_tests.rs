use inventory_lookahead::thinning::ThinningTable;
use inventory_lookahead::{EngineError, D_MAX, SCALE};

fn row_sum(table: &ThinningTable, i: usize) -> u64 {
    let mut sum: u64 = 0;
    for j in 0..=D_MAX {
        sum += table.get(i, j);
    }
    sum
}

#[test]
fn probability_above_one_is_rejected() {
    assert!(matches!(
        ThinningTable::build(SCALE + 1),
        Err(EngineError::InvalidProbability)
    ));
}

#[test]
fn small_rows_are_exact_for_a_fair_coin() {
    let table = ThinningTable::build(500_000).unwrap();
    assert_eq!(table.get(0, 0), SCALE);
    assert_eq!(table.get(0, 1), 0);
    assert_eq!(table.get(1, 0), 500_000);
    assert_eq!(table.get(1, 1), 500_000);
    assert_eq!(table.get(2, 0), 250_000);
    assert_eq!(table.get(2, 1), 500_000);
    assert_eq!(table.get(2, 2), 250_000);
    assert_eq!(table.get(2, 3), 0);
}

#[test]
fn zero_probability_never_diverts() {
    let table = ThinningTable::build(0).unwrap();
    for i in 0..=D_MAX {
        assert_eq!(table.get(i, 0), SCALE);
        for j in 1..=D_MAX {
            assert_eq!(table.get(i, j), 0);
        }
    }
}

#[test]
fn certain_probability_diverts_everything() {
    let table = ThinningTable::build(SCALE).unwrap();
    for i in 0..=D_MAX {
        for j in 0..=D_MAX {
            let want = if i == j { SCALE } else { 0 };
            assert_eq!(table.get(i, j), want);
        }
    }
}

#[test]
fn every_row_sums_to_one_within_epsilon() {
    for p in [0u64, 333_333, 500_000, 800_000, SCALE] {
        let table = ThinningTable::build(p).unwrap();
        for i in 0..=D_MAX {
            let sum = row_sum(&table, i);
            assert!(sum <= SCALE, "p {p}, row {i}: sum {sum}");
            assert!(SCALE - sum <= 51 * i as u64, "p {p}, row {i}: sum {sum}");
        }
    }
}
