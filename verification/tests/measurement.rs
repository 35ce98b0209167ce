use morph::error::SimError;
use morph::quantum_simulation::measurement::{
    measure, sample_outcome, tabulate, MeasurementOutcome, Weight,
};
use morph::quantum_simulation::state_vector::StateVector;
use rand::rngs::StdRng;
use rand::{Rng, SeedableRng};

fn level(x: f64) -> u64 {
    assert!(x >= 0.0);
    x.to_bits()
}

fn table_of(probabilities: &[f64]) -> Vec<Weight> {
    tabulate(&probabilities.to_vec(), 0.0, |total: f64, p: f64| total + p, level)
}

fn hadamard(a: f64, b: f64) -> (f64, f64) {
    let s = 1.0 / 2.0_f64.sqrt();
    ((a + b) * s, (a - b) * s)
}

fn table_of_state(state: &StateVector<f64>) -> Vec<Weight> {
    table_of(&state.probabilities(|a: f64| a * a))
}

const EPSILON: f64 = 1e-6;

#[test]
fn test_levels_keep_the_order_of_non_negative_doubles() {
    let values = [0.0, 1e-300, 1e-9, 0.1, 0.25, 0.5, 0.999_999, 1.0, 2.0, 1e300];
    for pair in values.windows(2) {
        assert!(level(pair[0]) < level(pair[1]));
    }
    assert_eq!(level(0.0), 0);
}

#[test]
fn test_sample_selects_first_state_whose_running_total_reaches_it() {
    let table = table_of(&[0.1, 0.2, 0.3, 0.4]);
    let pick = |u: f64| sample_outcome(&table, level(u), level(EPSILON)).unwrap().index;
    assert_eq!(pick(0.0), 0);
    assert_eq!(pick(0.05), 0);
    assert_eq!(pick(0.1), 0);
    assert_eq!(pick(0.100_001), 1);
    assert_eq!(pick(0.3), 1);
    assert_eq!(pick(0.31), 2);
    assert_eq!(pick(0.6), 2);
    assert_eq!(pick(0.61), 3);
    assert_eq!(pick(0.999_999), 3);
}

#[test]
fn test_sample_reports_probability_of_selected_state() {
    let table = table_of(&[0.1, 0.2, 0.3, 0.4]);
    let outcome = sample_outcome(&table, level(0.5), level(EPSILON)).unwrap();
    assert_eq!(outcome, MeasurementOutcome { index: 2, probability: level(0.3) });
    assert_eq!(f64::from_bits(outcome.probability), 0.3);
}

#[test]
fn test_sample_skips_states_without_mass() {
    let table = table_of(&[0.0, 0.0, 1.0, 0.0]);
    for u in [1e-12, 0.3, 0.999] {
        assert_eq!(sample_outcome(&table, level(u), level(EPSILON)).unwrap().index, 2);
    }
    // a draw of exactly zero is reached by the very first running total
    assert_eq!(sample_outcome(&table, level(0.0), level(EPSILON)).unwrap().index, 0);
}

#[test]
fn test_sample_falls_back_to_last_state_when_total_stays_below_draw() {
    let table = table_of(&[0.3, 0.3, 0.3]);
    let outcome = sample_outcome(&table, level(0.95), level(EPSILON)).unwrap();
    assert_eq!(outcome.index, 2);
}

#[test]
fn test_sample_fails_on_decayed_table() {
    let decayed = table_of(&[1e-9, 1e-9]);
    assert_eq!(
        sample_outcome(&decayed, level(0.5), level(EPSILON)),
        Err(SimError::DecayedState)
    );
    let empty: Vec<Weight> = Vec::new();
    assert_eq!(sample_outcome(&empty, level(0.5), level(EPSILON)), Err(SimError::DecayedState));
    assert_eq!(sample_outcome(&empty, 0, 0), Err(SimError::DecayedState));
    let at_threshold = table_of(&[0.0, EPSILON]);
    assert!(sample_outcome(&at_threshold, level(0.5), level(EPSILON)).is_ok());
}

#[test]
fn test_measure_collapses_onto_outcome() {
    let mut state = StateVector::new(2, 0.0, 1.0).unwrap();
    state.apply_single_qubit(0, hadamard).unwrap();
    state.apply_single_qubit(1, hadamard).unwrap();
    let table = table_of_state(&state);
    let outcome = measure(&mut state, &table, level(0.6), level(EPSILON)).unwrap();
    assert_eq!(outcome.index, 2);
    assert!((f64::from_bits(outcome.probability) - 0.25).abs() < 1e-12);
    assert_eq!(state.amplitudes(), &vec![0.0, 0.0, 1.0, 0.0]);
}

#[test]
fn test_measure_refuses_and_leaves_state_untouched() {
    let mut state = StateVector::new(1, 0.0, 1.0).unwrap();
    state.apply_single_qubit(0, hadamard).unwrap();
    let before = state.amplitudes().clone();
    let short = table_of(&[1.0]);
    assert_eq!(
        measure(&mut state, &short, level(0.5), level(EPSILON)),
        Err(SimError::IndexOutOfRange)
    );
    let long = table_of(&[0.25, 0.25, 0.25, 0.25]);
    assert_eq!(
        measure(&mut state, &long, level(0.5), level(EPSILON)),
        Err(SimError::IndexOutOfRange)
    );
    let decayed = table_of(&[1e-12, 1e-12]);
    assert_eq!(
        measure(&mut state, &decayed, level(0.5), level(EPSILON)),
        Err(SimError::DecayedState)
    );
    assert_eq!(state.amplitudes(), &before);
}

#[test]
fn test_measuring_twice_gives_same_index() {
    let mut rng = StdRng::seed_from_u64(99);
    for qubits in 1..=5usize {
        for _ in 0..50 {
            let mut state = StateVector::new(qubits, 0.0, 1.0).unwrap();
            for q in 0..qubits {
                state.apply_single_qubit(q, hadamard).unwrap();
            }
            let table = table_of_state(&state);
            let first = measure(&mut state, &table, level(rng.gen::<f64>()), level(EPSILON)).unwrap();
            let table = table_of_state(&state);
            let mut draw = rng.gen::<f64>();
            if draw == 0.0 {
                draw = 0.5;
            }
            let second = measure(&mut state, &table, level(draw), level(EPSILON)).unwrap();
            assert_eq!(first.index, second.index);
            assert_eq!(f64::from_bits(second.probability), 1.0);
        }
    }
}

#[test]
fn test_hadamard_then_measure_with_fixed_seed() {
    let mut rng = StdRng::seed_from_u64(12345);
    let mut state = StateVector::new(1, 0.0, 1.0).unwrap();
    state.apply_single_qubit(0, hadamard).unwrap();
    let probabilities = state.probabilities(|a: f64| a * a);
    assert!((probabilities[0] - 0.5).abs() < 1e-9);
    assert!((probabilities[1] - 0.5).abs() < 1e-9);
    let table = table_of(&probabilities);
    let outcome = measure(&mut state, &table, level(rng.gen::<f64>()), level(EPSILON)).unwrap();
    assert!(outcome.index == 0 || outcome.index == 1);
    assert!((f64::from_bits(outcome.probability) - 0.5).abs() < 1e-9);
    let amplitudes = state.into_amplitudes();
    assert_eq!(amplitudes.len(), 2);
    for (i, a) in amplitudes.iter().enumerate() {
        if i == outcome.index {
            assert!((a - 1.0).abs() < 1e-9);
        } else {
            assert_eq!(*a, 0.0);
        }
    }
}

#[test]
fn test_sampling_from_equal_superposition_is_uniform() {
    let mut rng = StdRng::seed_from_u64(31337);
    for qubits in 1..=4usize {
        let dim = 1usize << qubits;
        let mut state = StateVector::new(qubits, 0.0, 1.0).unwrap();
        for q in 0..qubits {
            state.apply_single_qubit(q, hadamard).unwrap();
        }
        let table = table_of_state(&state);
        let mut counts = vec![0u32; dim];
        for _ in 0..10_000 {
            let outcome = sample_outcome(&table, level(rng.gen::<f64>()), level(EPSILON)).unwrap();
            counts[outcome.index] += 1;
        }
        let expected = 10_000.0 / dim as f64;
        let chi_squared: f64 =
            counts.iter().map(|c| (*c as f64 - expected).powi(2) / expected).sum();
        // 99.9th percentile of chi-squared with 15 degrees of freedom is 37.7;
        // fewer degrees of freedom have smaller percentiles.
        assert!(chi_squared < 37.7, "chi-squared {chi_squared} for {qubits} qubits");
        assert!(counts.iter().all(|c| *c > 0));
    }
}

#[test]
fn test_tabulate_builds_cumulative_distribution() {
    let table = tabulate(&vec![10u64, 20, 0, 70], 0u64, |total, p| total + p, |x| x);
    assert_eq!(
        table,
        vec![
            Weight { probability: 10, cumulative: 10 },
            Weight { probability: 20, cumulative: 30 },
            Weight { probability: 0, cumulative: 30 },
            Weight { probability: 70, cumulative: 100 },
        ]
    );
    let shifted = tabulate(&vec![1u64, 2], 5u64, |total, p| total + p, |x| 2 * x);
    assert_eq!(
        shifted,
        vec![
            Weight { probability: 2, cumulative: 12 },
            Weight { probability: 4, cumulative: 16 },
        ]
    );
    let empty: Vec<u64> = Vec::new();
    assert!(tabulate(&empty, 0u64, |total, p| total + p, |x| x).is_empty());
}

#[test]
fn test_tabulate_of_doubles_matches_running_sum() {
    let probabilities = vec![0.1, 0.2, 0.3, 0.4];
    let table = table_of(&probabilities);
    let mut running = 0.0;
    for (row, p) in table.iter().zip(&probabilities) {
        running += p;
        assert_eq!(f64::from_bits(row.probability), *p);
        assert_eq!(f64::from_bits(row.cumulative), running);
    }
}
