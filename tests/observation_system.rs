use optimal_temperament::{Criteria, CriteriaError};

fn get_criteria() -> Criteria<f64> {
    Criteria::new(3, 1200.0, vec![0.0, 702.0], vec![1.0e-6, 1.0], vec![1.0, 1.0e-4, 1.0]).unwrap()
}

#[test]
fn test_populate_source_matrix() {
    let criteria = get_criteria();
    let exp: Vec<Vec<i8>> = vec![
        vec![1, 0],
        vec![-1, 1],
        vec![0, -1],
        vec![0, 1],
        vec![-1, 0],
        vec![1, -1],
    ];
    let res = criteria.populate_source_matrix();
    assert_eq!(exp, res);
}

#[test]
fn test_populate_ideal_interval_vector() {
    let criteria = get_criteria();
    let exp = vec![0.0, 0.0, -1200.0, 702.0, -498.0, -498.0];
    let res = criteria.populate_ideal_interval_vector(|a: f64, b: f64| a - b);
    assert_eq!(exp, res);
}

#[test]
fn test_populate_weights_vector() {
    let criteria = get_criteria();
    let exp = vec![1.0e-6, 1.0e-10, 1.0e-6, 1.0, 1.0e-4, 1.0];
    let res = criteria.populate_weights_vector(|a: f64, b: f64| a * b);
    assert_eq!(exp, res);
}

#[test]
fn new_rejects_too_few_pitches() {
    let r = Criteria::<f64>::new(1, 1200.0, vec![], vec![], vec![1.0]);
    assert_eq!(r.err(), Some(CriteriaError::TooFewPitches { found: 1 }));
    let r = Criteria::<f64>::new(0, 1200.0, vec![], vec![], vec![]);
    assert_eq!(r.err(), Some(CriteriaError::TooFewPitches { found: 0 }));
}

#[test]
fn new_rejects_wrong_ideal_intervals_length() {
    let r = Criteria::new(3, 1200.0, vec![0.0], vec![1.0, 1.0], vec![1.0, 1.0, 1.0]);
    assert_eq!(r.err(), Some(CriteriaError::IdealIntervalsLength { expected: 2, found: 1 }));
}

#[test]
fn new_rejects_wrong_interval_weights_length() {
    let r = Criteria::new(3, 1200.0, vec![0.0, 702.0], vec![1.0, 1.0, 1.0], vec![1.0, 1.0, 1.0]);
    assert_eq!(r.err(), Some(CriteriaError::IntervalWeightsLength { expected: 2, found: 3 }));
}

#[test]
fn new_rejects_wrong_key_weights_length() {
    let r = Criteria::new(3, 1200.0, vec![0.0, 702.0], vec![1.0, 1.0], vec![1.0, 1.0]);
    assert_eq!(r.err(), Some(CriteriaError::KeyWeightsLength { expected: 3, found: 2 }));
}

#[test]
fn new_reports_first_malformed_field() {
    let r = Criteria::new(4, 1200.0, vec![0.0], vec![1.0], vec![1.0]);
    assert_eq!(r.err(), Some(CriteriaError::IdealIntervalsLength { expected: 3, found: 1 }));
}

#[test]
fn new_keeps_the_given_values() {
    let c = get_criteria();
    assert_eq!(c.num_pitches(), 3);
    assert_eq!(c.repeat_factor(), 1200.0);
    assert_eq!(c.ideal_intervals(), &vec![0.0, 702.0]);
    assert_eq!(c.interval_weights(), &vec![1.0e-6, 1.0]);
    assert_eq!(c.key_weights(), &vec![1.0, 1.0e-4, 1.0]);
}

#[test]
fn observation_shape_counts_rows_and_unknowns() {
    assert_eq!(get_criteria().observation_shape(), (6, 2));
    let c = Criteria::new(12, 1200i64, vec![0; 11], vec![1; 11], vec![1; 12]).unwrap();
    assert_eq!(c.observation_shape(), (132, 11));
}

#[test]
fn source_matrix_of_two_pitches() {
    let c = Criteria::new(2, 1200i64, vec![700], vec![1], vec![1, 1]).unwrap();
    assert_eq!(c.populate_source_matrix(), vec![vec![1i8], vec![-1i8]]);
}

#[test]
fn source_matrix_rows_hold_at_most_one_plus_and_one_minus() {
    let n: usize = 7;
    let c = Criteria::new(n, 1200i64, vec![0; n - 1], vec![1; n - 1], vec![1; n]).unwrap();
    let m = c.populate_source_matrix();
    assert_eq!(m.len(), n * (n - 1));
    for (r, row) in m.iter().enumerate() {
        assert_eq!(row.len(), n - 1);
        let plus = row.iter().filter(|e| **e == 1).count();
        let minus = row.iter().filter(|e| **e == -1).count();
        let zero = row.iter().filter(|e| **e == 0).count();
        assert!(plus <= 1 && minus <= 1);
        assert_eq!(plus + minus + zero, n - 1);
        let key = r % n;
        let class = r / n;
        // rows touching the reference pitch on one side have a single nonzero entry
        let touches_reference = key == 0 || (key + class) % n == n - 1;
        assert_eq!(plus + minus == 1, touches_reference);
    }
}

#[test]
fn source_matrix_times_tuning_gives_implied_intervals() {
    // pitches at 0, 100, 300, 600 with a cycle of 1000
    let n: usize = 4;
    let tuning: Vec<i64> = vec![100, 300, 600];
    let c = Criteria::new(n, 1000i64, vec![0; 3], vec![1; 3], vec![1; 4]).unwrap();
    let m = c.populate_source_matrix();
    for (r, row) in m.iter().enumerate() {
        let key = r % n;
        let upper = key + r / n + 1;
        let position = |p: usize| -> i64 {
            if p == 0 {
                0
            } else if p < n {
                tuning[p - 1]
            } else {
                1000 + if p - n == 0 { 0 } else { tuning[p - n - 1] }
            }
        };
        let implied: i64 = row.iter().zip(tuning.iter()).map(|(a, x)| *a as i64 * x).sum();
        let interval = position(upper) - position(key);
        let wrapped = if key + r / n >= n - 1 { interval - 1000 } else { interval };
        assert_eq!(implied, wrapped);
    }
}

#[test]
fn targets_wrap_exactly_past_the_cycle() {
    let c = Criteria::new(4, 1200i64, vec![300, 700, 1000], vec![1; 3], vec![1; 4]).unwrap();
    let b = c.populate_ideal_interval_vector(|a: i64, b: i64| a - b);
    assert_eq!(
        b,
        vec![300, 300, 300, -900, 700, 700, -500, -500, 1000, -200, -200, -200]
    );
}

#[test]
fn targets_use_the_given_subtraction() {
    let c = Criteria::new(2, 12i64, vec![7], vec![1], vec![1, 1]).unwrap();
    let b = c.populate_ideal_interval_vector(|a: i64, b: i64| a * 100 + b);
    assert_eq!(b, vec![7, 712]);
}

#[test]
fn weights_are_products_of_class_and_key_weights() {
    let c = Criteria::new(3, 0i64, vec![0, 0], vec![2, 3], vec![5, 7, 11]).unwrap();
    let w = c.populate_weights_vector(|a: i64, b: i64| a * b);
    assert_eq!(w, vec![10, 14, 22, 15, 21, 33]);
}

#[test]
fn zero_interval_weights_give_zero_row_weights() {
    let c = Criteria::new(3, 1200.0, vec![0.0, 702.0], vec![0.0, 0.0], vec![1.0, 1.0e-4, 1.0]).unwrap();
    let w = c.populate_weights_vector(|a: f64, b: f64| a * b);
    assert!(w.iter().all(|x| *x == 0.0));
}

#[test]
fn building_twice_gives_the_same_system() {
    let c = get_criteria();
    assert_eq!(c.populate_source_matrix(), c.populate_source_matrix());
    let sub = |a: f64, b: f64| a - b;
    assert_eq!(c.populate_ideal_interval_vector(sub), c.populate_ideal_interval_vector(sub));
    let mul = |a: f64, b: f64| a * b;
    assert_eq!(c.populate_weights_vector(mul), c.populate_weights_vector(mul));
}

#[test]
fn scaling_interval_weights_scales_every_weight() {
    let c = Criteria::new(3, 0i64, vec![0, 0], vec![2, 3], vec![5, 7, 11]).unwrap();
    let scaled = Criteria::new(3, 0i64, vec![0, 0], vec![8, 12], vec![5, 7, 11]).unwrap();
    let w = c.populate_weights_vector(|a: i64, b: i64| a * b);
    let ws = scaled.populate_weights_vector(|a: i64, b: i64| a * b);
    let expected: Vec<i64> = w.iter().map(|x| 4 * x).collect();
    assert_eq!(ws, expected);
}
