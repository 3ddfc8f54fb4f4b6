use qtlreaper::{
    bootstrap_indices, bootstrap_test_size, locus_tally, random_permutation, regression_mode,
    shard_counts, RegressionModel, ScanError, BOOTSTRAP_TESTSIZE, MAXPERMUTATION,
};

#[test]
fn shard_counts_sum_to_the_trial_count_for_any_worker_count() {
    for workers in 1..=8usize {
        let shares = shard_counts(1000, workers);
        assert_eq!(shares.len(), workers);
        assert_eq!(shares.iter().sum::<usize>(), 1000);
        let q = 1000 / workers;
        for share in shares {
            assert!(share == q || share == q + 1);
        }
    }
}

#[test]
fn shard_counts_spread_the_remainder_over_the_first_workers() {
    assert_eq!(shard_counts(10, 4), vec![3, 3, 2, 2]);
    assert_eq!(shard_counts(7, 3), vec![3, 2, 2]);
    assert_eq!(shard_counts(6, 3), vec![2, 2, 2]);
}

#[test]
fn zero_workers_are_treated_as_one() {
    assert_eq!(shard_counts(5, 0), vec![5]);
}

#[test]
fn random_permutation_is_a_permutation() {
    for n in [0usize, 1, 2, 10, 57] {
        let mut p = random_permutation(n);
        assert_eq!(p.len(), n);
        p.sort();
        let identity: Vec<usize> = (0..n).collect();
        assert_eq!(p, identity);
    }
}

#[test]
fn bootstrap_indices_stay_in_range() {
    let v = bootstrap_indices(17);
    assert_eq!(v.len(), 17);
    assert!(v.iter().all(|&i| i < 17));
}

#[test]
fn locus_tally_counts_each_winner() {
    let winners = vec![0usize, 2, 2, 1, 2];
    let counts = locus_tally(&winners, 4);
    assert_eq!(counts, vec![1, 1, 3, 0]);
    assert_eq!(counts.iter().sum::<usize>(), winners.len());
}

#[test]
fn bootstrap_test_size_is_clamped() {
    assert_eq!(bootstrap_test_size(0), BOOTSTRAP_TESTSIZE);
    assert_eq!(bootstrap_test_size(999), 1000);
    assert_eq!(bootstrap_test_size(1500), 1500);
    assert_eq!(bootstrap_test_size(5_000_000), MAXPERMUTATION);
}

#[test]
fn regression_mode_follows_the_call_policy() {
    assert_eq!(regression_mode(false, false), Ok(RegressionModel::SingleLocus));
    assert_eq!(regression_mode(true, false), Ok(RegressionModel::DominanceJoint));
    assert_eq!(regression_mode(false, true), Ok(RegressionModel::ControlAdjusted));
    assert_eq!(regression_mode(true, true), Err(ScanError::CompositeIntercross));
}
