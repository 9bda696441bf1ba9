use insurance_protocol::consensus::{
    is_within_deviation, median_of, resolve_submissions, sort_values, ConsensusError,
    OracleConfig, OracleResolution, OracleSubmission,
};
use insurance_protocol::types::Address;

fn reports(values: &[i128], timestamp: u64) -> Vec<OracleSubmission> {
    values
        .iter()
        .enumerate()
        .map(|(n, value)| OracleSubmission {
            source: Address::account(3, n as u128),
            value: *value,
            timestamp,
        })
        .collect()
}

fn thresholds(min: u32, consensus: u32, deviation: u32, staleness: u64) -> OracleConfig {
    OracleConfig {
        min_submissions: min,
        consensus_threshold_percent: consensus,
        outlier_deviation_percent: deviation,
        staleness_threshold_secs: staleness,
    }
}

#[test]
fn sort_values_orders_ascending_and_keeps_duplicates() {
    assert_eq!(sort_values(&vec![]), Vec::<i128>::new());
    assert_eq!(sort_values(&vec![5]), vec![5]);
    assert_eq!(
        sort_values(&vec![3, -1, 3, 0, i128::MAX, i128::MIN, -1]),
        vec![i128::MIN, -1, -1, 0, 3, 3, i128::MAX]
    );
}

#[test]
fn median_is_the_middle_or_the_mean_rounded_down() {
    assert_eq!(median_of(&vec![7]), 7);
    assert_eq!(median_of(&vec![1, 2, 9]), 2);
    assert_eq!(median_of(&vec![995, 1000]), 997);
    assert_eq!(median_of(&vec![980, 1000, 1010, 1020]), 1005);
    assert_eq!(median_of(&vec![-3, 0]), -2);
    assert_eq!(median_of(&vec![-4, -1]), -3);
    assert_eq!(median_of(&vec![-1, 2]), 0);
    assert_eq!(median_of(&vec![i128::MAX - 1, i128::MAX]), i128::MAX - 1);
    assert_eq!(median_of(&vec![i128::MIN, i128::MIN + 1]), i128::MIN);
    assert_eq!(median_of(&vec![i128::MIN, i128::MAX]), -1);
}

#[test]
fn deviation_is_measured_against_the_center_exactly() {
    assert!(is_within_deviation(1000, 1000, 0));
    assert!(!is_within_deviation(1001, 1000, 0));
    assert!(is_within_deviation(1150, 1000, 15));
    assert!(!is_within_deviation(1151, 1000, 15));
    assert!(is_within_deviation(850, 1000, 15));
    assert!(!is_within_deviation(849, 1000, 15));
    // 15% of 7 is 1.05: a distance of 1 passes, 2 does not
    assert!(is_within_deviation(8, 7, 15));
    assert!(!is_within_deviation(9, 7, 15));
    // around a negative center the band has the same width
    assert!(is_within_deviation(-1150, -1000, 15));
    assert!(!is_within_deviation(-849, -1000, 15));
    assert!(!is_within_deviation(1000, -1000, 15));
    assert!(is_within_deviation(1000, -1000, 200));
    // a center of zero accepts zero only
    assert!(is_within_deviation(0, 0, 100));
    assert!(!is_within_deviation(1, 0, 100));
    // the ends of the range
    assert!(is_within_deviation(i128::MAX, i128::MAX, 0));
    assert!(!is_within_deviation(i128::MIN, i128::MAX, 100));
    assert!(!is_within_deviation(i128::MIN, i128::MAX, 200));
    assert!(is_within_deviation(i128::MIN, i128::MAX, 201));
    assert!(is_within_deviation(i128::MAX, i128::MIN, u32::MAX));
    assert!(is_within_deviation(0, i128::MIN, 100));
    assert!(!is_within_deviation(1, i128::MIN, 100));
}

#[test]
fn five_reports_with_one_outlier() {
    let record = resolve_submissions(
        &reports(&[1000, 1020, 980, 1010, 50], 100),
        &thresholds(5, 80, 15, 3600),
        200,
    );
    assert_eq!(
        record,
        Ok(OracleResolution {
            consensus_value: 1005,
            submission_count: 5,
            accepted_count: 4,
            rejected_count: 1,
            finalized_at: 200,
        })
    );
    // one point more on the threshold and four of five are too few
    assert_eq!(
        resolve_submissions(
            &reports(&[1000, 1020, 980, 1010, 50], 100),
            &thresholds(5, 81, 15, 3600),
            200,
        ),
        Err(ConsensusError::ConsensusNotReached)
    );
}

#[test]
fn resolution_ignores_arrival_order() {
    let config = thresholds(3, 60, 15, 3600);
    let forward = resolve_submissions(&reports(&[100, 101, 102], 5), &config, 6);
    let backward = resolve_submissions(&reports(&[102, 101, 100], 5), &config, 6);
    assert_eq!(forward, backward);
    assert_eq!(forward.unwrap().consensus_value, 101);
    assert_eq!(forward.unwrap().accepted_count, 3);

    let values = [1000, 1020, 980, 1010, 50];
    let expected = resolve_submissions(&reports(&values, 5), &thresholds(1, 80, 15, 3600), 6);
    let orders: [[usize; 5]; 5] = [
        [4, 3, 2, 1, 0],
        [1, 0, 3, 2, 4],
        [2, 4, 0, 3, 1],
        [3, 1, 4, 0, 2],
        [0, 4, 1, 3, 2],
    ];
    for order in orders {
        let shuffled: Vec<i128> = order.iter().map(|i| values[*i]).collect();
        assert_eq!(
            resolve_submissions(&reports(&shuffled, 5), &thresholds(1, 80, 15, 3600), 6),
            expected
        );
    }
}

#[test]
fn stale_reports_fail_the_resolution() {
    let config = thresholds(1, 60, 15, 1800);
    let mut all = reports(&[1000, 1001, 1002], 10_000);
    assert!(resolve_submissions(&all, &config, 11_800).is_ok());
    assert_eq!(
        resolve_submissions(&all, &config, 11_801),
        Err(ConsensusError::StaleData)
    );
    // one old report among fresh ones is enough
    all[1].timestamp = 9_000;
    assert_eq!(
        resolve_submissions(&all, &config, 10_900),
        Err(ConsensusError::StaleData)
    );
    // a report from the future is not stale
    all[1].timestamp = 50_000;
    assert!(resolve_submissions(&all, &config, 10_900).is_ok());
    // staleness is reported before a missing minimum
    assert_eq!(
        resolve_submissions(&reports(&[1], 0), &thresholds(5, 60, 15, 10), 11),
        Err(ConsensusError::StaleData)
    );
}

#[test]
fn too_few_reports_fail_the_resolution() {
    assert_eq!(
        resolve_submissions(&reports(&[], 0), &thresholds(0, 0, 15, 10), 0),
        Err(ConsensusError::InsufficientSubmissions)
    );
    assert_eq!(
        resolve_submissions(&reports(&[1, 1], 0), &thresholds(3, 0, 15, 10), 0),
        Err(ConsensusError::InsufficientSubmissions)
    );
    assert!(resolve_submissions(&reports(&[1, 1, 1], 0), &thresholds(3, 0, 15, 10), 0).is_ok());
}

#[test]
fn consensus_needs_the_threshold_share() {
    // median 500; only 500 itself lies within 15% of it
    assert_eq!(
        resolve_submissions(&reports(&[1000, 500, 100], 0), &thresholds(3, 90, 15, 10), 0),
        Err(ConsensusError::ConsensusNotReached)
    );
    assert_eq!(
        resolve_submissions(&reports(&[1000, 500, 100], 0), &thresholds(3, 34, 15, 10), 0),
        Err(ConsensusError::ConsensusNotReached)
    );
    let one_of_three =
        resolve_submissions(&reports(&[1000, 500, 100], 0), &thresholds(3, 33, 15, 10), 0)
            .unwrap();
    assert_eq!(one_of_three.consensus_value, 500);
    assert_eq!(one_of_three.accepted_count, 1);
    assert_eq!(one_of_three.rejected_count, 2);
    // with no value near the median nothing is accepted, whatever the threshold
    assert_eq!(
        resolve_submissions(&reports(&[100, 300], 0), &thresholds(1, 0, 15, 10), 0),
        Err(ConsensusError::ConsensusNotReached)
    );
}

#[test]
fn consensus_is_the_median_after_outlier_removal() {
    let record = resolve_submissions(
        &reports(&[1000, 995, 5000], 0),
        &thresholds(3, 60, 15, 10),
        0,
    )
    .unwrap();
    assert_eq!(record.consensus_value, 997);
    assert_eq!(record.accepted_count, 2);
    assert_eq!(record.rejected_count, 1);

    let record =
        resolve_submissions(&reports(&[500, 510, 5000], 0), &thresholds(3, 60, 15, 10), 0)
            .unwrap();
    assert_eq!(record.consensus_value, 505);
}
