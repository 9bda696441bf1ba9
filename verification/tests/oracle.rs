use insurance_protocol::claims::{ClaimsContract, ContractError};
use insurance_protocol::consensus::{OracleConfig, OracleResolution};
use insurance_protocol::oracle::{OracleContract, OracleError};
use insurance_protocol::risk_pool::RiskPoolContract;
use insurance_protocol::types::{Address, ClaimStatus};

const T0: u64 = 1_706_000_000;

fn admin() -> Address {
    Address::account(0, 1)
}

fn processor() -> Address {
    Address::account(0, 2)
}

fn holder() -> Address {
    Address::account(0, 3)
}

fn provider() -> Address {
    Address::account(0, 4)
}

fn source(n: u128) -> Address {
    Address::account(7, n)
}

fn claims_address() -> Address {
    Address::component(1, 1)
}

fn pool_address() -> Address {
    Address::component(1, 2)
}

fn policy_address() -> Address {
    Address::component(1, 3)
}

fn oracle_address() -> Address {
    Address::component(1, 4)
}

fn token_address() -> Address {
    Address::component(1, 5)
}

fn thresholds(min: u32, consensus: u32, deviation: u32, staleness: u64) -> OracleConfig {
    OracleConfig {
        min_submissions: min,
        consensus_threshold_percent: consensus,
        outlier_deviation_percent: deviation,
        staleness_threshold_secs: staleness,
    }
}

fn oracle_with(config: OracleConfig, sources: u128) -> OracleContract {
    let mut oracle = OracleContract::new();
    assert_eq!(oracle.initialize(admin(), config), Ok(()));
    for n in 1..=sources {
        assert_eq!(oracle.register_source(admin(), source(n)), Ok(()));
    }
    oracle
}

/// A claims component and a funded pool, with one claim under review.
fn claim_under_review(
    amount: i128,
    require_oracle: bool,
    min_reports: u32,
) -> (ClaimsContract, RiskPoolContract, u64) {
    let mut pool = RiskPoolContract::new();
    assert_eq!(
        pool.initialize(admin(), token_address(), 100, claims_address()),
        Ok(())
    );
    assert_eq!(pool.deposit_liquidity(provider(), 1_000_000, T0), Ok(()));
    let mut claims = ClaimsContract::new(claims_address());
    assert_eq!(
        claims.initialize(admin(), policy_address(), pool_address()),
        Ok(())
    );
    assert_eq!(claims.grant_processor_role(admin(), processor()), Ok(()));
    assert_eq!(
        claims.set_oracle_config(admin(), oracle_address(), require_oracle, min_reports),
        Ok(())
    );
    let id = claims
        .submit_claim(holder(), 77, amount, holder(), 500_000, T0)
        .unwrap();
    assert_eq!(claims.start_review(processor(), id), Ok(()));
    (claims, pool, id)
}

#[test]
fn test_claim_approval_with_oracle_consensus() {
    let mut oracle = oracle_with(thresholds(3, 60, 15, 3600), 3);
    assert_eq!(oracle.submit(source(1), 1, 1000, T0), Ok(()));
    assert_eq!(oracle.submit(source(2), 1, 995, T0 + 1), Ok(()));
    assert_eq!(oracle.submit(source(3), 1, 5000, T0 + 2), Ok(()));

    let record = oracle.resolve(1, T0 + 10).unwrap();
    // the median of 995 and 1000 is 997.5; amounts are whole numbers
    assert_eq!(record.consensus_value, 997);
    assert_eq!(record.submission_count, 3);
    assert_eq!(record.accepted_count, 2);
    assert_eq!(record.rejected_count, 1);

    let (mut claims, mut pool, id) = claim_under_review(1000, true, 3);
    assert_eq!(
        claims.approve_claim(&mut pool, &oracle, processor(), id, Some(1), T0 + 20),
        Ok(())
    );
    assert_eq!(claims.get_claim(id).unwrap().status, ClaimStatus::Approved);
    assert_eq!(claims.get_claim_oracle_data(id), Ok(1));
}

#[test]
fn test_claim_rejection_on_consensus_failure() {
    let mut oracle = oracle_with(thresholds(3, 90, 15, 3600), 3);
    assert_eq!(oracle.submit(source(1), 1, 1000, T0), Ok(()));
    assert_eq!(oracle.submit(source(2), 1, 500, T0), Ok(()));
    assert_eq!(oracle.submit(source(3), 1, 100, T0), Ok(()));

    assert_eq!(
        oracle.resolve(1, T0 + 10),
        Err(OracleError::ConsensusNotReached)
    );
    assert_eq!(oracle.get_resolution(1), None);

    let (mut claims, mut pool, id) = claim_under_review(1000, true, 3);
    assert_eq!(
        claims.approve_claim(&mut pool, &oracle, processor(), id, Some(1), T0 + 20),
        Err(ContractError::OracleValidationFailed)
    );
    assert_eq!(
        claims.get_claim(id).unwrap().status,
        ClaimStatus::UnderReview
    );
    assert_eq!(pool.get_pool_stats().unwrap().reserved_total, 0);
}

#[test]
fn test_claim_rejection_on_stale_oracle_data() {
    let thirty_minutes = 30 * 60;
    let ten_am = T0;
    let mut oracle = oracle_with(thresholds(1, 60, 15, thirty_minutes), 3);
    assert_eq!(oracle.submit(source(1), 1, 1000, ten_am), Ok(()));

    let quarter_to_eleven = ten_am + 45 * 60;
    assert_eq!(
        oracle.resolve(1, quarter_to_eleven),
        Err(OracleError::StaleData)
    );

    let (mut claims, mut pool, id) = claim_under_review(1000, true, 1);
    assert_eq!(
        claims.approve_claim(
            &mut pool,
            &oracle,
            processor(),
            id,
            Some(1),
            quarter_to_eleven
        ),
        Err(ContractError::OracleValidationFailed)
    );

    // fresh reports on a new request let the approval through
    assert_eq!(oracle.submit(source(1), 2, 1000, quarter_to_eleven), Ok(()));
    assert!(oracle.resolve(2, quarter_to_eleven + 60).is_ok());
    assert_eq!(
        claims.approve_claim(
            &mut pool,
            &oracle,
            processor(),
            id,
            Some(2),
            quarter_to_eleven + 60
        ),
        Ok(())
    );
}

#[test]
fn test_duplicate_oracle_submission_prevention() {
    let mut oracle = oracle_with(thresholds(3, 60, 15, 3600), 3);
    assert_eq!(oracle.submit(source(1), 1, 1000, T0), Ok(()));
    assert_eq!(
        oracle.submit(source(1), 1, 5000, T0 + 1),
        Err(OracleError::DuplicateSubmission)
    );
    assert_eq!(oracle.get_submission_count(1), 1);
    // the same source may still report on another request
    assert_eq!(oracle.submit(source(1), 2, 5000, T0 + 1), Ok(()));
}

#[test]
fn test_complex_outlier_detection_five_oracles() {
    let mut oracle = oracle_with(thresholds(5, 80, 15, 3600), 5);
    assert_eq!(oracle.submit(source(1), 1, 1000, T0), Ok(()));
    assert_eq!(oracle.submit(source(2), 1, 1020, T0), Ok(()));
    assert_eq!(oracle.submit(source(3), 1, 980, T0), Ok(()));
    assert_eq!(oracle.submit(source(4), 1, 1010, T0), Ok(()));
    assert_eq!(oracle.submit(source(5), 1, 50, T0), Ok(()));

    let record = oracle.resolve(1, T0 + 5).unwrap();
    assert_eq!(
        record,
        OracleResolution {
            consensus_value: 1005,
            submission_count: 5,
            accepted_count: 4,
            rejected_count: 1,
            finalized_at: T0 + 5,
        }
    );

    let (mut claims, mut pool, id) = claim_under_review(1005, true, 5);
    assert_eq!(
        claims.approve_claim(&mut pool, &oracle, processor(), id, Some(1), T0 + 6),
        Ok(())
    );
}

#[test]
fn test_oracle_pause_during_attack() {
    let mut oracle = oracle_with(thresholds(3, 60, 15, 3600), 3);
    assert_eq!(oracle.submit(source(1), 1, 1000, T0), Ok(()));
    assert_eq!(oracle.submit(source(2), 1, 1010, T0), Ok(()));

    assert_eq!(oracle.pause(admin()), Ok(()));
    assert!(oracle.is_paused());

    assert_eq!(
        oracle.submit(source(3), 1, 999_999, T0),
        Err(OracleError::Paused)
    );
    assert_eq!(oracle.get_submission_count(1), 2);

    assert_eq!(oracle.unpause(admin()), Ok(()));
    assert_eq!(oracle.submit(source(3), 1, 1005, T0), Ok(()));
    assert_eq!(oracle.get_submission_count(1), 3);
}

#[test]
fn test_multiple_claims_independent_oracle_validation() {
    let mut oracle = oracle_with(thresholds(3, 60, 15, 3600), 3);
    let reports: [(u64, [i128; 3]); 3] = [
        (1, [1000, 1005, 1002]),
        (2, [2000, 2010, 2005]),
        (3, [500, 510, 5000]),
    ];
    for (data_id, values) in reports {
        for (n, value) in values.into_iter().enumerate() {
            assert_eq!(
                oracle.submit(source(n as u128 + 1), data_id, value, T0),
                Ok(())
            );
        }
    }
    let first = oracle.resolve(1, T0 + 1).unwrap();
    let second = oracle.resolve(2, T0 + 1).unwrap();
    let third = oracle.resolve(3, T0 + 1).unwrap();
    assert_eq!(first.consensus_value, 1002);
    assert_eq!(second.consensus_value, 2005);
    assert_eq!(third.consensus_value, 505);
    assert_eq!(first.rejected_count, 0);
    assert_eq!(second.rejected_count, 0);
    assert_eq!(third.accepted_count, 2);
    assert_eq!(third.rejected_count, 1);
}

#[test]
fn test_partial_oracle_failure_recovery() {
    let mut oracle = oracle_with(thresholds(5, 60, 15, 3600), 5);
    assert_eq!(oracle.submit(source(1), 1, 1000, T0), Ok(()));
    assert_eq!(oracle.submit(source(3), 1, 990, T0), Ok(()));
    assert_eq!(oracle.submit(source(5), 1, 1010, T0), Ok(()));

    assert_eq!(
        oracle.resolve(1, T0 + 1),
        Err(OracleError::InsufficientSubmissions)
    );
    assert_eq!(oracle.get_resolution(1), None);

    assert_eq!(
        oracle.update_config(admin(), thresholds(3, 60, 15, 3600)),
        Ok(())
    );
    let record = oracle.resolve(1, T0 + 2).unwrap();
    assert_eq!(record.consensus_value, 1000);
    assert_eq!(record.submission_count, 3);
    assert_eq!(record.accepted_count, 3);

    let (mut claims, mut pool, id) = claim_under_review(1000, true, 3);
    assert_eq!(
        claims.approve_claim(&mut pool, &oracle, processor(), id, Some(1), T0 + 3),
        Ok(())
    );
}

#[test]
fn test_deterministic_oracle_resolution() {
    let mut in_order = oracle_with(thresholds(3, 60, 15, 3600), 3);
    assert_eq!(in_order.submit(source(1), 1, 100, T0), Ok(()));
    assert_eq!(in_order.submit(source(2), 1, 101, T0), Ok(()));
    assert_eq!(in_order.submit(source(3), 1, 102, T0), Ok(()));

    let mut reversed = oracle_with(thresholds(3, 60, 15, 3600), 3);
    assert_eq!(reversed.submit(source(3), 1, 102, T0), Ok(()));
    assert_eq!(reversed.submit(source(2), 1, 101, T0), Ok(()));
    assert_eq!(reversed.submit(source(1), 1, 100, T0), Ok(()));

    let a = in_order.resolve(1, T0 + 1).unwrap();
    let b = reversed.resolve(1, T0 + 1).unwrap();
    assert_eq!(a.consensus_value, 101);
    assert_eq!(a.accepted_count, 3);
    assert_eq!(a.accepted_count * 100 / a.submission_count, 100);
    assert_eq!(a, b);
}

#[test]
fn test_oracle_audit_trail_for_disputes() {
    let mut oracle = oracle_with(thresholds(3, 60, 15, 3600), 3);
    let finalized_at = 1_706_012_345;
    for n in 1..=3 {
        assert_eq!(oracle.submit(source(n), 42, 1000, finalized_at - 60), Ok(()));
    }
    assert!(oracle.resolve(42, finalized_at).is_ok());

    let (mut claims, mut pool, id) = claim_under_review(1000, true, 3);
    assert_eq!(
        claims.approve_claim(&mut pool, &oracle, processor(), id, Some(42), finalized_at + 1),
        Ok(())
    );

    // the link from the claim to the record survives for review
    let data_id = claims.get_claim_oracle_data(id).unwrap();
    assert_eq!(data_id, 42);
    let record = oracle.get_resolution(data_id).unwrap();
    assert_eq!(record.consensus_value, 1000);
    assert_eq!(record.submission_count, 3);
    assert_eq!(record.accepted_count, 3);
    assert_eq!(record.rejected_count, 0);
    assert_eq!(record.finalized_at, 1_706_012_345);
    assert_eq!(record.accepted_count * 100 / record.submission_count, 100);
    assert_eq!(record.consensus_value, claims.get_claim(id).unwrap().amount);

    // resolving again hands out the same record, whatever the time
    assert_eq!(oracle.resolve(42, finalized_at + 100_000), Ok(record));
}

#[test]
fn test_oracle_consensus_for_pricing_logic() {
    let mut oracle = oracle_with(thresholds(3, 60, 15, 3600), 3);
    assert_eq!(oracle.submit(source(1), 1, 10_000, T0), Ok(()));
    assert_eq!(oracle.submit(source(2), 1, 10_050, T0), Ok(()));
    assert_eq!(oracle.submit(source(3), 1, 9_950, T0), Ok(()));

    let record = oracle.resolve(1, T0 + 1).unwrap();
    assert_eq!(record.consensus_value, 10_000);
    assert_eq!(record.accepted_count, 3);
    assert_eq!(record.rejected_count, 0);

    // the consensus price caps the coverage; a damage of 5,000 is within it
    let mut claims = ClaimsContract::new(claims_address());
    assert_eq!(
        claims.initialize(admin(), policy_address(), pool_address()),
        Ok(())
    );
    let max_coverage = record.consensus_value;
    assert!(claims
        .submit_claim(holder(), 1, 5_000, holder(), max_coverage, T0 + 2)
        .is_ok());
    assert_eq!(
        claims.submit_claim(holder(), 2, 10_001, holder(), max_coverage, T0 + 2),
        Err(ContractError::InvalidInput)
    );
}

#[test]
fn test_oracle_performance_with_scale() {
    for count in 3u128..=24 {
        let mut oracle = oracle_with(thresholds(3, 80, 15, 3600), count);
        for n in 1..=count {
            // arrival order is scrambled: odd sources first, then even
            let k = if n <= (count + 1) / 2 { 2 * n - 1 } else { 2 * (n - (count + 1) / 2) };
            assert_eq!(oracle.submit(source(k), 1, 1000 + k as i128, T0), Ok(()));
        }
        let record = oracle.resolve(1, T0 + 1).unwrap();
        // the values are 1001 up to 1000 + count: the median is the middle
        // one, or the mean of the two middle ones rounded down
        let expected = 1000 + (count as i128 + 1) / 2;
        assert_eq!(record.submission_count, count as u64);
        assert_eq!(record.accepted_count, count as u64);
        assert_eq!(record.consensus_value, expected);
    }
}

#[test]
fn test_oracle_storage_efficiency() {
    let mut oracle = oracle_with(thresholds(5, 80, 15, 3600), 5);
    for data_id in 1..=100u64 {
        for n in 1..=5u128 {
            let value = 1000 * data_id as i128 + n as i128;
            assert_eq!(oracle.submit(source(n), data_id, value, T0), Ok(()));
        }
        assert!(oracle.resolve(data_id, T0 + 1).is_ok());
    }
    for data_id in 1..=100u64 {
        let record = oracle.get_resolution(data_id).unwrap();
        assert_eq!(record.consensus_value, 1000 * data_id as i128 + 3);
        assert_eq!(record.submission_count, 5);
        assert_eq!(record.accepted_count, 5);
        assert_eq!(record.rejected_count, 0);
        assert_eq!(oracle.get_submission_count(data_id), 5);
        // a resolved request takes no further reports
        assert_eq!(
            oracle.submit(source(1), data_id, 1, T0 + 2),
            Err(OracleError::InvalidState)
        );
    }
}
