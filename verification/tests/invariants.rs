use insurance_protocol::invariants::{
    safe_add, safe_mul, safe_sub, InvariantError, ProtocolInvariants,
};
use insurance_protocol::types::{is_valid_state_transition, ClaimStatus};

#[test]
fn test_invariant_error_codes() {
    assert_eq!(InvariantError::LiquidityViolation.code(), 100);
    assert_eq!(InvariantError::InvalidPolicyState.code(), 101);
    assert_eq!(InvariantError::InvalidClaimState.code(), 102);
    assert_eq!(InvariantError::InvalidAmount.code(), 103);
    assert_eq!(InvariantError::AuthorizationViolation.code(), 104);
    assert_eq!(InvariantError::CoverageExceeded.code(), 105);
    assert_eq!(InvariantError::InvalidPremium.code(), 106);
}

#[test]
fn test_invariant_constants() {
    assert_eq!(
        ProtocolInvariants::LIQUIDITY_PRESERVATION,
        "I1:Liquidity≥Claims"
    );
    assert_eq!(
        ProtocolInvariants::POLICY_STATE_VALIDITY,
        "I2:ValidPolicyStates"
    );
    assert_eq!(
        ProtocolInvariants::CLAIM_STATE_VALIDITY,
        "I3:ValidClaimStates"
    );
}

#[test]
fn every_violation_has_its_code() {
    assert_eq!(InvariantError::Overflow.code(), 107);
    assert_eq!(InvariantError::InsufficientLiquidity.code(), 108);
    assert_eq!(InvariantError::PolicyNotFound.code(), 109);
    assert_eq!(InvariantError::ClaimNotFound.code(), 110);
}

#[test]
fn every_invariant_has_its_name() {
    assert_eq!(ProtocolInvariants::AMOUNT_NON_NEGATIVITY, "I4:Amounts≥0");
    assert_eq!(ProtocolInvariants::AUTHORIZATION_CONSISTENCY, "I5:AuthConsistent");
    assert_eq!(ProtocolInvariants::COVERAGE_CONSTRAINT, "I6:Claim≤Coverage");
    assert_eq!(ProtocolInvariants::PREMIUM_VALIDITY, "I7:Premium>0");
}

#[test]
fn checked_arithmetic_reports_overflow() {
    assert_eq!(safe_add(2, 3), Ok(5));
    assert_eq!(safe_add(i128::MAX, 0), Ok(i128::MAX));
    assert_eq!(safe_add(i128::MAX, 1), Err(InvariantError::Overflow));
    assert_eq!(safe_add(i128::MIN, -1), Err(InvariantError::Overflow));
    assert_eq!(safe_sub(2, 3), Ok(-1));
    assert_eq!(safe_sub(i128::MIN, 1), Err(InvariantError::Overflow));
    assert_eq!(safe_sub(0, i128::MIN), Err(InvariantError::Overflow));
    assert_eq!(safe_sub(-1, i128::MIN), Ok(i128::MAX));
    assert_eq!(safe_mul(-4, 6), Ok(-24));
    assert_eq!(safe_mul(i128::MAX, 2), Err(InvariantError::Overflow));
    assert_eq!(safe_mul(i128::MIN, -1), Err(InvariantError::Overflow));
    assert_eq!(safe_mul(i128::MIN, 1), Ok(i128::MIN));
}

#[test]
fn predicates_name_their_violation() {
    assert_eq!(ProtocolInvariants::amount_positive(1), Ok(()));
    assert_eq!(
        ProtocolInvariants::amount_positive(0),
        Err(InvariantError::InvalidAmount)
    );
    assert_eq!(
        ProtocolInvariants::amount_positive(-7),
        Err(InvariantError::InvalidAmount)
    );
    assert_eq!(ProtocolInvariants::coverage_constraint(100, 100), Ok(()));
    assert_eq!(
        ProtocolInvariants::coverage_constraint(101, 100),
        Err(InvariantError::CoverageExceeded)
    );
    assert_eq!(ProtocolInvariants::liquidity_sufficient(50, 50), Ok(()));
    assert_eq!(
        ProtocolInvariants::liquidity_sufficient(49, 50),
        Err(InvariantError::LiquidityViolation)
    );
}

#[test]
fn transition_table_is_a_whitelist() {
    let all = [
        ClaimStatus::Submitted,
        ClaimStatus::UnderReview,
        ClaimStatus::Approved,
        ClaimStatus::Rejected,
        ClaimStatus::PendingSettlement,
        ClaimStatus::Disputed,
        ClaimStatus::Settled,
    ];
    let legal = [
        (ClaimStatus::Submitted, ClaimStatus::UnderReview),
        (ClaimStatus::UnderReview, ClaimStatus::Approved),
        (ClaimStatus::UnderReview, ClaimStatus::Rejected),
        (ClaimStatus::Approved, ClaimStatus::Settled),
        (ClaimStatus::PendingSettlement, ClaimStatus::Disputed),
    ];
    for from in all {
        for to in all {
            let listed = legal.contains(&(from, to));
            assert_eq!(is_valid_state_transition(from, to), listed);
            assert_eq!(
                ProtocolInvariants::valid_state_transition(from, to),
                if listed {
                    Ok(())
                } else {
                    Err(InvariantError::InvalidClaimState)
                }
            );
        }
    }
}
