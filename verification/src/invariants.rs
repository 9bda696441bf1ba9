//! Protocol invariants: checked arithmetic on amounts and the named
//! predicates that every mutating operation re-checks before it commits.

use crate::types::{is_valid_state_transition, ClaimStatus};
use vstd::prelude::*;

verus! {

/// The ways in which a protocol invariant can be violated.
#[derive(Clone, Copy, Debug, PartialEq, Eq, Structural, Hash)]
pub enum InvariantError {
    /// Pool liquidity is below the outstanding claim reservations.
    LiquidityViolation,
    /// A policy was moved along a transition that is not allowed.
    InvalidPolicyState,
    /// A claim was moved along a transition that is not allowed.
    InvalidClaimState,
    /// A zero or negative amount where a positive one is required.
    InvalidAmount,
    /// A role assignment does not match the action.
    AuthorizationViolation,
    /// A claim amount above the policy's coverage.
    CoverageExceeded,
    /// A premium that is not valid for the policy.
    InvalidPremium,
    /// A calculation left the range of the amount type.
    Overflow,
    /// Not enough available liquidity for the operation.
    InsufficientLiquidity,
    /// The policy does not exist.
    PolicyNotFound,
    /// The claim does not exist.
    ClaimNotFound,
}

impl InvariantError {
    /// The numeric code of each violation, as published to callers.
    pub open spec fn code_spec(self) -> u32 {
        match self {
            InvariantError::LiquidityViolation => 100,
            InvariantError::InvalidPolicyState => 101,
            InvariantError::InvalidClaimState => 102,
            InvariantError::InvalidAmount => 103,
            InvariantError::AuthorizationViolation => 104,
            InvariantError::CoverageExceeded => 105,
            InvariantError::InvalidPremium => 106,
            InvariantError::Overflow => 107,
            InvariantError::InsufficientLiquidity => 108,
            InvariantError::PolicyNotFound => 109,
            InvariantError::ClaimNotFound => 110,
        }
    }

    /// Returns the numeric code of this violation.
    pub fn code(&self) -> (c: u32)
        ensures
            c == self.code_spec(),
            100 <= c <= 110,
    {
        match self {
            InvariantError::LiquidityViolation => 100,
            InvariantError::InvalidPolicyState => 101,
            InvariantError::InvalidClaimState => 102,
            InvariantError::InvalidAmount => 103,
            InvariantError::AuthorizationViolation => 104,
            InvariantError::CoverageExceeded => 105,
            InvariantError::InvalidPremium => 106,
            InvariantError::Overflow => 107,
            InvariantError::InsufficientLiquidity => 108,
            InvariantError::PolicyNotFound => 109,
            InvariantError::ClaimNotFound => 110,
        }
    }
}

/// Adds two amounts; `Overflow` exactly when the sum leaves the amount type.
pub fn safe_add(a: i128, b: i128) -> (r: Result<i128, InvariantError>)
    ensures
        i128::MIN <= a + b <= i128::MAX ==> r == Ok::<i128, InvariantError>((a + b) as i128),
        !(i128::MIN <= a + b <= i128::MAX) ==> r == Err::<i128, InvariantError>(
            InvariantError::Overflow,
        ),
{
    match a.checked_add(b) {
        Some(v) => Ok(v),
        None => Err(InvariantError::Overflow),
    }
}

/// Subtracts `b` from `a`; `Overflow` exactly when the difference leaves the
/// amount type.
pub fn safe_sub(a: i128, b: i128) -> (r: Result<i128, InvariantError>)
    ensures
        i128::MIN <= a - b <= i128::MAX ==> r == Ok::<i128, InvariantError>((a - b) as i128),
        !(i128::MIN <= a - b <= i128::MAX) ==> r == Err::<i128, InvariantError>(
            InvariantError::Overflow,
        ),
{
    match a.checked_sub(b) {
        Some(v) => Ok(v),
        None => Err(InvariantError::Overflow),
    }
}

/// Multiplies two amounts; `Overflow` exactly when the product leaves the
/// amount type.
pub fn safe_mul(a: i128, b: i128) -> (r: Result<i128, InvariantError>)
    ensures
        i128::MIN <= a * b <= i128::MAX ==> r == Ok::<i128, InvariantError>((a * b) as i128),
        !(i128::MIN <= a * b <= i128::MAX) ==> r == Err::<i128, InvariantError>(
            InvariantError::Overflow,
        ),
{
    match a.checked_mul(b) {
        Some(v) => Ok(v),
        None => Err(InvariantError::Overflow),
    }
}

/// The named invariants of the protocol and the predicates that check them.
pub struct ProtocolInvariants;

impl ProtocolInvariants {
    /// Pool liquidity covers all outstanding claim reservations.
    pub const LIQUIDITY_PRESERVATION: &'static str = "I1:Liquidity≥Claims";

    /// Policies follow valid state transitions.
    pub const POLICY_STATE_VALIDITY: &'static str = "I2:ValidPolicyStates";

    /// Claims follow valid state transitions.
    pub const CLAIM_STATE_VALIDITY: &'static str = "I3:ValidClaimStates";

    /// Financial amounts are positive.
    pub const AMOUNT_NON_NEGATIVITY: &'static str = "I4:Amounts≥0";

    /// Role assignments are consistent across components.
    pub const AUTHORIZATION_CONSISTENCY: &'static str = "I5:AuthConsistent";

    /// A claim does not exceed its policy's coverage.
    pub const COVERAGE_CONSTRAINT: &'static str = "I6:Claim≤Coverage";

    /// Premiums of active policies are positive.
    pub const PREMIUM_VALIDITY: &'static str = "I7:Premium>0";

    /// Accepts a strictly positive amount and refuses any other with
    /// `InvalidAmount`.
    pub fn amount_positive(amount: i128) -> (r: Result<(), InvariantError>)
        ensures
            amount > 0 ==> r == Ok::<(), InvariantError>(()),
            amount <= 0 ==> r == Err::<(), InvariantError>(InvariantError::InvalidAmount),
    {
        if amount <= 0 {
            return Err(InvariantError::InvalidAmount);
        }
        Ok(())
    }

    /// Accepts a claim amount up to the coverage amount and refuses a larger
    /// one with `CoverageExceeded`.
    pub fn coverage_constraint(claim_amount: i128, coverage_amount: i128) -> (r: Result<
        (),
        InvariantError,
    >)
        ensures
            claim_amount <= coverage_amount ==> r == Ok::<(), InvariantError>(()),
            claim_amount > coverage_amount ==> r == Err::<(), InvariantError>(
                InvariantError::CoverageExceeded,
            ),
    {
        if claim_amount > coverage_amount {
            return Err(InvariantError::CoverageExceeded);
        }
        Ok(())
    }

    /// Accepts a pool whose liquidity is at least what is reserved and
    /// refuses any other with `LiquidityViolation`.
    pub fn liquidity_sufficient(available: i128, reserved: i128) -> (r: Result<
        (),
        InvariantError,
    >)
        ensures
            available >= reserved ==> r == Ok::<(), InvariantError>(()),
            available < reserved ==> r == Err::<(), InvariantError>(
                InvariantError::LiquidityViolation,
            ),
    {
        if available < reserved {
            return Err(InvariantError::LiquidityViolation);
        }
        Ok(())
    }

    /// Accepts a move that the transition table lists and refuses any other
    /// with `InvalidClaimState`.
    pub fn valid_state_transition(current: ClaimStatus, next: ClaimStatus) -> (r: Result<
        (),
        InvariantError,
    >)
        ensures
            current.can_move_to(next) ==> r == Ok::<(), InvariantError>(()),
            !current.can_move_to(next) ==> r == Err::<(), InvariantError>(
                InvariantError::InvalidClaimState,
            ),
    {
        if is_valid_state_transition(current, next) {
            Ok(())
        } else {
            Err(InvariantError::InvalidClaimState)
        }
    }
}

} // verus!
