use insurance_protocol::authorization::{AuthError, Role};
use insurance_protocol::claims::{
    validate_amount, validate_coverage_constraint, Claim, ClaimEvent, ClaimsContract, Config,
    ContractError, OracleValidationConfig,
};
use insurance_protocol::consensus::OracleConfig;
use insurance_protocol::invariants::InvariantError;
use insurance_protocol::oracle::{OracleContract, OracleError};
use insurance_protocol::risk_pool::{PoolStats, RiskPoolContract};
use insurance_protocol::types::{Address, ClaimStatus};

fn admin() -> Address {
    Address::account(0, 1)
}

fn processor() -> Address {
    Address::account(0, 2)
}

fn holder() -> Address {
    Address::account(0, 3)
}

fn provider() -> Address {
    Address::account(0, 4)
}

fn member() -> Address {
    Address::account(0, 5)
}

fn claims_address() -> Address {
    Address::component(1, 1)
}

fn pool_address() -> Address {
    Address::component(1, 2)
}

fn policy_address() -> Address {
    Address::component(1, 3)
}

fn oracle_address() -> Address {
    Address::component(1, 4)
}

fn token_address() -> Address {
    Address::component(1, 5)
}

struct World {
    claims: ClaimsContract,
    pool: RiskPoolContract,
    oracle: OracleContract,
}

fn world(liquidity: i128) -> World {
    let mut pool = RiskPoolContract::new();
    assert_eq!(
        pool.initialize(admin(), token_address(), 1, claims_address()),
        Ok(())
    );
    assert_eq!(pool.deposit_liquidity(provider(), liquidity, 0), Ok(()));
    let mut claims = ClaimsContract::new(claims_address());
    assert_eq!(
        claims.initialize(admin(), policy_address(), pool_address()),
        Ok(())
    );
    assert_eq!(claims.grant_processor_role(admin(), processor()), Ok(()));
    assert_eq!(claims.add_dao_member(admin(), member()), Ok(()));
    World {
        claims,
        pool,
        oracle: OracleContract::new(),
    }
}

fn file(world: &mut World, policy_id: u64, amount: i128) -> u64 {
    world
        .claims
        .submit_claim(holder(), policy_id, amount, holder(), 1_000_000, 100)
        .unwrap()
}

fn status(world: &World, id: u64) -> ClaimStatus {
    world.claims.get_claim(id).unwrap().status
}

fn pool_stats(world: &World) -> PoolStats {
    world.pool.get_pool_stats().unwrap()
}

#[test]
fn a_claim_runs_the_whole_path() {
    let mut w = world(1_000_000);
    let id = file(&mut w, 11, 600_000);
    assert_eq!(id, 1);
    assert_eq!(
        w.claims.get_claim(id),
        Ok(Claim {
            id: 1,
            policy_id: 11,
            claimant: holder(),
            amount: 600_000,
            status: ClaimStatus::Submitted,
            submitted_at: 100,
            decision_ts: None,
            dispute_window_end: None,
            dispute_status: None,
        })
    );
    assert_eq!(w.claims.start_review(processor(), id), Ok(()));
    assert_eq!(status(&w, id), ClaimStatus::UnderReview);

    assert_eq!(
        w.claims
            .approve_claim(&mut w.pool, &w.oracle, processor(), id, None, 200),
        Ok(())
    );
    let approved = w.claims.get_claim(id).unwrap();
    assert_eq!(approved.status, ClaimStatus::Approved);
    assert_eq!(approved.decision_ts, Some(200));
    assert_eq!(approved.dispute_window_end, Some(200 + 86_400));
    assert_eq!(approved.dispute_status, Some(ClaimStatus::PendingSettlement));
    assert_eq!(approved.amount, 600_000);
    assert_eq!(pool_stats(&w).reserved_total, 600_000);
    assert_eq!(w.pool.get_reservation(id).unwrap().reserved_amount, 600_000);

    assert_eq!(w.claims.settle_claim(&mut w.pool, processor(), id), Ok(()));
    assert_eq!(status(&w, id), ClaimStatus::Settled);
    assert_eq!(
        pool_stats(&w),
        PoolStats {
            total_liquidity: 400_000,
            total_paid_out: 600_000,
            reserved_total: 0,
            provider_count: 1,
        }
    );
    assert_eq!(w.pool.get_reservation(id), None);

    let events = w.claims.take_events();
    assert_eq!(
        &events[events.len() - 4..],
        &[
            ClaimEvent::ClaimSubmitted {
                claim_id: 1,
                policy_id: 11,
                amount: 600_000,
                claimant: holder()
            },
            ClaimEvent::ClaimUnderReview {
                claim_id: 1,
                claimant: holder(),
                amount: 600_000
            },
            ClaimEvent::ClaimApproved {
                claim_id: 1,
                claimant: holder(),
                amount: 600_000
            },
            ClaimEvent::ClaimSettled {
                claim_id: 1,
                claimant: holder(),
                amount: 600_000
            },
        ]
    );
}

#[test]
fn shortcuts_fail_and_leave_the_status() {
    let mut w = world(1_000_000);
    let id = file(&mut w, 11, 500);

    // Submitted: neither approval, rejection nor settlement
    assert_eq!(
        w.claims
            .approve_claim(&mut w.pool, &w.oracle, processor(), id, None, 1),
        Err(ContractError::InvalidState)
    );
    assert_eq!(
        w.claims.reject_claim(processor(), id, 1),
        Err(ContractError::InvalidState)
    );
    assert_eq!(
        w.claims.settle_claim(&mut w.pool, processor(), id),
        Err(ContractError::InvalidState)
    );
    assert_eq!(status(&w, id), ClaimStatus::Submitted);
    assert_eq!(pool_stats(&w).reserved_total, 0);

    // UnderReview: no second review, no settlement
    assert_eq!(w.claims.start_review(processor(), id), Ok(()));
    assert_eq!(
        w.claims.start_review(processor(), id),
        Err(ContractError::InvalidState)
    );
    assert_eq!(
        w.claims.settle_claim(&mut w.pool, processor(), id),
        Err(ContractError::InvalidState)
    );
    assert_eq!(status(&w, id), ClaimStatus::UnderReview);

    // Approved: no way back, no second approval
    assert_eq!(
        w.claims
            .approve_claim(&mut w.pool, &w.oracle, processor(), id, None, 2),
        Ok(())
    );
    assert_eq!(
        w.claims.start_review(processor(), id),
        Err(ContractError::InvalidState)
    );
    assert_eq!(
        w.claims
            .approve_claim(&mut w.pool, &w.oracle, processor(), id, None, 3),
        Err(ContractError::InvalidState)
    );
    assert_eq!(
        w.claims.reject_claim(processor(), id, 3),
        Err(ContractError::InvalidState)
    );
    assert_eq!(status(&w, id), ClaimStatus::Approved);
    assert_eq!(pool_stats(&w).reserved_total, 500);

    // Settled is terminal
    assert_eq!(w.claims.settle_claim(&mut w.pool, processor(), id), Ok(()));
    assert_eq!(
        w.claims.settle_claim(&mut w.pool, processor(), id),
        Err(ContractError::InvalidState)
    );
    assert_eq!(
        w.claims.start_review(processor(), id),
        Err(ContractError::InvalidState)
    );
    assert_eq!(status(&w, id), ClaimStatus::Settled);
    assert_eq!(pool_stats(&w).total_paid_out, 500);
}

#[test]
fn rejection_is_terminal_and_spares_the_pool() {
    let mut w = world(1_000_000);
    let id = file(&mut w, 11, 500);
    assert_eq!(w.claims.start_review(processor(), id), Ok(()));
    assert_eq!(w.claims.reject_claim(processor(), id, 77), Ok(()));
    let rejected = w.claims.get_claim(id).unwrap();
    assert_eq!(rejected.status, ClaimStatus::Rejected);
    assert_eq!(rejected.decision_ts, Some(77));
    assert_eq!(rejected.dispute_status, None);
    assert_eq!(pool_stats(&w).reserved_total, 0);
    assert_eq!(
        w.claims
            .approve_claim(&mut w.pool, &w.oracle, processor(), id, None, 78),
        Err(ContractError::InvalidState)
    );
    assert_eq!(
        w.claims.settle_claim(&mut w.pool, processor(), id),
        Err(ContractError::InvalidState)
    );
    assert_eq!(status(&w, id), ClaimStatus::Rejected);
}

#[test]
fn submit_claim_refusals() {
    let mut blank = ClaimsContract::new(claims_address());
    assert_eq!(
        blank.submit_claim(holder(), 1, 10, holder(), 100, 0),
        Err(ContractError::NotInitialized)
    );

    let mut w = world(1000);
    assert_eq!(
        w.claims.submit_claim(holder(), 1, 10, provider(), 100, 0),
        Err(ContractError::Unauthorized)
    );
    assert_eq!(
        w.claims.submit_claim(holder(), 1, 0, holder(), 100, 0),
        Err(ContractError::InvalidInput)
    );
    assert_eq!(
        w.claims.submit_claim(holder(), 1, -1, holder(), 100, 0),
        Err(ContractError::InvalidInput)
    );
    assert_eq!(
        w.claims.submit_claim(holder(), 1, 101, holder(), 100, 0),
        Err(ContractError::InvalidInput)
    );
    assert_eq!(w.claims.get_claim(1), Err(ContractError::NotFound));

    // the coverage itself can be claimed
    assert_eq!(
        w.claims.submit_claim(holder(), 1, 100, holder(), 100, 0),
        Ok(1)
    );
    assert_eq!(
        w.claims.submit_claim(holder(), 1, 50, holder(), 100, 0),
        Err(ContractError::AlreadyExists)
    );
    // another policy gets the next number
    assert_eq!(
        w.claims.submit_claim(provider(), 2, 50, provider(), 100, 0),
        Ok(2)
    );
    assert_eq!(w.claims.get_claim(2).unwrap().claimant, provider());
    assert_eq!(w.claims.get_claim(3), Err(ContractError::NotFound));
}

#[test]
fn only_processors_and_admins_move_claims() {
    let mut w = world(1000);
    let id = file(&mut w, 1, 10);
    assert_eq!(
        w.claims.start_review(holder(), id),
        Err(ContractError::Unauthorized)
    );
    assert_eq!(
        w.claims.start_review(processor(), 99),
        Err(ContractError::NotFound)
    );
    assert_eq!(w.claims.start_review(admin(), id), Ok(()));
    assert_eq!(
        w.claims
            .approve_claim(&mut w.pool, &w.oracle, holder(), id, None, 1),
        Err(ContractError::Unauthorized)
    );
    assert_eq!(
        w.claims.reject_claim(holder(), id, 1),
        Err(ContractError::Unauthorized)
    );
    assert_eq!(
        w.claims
            .approve_claim(&mut w.pool, &w.oracle, admin(), id, None, 1),
        Ok(())
    );
    assert_eq!(
        w.claims.settle_claim(&mut w.pool, holder(), id),
        Err(ContractError::Unauthorized)
    );

    assert_eq!(w.claims.get_user_role(processor()), Role::ClaimProcessor);
    assert_eq!(w.claims.revoke_processor_role(admin(), processor()), Ok(()));
    assert_eq!(w.claims.get_user_role(processor()), Role::User);
    assert_eq!(
        w.claims.settle_claim(&mut w.pool, processor(), id),
        Err(ContractError::Unauthorized)
    );
    assert_eq!(
        w.claims.revoke_processor_role(admin(), admin()),
        Err(ContractError::Unauthorized)
    );
    assert_eq!(
        w.claims.grant_processor_role(processor(), processor()),
        Err(ContractError::Unauthorized)
    );
    assert_eq!(status(&w, id), ClaimStatus::Approved);
}

#[test]
fn approval_stands_or_falls_with_the_reservation() {
    let mut w = world(1000);
    let big = file(&mut w, 1, 600);
    let bigger = file(&mut w, 2, 500);
    assert_eq!(w.claims.start_review(processor(), big), Ok(()));
    assert_eq!(w.claims.start_review(processor(), bigger), Ok(()));

    assert_eq!(
        w.claims
            .approve_claim(&mut w.pool, &w.oracle, processor(), big, None, 5),
        Ok(())
    );
    assert_eq!(
        w.claims
            .approve_claim(&mut w.pool, &w.oracle, processor(), bigger, None, 5),
        Err(ContractError::InsufficientFunds)
    );
    assert_eq!(status(&w, bigger), ClaimStatus::UnderReview);
    assert_eq!(w.claims.get_claim(bigger).unwrap().decision_ts, None);
    assert_eq!(pool_stats(&w).reserved_total, 600);

    // a paused pool refuses, and the claim stays where it is
    assert_eq!(w.pool.pause(admin()), Ok(()));
    assert_eq!(
        w.claims.settle_claim(&mut w.pool, processor(), big),
        Err(ContractError::Paused)
    );
    assert_eq!(status(&w, big), ClaimStatus::Approved);
    assert_eq!(w.pool.unpause(admin()), Ok(()));

    assert_eq!(w.claims.settle_claim(&mut w.pool, processor(), big), Ok(()));
    assert_eq!(pool_stats(&w).total_liquidity, 400);
    // what the first claim freed does not cover the second
    assert_eq!(
        w.claims
            .approve_claim(&mut w.pool, &w.oracle, processor(), bigger, None, 6),
        Err(ContractError::InsufficientFunds)
    );
    assert_eq!(w.pool.deposit_liquidity(provider(), 100, 7), Ok(()));
    assert_eq!(
        w.claims
            .approve_claim(&mut w.pool, &w.oracle, processor(), bigger, None, 8),
        Ok(())
    );
}

#[test]
fn a_pool_that_does_not_trust_the_component_refuses() {
    let mut w = world(1000);
    let mut foreign = RiskPoolContract::new();
    assert_eq!(
        foreign.initialize(admin(), token_address(), 1, Address::component(8, 8)),
        Ok(())
    );
    assert_eq!(foreign.deposit_liquidity(provider(), 1000, 0), Ok(()));
    let id = file(&mut w, 1, 10);
    assert_eq!(w.claims.start_review(processor(), id), Ok(()));
    assert_eq!(
        w.claims
            .approve_claim(&mut foreign, &w.oracle, processor(), id, None, 1),
        Err(ContractError::NotTrustedContract)
    );
    assert_eq!(status(&w, id), ClaimStatus::UnderReview);
    assert_eq!(foreign.get_pool_stats().unwrap().reserved_total, 0);
}

#[test]
fn mandatory_oracle_validation() {
    let mut w = world(1000);
    assert_eq!(
        w.claims.get_oracle_config(),
        Err(ContractError::NotFound)
    );
    assert_eq!(
        w.claims
            .set_oracle_config(holder(), oracle_address(), true, 3),
        Err(ContractError::Unauthorized)
    );
    assert_eq!(
        w.claims
            .set_oracle_config(admin(), oracle_address(), true, 3),
        Ok(())
    );
    assert_eq!(
        w.claims.get_oracle_config(),
        Ok(OracleValidationConfig {
            oracle_contract: oracle_address(),
            require_oracle_validation: true,
            min_oracle_submissions: 3,
        })
    );
    assert_eq!(
        w.oracle.initialize(
            admin(),
            OracleConfig {
                min_submissions: 2,
                consensus_threshold_percent: 50,
                outlier_deviation_percent: 15,
                staleness_threshold_secs: 1000,
            }
        ),
        Ok(())
    );
    for n in 0..3 {
        assert_eq!(
            w.oracle.register_source(admin(), Address::account(7, n)),
            Ok(())
        );
    }
    let id = file(&mut w, 1, 10);
    assert_eq!(w.claims.start_review(processor(), id), Ok(()));

    assert_eq!(
        w.claims
            .approve_claim(&mut w.pool, &w.oracle, processor(), id, None, 1),
        Err(ContractError::OracleValidationFailed)
    );
    assert_eq!(
        w.claims
            .approve_claim(&mut w.pool, &w.oracle, processor(), id, Some(5), 1),
        Err(ContractError::OracleValidationFailed)
    );

    // a record on two reports is short of the three that approvals ask for
    assert_eq!(w.oracle.submit(Address::account(7, 0), 5, 10, 0), Ok(()));
    assert_eq!(w.oracle.submit(Address::account(7, 1), 5, 10, 0), Ok(()));
    assert!(w.oracle.resolve(5, 1).is_ok());
    assert_eq!(
        w.claims
            .approve_claim(&mut w.pool, &w.oracle, processor(), id, Some(5), 1),
        Err(ContractError::InsufficientOracleSubmissions)
    );
    assert_eq!(status(&w, id), ClaimStatus::UnderReview);
    assert_eq!(
        w.claims.get_claim_oracle_data(id),
        Err(ContractError::NotFound)
    );

    for n in 0..3 {
        assert_eq!(w.oracle.submit(Address::account(7, n), 6, 10, 0), Ok(()));
    }
    assert!(w.oracle.resolve(6, 1).is_ok());
    assert_eq!(
        w.claims
            .approve_claim(&mut w.pool, &w.oracle, processor(), id, Some(6), 1),
        Ok(())
    );
    assert_eq!(w.claims.get_claim_oracle_data(id), Ok(6));

    // validation that is switched off asks for nothing and records nothing
    assert_eq!(
        w.claims
            .set_oracle_config(admin(), oracle_address(), false, 3),
        Ok(())
    );
    let other = file(&mut w, 2, 10);
    assert_eq!(w.claims.start_review(processor(), other), Ok(()));
    assert_eq!(
        w.claims
            .approve_claim(&mut w.pool, &w.oracle, processor(), other, Some(6), 1),
        Ok(())
    );
    assert_eq!(
        w.claims.get_claim_oracle_data(other),
        Err(ContractError::NotFound)
    );
}

#[test]
fn pause_stops_submissions_and_moves() {
    let mut w = world(1000);
    let id = file(&mut w, 1, 10);
    assert_eq!(w.claims.pause(holder()), Err(ContractError::Unauthorized));
    assert!(!w.claims.is_paused());
    assert_eq!(w.claims.pause(admin()), Ok(()));
    assert!(w.claims.is_paused());

    assert_eq!(
        w.claims.submit_claim(holder(), 2, 10, holder(), 100, 0),
        Err(ContractError::Paused)
    );
    assert_eq!(
        w.claims.start_review(processor(), id),
        Err(ContractError::Paused)
    );
    assert_eq!(
        w.claims
            .approve_claim(&mut w.pool, &w.oracle, processor(), id, None, 1),
        Err(ContractError::Paused)
    );
    assert_eq!(
        w.claims.reject_claim(processor(), id, 1),
        Err(ContractError::Paused)
    );
    assert_eq!(
        w.claims.settle_claim(&mut w.pool, processor(), id),
        Err(ContractError::Paused)
    );
    assert_eq!(
        w.claims
            .raise_dispute(id, member(), String::from("paused"), 1),
        Err(ContractError::Paused)
    );
    // reading goes on
    assert_eq!(status(&w, id), ClaimStatus::Submitted);

    assert_eq!(w.claims.unpause(holder()), Err(ContractError::Unauthorized));
    assert_eq!(w.claims.unpause(admin()), Ok(()));
    assert_eq!(w.claims.start_review(processor(), id), Ok(()));
}

#[test]
fn disputes_need_an_open_window_and_a_member() {
    let mut w = world(1000);
    assert_eq!(
        w.claims.get_config(),
        Config {
            dispute_window_secs: 86_400
        }
    );
    assert_eq!(
        w.claims.set_config(
            holder(),
            Config {
                dispute_window_secs: 1
            }
        ),
        Err(ContractError::Unauthorized)
    );
    assert_eq!(
        w.claims.set_config(
            admin(),
            Config {
                dispute_window_secs: 3600
            }
        ),
        Ok(())
    );
    assert_eq!(w.claims.get_config().dispute_window_secs, 3600);

    let id = file(&mut w, 1, 10);
    assert_eq!(
        w.claims
            .raise_dispute(99, member(), String::from("no such claim"), 0),
        Err(ContractError::NotFound)
    );
    assert_eq!(
        w.claims
            .raise_dispute(id, member(), String::from("too early"), 0),
        Err(ContractError::InvalidState)
    );
    assert_eq!(w.claims.start_review(processor(), id), Ok(()));
    assert_eq!(
        w.claims
            .approve_claim(&mut w.pool, &w.oracle, processor(), id, None, 1000),
        Ok(())
    );
    assert_eq!(
        w.claims.get_claim(id).unwrap().dispute_window_end,
        Some(4600)
    );

    assert_eq!(
        w.claims
            .raise_dispute(id, member(), String::from("too late"), 4601),
        Err(ContractError::DisputeWindowClosed)
    );
    assert_eq!(
        w.claims
            .raise_dispute(id, holder(), String::from("not a member"), 4600),
        Err(ContractError::Unauthorized)
    );
    assert!(!w.claims.is_dao_member(holder()));
    assert!(w.claims.is_dao_member(member()));
    assert_eq!(
        w.claims.get_claim(id).unwrap().dispute_status,
        Some(ClaimStatus::PendingSettlement)
    );

    assert_eq!(
        w.claims
            .raise_dispute(id, member(), String::from("amount looks wrong"), 4600),
        Ok(())
    );
    let disputed = w.claims.get_claim(id).unwrap();
    assert_eq!(disputed.dispute_status, Some(ClaimStatus::Disputed));
    assert_eq!(disputed.status, ClaimStatus::Approved);
    assert_eq!(disputed.amount, 10);
    assert_eq!(
        w.claims.take_events().last(),
        Some(&ClaimEvent::DisputeRaised {
            claim_id: id,
            raised_by: member()
        })
    );
    // a dispute is raised once
    assert_eq!(
        w.claims
            .raise_dispute(id, member(), String::from("again"), 4600),
        Err(ContractError::InvalidState)
    );

    assert_eq!(w.claims.remove_dao_member(admin(), member()), Ok(()));
    assert!(!w.claims.is_dao_member(member()));
    assert_eq!(
        w.claims.add_dao_member(holder(), holder()),
        Err(ContractError::Unauthorized)
    );
}

#[test]
fn approval_fails_if_the_window_would_end_beyond_time() {
    let mut w = world(1000);
    let id = file(&mut w, 1, 10);
    assert_eq!(w.claims.start_review(processor(), id), Ok(()));
    assert_eq!(
        w.claims.approve_claim(
            &mut w.pool,
            &w.oracle,
            processor(),
            id,
            None,
            u64::MAX - 86_399
        ),
        Err(ContractError::Overflow)
    );
    assert_eq!(status(&w, id), ClaimStatus::UnderReview);
    assert_eq!(pool_stats(&w).reserved_total, 0);
    assert_eq!(
        w.claims.approve_claim(
            &mut w.pool,
            &w.oracle,
            processor(),
            id,
            None,
            u64::MAX - 86_400
        ),
        Ok(())
    );
    assert_eq!(
        w.claims.get_claim(id).unwrap().dispute_window_end,
        Some(u64::MAX)
    );
}

#[test]
fn initialize_works_once() {
    let mut claims = ClaimsContract::new(claims_address());
    assert_eq!(claims.get_user_role(admin()), Role::User);
    assert_eq!(
        claims.initialize(admin(), policy_address(), pool_address()),
        Ok(())
    );
    assert_eq!(claims.get_user_role(admin()), Role::Admin);
    assert_eq!(
        claims.initialize(holder(), policy_address(), pool_address()),
        Err(ContractError::AlreadyInitialized)
    );
    assert_eq!(claims.get_user_role(holder()), Role::User);
    assert_eq!(
        claims.take_events(),
        vec![ClaimEvent::Initialized { admin: admin() }]
    );
}

#[test]
fn claims_error_codes_and_conversions() {
    assert_eq!(ContractError::Unauthorized.code(), 1);
    assert_eq!(ContractError::Paused.code(), 2);
    assert_eq!(ContractError::InvalidInput.code(), 3);
    assert_eq!(ContractError::InsufficientFunds.code(), 4);
    assert_eq!(ContractError::NotFound.code(), 5);
    assert_eq!(ContractError::AlreadyExists.code(), 6);
    assert_eq!(ContractError::InvalidState.code(), 7);
    assert_eq!(ContractError::NotInitialized.code(), 9);
    assert_eq!(ContractError::AlreadyInitialized.code(), 10);
    assert_eq!(ContractError::OracleValidationFailed.code(), 11);
    assert_eq!(ContractError::InsufficientOracleSubmissions.code(), 12);
    assert_eq!(ContractError::OracleDataStale.code(), 13);
    assert_eq!(ContractError::ConsensusNotReached.code(), 14);
    assert_eq!(ContractError::InvalidRole.code(), 15);
    assert_eq!(ContractError::RoleNotFound.code(), 16);
    assert_eq!(ContractError::NotTrustedContract.code(), 17);
    assert_eq!(ContractError::DuplicateSubmission.code(), 18);
    assert_eq!(ContractError::DisputeWindowClosed.code(), 19);
    assert_eq!(ContractError::LiquidityViolation.code(), 100);
    assert_eq!(ContractError::InvalidAmount.code(), 103);
    assert_eq!(ContractError::CoverageExceeded.code(), 105);
    assert_eq!(ContractError::Overflow.code(), 107);

    assert_eq!(
        ContractError::from(AuthError::RoleNotFound),
        ContractError::RoleNotFound
    );
    assert_eq!(
        ContractError::from(InvariantError::CoverageExceeded),
        ContractError::CoverageExceeded
    );
    assert_eq!(
        ContractError::from(InvariantError::InvalidClaimState),
        ContractError::InvalidState
    );
    assert_eq!(
        ContractError::from(insurance_protocol::risk_pool::ContractError::InsufficientFunds),
        ContractError::InsufficientFunds
    );
    assert_eq!(
        ContractError::from(insurance_protocol::risk_pool::ContractError::LiquidityViolation),
        ContractError::LiquidityViolation
    );
    assert_eq!(validate_amount(5), Ok(()));
    assert_eq!(validate_amount(0), Err(ContractError::InvalidAmount));
    assert_eq!(validate_coverage_constraint(5, 5), Ok(()));
    assert_eq!(
        validate_coverage_constraint(6, 5),
        Err(ContractError::CoverageExceeded)
    );
}

#[test]
fn validation_has_the_oracle_resolve_and_records_the_reference() {
    let mut w = world(1000);
    let id = file(&mut w, 1, 10);
    assert_eq!(
        w.claims
            .validate_claim_with_oracle(&mut w.oracle, processor(), id, 5, 1),
        Err(ContractError::NotFound)
    );
    assert_eq!(
        w.claims
            .set_oracle_config(admin(), oracle_address(), false, 2),
        Ok(())
    );
    // not mandatory: nothing is asked of the oracle
    assert_eq!(
        w.claims
            .validate_claim_with_oracle(&mut w.oracle, processor(), id, 5, 1),
        Ok(true)
    );
    assert_eq!(
        w.claims.get_claim_oracle_data(id),
        Err(ContractError::NotFound)
    );

    assert_eq!(
        w.claims
            .set_oracle_config(admin(), oracle_address(), true, 2),
        Ok(())
    );
    assert_eq!(
        w.claims
            .validate_claim_with_oracle(&mut w.oracle, holder(), id, 5, 1),
        Err(ContractError::Unauthorized)
    );
    assert_eq!(
        w.claims
            .validate_claim_with_oracle(&mut w.oracle, processor(), 99, 5, 1),
        Err(ContractError::NotFound)
    );
    assert_eq!(
        w.claims
            .validate_claim_with_oracle(&mut w.oracle, processor(), id, 5, 1),
        Err(ContractError::InsufficientOracleSubmissions)
    );

    assert_eq!(
        w.oracle.initialize(
            admin(),
            OracleConfig {
                min_submissions: 2,
                consensus_threshold_percent: 100,
                outlier_deviation_percent: 15,
                staleness_threshold_secs: 50,
            }
        ),
        Ok(())
    );
    for n in 0..3 {
        assert_eq!(
            w.oracle.register_source(admin(), Address::account(7, n)),
            Ok(())
        );
    }
    assert_eq!(w.oracle.submit(Address::account(7, 0), 5, 10, 0), Ok(()));
    assert_eq!(w.oracle.submit(Address::account(7, 1), 5, 90, 0), Ok(()));
    assert_eq!(
        w.claims
            .validate_claim_with_oracle(&mut w.oracle, processor(), id, 5, 1),
        Err(ContractError::ConsensusNotReached)
    );
    assert_eq!(
        w.claims
            .validate_claim_with_oracle(&mut w.oracle, processor(), id, 5, 51),
        Err(ContractError::OracleDataStale)
    );
    assert_eq!(w.oracle.get_resolution(5), None);
    assert_eq!(
        w.claims.get_claim_oracle_data(id),
        Err(ContractError::NotFound)
    );

    assert_eq!(w.oracle.submit(Address::account(7, 0), 6, 10, 0), Ok(()));
    assert_eq!(w.oracle.submit(Address::account(7, 1), 6, 11, 0), Ok(()));
    assert_eq!(w.oracle.pause(admin()), Ok(()));
    assert_eq!(
        w.claims
            .validate_claim_with_oracle(&mut w.oracle, processor(), id, 6, 1),
        Err(ContractError::Paused)
    );
    assert_eq!(w.oracle.unpause(admin()), Ok(()));
    assert_eq!(
        w.claims
            .validate_claim_with_oracle(&mut w.oracle, processor(), id, 6, 1),
        Ok(true)
    );
    assert_eq!(w.claims.get_claim_oracle_data(id), Ok(6));
    assert_eq!(w.oracle.get_resolution(6).unwrap().consensus_value, 10);

    // the claim that was validated can now be approved on the reference
    assert_eq!(w.claims.start_review(processor(), id), Ok(()));
    assert_eq!(
        w.claims
            .approve_claim(&mut w.pool, &w.oracle, processor(), id, Some(6), 2),
        Ok(())
    );
}

#[test]
fn the_policy_source_follows_the_order_of_refusals() {
    let mut blank = ClaimsContract::new(claims_address());
    assert_eq!(blank.policy_source(), Err(ContractError::NotInitialized));
    assert_eq!(blank.get_policy_contract(), Err(ContractError::NotInitialized));
    assert_eq!(blank.get_admin(), None);
    assert_eq!(blank.get_next_claim_id(), Ok(1));
    assert_eq!(blank.get_address(), claims_address());

    let mut w = world(1000);
    assert_eq!(w.claims.policy_source(), Ok(policy_address()));
    assert_eq!(w.claims.get_admin(), Some(admin()));
    file(&mut w, 1, 10);
    assert_eq!(w.claims.get_next_claim_id(), Ok(2));
    assert_eq!(w.claims.pause(admin()), Ok(()));
    assert_eq!(w.claims.policy_source(), Err(ContractError::Paused));
    assert_eq!(w.claims.get_policy_contract(), Ok(policy_address()));
    assert_eq!(blank.pause(admin()), Err(ContractError::Unauthorized));
}

#[test]
fn oracle_errors_have_their_claims_counterparts() {
    let pairs = [
        (OracleError::Unauthorized, ContractError::Unauthorized),
        (OracleError::Paused, ContractError::Paused),
        (OracleError::InvalidInput, ContractError::InvalidInput),
        (OracleError::InvalidState, ContractError::InvalidState),
        (OracleError::NotInitialized, ContractError::NotInitialized),
        (OracleError::AlreadyInitialized, ContractError::AlreadyInitialized),
        (OracleError::InvalidRole, ContractError::InvalidRole),
        (OracleError::RoleNotFound, ContractError::RoleNotFound),
        (OracleError::NotTrustedContract, ContractError::NotTrustedContract),
        (OracleError::DuplicateSubmission, ContractError::DuplicateSubmission),
        (OracleError::StaleData, ContractError::OracleDataStale),
        (
            OracleError::InsufficientSubmissions,
            ContractError::InsufficientOracleSubmissions,
        ),
        (
            OracleError::ConsensusNotReached,
            ContractError::ConsensusNotReached,
        ),
    ];
    for (from, to) in pairs {
        assert_eq!(ContractError::from(from), to);
    }
}

#[test]
fn sequence_numbers_run_out_with_overflow() {
    let mut snapshot = world(1000).claims.snapshot();
    snapshot.claim_counter = u64::MAX - 1;
    let mut claims = ClaimsContract::restore(snapshot).unwrap();
    assert_eq!(claims.get_next_claim_id(), Ok(u64::MAX));
    assert_eq!(
        claims.submit_claim(holder(), 1, 10, holder(), 100, 0),
        Ok(u64::MAX)
    );
    assert_eq!(claims.get_next_claim_id(), Err(ContractError::Overflow));
    assert_eq!(
        claims.submit_claim(holder(), 2, 10, holder(), 100, 0),
        Err(ContractError::Overflow)
    );
    assert_eq!(claims.get_claim(u64::MAX).unwrap().policy_id, 1);
}
