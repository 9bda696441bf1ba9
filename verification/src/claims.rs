//! The claim lifecycle state machine.
//!
//! A claim is filed against a policy, reviewed, approved or rejected, and an
//! approved claim is settled. Approval earmarks the payout in the risk pool
//! and settlement consumes that reservation; if the pool refuses, the claim
//! stays as it was. After approval a dispute window opens, inside which a
//! governance member may challenge the decision.

use crate::authorization::{
    get_admin, get_role, grant_role, initialize_admin, register_trusted_contract, require_admin,
    lemma_listed_auth_unique, require_claim_processing, require_trusted_contract, revoke_role,
    AuthError, AuthSnapshot, AuthStore, AuthView, Role,
};
use crate::invariants::{InvariantError, ProtocolInvariants};
use crate::oracle::{OracleContract, OracleError, OracleView};
use crate::risk_pool::{lemma_reservation_can_be_paid, PoolOperation, PoolView, RiskPoolContract};
use crate::table::{
    lemma_listed_map_unique, lemma_listed_set_unique, lists_map, lists_set, KeySet, Table,
};
use crate::types::{is_valid_state_transition, Address, ClaimStatus};
use vstd::prelude::*;

verus! {

/// Why the claims component refused an operation.
#[derive(Clone, Copy, Debug, PartialEq, Eq, Structural, Hash)]
pub enum ContractError {
    /// The caller's role does not allow the action.
    Unauthorized,
    /// The component is paused.
    Paused,
    /// An argument is out of range.
    InvalidInput,
    /// The pool's available liquidity does not cover the amount.
    InsufficientFunds,
    /// The record does not exist.
    NotFound,
    /// The record exists already.
    AlreadyExists,
    /// The claim is not in the state that the operation needs.
    InvalidState,
    /// The component was not initialized.
    NotInitialized,
    /// The component was initialized before.
    AlreadyInitialized,
    /// Oracle validation is mandatory and no resolved reference was given.
    OracleValidationFailed,
    /// The oracle reference rests on too few reports.
    InsufficientOracleSubmissions,
    /// The oracle's reports are stale.
    OracleDataStale,
    /// The oracle's reports do not agree.
    ConsensusNotReached,
    /// An oracle source reported twice.
    DuplicateSubmission,
    /// The role is not valid here.
    InvalidRole,
    /// No role is recorded.
    RoleNotFound,
    /// The component to be called is not on the allowlist.
    NotTrustedContract,
    /// Liquidity would fall below the reservations.
    LiquidityViolation,
    /// A zero or negative amount.
    InvalidAmount,
    /// A claim amount above the policy's coverage.
    CoverageExceeded,
    /// A number would leave the range of its type.
    Overflow,
    /// The dispute window of the claim has closed.
    DisputeWindowClosed,
}

impl ContractError {
    /// The numeric code of each error, as published to callers.
    pub open spec fn code_spec(self) -> u32 {
        match self {
            ContractError::Unauthorized => 1,
            ContractError::Paused => 2,
            ContractError::InvalidInput => 3,
            ContractError::InsufficientFunds => 4,
            ContractError::NotFound => 5,
            ContractError::AlreadyExists => 6,
            ContractError::InvalidState => 7,
            ContractError::NotInitialized => 9,
            ContractError::AlreadyInitialized => 10,
            ContractError::OracleValidationFailed => 11,
            ContractError::InsufficientOracleSubmissions => 12,
            ContractError::OracleDataStale => 13,
            ContractError::ConsensusNotReached => 14,
            ContractError::InvalidRole => 15,
            ContractError::RoleNotFound => 16,
            ContractError::NotTrustedContract => 17,
            ContractError::DuplicateSubmission => 18,
            ContractError::DisputeWindowClosed => 19,
            ContractError::LiquidityViolation => 100,
            ContractError::InvalidAmount => 103,
            ContractError::CoverageExceeded => 105,
            ContractError::Overflow => 107,
        }
    }

    /// Returns the numeric code of this error.
    pub fn code(&self) -> (c: u32)
        ensures
            c == self.code_spec(),
    {
        match self {
            ContractError::Unauthorized => 1,
            ContractError::Paused => 2,
            ContractError::InvalidInput => 3,
            ContractError::InsufficientFunds => 4,
            ContractError::NotFound => 5,
            ContractError::AlreadyExists => 6,
            ContractError::InvalidState => 7,
            ContractError::NotInitialized => 9,
            ContractError::AlreadyInitialized => 10,
            ContractError::OracleValidationFailed => 11,
            ContractError::InsufficientOracleSubmissions => 12,
            ContractError::OracleDataStale => 13,
            ContractError::ConsensusNotReached => 14,
            ContractError::InvalidRole => 15,
            ContractError::RoleNotFound => 16,
            ContractError::NotTrustedContract => 17,
            ContractError::DuplicateSubmission => 18,
            ContractError::DisputeWindowClosed => 19,
            ContractError::LiquidityViolation => 100,
            ContractError::InvalidAmount => 103,
            ContractError::CoverageExceeded => 105,
            ContractError::Overflow => 107,
        }
    }

    /// The claims error that stands for an authorization error.
    pub open spec fn of_auth(err: AuthError) -> ContractError {
        match err {
            AuthError::Unauthorized => ContractError::Unauthorized,
            AuthError::InvalidRole => ContractError::InvalidRole,
            AuthError::RoleNotFound => ContractError::RoleNotFound,
            AuthError::NotTrustedContract => ContractError::NotTrustedContract,
            AuthError::AlreadyInitialized => ContractError::AlreadyInitialized,
        }
    }

    /// The claims error that stands for an invariant violation.
    pub open spec fn of_invariant(err: InvariantError) -> ContractError {
        match err {
            InvariantError::LiquidityViolation => ContractError::LiquidityViolation,
            InvariantError::InvalidAmount => ContractError::InvalidAmount,
            InvariantError::CoverageExceeded => ContractError::CoverageExceeded,
            InvariantError::Overflow => ContractError::Overflow,
            _ => ContractError::InvalidState,
        }
    }

    /// The claims error that stands for an error of the oracle resolver.
    pub open spec fn of_oracle(err: OracleError) -> ContractError {
        match err {
            OracleError::Unauthorized => ContractError::Unauthorized,
            OracleError::Paused => ContractError::Paused,
            OracleError::InvalidInput => ContractError::InvalidInput,
            OracleError::InvalidState => ContractError::InvalidState,
            OracleError::NotInitialized => ContractError::NotInitialized,
            OracleError::AlreadyInitialized => ContractError::AlreadyInitialized,
            OracleError::InvalidRole => ContractError::InvalidRole,
            OracleError::RoleNotFound => ContractError::RoleNotFound,
            OracleError::NotTrustedContract => ContractError::NotTrustedContract,
            OracleError::DuplicateSubmission => ContractError::DuplicateSubmission,
            OracleError::StaleData => ContractError::OracleDataStale,
            OracleError::InsufficientSubmissions => ContractError::InsufficientOracleSubmissions,
            OracleError::ConsensusNotReached => ContractError::ConsensusNotReached,
        }
    }

    /// The claims error that stands for an error of the risk pool.
    pub open spec fn of_pool(err: crate::risk_pool::ContractError) -> ContractError {
        match err {
            crate::risk_pool::ContractError::Unauthorized => ContractError::Unauthorized,
            crate::risk_pool::ContractError::Paused => ContractError::Paused,
            crate::risk_pool::ContractError::InvalidInput => ContractError::InvalidInput,
            crate::risk_pool::ContractError::InsufficientFunds => ContractError::InsufficientFunds,
            crate::risk_pool::ContractError::NotFound => ContractError::NotFound,
            crate::risk_pool::ContractError::AlreadyExists => ContractError::AlreadyExists,
            crate::risk_pool::ContractError::InvalidState => ContractError::InvalidState,
            crate::risk_pool::ContractError::NotInitialized => ContractError::NotInitialized,
            crate::risk_pool::ContractError::AlreadyInitialized => ContractError::AlreadyInitialized,
            crate::risk_pool::ContractError::InvalidRole => ContractError::InvalidRole,
            crate::risk_pool::ContractError::RoleNotFound => ContractError::RoleNotFound,
            crate::risk_pool::ContractError::NotTrustedContract => ContractError::NotTrustedContract,
            crate::risk_pool::ContractError::LiquidityViolation => ContractError::LiquidityViolation,
            crate::risk_pool::ContractError::InvalidAmount => ContractError::InvalidAmount,
            crate::risk_pool::ContractError::Overflow => ContractError::Overflow,
        }
    }
}

impl From<AuthError> for ContractError {
    fn from(err: AuthError) -> (r: ContractError) {
        match err {
            AuthError::Unauthorized => ContractError::Unauthorized,
            AuthError::InvalidRole => ContractError::InvalidRole,
            AuthError::RoleNotFound => ContractError::RoleNotFound,
            AuthError::NotTrustedContract => ContractError::NotTrustedContract,
            AuthError::AlreadyInitialized => ContractError::AlreadyInitialized,
        }
    }
}

impl vstd::std_specs::convert::FromSpecImpl<AuthError> for ContractError {
    open spec fn obeys_from_spec() -> bool {
        true
    }

    open spec fn from_spec(err: AuthError) -> ContractError {
        ContractError::of_auth(err)
    }
}

impl From<InvariantError> for ContractError {
    fn from(err: InvariantError) -> (r: ContractError) {
        match err {
            InvariantError::LiquidityViolation => ContractError::LiquidityViolation,
            InvariantError::InvalidAmount => ContractError::InvalidAmount,
            InvariantError::CoverageExceeded => ContractError::CoverageExceeded,
            InvariantError::Overflow => ContractError::Overflow,
            _ => ContractError::InvalidState,
        }
    }
}

impl vstd::std_specs::convert::FromSpecImpl<InvariantError> for ContractError {
    open spec fn obeys_from_spec() -> bool {
        true
    }

    open spec fn from_spec(err: InvariantError) -> ContractError {
        ContractError::of_invariant(err)
    }
}

impl From<crate::risk_pool::ContractError> for ContractError {
    fn from(err: crate::risk_pool::ContractError) -> (r: ContractError) {
        match err {
            crate::risk_pool::ContractError::Unauthorized => ContractError::Unauthorized,
            crate::risk_pool::ContractError::Paused => ContractError::Paused,
            crate::risk_pool::ContractError::InvalidInput => ContractError::InvalidInput,
            crate::risk_pool::ContractError::InsufficientFunds => ContractError::InsufficientFunds,
            crate::risk_pool::ContractError::NotFound => ContractError::NotFound,
            crate::risk_pool::ContractError::AlreadyExists => ContractError::AlreadyExists,
            crate::risk_pool::ContractError::InvalidState => ContractError::InvalidState,
            crate::risk_pool::ContractError::NotInitialized => ContractError::NotInitialized,
            crate::risk_pool::ContractError::AlreadyInitialized => ContractError::AlreadyInitialized,
            crate::risk_pool::ContractError::InvalidRole => ContractError::InvalidRole,
            crate::risk_pool::ContractError::RoleNotFound => ContractError::RoleNotFound,
            crate::risk_pool::ContractError::NotTrustedContract => ContractError::NotTrustedContract,
            crate::risk_pool::ContractError::LiquidityViolation => ContractError::LiquidityViolation,
            crate::risk_pool::ContractError::InvalidAmount => ContractError::InvalidAmount,
            crate::risk_pool::ContractError::Overflow => ContractError::Overflow,
        }
    }
}

impl vstd::std_specs::convert::FromSpecImpl<crate::risk_pool::ContractError> for ContractError {
    open spec fn obeys_from_spec() -> bool {
        true
    }

    open spec fn from_spec(err: crate::risk_pool::ContractError) -> ContractError {
        ContractError::of_pool(err)
    }
}

impl From<OracleError> for ContractError {
    fn from(err: OracleError) -> (r: ContractError) {
        match err {
            OracleError::Unauthorized => ContractError::Unauthorized,
            OracleError::Paused => ContractError::Paused,
            OracleError::InvalidInput => ContractError::InvalidInput,
            OracleError::InvalidState => ContractError::InvalidState,
            OracleError::NotInitialized => ContractError::NotInitialized,
            OracleError::AlreadyInitialized => ContractError::AlreadyInitialized,
            OracleError::InvalidRole => ContractError::InvalidRole,
            OracleError::RoleNotFound => ContractError::RoleNotFound,
            OracleError::NotTrustedContract => ContractError::NotTrustedContract,
            OracleError::DuplicateSubmission => ContractError::DuplicateSubmission,
            OracleError::StaleData => ContractError::OracleDataStale,
            OracleError::InsufficientSubmissions => ContractError::InsufficientOracleSubmissions,
            OracleError::ConsensusNotReached => ContractError::ConsensusNotReached,
        }
    }
}

impl vstd::std_specs::convert::FromSpecImpl<OracleError> for ContractError {
    open spec fn obeys_from_spec() -> bool {
        true
    }

    open spec fn from_spec(err: OracleError) -> ContractError {
        ContractError::of_oracle(err)
    }
}

/// Accepts a strictly positive amount and refuses any other with
/// `InvalidAmount`.
pub fn validate_amount(amount: i128) -> (r: Result<(), ContractError>)
    ensures
        amount > 0 ==> r == Ok::<(), ContractError>(()),
        amount <= 0 ==> r == Err::<(), ContractError>(ContractError::InvalidAmount),
{
    match ProtocolInvariants::amount_positive(amount) {
        Ok(()) => Ok(()),
        Err(e) => Err(ContractError::from(e)),
    }
}

/// Accepts a claim amount up to the coverage amount and refuses a larger
/// one with `CoverageExceeded`.
pub fn validate_coverage_constraint(claim_amount: i128, coverage_amount: i128) -> (r: Result<
    (),
    ContractError,
>)
    ensures
        claim_amount <= coverage_amount ==> r == Ok::<(), ContractError>(()),
        claim_amount > coverage_amount ==> r == Err::<(), ContractError>(
            ContractError::CoverageExceeded,
        ),
{
    match ProtocolInvariants::coverage_constraint(claim_amount, coverage_amount) {
        Ok(()) => Ok(()),
        Err(e) => Err(ContractError::from(e)),
    }
}

/// The dispute settings.
#[derive(Clone, Copy, Debug, PartialEq, Eq, Structural, Hash)]
pub struct Config {
    /// How long after the decision a claim can be disputed, in seconds.
    pub dispute_window_secs: u64,
}

/// The dispute window that holds where none was configured: 24 hours.
pub const DEFAULT_DISPUTE_WINDOW_SECS: u64 = 86_400;

/// The components that the claims component works with.
#[derive(Clone, Copy, Debug, PartialEq, Eq, Structural, Hash)]
pub struct ClaimsConfig {
    /// The component that keeps the policies.
    pub policy_contract: Address,
    /// The risk pool that backs the payouts.
    pub risk_pool: Address,
}

/// Whether and how approvals are validated against the oracle.
#[derive(Clone, Copy, Debug, PartialEq, Eq, Structural, Hash)]
pub struct OracleValidationConfig {
    /// The oracle resolver.
    pub oracle_contract: Address,
    /// Whether an approval needs a resolved oracle reference.
    pub require_oracle_validation: bool,
    /// The least number of reports the reference must rest on.
    pub min_oracle_submissions: u32,
}

/// A request for payout against a policy.
#[derive(Clone, Copy, Debug, PartialEq, Eq, Structural, Hash)]
pub struct Claim {
    /// The claim's sequence number.
    pub id: u64,
    /// The policy the claim is made against.
    pub policy_id: u64,
    /// Who filed the claim and receives the payout.
    pub claimant: Address,
    /// The amount claimed. It never changes.
    pub amount: i128,
    /// Where the claim stands in its lifecycle.
    pub status: ClaimStatus,
    /// When the claim was filed.
    pub submitted_at: u64,
    /// When the claim was approved or rejected.
    pub decision_ts: Option<u64>,
    /// Until when the decision can be disputed.
    pub dispute_window_end: Option<u64>,
    /// The dispute fork beside the lifecycle: `PendingSettlement` from the
    /// approval on, `Disputed` once a dispute was raised, nothing before.
    pub dispute_status: Option<ClaimStatus>,
}

/// A challenge to the decision on a claim.
#[derive(Debug, PartialEq, Eq, Hash)]
pub struct Dispute {
    /// The claim that is disputed.
    pub claim_id: u64,
    /// The governance member who raised the dispute.
    pub raised_by: Address,
    /// The member's reason.
    pub reason: String,
    /// Whether the dispute was resolved.
    pub resolved: bool,
}

impl Clone for Dispute {
    fn clone(&self) -> (copy: Dispute)
        ensures
            copy == *self,
    {
        Dispute {
            claim_id: self.claim_id,
            raised_by: self.raised_by,
            reason: self.reason.clone(),
            resolved: self.resolved,
        }
    }
}

/// A notification for the audit log, one per committed operation.
#[derive(Clone, Copy, Debug, PartialEq, Eq, Structural, Hash)]
pub enum ClaimEvent {
    /// The component was initialized by `admin`.
    Initialized { admin: Address },
    /// A claim was filed.
    ClaimSubmitted { claim_id: u64, policy_id: u64, amount: i128, claimant: Address },
    /// A processor took up the claim.
    ClaimUnderReview { claim_id: u64, claimant: Address, amount: i128 },
    /// The claim was approved.
    ClaimApproved { claim_id: u64, claimant: Address, amount: i128 },
    /// The claim was rejected.
    ClaimRejected { claim_id: u64, claimant: Address, amount: i128 },
    /// The claim was settled.
    ClaimSettled { claim_id: u64, claimant: Address, amount: i128 },
    /// The decision on the claim was disputed.
    DisputeRaised { claim_id: u64, raised_by: Address },
    /// `admin` paused the component.
    Paused { admin: Address },
    /// `admin` resumed the component.
    Unpaused { admin: Address },
    /// `admin` made `processor` a claim processor.
    RoleGranted { processor: Address, admin: Address },
    /// `admin` reset `processor` to an ordinary user.
    RoleRevoked { processor: Address, admin: Address },
}

/// What a [`ClaimsContract`] holds, as mathematical values.
pub struct ClaimsView {
    /// The component's own identity, which it presents to the risk pool.
    pub address: Address,
    /// Roles and trusted components.
    pub auth: AuthView,
    /// The components to work with, once the component was initialized.
    pub config: Option<ClaimsConfig>,
    /// Whether the component is paused.
    pub paused: bool,
    /// The sequence number of the claim filed last; 0 before the first.
    pub claim_counter: u64,
    /// The claims by sequence number. Claims are never deleted.
    pub claims: Map<u64, Claim>,
    /// For each policy that has a claim, the claim's sequence number.
    pub policy_claims: Map<u64, u64>,
    /// The oracle settings, if any were made.
    pub oracle_config: Option<OracleValidationConfig>,
    /// For each claim approved on an oracle reference, that reference.
    pub claim_oracle: Map<u64, u64>,
    /// The dispute settings, if any were made.
    pub dispute_config: Option<Config>,
    /// The governance members who may raise disputes.
    pub dao_members: Set<Address>,
    /// The disputes by claim.
    pub disputes: Map<u64, Dispute>,
    /// The notifications that were not collected yet, oldest first.
    pub events: Seq<ClaimEvent>,
}

/// Whether `status` is a state of the lifecycle proper, not of the dispute
/// fork.
pub open spec fn lifecycle_state(status: ClaimStatus) -> bool {
    status != ClaimStatus::PendingSettlement && status != ClaimStatus::Disputed
}

/// Whether the dispute fork of `claim` fits its lifecycle: it opens with
/// the approval and holds one of its two states.
pub open spec fn dispute_fork_ok(claim: Claim) -> bool {
    match claim.dispute_status {
        None => true,
        Some(phase) => {
            &&& phase == ClaimStatus::PendingSettlement || phase == ClaimStatus::Disputed
            &&& claim.dispute_window_end.is_some()
            &&& claim.decision_ts.is_some()
            &&& claim.status == ClaimStatus::Approved || claim.status == ClaimStatus::Settled
        },
    }
}

impl ClaimsView {
    /// The view of a component with the identity `address` on which nothing
    /// was done yet.
    pub open spec fn empty(address: Address) -> ClaimsView {
        ClaimsView {
            address,
            auth: AuthView::empty(),
            config: None,
            paused: false,
            claim_counter: 0,
            claims: Map::empty(),
            policy_claims: Map::empty(),
            oracle_config: None,
            claim_oracle: Map::empty(),
            dispute_config: None,
            dao_members: Set::empty(),
            disputes: Map::empty(),
            events: Seq::empty(),
        }
    }

    /// What holds of the component between any two operations.
    pub open spec fn consistent(self) -> bool {
        &&& self.config.is_some() == self.auth.admin.is_some()
        &&& forall|id: u64| #[trigger]
            self.claims.contains_key(id) ==> {
                &&& self.claims[id].id == id
                &&& 1 <= id <= self.claim_counter
                &&& self.claims[id].amount > 0
                &&& lifecycle_state(self.claims[id].status)
                &&& dispute_fork_ok(self.claims[id])
                &&& self.policy_claims.contains_key(self.claims[id].policy_id)
                &&& self.policy_claims[self.claims[id].policy_id] == id
            }
    }

    /// The dispute window in force: the configured one, or 24 hours.
    pub open spec fn dispute_window(self) -> u64 {
        match self.dispute_config {
            Some(c) => c.dispute_window_secs,
            None => DEFAULT_DISPUTE_WINDOW_SECS,
        }
    }

    /// The view with one more notification in the log.
    pub open spec fn logged(self, event: ClaimEvent) -> ClaimsView {
        ClaimsView { events: self.events.push(event), ..self }
    }

    /// The view in which the claim `claim` replaces the one of its number.
    pub open spec fn with_claim(self, claim: Claim) -> ClaimsView {
        ClaimsView { claims: self.claims.insert(claim.id, claim), ..self }
    }

    /// What `initialize` does: it works once; the policy component and the
    /// risk pool become trusted.
    pub open spec fn initialize(self, admin: Address, policy_contract: Address, risk_pool: Address)
        -> Result<ClaimsView, ContractError> {
        if self.auth.admin.is_some() {
            Err(ContractError::AlreadyInitialized)
        } else {
            Ok(
                ClaimsView {
                    auth: AuthView {
                        admin: Some(admin),
                        roles: self.auth.roles.insert(admin, Role::Admin),
                        trusted: self.auth.trusted.insert(policy_contract).insert(risk_pool),
                    },
                    config: Some(ClaimsConfig { policy_contract, risk_pool }),
                    ..self
                }.logged(ClaimEvent::Initialized { admin }),
            )
        }
    }

    /// What `set_oracle_config` does: an admin sets the oracle settings and
    /// the oracle becomes trusted.
    pub open spec fn set_oracle_config(self, admin: Address, settings: OracleValidationConfig)
        -> Result<ClaimsView, ContractError> {
        if self.auth.role_of(admin) != Role::Admin {
            Err(ContractError::Unauthorized)
        } else {
            Ok(
                ClaimsView {
                    auth: AuthView {
                        admin: self.auth.admin,
                        roles: self.auth.roles,
                        trusted: self.auth.trusted.insert(settings.oracle_contract),
                    },
                    oracle_config: Some(settings),
                    ..self
                },
            )
        }
    }

    /// What `set_config` does: an admin sets the dispute settings.
    pub open spec fn set_config(self, admin: Address, settings: Config) -> Result<
        ClaimsView,
        ContractError,
    > {
        if self.auth.role_of(admin) != Role::Admin {
            Err(ContractError::Unauthorized)
        } else {
            Ok(ClaimsView { dispute_config: Some(settings), ..self })
        }
    }

    /// What `add_dao_member` and `remove_dao_member` do: an admin changes
    /// the set of governance members.
    pub open spec fn set_dao_member(self, admin: Address, member: Address, present: bool) -> Result<
        ClaimsView,
        ContractError,
    > {
        if self.auth.role_of(admin) != Role::Admin {
            Err(ContractError::Unauthorized)
        } else {
            Ok(
                ClaimsView {
                    dao_members: if present {
                        self.dao_members.insert(member)
                    } else {
                        self.dao_members.remove(member)
                    },
                    ..self
                },
            )
        }
    }

    /// What `pause` and `unpause` do: an admin sets the switch.
    pub open spec fn set_paused(self, admin: Address, paused: bool) -> Result<
        ClaimsView,
        ContractError,
    > {
        if self.auth.role_of(admin) != Role::Admin {
            Err(ContractError::Unauthorized)
        } else {
            Ok(
                ClaimsView { paused, ..self }.logged(
                    if paused {
                        ClaimEvent::Paused { admin }
                    } else {
                        ClaimEvent::Unpaused { admin }
                    },
                ),
            )
        }
    }

    /// What `grant_processor_role` does: an admin makes `processor` a claim
    /// processor.
    pub open spec fn grant_processor(self, admin: Address, processor: Address) -> Result<
        ClaimsView,
        ContractError,
    > {
        if self.auth.role_of(admin) != Role::Admin {
            Err(ContractError::Unauthorized)
        } else {
            Ok(
                ClaimsView {
                    auth: self.auth.with_role(processor, Role::ClaimProcessor),
                    ..self
                }.logged(ClaimEvent::RoleGranted { processor, admin }),
            )
        }
    }

    /// What `revoke_processor_role` does: an admin resets another identity
    /// to an ordinary user.
    pub open spec fn revoke_processor(self, admin: Address, processor: Address) -> Result<
        ClaimsView,
        ContractError,
    > {
        if self.auth.role_of(admin) != Role::Admin || admin == processor {
            Err(ContractError::Unauthorized)
        } else {
            Ok(
                ClaimsView { auth: self.auth.with_role(processor, Role::User), ..self }.logged(
                    ClaimEvent::RoleRevoked { processor, admin },
                ),
            )
        }
    }

    /// What `submit_claim` does: the holder of a policy that has no claim
    /// yet files one for a positive amount within the coverage; the claim
    /// gets the next sequence number and starts as `Submitted`.
    pub open spec fn submit(
        self,
        claimant: Address,
        policy_id: u64,
        amount: i128,
        policy_holder: Address,
        coverage: i128,
        now: u64,
    ) -> Result<ClaimsView, ContractError> {
        if self.paused {
            Err(ContractError::Paused)
        } else if self.config.is_none() {
            Err(ContractError::NotInitialized)
        } else if policy_holder != claimant {
            Err(ContractError::Unauthorized)
        } else if self.policy_claims.contains_key(policy_id) {
            Err(ContractError::AlreadyExists)
        } else if amount <= 0 || amount > coverage {
            Err(ContractError::InvalidInput)
        } else if self.claim_counter == u64::MAX {
            Err(ContractError::Overflow)
        } else {
            let id = (self.claim_counter + 1) as u64;
            Ok(
                ClaimsView {
                    claim_counter: id,
                    claims: self.claims.insert(
                        id,
                        Claim {
                            id,
                            policy_id,
                            claimant,
                            amount,
                            status: ClaimStatus::Submitted,
                            submitted_at: now,
                            decision_ts: None,
                            dispute_window_end: None,
                            dispute_status: None,
                        },
                    ),
                    policy_claims: self.policy_claims.insert(policy_id, id),
                    ..self
                }.logged(ClaimEvent::ClaimSubmitted { claim_id: id, policy_id, amount, claimant }),
            )
        }
    }

    /// What stands in the way of moving the claim `claim_id` to the state
    /// `next` on the word of `processor`, if anything does: the pause
    /// switch, the processor's role, the claim's absence, or a claim that
    /// the transition table does not let move from where it stands.
    pub open spec fn refusal(self, processor: Address, claim_id: u64, next: ClaimStatus) -> Option<
        ContractError,
    > {
        if self.paused {
            Some(ContractError::Paused)
        } else if !self.auth.role_of(processor).can_process_claims() {
            Some(ContractError::Unauthorized)
        } else if !self.claims.contains_key(claim_id) {
            Some(ContractError::NotFound)
        } else if !self.claims[claim_id].status.can_move_to(next) {
            Some(ContractError::InvalidState)
        } else {
            None
        }
    }

    /// What `start_review` does: a processor takes up a submitted claim.
    pub open spec fn start_review(self, processor: Address, claim_id: u64) -> Result<
        ClaimsView,
        ContractError,
    > {
        let claim = self.claims[claim_id];
        match self.refusal(processor, claim_id, ClaimStatus::UnderReview) {
            Some(e) => Err(e),
            None => Ok(
                self.with_claim(Claim { status: ClaimStatus::UnderReview, ..claim }).logged(
                    ClaimEvent::ClaimUnderReview {
                        claim_id,
                        claimant: claim.claimant,
                        amount: claim.amount,
                    },
                ),
            ),
        }
    }

    /// What `reject_claim` does: a processor declines a claim under review;
    /// the pool is not touched.
    pub open spec fn reject(self, processor: Address, claim_id: u64, now: u64) -> Result<
        ClaimsView,
        ContractError,
    > {
        let claim = self.claims[claim_id];
        match self.refusal(processor, claim_id, ClaimStatus::Rejected) {
            Some(e) => Err(e),
            None => Ok(
                self.with_claim(
                    Claim { status: ClaimStatus::Rejected, decision_ts: Some(now), ..claim },
                ).logged(
                    ClaimEvent::ClaimRejected {
                        claim_id,
                        claimant: claim.claimant,
                        amount: claim.amount,
                    },
                ),
            ),
        }
    }

    /// Whether approvals need a resolved oracle reference.
    pub open spec fn oracle_required(self) -> bool {
        self.oracle_config.is_some() && self.oracle_config.unwrap().require_oracle_validation
    }

    /// What the oracle settings have against an approval on the reference
    /// `oracle_data_id`, if anything: where validation is mandatory, the
    /// reference must be given, the oracle must be trusted, the request
    /// must be resolved, and its record must rest on enough reports.
    pub open spec fn oracle_refusal(self, oracle: OracleView, oracle_data_id: Option<u64>)
        -> Option<ContractError> {
        if !self.oracle_required() {
            None
        } else if oracle_data_id.is_none() {
            Some(ContractError::OracleValidationFailed)
        } else if !self.auth.trusted.contains(self.oracle_config.unwrap().oracle_contract) {
            Some(ContractError::NotTrustedContract)
        } else if !oracle.resolutions.contains_key(oracle_data_id.unwrap()) {
            Some(ContractError::OracleValidationFailed)
        } else if oracle.resolutions[oracle_data_id.unwrap()].submission_count
            < self.oracle_config.unwrap().min_oracle_submissions {
            Some(ContractError::InsufficientOracleSubmissions)
        } else {
            None
        }
    }

    /// What `validate_claim_with_oracle` does to the component and to the
    /// oracle: where validation is mandatory, a processor has the oracle
    /// resolve the request, and the reference is recorded with the claim if
    /// the resolution succeeds.
    pub open spec fn validate_with_oracle(
        self,
        oracle: OracleView,
        processor: Address,
        claim_id: u64,
        oracle_data_id: u64,
        now: u64,
    ) -> Result<(ClaimsView, OracleView), ContractError> {
        if self.paused {
            Err(ContractError::Paused)
        } else if !self.auth.role_of(processor).can_process_claims() {
            Err(ContractError::Unauthorized)
        } else if !self.claims.contains_key(claim_id) {
            Err(ContractError::NotFound)
        } else if self.oracle_config.is_none() {
            Err(ContractError::NotFound)
        } else if !self.oracle_required() {
            Ok((self, oracle))
        } else if !self.auth.trusted.contains(self.oracle_config.unwrap().oracle_contract) {
            Err(ContractError::NotTrustedContract)
        } else if oracle.reports(oracle_data_id).len()
            < self.oracle_config.unwrap().min_oracle_submissions {
            Err(ContractError::InsufficientOracleSubmissions)
        } else {
            match oracle.resolve_result(oracle_data_id, now) {
                Err(e) => Err(ContractError::of_oracle(e)),
                Ok(_) => Ok(
                    (
                        ClaimsView {
                            claim_oracle: self.claim_oracle.insert(claim_id, oracle_data_id),
                            ..self
                        },
                        oracle.resolve(oracle_data_id, now),
                    ),
                ),
            }
        }
    }

    /// What `approve_claim` does to the component and to the pool: a
    /// processor approves a claim under review; the pool earmarks the
    /// claim's amount, and only if it does is the claim approved. The
    /// dispute window opens at `now`.
    pub open spec fn approve(
        self,
        pool: PoolView,
        oracle: OracleView,
        processor: Address,
        claim_id: u64,
        oracle_data_id: Option<u64>,
        now: u64,
    ) -> Result<(ClaimsView, PoolView), ContractError> {
        let claim = self.claims[claim_id];
        if self.refusal(processor, claim_id, ClaimStatus::Approved).is_some() {
            Err(self.refusal(processor, claim_id, ClaimStatus::Approved).unwrap())
        } else if self.oracle_refusal(oracle, oracle_data_id).is_some() {
            Err(self.oracle_refusal(oracle, oracle_data_id).unwrap())
        } else if self.config.is_none() {
            Err(ContractError::NotInitialized)
        } else if !self.auth.trusted.contains(self.config.unwrap().risk_pool) {
            Err(ContractError::NotTrustedContract)
        } else if now + self.dispute_window() > u64::MAX {
            Err(ContractError::Overflow)
        } else {
            match pool.reserve(self.address, claim_id, claim.amount) {
                Err(e) => Err(ContractError::of_pool(e)),
                Ok(pool_after) => Ok(
                    (
                        ClaimsView {
                            claim_oracle: if self.oracle_required() {
                                self.claim_oracle.insert(claim_id, oracle_data_id.unwrap())
                            } else {
                                self.claim_oracle
                            },
                            ..self.with_claim(
                                Claim {
                                    status: ClaimStatus::Approved,
                                    decision_ts: Some(now),
                                    dispute_window_end: Some(
                                        (now + self.dispute_window()) as u64,
                                    ),
                                    dispute_status: Some(ClaimStatus::PendingSettlement),
                                    ..claim
                                },
                            )
                        }.logged(
                            ClaimEvent::ClaimApproved {
                                claim_id,
                                claimant: claim.claimant,
                                amount: claim.amount,
                            },
                        ),
                        pool_after,
                    ),
                ),
            }
        }
    }

    /// What `settle_claim` does to the component and to the pool: a
    /// processor settles an approved claim; the pool pays the claim's
    /// reservation out to the claimant, and only if it does is the claim
    /// settled.
    pub open spec fn settle(self, pool: PoolView, processor: Address, claim_id: u64) -> Result<
        (ClaimsView, PoolView),
        ContractError,
    > {
        let claim = self.claims[claim_id];
        if self.refusal(processor, claim_id, ClaimStatus::Settled).is_some() {
            Err(self.refusal(processor, claim_id, ClaimStatus::Settled).unwrap())
        } else if self.config.is_none() {
            Err(ContractError::NotInitialized)
        } else if !self.auth.trusted.contains(self.config.unwrap().risk_pool) {
            Err(ContractError::NotTrustedContract)
        } else {
            match pool.payout_reserved(self.address, claim_id, claim.claimant) {
                Err(e) => Err(ContractError::of_pool(e)),
                Ok(pool_after) => Ok(
                    (
                        self.with_claim(Claim { status: ClaimStatus::Settled, ..claim }).logged(
                            ClaimEvent::ClaimSettled {
                                claim_id,
                                claimant: claim.claimant,
                                amount: claim.amount,
                            },
                        ),
                        pool_after,
                    ),
                ),
            }
        }
    }

    /// What `raise_dispute` does: a governance member challenges the
    /// decision on a claim whose dispute window is open.
    pub open spec fn dispute(self, claim_id: u64, raised_by: Address, reason: String, now: u64)
        -> Result<ClaimsView, ContractError> {
        let claim = self.claims[claim_id];
        if self.paused {
            Err(ContractError::Paused)
        } else if !self.claims.contains_key(claim_id) {
            Err(ContractError::NotFound)
        } else if claim.dispute_status.is_none() || !claim.dispute_status.unwrap().can_move_to(
            ClaimStatus::Disputed,
        ) {
            Err(ContractError::InvalidState)
        } else if now > claim.dispute_window_end.unwrap() {
            Err(ContractError::DisputeWindowClosed)
        } else if !self.dao_members.contains(raised_by) {
            Err(ContractError::Unauthorized)
        } else {
            Ok(
                ClaimsView {
                    disputes: self.disputes.insert(
                        claim_id,
                        Dispute { claim_id, raised_by, reason, resolved: false },
                    ),
                    ..self.with_claim(
                        Claim { dispute_status: Some(ClaimStatus::Disputed), ..claim },
                    )
                }.logged(ClaimEvent::DisputeRaised { claim_id, raised_by }),
            )
        }
    }
}

/// Whether `r` and `after` are what an operation with the outcome `outcome`
/// leaves behind on a component that showed `before`.
pub open spec fn claims_committed(
    outcome: Result<ClaimsView, ContractError>,
    before: ClaimsView,
    after: ClaimsView,
    r: Result<(), ContractError>,
) -> bool {
    match outcome {
        Ok(v) => r == Ok::<(), ContractError>(()) && after == v,
        Err(e) => r == Err::<(), ContractError>(e) && after == before,
    }
}

/// Whether `r`, `after` and `pool_after` are what an operation on the
/// component and the pool leaves behind: on success both new views, on
/// failure the error and both old views.
pub open spec fn jointly_committed(
    outcome: Result<(ClaimsView, PoolView), ContractError>,
    before: ClaimsView,
    pool_before: PoolView,
    after: ClaimsView,
    pool_after: PoolView,
    r: Result<(), ContractError>,
) -> bool {
    match outcome {
        Ok(v) => r == Ok::<(), ContractError>(()) && after == v.0 && pool_after == v.1,
        Err(e) => r == Err::<(), ContractError>(e) && after == before && pool_after
            == pool_before,
    }
}

/// The claims component: its authorization state, its settings, the claims
/// and their disputes.
#[derive(Debug)]
pub struct ClaimsContract {
    address: Address,
    auth: AuthStore,
    config: Option<ClaimsConfig>,
    paused: bool,
    claim_counter: u64,
    claims: Table<u64, Claim>,
    policy_claims: Table<u64, u64>,
    oracle_config: Option<OracleValidationConfig>,
    claim_oracle: Table<u64, u64>,
    dispute_config: Option<Config>,
    dao_members: KeySet<Address>,
    disputes: Table<u64, Dispute>,
    events: Vec<ClaimEvent>,
}

impl View for ClaimsContract {
    type V = ClaimsView;

    closed spec fn view(&self) -> ClaimsView {
        ClaimsView {
            address: self.address,
            auth: self.auth@,
            config: self.config,
            paused: self.paused,
            claim_counter: self.claim_counter,
            claims: self.claims@,
            policy_claims: self.policy_claims@,
            oracle_config: self.oracle_config,
            claim_oracle: self.claim_oracle@,
            dispute_config: self.dispute_config,
            dao_members: self.dao_members@,
            disputes: self.disputes@,
            events: self.events@,
        }
    }
}

impl ClaimsContract {
    /// The representation invariant of the component's tables.
    pub closed spec fn inv(&self) -> bool {
        &&& self.auth.wf()
        &&& self.claims.wf()
        &&& self.policy_claims.wf()
        &&& self.claim_oracle.wf()
        &&& self.dao_members.wf()
        &&& self.disputes.wf()
    }

    /// A component is well formed when its tables are and its view is
    /// consistent.
    pub open spec fn wf(&self) -> bool {
        self.inv() && self@.consistent()
    }

    /// A component with the identity `address` on which nothing was done
    /// yet.
    pub fn new(address: Address) -> (claims: ClaimsContract)
        ensures
            claims.wf(),
            claims@ == ClaimsView::empty(address),
    {
        let claims = ClaimsContract {
            address,
            auth: AuthStore::new(),
            config: None,
            paused: false,
            claim_counter: 0,
            claims: Table::new(),
            policy_claims: Table::new(),
            oracle_config: None,
            claim_oracle: Table::new(),
            dispute_config: None,
            dao_members: KeySet::new(),
            disputes: Table::new(),
            events: Vec::new(),
        };
        assert(claims@.events =~= Seq::<ClaimEvent>::empty());
        claims
    }

    /// Sets the component up: `admin` becomes the protocol admin, and the
    /// policy component and the risk pool become trusted.
    ///
    /// Fails with `AlreadyInitialized` on a component that has an admin.
    pub fn initialize(&mut self, admin: Address, policy_contract: Address, risk_pool: Address) -> (r:
        Result<(), ContractError>)
        requires
            old(self).wf(),
        ensures
            final(self).wf(),
            claims_committed(
                old(self)@.initialize(admin, policy_contract, risk_pool),
                old(self)@,
                final(self)@,
                r,
            ),
    {
        if self.get_admin().is_some() {
            return Err(ContractError::AlreadyInitialized);
        }
        match initialize_admin(&mut self.auth, admin) {
            Ok(()) => {},
            Err(e) => {
                return Err(ContractError::from(e));
            },
        }
        match register_trusted_contract(&mut self.auth, &admin, &policy_contract) {
            Ok(()) => {},
            Err(e) => {
                return Err(ContractError::from(e));
            },
        }
        match register_trusted_contract(&mut self.auth, &admin, &risk_pool) {
            Ok(()) => {},
            Err(e) => {
                return Err(ContractError::from(e));
            },
        }
        self.config = Some(ClaimsConfig { policy_contract, risk_pool });
        self.events.push(ClaimEvent::Initialized { admin });
        Ok(())
    }

    /// Sets the oracle settings and makes the oracle a trusted component.
    /// Only an admin may do so.
    pub fn set_oracle_config(
        &mut self,
        admin: Address,
        oracle_contract: Address,
        require_oracle_validation: bool,
        min_oracle_submissions: u32,
    ) -> (r: Result<(), ContractError>)
        requires
            old(self).wf(),
        ensures
            final(self).wf(),
            claims_committed(
                old(self)@.set_oracle_config(
                    admin,
                    OracleValidationConfig {
                        oracle_contract,
                        require_oracle_validation,
                        min_oracle_submissions,
                    },
                ),
                old(self)@,
                final(self)@,
                r,
            ),
    {
        match require_admin(&self.auth, &admin) {
            Ok(()) => {},
            Err(e) => {
                return Err(ContractError::from(e));
            },
        }
        match register_trusted_contract(&mut self.auth, &admin, &oracle_contract) {
            Ok(()) => {},
            Err(e) => {
                return Err(ContractError::from(e));
            },
        }
        self.oracle_config = Some(
            OracleValidationConfig {
                oracle_contract,
                require_oracle_validation,
                min_oracle_submissions,
            },
        );
        Ok(())
    }

    /// The oracle settings; `NotFound` if none were made.
    pub fn get_oracle_config(&self) -> (r: Result<OracleValidationConfig, ContractError>)
        ensures
            match self@.oracle_config {
                Some(c) => r == Ok::<OracleValidationConfig, ContractError>(c),
                None => r == Err::<OracleValidationConfig, ContractError>(ContractError::NotFound),
            },
    {
        match self.oracle_config {
            Some(c) => Ok(c),
            None => Err(ContractError::NotFound),
        }
    }

    /// Sets the dispute settings. Only an admin may do so.
    pub fn set_config(&mut self, admin: Address, settings: Config) -> (r: Result<
        (),
        ContractError,
    >)
        requires
            old(self).wf(),
        ensures
            final(self).wf(),
            claims_committed(old(self)@.set_config(admin, settings), old(self)@, final(self)@, r),
    {
        match require_admin(&self.auth, &admin) {
            Ok(()) => {},
            Err(e) => {
                return Err(ContractError::from(e));
            },
        }
        self.dispute_config = Some(settings);
        Ok(())
    }

    /// The dispute settings in force: those that were set, or a window of
    /// 24 hours.
    pub fn get_config(&self) -> (c: Config)
        ensures
            c.dispute_window_secs == self@.dispute_window(),
    {
        match self.dispute_config {
            Some(c) => c,
            None => Config { dispute_window_secs: DEFAULT_DISPUTE_WINDOW_SECS },
        }
    }

    /// Adds `member` to the governance members who may raise disputes. Only
    /// an admin may do so.
    pub fn add_dao_member(&mut self, admin: Address, member: Address) -> (r: Result<
        (),
        ContractError,
    >)
        requires
            old(self).wf(),
        ensures
            final(self).wf(),
            claims_committed(
                old(self)@.set_dao_member(admin, member, true),
                old(self)@,
                final(self)@,
                r,
            ),
    {
        match require_admin(&self.auth, &admin) {
            Ok(()) => {},
            Err(e) => {
                return Err(ContractError::from(e));
            },
        }
        self.dao_members.insert(member);
        Ok(())
    }

    /// Removes `member` from the governance members. Only an admin may do
    /// so.
    pub fn remove_dao_member(&mut self, admin: Address, member: Address) -> (r: Result<
        (),
        ContractError,
    >)
        requires
            old(self).wf(),
        ensures
            final(self).wf(),
            claims_committed(
                old(self)@.set_dao_member(admin, member, false),
                old(self)@,
                final(self)@,
                r,
            ),
    {
        match require_admin(&self.auth, &admin) {
            Ok(()) => {},
            Err(e) => {
                return Err(ContractError::from(e));
            },
        }
        self.dao_members.remove(member);
        Ok(())
    }

    /// Whether `member` may raise disputes.
    pub fn is_dao_member(&self, member: Address) -> (r: bool)
        requires
            self.wf(),
        ensures
            r == self@.dao_members.contains(member),
    {
        self.dao_members.contains(member)
    }

    /// The component's own identity.
    pub fn get_address(&self) -> (r: Address)
        ensures
            r == self@.address,
    {
        self.address
    }

    /// The protocol admin, once the component was initialized.
    pub fn get_admin(&self) -> (r: Option<Address>)
        ensures
            r == self@.auth.admin,
    {
        get_admin(&self.auth)
    }

    /// The component that keeps the policies; `NotInitialized` before
    /// `initialize`.
    pub fn get_policy_contract(&self) -> (r: Result<Address, ContractError>)
        ensures
            match self@.config {
                Some(c) => r == Ok::<Address, ContractError>(c.policy_contract),
                None => r == Err::<Address, ContractError>(ContractError::NotInitialized),
            },
    {
        match self.config {
            Some(c) => Ok(c.policy_contract),
            None => Err(ContractError::NotInitialized),
        }
    }

    /// The component to ask about a policy before a claim against it is
    /// filed, or the refusal that the submission would meet before the
    /// policy matters: `Paused` while the component is paused, else
    /// `NotInitialized` before `initialize`.
    pub fn policy_source(&self) -> (r: Result<Address, ContractError>)
        ensures
            self@.paused ==> r == Err::<Address, ContractError>(ContractError::Paused),
            !self@.paused && self@.config.is_none() ==> r == Err::<Address, ContractError>(
                ContractError::NotInitialized,
            ),
            !self@.paused && self@.config.is_some() ==> r == Ok::<Address, ContractError>(
                self@.config.unwrap().policy_contract,
            ),
    {
        if self.paused {
            return Err(ContractError::Paused);
        }
        self.get_policy_contract()
    }

    /// The sequence number that the next claim gets; `Overflow` if the
    /// numbers are used up.
    pub fn get_next_claim_id(&self) -> (r: Result<u64, ContractError>)
        ensures
            self@.claim_counter < u64::MAX ==> r == Ok::<u64, ContractError>(
                (self@.claim_counter + 1) as u64,
            ),
            self@.claim_counter == u64::MAX ==> r == Err::<u64, ContractError>(
                ContractError::Overflow,
            ),
    {
        match self.claim_counter.checked_add(1) {
            Some(id) => Ok(id),
            None => Err(ContractError::Overflow),
        }
    }

    /// Files a claim of `amount` against the policy `policy_id`, which is
    /// held by `policy_holder` and covers up to `coverage`. Returns the
    /// claim's sequence number.
    ///
    /// Fails with `Paused` while the component is paused, `NotInitialized`
    /// before `initialize`, `Unauthorized` if the claimant does not hold the
    /// policy, `AlreadyExists` if the policy has a claim, `InvalidInput` if
    /// the amount is not positive or exceeds the coverage, and `Overflow` if
    /// the sequence numbers are used up.
    pub fn submit_claim(
        &mut self,
        claimant: Address,
        policy_id: u64,
        amount: i128,
        policy_holder: Address,
        coverage: i128,
        now: u64,
    ) -> (r: Result<u64, ContractError>)
        requires
            old(self).wf(),
        ensures
            final(self).wf(),
            match old(self)@.submit(claimant, policy_id, amount, policy_holder, coverage, now) {
                Ok(v) => r == Ok::<u64, ContractError>(v.claim_counter) && final(self)@ == v,
                Err(e) => r == Err::<u64, ContractError>(e) && final(self)@ == old(self)@,
            },
    {
        if self.paused {
            return Err(ContractError::Paused);
        }
        if self.config.is_none() {
            return Err(ContractError::NotInitialized);
        }
        if policy_holder != claimant {
            return Err(ContractError::Unauthorized);
        }
        if self.policy_claims.contains_key(policy_id) {
            return Err(ContractError::AlreadyExists);
        }
        if validate_amount(amount).is_err() || validate_coverage_constraint(
            amount,
            coverage,
        ).is_err() {
            return Err(ContractError::InvalidInput);
        }
        let id = match self.claim_counter.checked_add(1) {
            Some(v) => v,
            None => {
                return Err(ContractError::Overflow);
            },
        };
        let claim = Claim {
            id,
            policy_id,
            claimant,
            amount,
            status: ClaimStatus::Submitted,
            submitted_at: now,
            decision_ts: None,
            dispute_window_end: None,
            dispute_status: None,
        };
        self.claim_counter = id;
        self.claims.insert(id, claim);
        self.policy_claims.insert(policy_id, id);
        self.events.push(ClaimEvent::ClaimSubmitted { claim_id: id, policy_id, amount, claimant });
        Ok(id)
    }

    /// The claim with the sequence number `claim_id`; `NotFound` if there is
    /// none.
    pub fn get_claim(&self, claim_id: u64) -> (r: Result<Claim, ContractError>)
        requires
            self.wf(),
        ensures
            self@.claims.contains_key(claim_id) ==> r == Ok::<Claim, ContractError>(
                self@.claims[claim_id],
            ),
            !self@.claims.contains_key(claim_id) ==> r == Err::<Claim, ContractError>(
                ContractError::NotFound,
            ),
    {
        match self.claims.get(claim_id) {
            Some(c) => Ok(*c),
            None => Err(ContractError::NotFound),
        }
    }

    /// The oracle reference on which `claim_id` was approved; `NotFound` if
    /// it was approved on none.
    pub fn get_claim_oracle_data(&self, claim_id: u64) -> (r: Result<u64, ContractError>)
        requires
            self.wf(),
        ensures
            self@.claim_oracle.contains_key(claim_id) ==> r == Ok::<u64, ContractError>(
                self@.claim_oracle[claim_id],
            ),
            !self@.claim_oracle.contains_key(claim_id) ==> r == Err::<u64, ContractError>(
                ContractError::NotFound,
            ),
    {
        match self.claim_oracle.get(claim_id) {
            Some(id) => Ok(*id),
            None => Err(ContractError::NotFound),
        }
    }

    /// The claim that `processor` may move to `next`, or what stands in the
    /// way.
    fn claim_to_move(&self, processor: Address, claim_id: u64, next: ClaimStatus) -> (r: Result<
        Claim,
        ContractError,
    >)
        requires
            self.wf(),
        ensures
            match self@.refusal(processor, claim_id, next) {
                Some(e) => r == Err::<Claim, ContractError>(e),
                None => r == Ok::<Claim, ContractError>(self@.claims[claim_id]),
            },
    {
        if self.paused {
            return Err(ContractError::Paused);
        }
        match require_claim_processing(&self.auth, &processor) {
            Ok(()) => {},
            Err(e) => {
                return Err(ContractError::from(e));
            },
        }
        let claim = match self.claims.get(claim_id) {
            Some(c) => *c,
            None => {
                return Err(ContractError::NotFound);
            },
        };
        match ProtocolInvariants::valid_state_transition(claim.status, next) {
            Ok(()) => Ok(claim),
            Err(e) => Err(ContractError::from(e)),
        }
    }

    /// Takes up the submitted claim `claim_id` for review.
    ///
    /// Fails with `Paused` while the component is paused, `Unauthorized` if
    /// `processor` may not process claims, `NotFound` if there is no such
    /// claim, and `InvalidState` unless the claim is `Submitted`.
    pub fn start_review(&mut self, processor: Address, claim_id: u64) -> (r: Result<
        (),
        ContractError,
    >)
        requires
            old(self).wf(),
        ensures
            final(self).wf(),
            claims_committed(
                old(self)@.start_review(processor, claim_id),
                old(self)@,
                final(self)@,
                r,
            ),
    {
        let claim = match self.claim_to_move(processor, claim_id, ClaimStatus::UnderReview) {
            Ok(c) => c,
            Err(e) => {
                return Err(e);
            },
        };
        self.claims.insert(claim_id, Claim { status: ClaimStatus::UnderReview, ..claim });
        self.events.push(
            ClaimEvent::ClaimUnderReview { claim_id, claimant: claim.claimant, amount: claim.amount },
        );
        Ok(())
    }

    /// Declines the claim `claim_id`, which is under review, at the time
    /// `now`. The pool is not touched.
    ///
    /// Fails with `Paused` while the component is paused, `Unauthorized` if
    /// `processor` may not process claims, `NotFound` if there is no such
    /// claim, and `InvalidState` unless the claim is `UnderReview`.
    pub fn reject_claim(&mut self, processor: Address, claim_id: u64, now: u64) -> (r: Result<
        (),
        ContractError,
    >)
        requires
            old(self).wf(),
        ensures
            final(self).wf(),
            claims_committed(
                old(self)@.reject(processor, claim_id, now),
                old(self)@,
                final(self)@,
                r,
            ),
    {
        let claim = match self.claim_to_move(processor, claim_id, ClaimStatus::Rejected) {
            Ok(c) => c,
            Err(e) => {
                return Err(e);
            },
        };
        self.claims.insert(
            claim_id,
            Claim { status: ClaimStatus::Rejected, decision_ts: Some(now), ..claim },
        );
        self.events.push(
            ClaimEvent::ClaimRejected { claim_id, claimant: claim.claimant, amount: claim.amount },
        );
        Ok(())
    }

    /// Checks the oracle reference of an approval against the oracle
    /// settings.
    fn check_oracle_reference(&self, oracle: &OracleContract, oracle_data_id: Option<u64>) -> (r:
        Result<(), ContractError>)
        requires
            self.wf(),
            oracle.wf(),
        ensures
            match self@.oracle_refusal(oracle@, oracle_data_id) {
                Some(e) => r == Err::<(), ContractError>(e),
                None => r == Ok::<(), ContractError>(()),
            },
    {
        let settings = match self.oracle_config {
            Some(c) => c,
            None => {
                return Ok(());
            },
        };
        if !settings.require_oracle_validation {
            return Ok(());
        }
        let data_id = match oracle_data_id {
            Some(id) => id,
            None => {
                return Err(ContractError::OracleValidationFailed);
            },
        };
        match require_trusted_contract(&self.auth, &settings.oracle_contract) {
            Ok(()) => {},
            Err(e) => {
                return Err(ContractError::from(e));
            },
        }
        let record = match oracle.get_resolution(data_id) {
            Some(record) => record,
            None => {
                return Err(ContractError::OracleValidationFailed);
            },
        };
        if record.submission_count < settings.min_oracle_submissions as u64 {
            return Err(ContractError::InsufficientOracleSubmissions);
        }
        Ok(())
    }

    /// Has the oracle resolve the request `oracle_data_id` at the time `now`
    /// and records the reference with the claim `claim_id`. Where oracle
    /// validation is not mandatory, nothing is asked and nothing recorded.
    /// Returns `true` when the claim may go on to approval.
    ///
    /// Fails with `Paused` while the component is paused, `Unauthorized` if
    /// `processor` may not process claims, `NotFound` if there is no such
    /// claim or there are no oracle settings, `NotTrustedContract` if the
    /// oracle is not trusted, `InsufficientOracleSubmissions` if the request
    /// has fewer reports than approvals ask for, and with the oracle's error
    /// if the resolution fails. A failure changes neither the component nor
    /// the oracle.
    pub fn validate_claim_with_oracle(
        &mut self,
        oracle: &mut OracleContract,
        processor: Address,
        claim_id: u64,
        oracle_data_id: u64,
        now: u64,
    ) -> (r: Result<bool, ContractError>)
        requires
            old(self).wf(),
            old(oracle).wf(),
        ensures
            final(self).wf(),
            final(oracle).wf(),
            match old(self)@.validate_with_oracle(
                old(oracle)@,
                processor,
                claim_id,
                oracle_data_id,
                now,
            ) {
                Ok(v) => r == Ok::<bool, ContractError>(true) && final(self)@ == v.0
                    && final(oracle)@ == v.1,
                Err(e) => r == Err::<bool, ContractError>(e) && final(self)@ == old(self)@
                    && final(oracle)@ == old(oracle)@,
            },
    {
        if self.paused {
            return Err(ContractError::Paused);
        }
        match require_claim_processing(&self.auth, &processor) {
            Ok(()) => {},
            Err(e) => {
                return Err(ContractError::from(e));
            },
        }
        if !self.claims.contains_key(claim_id) {
            return Err(ContractError::NotFound);
        }
        let settings = match self.oracle_config {
            Some(c) => c,
            None => {
                return Err(ContractError::NotFound);
            },
        };
        if !settings.require_oracle_validation {
            return Ok(true);
        }
        match require_trusted_contract(&self.auth, &settings.oracle_contract) {
            Ok(()) => {},
            Err(e) => {
                return Err(ContractError::from(e));
            },
        }
        if oracle.get_submission_count(oracle_data_id) < settings.min_oracle_submissions as u64 {
            return Err(ContractError::InsufficientOracleSubmissions);
        }
        match oracle.resolve(oracle_data_id, now) {
            Ok(_) => {},
            Err(e) => {
                return Err(ContractError::from(e));
            },
        }
        self.claim_oracle.insert(claim_id, oracle_data_id);
        Ok(true)
    }

    /// Approves the claim `claim_id`, which is under review, at the time
    /// `now`: the pool earmarks the claim's amount, and only if it does is
    /// the claim approved. Where oracle validation is mandatory,
    /// `oracle_data_id` must name a request that `oracle` has resolved; it
    /// is recorded with the claim.
    ///
    /// Fails with `Paused`, `Unauthorized`, `NotFound` and `InvalidState` as
    /// `start_review` does (the claim must be `UnderReview`);
    /// `OracleValidationFailed` if validation is mandatory and no resolved
    /// reference is given; `InsufficientOracleSubmissions` if the record
    /// rests on too few reports; `NotTrustedContract` if the oracle or the
    /// pool is not trusted; `NotInitialized` before `initialize`; `Overflow`
    /// if the dispute window would end beyond the range of time; and with
    /// the pool's error if the pool refuses the reservation. A failure
    /// changes neither the component nor the pool.
    pub fn approve_claim(
        &mut self,
        pool: &mut RiskPoolContract,
        oracle: &OracleContract,
        processor: Address,
        claim_id: u64,
        oracle_data_id: Option<u64>,
        now: u64,
    ) -> (r: Result<(), ContractError>)
        requires
            old(self).wf(),
            old(pool).wf(),
            oracle.wf(),
        ensures
            final(self).wf(),
            final(pool).wf(),
            jointly_committed(
                old(self)@.approve(old(pool)@, oracle@, processor, claim_id, oracle_data_id, now),
                old(self)@,
                old(pool)@,
                final(self)@,
                final(pool)@,
                r,
            ),
    {
        let claim = match self.claim_to_move(processor, claim_id, ClaimStatus::Approved) {
            Ok(c) => c,
            Err(e) => {
                return Err(e);
            },
        };
        match self.check_oracle_reference(oracle, oracle_data_id) {
            Ok(()) => {},
            Err(e) => {
                return Err(e);
            },
        }
        let config = match self.config {
            Some(c) => c,
            None => {
                return Err(ContractError::NotInitialized);
            },
        };
        match require_trusted_contract(&self.auth, &config.risk_pool) {
            Ok(()) => {},
            Err(e) => {
                return Err(ContractError::from(e));
            },
        }
        let window_end = match now.checked_add(self.get_config().dispute_window_secs) {
            Some(v) => v,
            None => {
                return Err(ContractError::Overflow);
            },
        };
        match pool.reserve_liquidity(self.address, claim_id, claim.amount) {
            Ok(()) => {},
            Err(e) => {
                return Err(ContractError::from(e));
            },
        }
        match self.oracle_config {
            Some(settings) => {
                if settings.require_oracle_validation {
                    match oracle_data_id {
                        Some(data_id) => {
                            self.claim_oracle.insert(claim_id, data_id);
                        },
                        None => {},
                    }
                }
            },
            None => {},
        }
        self.claims.insert(
            claim_id,
            Claim {
                status: ClaimStatus::Approved,
                decision_ts: Some(now),
                dispute_window_end: Some(window_end),
                dispute_status: Some(ClaimStatus::PendingSettlement),
                ..claim
            },
        );
        self.events.push(
            ClaimEvent::ClaimApproved { claim_id, claimant: claim.claimant, amount: claim.amount },
        );
        Ok(())
    }

    /// Settles the approved claim `claim_id`: the pool pays the claim's
    /// reservation out to the claimant, and only if it does is the claim
    /// settled.
    ///
    /// Fails with `Paused`, `Unauthorized`, `NotFound` and `InvalidState` as
    /// `start_review` does (the claim must be `Approved`); `NotInitialized`
    /// before `initialize`; `NotTrustedContract` if the pool is not trusted;
    /// and with the pool's error if the pool refuses the payout. A failure
    /// changes neither the component nor the pool.
    pub fn settle_claim(&mut self, pool: &mut RiskPoolContract, processor: Address, claim_id: u64)
        -> (r: Result<(), ContractError>)
        requires
            old(self).wf(),
            old(pool).wf(),
        ensures
            final(self).wf(),
            final(pool).wf(),
            jointly_committed(
                old(self)@.settle(old(pool)@, processor, claim_id),
                old(self)@,
                old(pool)@,
                final(self)@,
                final(pool)@,
                r,
            ),
    {
        let claim = match self.claim_to_move(processor, claim_id, ClaimStatus::Settled) {
            Ok(c) => c,
            Err(e) => {
                return Err(e);
            },
        };
        match validate_amount(claim.amount) {
            Ok(()) => {},
            Err(e) => {
                return Err(e);
            },
        }
        let config = match self.config {
            Some(c) => c,
            None => {
                return Err(ContractError::NotInitialized);
            },
        };
        match require_trusted_contract(&self.auth, &config.risk_pool) {
            Ok(()) => {},
            Err(e) => {
                return Err(ContractError::from(e));
            },
        }
        match pool.payout_reserved_claim(self.address, claim_id, claim.claimant) {
            Ok(()) => {},
            Err(e) => {
                return Err(ContractError::from(e));
            },
        }
        self.claims.insert(claim_id, Claim { status: ClaimStatus::Settled, ..claim });
        self.events.push(
            ClaimEvent::ClaimSettled { claim_id, claimant: claim.claimant, amount: claim.amount },
        );
        Ok(())
    }

    /// Raises a dispute against the decision on the claim `claim_id`, at
    /// the time `now`.
    ///
    /// Fails with `Paused` while the component is paused, `NotFound` if
    /// there is no such claim, `InvalidState` unless the claim is pending
    /// settlement, `DisputeWindowClosed` if `now` is past the end of the
    /// window, and `Unauthorized` if `raised_by` is no governance member.
    pub fn raise_dispute(&mut self, claim_id: u64, raised_by: Address, reason: String, now: u64)
        -> (r: Result<(), ContractError>)
        requires
            old(self).wf(),
        ensures
            final(self).wf(),
            claims_committed(
                old(self)@.dispute(claim_id, raised_by, reason, now),
                old(self)@,
                final(self)@,
                r,
            ),
    {
        if self.paused {
            return Err(ContractError::Paused);
        }
        let claim = match self.claims.get(claim_id) {
            Some(c) => *c,
            None => {
                return Err(ContractError::NotFound);
            },
        };
        let disputable = match claim.dispute_status {
            Some(phase) => is_valid_state_transition(phase, ClaimStatus::Disputed),
            None => false,
        };
        if !disputable {
            return Err(ContractError::InvalidState);
        }
        let window_end = match claim.dispute_window_end {
            Some(end) => end,
            None => {
                return Err(ContractError::InvalidState);
            },
        };
        if now > window_end {
            return Err(ContractError::DisputeWindowClosed);
        }
        if !self.is_dao_member(raised_by) {
            return Err(ContractError::Unauthorized);
        }
        self.claims.insert(
            claim_id,
            Claim { dispute_status: Some(ClaimStatus::Disputed), ..claim },
        );
        self.disputes.insert(claim_id, Dispute { claim_id, raised_by, reason, resolved: false });
        self.events.push(ClaimEvent::DisputeRaised { claim_id, raised_by });
        Ok(())
    }

    /// Whether the component is paused.
    pub fn is_paused(&self) -> (r: bool)
        ensures
            r == self@.paused,
    {
        self.paused
    }

    /// Pauses the component. Only an admin may do so.
    pub fn pause(&mut self, admin: Address) -> (r: Result<(), ContractError>)
        requires
            old(self).wf(),
        ensures
            final(self).wf(),
            claims_committed(old(self)@.set_paused(admin, true), old(self)@, final(self)@, r),
    {
        match require_admin(&self.auth, &admin) {
            Ok(()) => {},
            Err(e) => {
                return Err(ContractError::from(e));
            },
        }
        self.paused = true;
        self.events.push(ClaimEvent::Paused { admin });
        Ok(())
    }

    /// Resumes the component. Only an admin may do so.
    pub fn unpause(&mut self, admin: Address) -> (r: Result<(), ContractError>)
        requires
            old(self).wf(),
        ensures
            final(self).wf(),
            claims_committed(old(self)@.set_paused(admin, false), old(self)@, final(self)@, r),
    {
        match require_admin(&self.auth, &admin) {
            Ok(()) => {},
            Err(e) => {
                return Err(ContractError::from(e));
            },
        }
        self.paused = false;
        self.events.push(ClaimEvent::Unpaused { admin });
        Ok(())
    }

    /// Makes `processor` a claim processor. Only an admin may do so.
    pub fn grant_processor_role(&mut self, admin: Address, processor: Address) -> (r: Result<
        (),
        ContractError,
    >)
        requires
            old(self).wf(),
        ensures
            final(self).wf(),
            claims_committed(
                old(self)@.grant_processor(admin, processor),
                old(self)@,
                final(self)@,
                r,
            ),
    {
        match grant_role(&mut self.auth, &admin, &processor, Role::ClaimProcessor) {
            Ok(()) => {},
            Err(e) => {
                return Err(ContractError::from(e));
            },
        }
        self.events.push(ClaimEvent::RoleGranted { processor, admin });
        Ok(())
    }

    /// Resets `processor` to an ordinary user. Only an admin may do so, and
    /// not on itself.
    pub fn revoke_processor_role(&mut self, admin: Address, processor: Address) -> (r: Result<
        (),
        ContractError,
    >)
        requires
            old(self).wf(),
        ensures
            final(self).wf(),
            claims_committed(
                old(self)@.revoke_processor(admin, processor),
                old(self)@,
                final(self)@,
                r,
            ),
    {
        match revoke_role(&mut self.auth, &admin, &processor) {
            Ok(()) => {},
            Err(e) => {
                return Err(ContractError::from(e));
            },
        }
        self.events.push(ClaimEvent::RoleRevoked { processor, admin });
        Ok(())
    }

    /// The role of `address` in the component.
    pub fn get_user_role(&self, address: Address) -> (r: Role)
        requires
            self.wf(),
        ensures
            r == self@.auth.role_of(address),
    {
        get_role(&self.auth, &address)
    }

    /// Hands out the notifications logged since the last call, oldest
    /// first, and empties the log.
    pub fn take_events(&mut self) -> (events: Vec<ClaimEvent>)
        requires
            old(self).wf(),
        ensures
            final(self).wf(),
            events@ == old(self)@.events,
            final(self)@ == (ClaimsView { events: Seq::empty(), ..old(self)@ }),
    {
        let mut events: Vec<ClaimEvent> = Vec::new();
        core::mem::swap(&mut self.events, &mut events);
        assert(self@.events =~= Seq::<ClaimEvent>::empty());
        events
    }
}

/// The contents of a [`ClaimsContract`] as plain lists, for keeping them
/// outside the program. Notifications are not part of it.
#[derive(Debug)]
pub struct ClaimsSnapshot {
    /// The component's own identity.
    pub address: Address,
    /// Roles and trusted components.
    pub auth: AuthSnapshot,
    /// The components to work with, once the component was initialized.
    pub config: Option<ClaimsConfig>,
    /// Whether the component is paused.
    pub paused: bool,
    /// The sequence number of the claim filed last.
    pub claim_counter: u64,
    /// The claims, one entry per sequence number.
    pub claims: Vec<(u64, Claim)>,
    /// The claim of each policy that has one, one entry per policy.
    pub policy_claims: Vec<(u64, u64)>,
    /// The oracle settings, if any were made.
    pub oracle_config: Option<OracleValidationConfig>,
    /// The oracle reference of each claim approved on one.
    pub claim_oracle: Vec<(u64, u64)>,
    /// The dispute settings, if any were made.
    pub dispute_config: Option<Config>,
    /// The governance members, each once.
    pub dao_members: Vec<Address>,
    /// The disputes, one entry per claim.
    pub disputes: Vec<(u64, Dispute)>,
}

impl ClaimsSnapshot {
    /// Whether the snapshot lists exactly what `view` holds, and `view` has
    /// no notifications waiting.
    pub open spec fn lists(&self, view: ClaimsView) -> bool {
        &&& self.address == view.address
        &&& self.auth.lists(view.auth)
        &&& self.config == view.config
        &&& self.paused == view.paused
        &&& self.claim_counter == view.claim_counter
        &&& lists_map(self.claims@, view.claims)
        &&& lists_map(self.policy_claims@, view.policy_claims)
        &&& self.oracle_config == view.oracle_config
        &&& lists_map(self.claim_oracle@, view.claim_oracle)
        &&& self.dispute_config == view.dispute_config
        &&& lists_set(self.dao_members@, view.dao_members)
        &&& lists_map(self.disputes@, view.disputes)
        &&& view.events == Seq::<ClaimEvent>::empty()
    }
}

/// A snapshot determines the component it lists.
pub proof fn lemma_listed_claims_unique(snapshot: ClaimsSnapshot, a: ClaimsView, b: ClaimsView)
    requires
        snapshot.lists(a),
        snapshot.lists(b),
    ensures
        a == b,
{
    lemma_listed_auth_unique(snapshot.auth, a.auth, b.auth);
    lemma_listed_map_unique(snapshot.claims@, a.claims, b.claims);
    lemma_listed_map_unique(snapshot.policy_claims@, a.policy_claims, b.policy_claims);
    lemma_listed_map_unique(snapshot.claim_oracle@, a.claim_oracle, b.claim_oracle);
    lemma_listed_set_unique(snapshot.dao_members@, a.dao_members, b.dao_members);
    lemma_listed_map_unique(snapshot.disputes@, a.disputes, b.disputes);
}

/// Decides whether `status` is a state of the lifecycle proper.
fn is_lifecycle_state(status: ClaimStatus) -> (r: bool)
    ensures
        r == lifecycle_state(status),
{
    status != ClaimStatus::PendingSettlement && status != ClaimStatus::Disputed
}

/// Decides whether the dispute fork of `claim` fits its lifecycle.
fn is_dispute_fork_ok(claim: &Claim) -> (r: bool)
    ensures
        r == dispute_fork_ok(*claim),
{
    match claim.dispute_status {
        None => true,
        Some(phase) => {
            (phase == ClaimStatus::PendingSettlement || phase == ClaimStatus::Disputed)
                && claim.dispute_window_end.is_some() && claim.decision_ts.is_some() && (
            claim.status == ClaimStatus::Approved || claim.status == ClaimStatus::Settled)
        },
    }
}

impl ClaimsContract {
    /// The dispute raised against the claim `claim_id`, if there is one.
    pub fn get_dispute(&self, claim_id: u64) -> (r: Option<Dispute>)
        requires
            self.wf(),
        ensures
            self@.disputes.contains_key(claim_id) ==> r == Some(self@.disputes[claim_id]),
            !self@.disputes.contains_key(claim_id) ==> r.is_none(),
    {
        match self.disputes.get(claim_id) {
            Some(d) => Some(d.clone()),
            None => None,
        }
    }

    /// Lists what the component holds, but for the notifications.
    pub fn snapshot(&self) -> (s: ClaimsSnapshot)
        requires
            self.wf(),
        ensures
            s.lists(ClaimsView { events: Seq::empty(), ..self@ }),
    {
        let ids = self.disputes.to_keys();
        let mut disputes: Vec<(u64, Dispute)> = Vec::new();
        let mut i: usize = 0;
        while i < ids.len()
            invariant
                self.wf(),
                i <= ids@.len(),
                lists_set(ids@, self@.disputes.dom()),
                disputes@.len() == i,
                forall|k: int|
                    0 <= k < i ==> (#[trigger] disputes@[k]) == (
                        ids@[k],
                        self@.disputes[ids@[k]],
                    ),
            decreases ids@.len() - i,
        {
            let id = ids[i];
            assert(self@.disputes.dom().contains(ids@[i as int]));
            match self.get_dispute(id) {
                Some(d) => {
                    disputes.push((id, d));
                },
                None => {},
            }
            i += 1;
        }
        proof {
            assert forall|k: int| 0 <= k < disputes@.len() implies self@.disputes.contains_key(
                (#[trigger] disputes@[k]).0,
            ) && self@.disputes[disputes@[k].0] == disputes@[k].1 by {
                assert(self@.disputes.dom().contains(ids@[k]));
            }
            assert forall|id: u64| #[trigger] self@.disputes.contains_key(id) implies exists|k: int|
                0 <= k < disputes@.len() && (#[trigger] disputes@[k]).0 == id by {
                assert(self@.disputes.dom().contains(id));
                let k = choose|k: int| 0 <= k < ids@.len() && #[trigger] ids@[k] == id;
                assert(disputes@[k].0 == id);
            }
        }
        ClaimsSnapshot {
            address: self.address,
            auth: self.auth.snapshot(),
            config: self.config,
            paused: self.paused,
            claim_counter: self.claim_counter,
            claims: self.claims.to_entries(),
            policy_claims: self.policy_claims.to_entries(),
            oracle_config: self.oracle_config,
            claim_oracle: self.claim_oracle.to_entries(),
            dispute_config: self.dispute_config,
            dao_members: self.dao_members.to_keys(),
            disputes,
        }
    }

    /// Decides whether the component's view is consistent.
    fn is_consistent(&self) -> (r: bool)
        requires
            self.inv(),
        ensures
            r == self@.consistent(),
    {
        if self.config.is_some() != get_admin(&self.auth).is_some() {
            return false;
        }
        let listed = self.claims.to_entries();
        let mut i: usize = 0;
        while i < listed.len()
            invariant
                self.inv(),
                i <= listed@.len(),
                lists_map(listed@, self@.claims),
                forall|k: int|
                    0 <= k < i ==> {
                        let id = (#[trigger] listed@[k]).0;
                        let claim = listed@[k].1;
                        &&& claim.id == id
                        &&& 1 <= id <= self@.claim_counter
                        &&& claim.amount > 0
                        &&& lifecycle_state(claim.status)
                        &&& dispute_fork_ok(claim)
                        &&& self@.policy_claims.contains_key(claim.policy_id)
                        &&& self@.policy_claims[claim.policy_id] == id
                    },
            decreases listed@.len() - i,
        {
            let (id, claim) = listed[i];
            assert(self@.claims.contains_key(listed@[i as int].0));
            let claimed = match self.policy_claims.get(claim.policy_id) {
                Some(of_policy) => *of_policy == id,
                None => false,
            };
            if claim.id != id || id < 1 || id > self.claim_counter || claim.amount <= 0
                || !is_lifecycle_state(claim.status) || !is_dispute_fork_ok(&claim) || !claimed {
                return false;
            }
            i += 1;
        }
        assert forall|id: u64| #[trigger] self@.claims.contains_key(id) implies {
            &&& self@.claims[id].id == id
            &&& 1 <= id <= self@.claim_counter
            &&& self@.claims[id].amount > 0
            &&& lifecycle_state(self@.claims[id].status)
            &&& dispute_fork_ok(self@.claims[id])
            &&& self@.policy_claims.contains_key(self@.claims[id].policy_id)
            &&& self@.policy_claims[self@.claims[id].policy_id] == id
        } by {
            let k = choose|k: int| 0 <= k < listed@.len() && (#[trigger] listed@[k]).0 == id;
            assert(self@.claims[listed@[k].0] == listed@[k].1);
        }
        true
    }

    /// Builds the component that `snapshot` lists.
    ///
    /// Fails with `InvalidState` if the snapshot names a key twice in one of
    /// its lists or if what it lists is not consistent: a component is
    /// rebuilt only in a state that its operations could have left.
    pub fn restore(snapshot: ClaimsSnapshot) -> (r: Result<ClaimsContract, ContractError>)
        ensures
            match r {
                Ok(claims) => claims.wf() && snapshot.lists(claims@),
                Err(e) => e == ContractError::InvalidState && forall|view: ClaimsView|
                    snapshot.lists(view) ==> !view.consistent(),
            },
    {
        let ClaimsSnapshot {
            address,
            auth,
            config,
            paused,
            claim_counter,
            claims,
            policy_claims,
            oracle_config,
            claim_oracle,
            dispute_config,
            dao_members,
            disputes,
        } = snapshot;
        let auth = match AuthStore::restore(auth) {
            Some(a) => a,
            None => {
                return Err(ContractError::InvalidState);
            },
        };
        let claims = match Table::from_entries(claims) {
            Some(t) => t,
            None => {
                return Err(ContractError::InvalidState);
            },
        };
        let policy_claims = match Table::from_entries(policy_claims) {
            Some(t) => t,
            None => {
                return Err(ContractError::InvalidState);
            },
        };
        let claim_oracle = match Table::from_entries(claim_oracle) {
            Some(t) => t,
            None => {
                return Err(ContractError::InvalidState);
            },
        };
        let dao_members = match KeySet::from_keys(dao_members) {
            Some(t) => t,
            None => {
                return Err(ContractError::InvalidState);
            },
        };
        let disputes = match Table::from_entries(disputes) {
            Some(t) => t,
            None => {
                return Err(ContractError::InvalidState);
            },
        };
        let restored = ClaimsContract {
            address,
            auth,
            config,
            paused,
            claim_counter,
            claims,
            policy_claims,
            oracle_config,
            claim_oracle,
            dispute_config,
            dao_members,
            disputes,
            events: Vec::new(),
        };
        assert(restored@.events =~= Seq::<ClaimEvent>::empty());
        if !restored.is_consistent() {
            proof {
                assert forall|view: ClaimsView| snapshot.lists(view) implies !view.consistent() by {
                    lemma_listed_claims_unique(snapshot, view, restored@);
                }
            }
            return Err(ContractError::InvalidState);
        }
        Ok(restored)
    }
}

impl ClaimsView {
    /// Whether `later` can come after `self`: no claim is deleted, no
    /// claim's number, policy, claimant or amount changes, every claim
    /// stands where it stood or has made one move that the transition table
    /// lists, and every new claim is `Submitted`.
    pub open spec fn evolves_to(self, later: ClaimsView) -> bool {
        &&& forall|id: u64| #[trigger]
            self.claims.contains_key(id) ==> {
                &&& later.claims.contains_key(id)
                &&& later.claims[id].id == self.claims[id].id
                &&& later.claims[id].policy_id == self.claims[id].policy_id
                &&& later.claims[id].claimant == self.claims[id].claimant
                &&& later.claims[id].amount == self.claims[id].amount
                &&& later.claims[id].status == self.claims[id].status
                    || self.claims[id].status.can_move_to(later.claims[id].status)
            }
        &&& forall|id: u64| #[trigger]
            later.claims.contains_key(id) && !self.claims.contains_key(id) ==> later.claims[id].status
                == ClaimStatus::Submitted
    }
}

/// Every committed operation respects the lifecycle: it deletes no claim,
/// changes no amount, moves a claim only along the transition table, and
/// starts a new claim as `Submitted`.
pub proof fn lemma_lifecycle_followed(
    before: ClaimsView,
    pool: PoolView,
    oracle: OracleView,
    actor: Address,
    claim_id: u64,
    policy_id: u64,
    amount: i128,
    policy_holder: Address,
    coverage: i128,
    oracle_data_id: Option<u64>,
    reason: String,
    now: u64,
)
    requires
        before.consistent(),
    ensures
        before.submit(actor, policy_id, amount, policy_holder, coverage, now) matches Ok(after)
            ==> before.evolves_to(after),
        before.start_review(actor, claim_id) matches Ok(after) ==> before.evolves_to(after),
        before.reject(actor, claim_id, now) matches Ok(after) ==> before.evolves_to(after),
        before.approve(pool, oracle, actor, claim_id, oracle_data_id, now) matches Ok(after)
            ==> before.evolves_to(after.0),
        before.settle(pool, actor, claim_id) matches Ok(after) ==> before.evolves_to(after.0),
        before.dispute(claim_id, actor, reason, now) matches Ok(after) ==> before.evolves_to(
            after,
        ),
        oracle_data_id.is_some() ==> (before.validate_with_oracle(
            oracle,
            actor,
            claim_id,
            oracle_data_id.unwrap(),
            now,
        ) matches Ok(after) ==> before.evolves_to(after.0)),
{
}

/// No shortcut: a processor who tries to move a claim along a pair that
/// the transition table does not list is refused with `InvalidState`,
/// whichever operation is used, and the refusal leaves the claim where it
/// stood. In particular a `Submitted` claim cannot be approved or settled,
/// and a claim under review cannot be settled.
pub proof fn lemma_shortcut_refused(
    before: ClaimsView,
    pool: PoolView,
    oracle: OracleView,
    processor: Address,
    claim_id: u64,
    oracle_data_id: Option<u64>,
    now: u64,
)
    requires
        before.consistent(),
        !before.paused,
        before.auth.role_of(processor).can_process_claims(),
        before.claims.contains_key(claim_id),
    ensures
        before.claims[claim_id].status != ClaimStatus::Submitted ==> before.start_review(
            processor,
            claim_id,
        ) == Err::<ClaimsView, ContractError>(ContractError::InvalidState),
        before.claims[claim_id].status != ClaimStatus::UnderReview ==> before.reject(
            processor,
            claim_id,
            now,
        ) == Err::<ClaimsView, ContractError>(ContractError::InvalidState) && before.approve(
            pool,
            oracle,
            processor,
            claim_id,
            oracle_data_id,
            now,
        ) == Err::<(ClaimsView, PoolView), ContractError>(ContractError::InvalidState),
        before.claims[claim_id].status != ClaimStatus::Approved ==> before.settle(
            pool,
            processor,
            claim_id,
        ) == Err::<(ClaimsView, PoolView), ContractError>(ContractError::InvalidState),
{
}

/// Settlement is reached one step at a time: only the settlement of an
/// approved claim makes a claim `Settled`, only the approval of a claim
/// under review makes one `Approved`, and only the start of the review of a
/// submitted claim puts one under review.
pub proof fn lemma_settlement_needs_every_step(before: ClaimsView, after: ClaimsView, claim_id: u64)
    requires
        before.consistent(),
        before.evolves_to(after),
        before.claims.contains_key(claim_id),
    ensures
        after.claims[claim_id].status == ClaimStatus::Settled ==> before.claims[claim_id].status
            == ClaimStatus::Settled || before.claims[claim_id].status == ClaimStatus::Approved,
        after.claims[claim_id].status == ClaimStatus::Approved ==> before.claims[claim_id].status
            == ClaimStatus::Approved || before.claims[claim_id].status
            == ClaimStatus::UnderReview,
        after.claims[claim_id].status == ClaimStatus::UnderReview
            ==> before.claims[claim_id].status == ClaimStatus::UnderReview
            || before.claims[claim_id].status == ClaimStatus::Submitted,
{
}

/// An approval earmarks the claim's own amount: when an approval is
/// committed, the claim is `Approved`, the pool holds a reservation of
/// exactly the claimed amount under the claim's number, and the pool's
/// reserved total has grown by that amount and by nothing else.
pub proof fn lemma_approval_reserves_the_claim(
    before: ClaimsView,
    pool: PoolView,
    oracle: OracleView,
    processor: Address,
    claim_id: u64,
    oracle_data_id: Option<u64>,
    now: u64,
)
    requires
        before.consistent(),
        pool.consistent(),
        before.approve(pool, oracle, processor, claim_id, oracle_data_id, now).is_ok(),
    ensures
        ({
            let after = before.approve(pool, oracle, processor, claim_id, oracle_data_id, now).unwrap();
            let amount = before.claims[claim_id].amount;
            &&& before.claims[claim_id].status == ClaimStatus::UnderReview
            &&& after.0.claims[claim_id].status == ClaimStatus::Approved
            &&& after.0.claims[claim_id].amount == amount
            &&& !pool.reservations.contains_key(claim_id)
            &&& after.1.reservations.contains_key(claim_id)
            &&& after.1.reservations[claim_id] == amount
            &&& after.1.stats.reserved_total == pool.stats.reserved_total + amount
            &&& after.1.stats.total_liquidity == pool.stats.total_liquidity
            &&& pool.stats.total_liquidity - pool.stats.reserved_total >= amount
        }),
{
}

/// A settlement pays the reservation and nothing else: when a settlement
/// is committed, the claim is `Settled`, its reservation is gone, and the
/// reserved amount has left both the pool's liquidity and its reserved
/// total and was added to what the pool has paid out.
pub proof fn lemma_settlement_pays_the_reservation(
    before: ClaimsView,
    pool: PoolView,
    processor: Address,
    claim_id: u64,
)
    requires
        before.consistent(),
        pool.consistent(),
        before.settle(pool, processor, claim_id).is_ok(),
    ensures
        ({
            let after = before.settle(pool, processor, claim_id).unwrap();
            let reserved = pool.reservations[claim_id];
            &&& before.claims[claim_id].status == ClaimStatus::Approved
            &&& after.0.claims[claim_id].status == ClaimStatus::Settled
            &&& pool.reservations.contains_key(claim_id)
            &&& !after.1.reservations.contains_key(claim_id)
            &&& after.1.stats.total_liquidity == pool.stats.total_liquidity - reserved
            &&& after.1.stats.reserved_total == pool.stats.reserved_total - reserved
            &&& after.1.stats.total_paid_out == pool.stats.total_paid_out + reserved
            &&& after.1.events.last() == (crate::risk_pool::PoolEvent::ReservedClaimPayout {
                claim_id,
                recipient: before.claims[claim_id].claimant,
                amount: reserved,
            })
        }),
{
}

/// Whether the pool backs the claims: every approved claim has a
/// reservation of exactly its amount under its number.
pub open spec fn backed_by(claims: ClaimsView, pool: PoolView) -> bool {
    forall|id: u64| #[trigger]
        claims.claims.contains_key(id) && claims.claims[id].status == ClaimStatus::Approved
            ==> pool.reservations.contains_key(id) && pool.reservations[id]
            == claims.claims[id].amount
}

/// The operations of the claims component keep the claims backed: an
/// approval adds the reservation that backs the claim, a settlement
/// consumes it as the claim leaves `Approved`, and the other operations
/// neither approve a claim nor touch the pool.
pub proof fn lemma_claims_stay_backed(
    before: ClaimsView,
    pool: PoolView,
    oracle: OracleView,
    actor: Address,
    claim_id: u64,
    policy_id: u64,
    amount: i128,
    policy_holder: Address,
    coverage: i128,
    oracle_data_id: Option<u64>,
    reason: String,
    now: u64,
)
    requires
        before.consistent(),
        pool.consistent(),
        backed_by(before, pool),
    ensures
        before.submit(actor, policy_id, amount, policy_holder, coverage, now) matches Ok(after)
            ==> backed_by(after, pool),
        before.start_review(actor, claim_id) matches Ok(after) ==> backed_by(after, pool),
        before.reject(actor, claim_id, now) matches Ok(after) ==> backed_by(after, pool),
        before.dispute(claim_id, actor, reason, now) matches Ok(after) ==> backed_by(after, pool),
        before.approve(pool, oracle, actor, claim_id, oracle_data_id, now) matches Ok(after)
            ==> backed_by(after.0, after.1),
        before.settle(pool, actor, claim_id) matches Ok(after) ==> backed_by(after.0, after.1),
{
}

/// The operations of the pool that are not the claims component's own
/// (every one but the reservation and its payout) keep the claims backed.
pub proof fn lemma_pool_keeps_claims_backed(claims: ClaimsView, pool: PoolView, op: PoolOperation)
    requires
        backed_by(claims, pool),
        !(op is Reserve),
        !(op is PayoutReserved),
    ensures
        backed_by(claims, pool.after(op)),
{
}

/// An approved claim can be settled: while the claims are backed, the
/// settlement of an approved claim by a processor is refused only while
/// the component or the pool is paused, if either does not trust the
/// other, or if the pool's paid-out total would leave the amount type. It
/// is never refused for want of liquidity.
pub proof fn lemma_approved_claim_can_be_settled(
    claims: ClaimsView,
    pool: PoolView,
    processor: Address,
    claim_id: u64,
)
    requires
        claims.consistent(),
        pool.consistent(),
        backed_by(claims, pool),
        claims.claims.contains_key(claim_id),
        claims.claims[claim_id].status == ClaimStatus::Approved,
        claims.auth.role_of(processor).can_process_claims(),
        !claims.paused,
        !pool.paused,
        claims.config.is_some(),
        claims.auth.trusted.contains(claims.config.unwrap().risk_pool),
        pool.auth.trusted.contains(claims.address),
        pool.stats.total_paid_out + claims.claims[claim_id].amount <= i128::MAX,
    ensures
        claims.settle(pool, processor, claim_id).is_ok(),
        claims.claims[claim_id].amount <= pool.stats.reserved_total <= pool.stats.total_liquidity,
{
    lemma_reservation_can_be_paid(pool, claims.address, claim_id, claims.claims[claim_id].claimant);
}

} // verus!
