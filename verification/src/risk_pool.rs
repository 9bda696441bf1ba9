//! The risk-pool liquidity ledger.
//!
//! The pool tracks total, reserved and paid-out liquidity and the stake of
//! each provider. Every operation computes the proposed state first, checks
//! the invariants against it and commits only then: a refused operation
//! leaves the pool exactly as it was.

use crate::authorization::{
    get_admin, get_role, grant_role, initialize_admin, register_trusted_contract, require_admin,
    require_risk_pool_management, require_trusted_contract, revoke_role, AuthError, AuthSnapshot,
    AuthStore, AuthView, Role,
};
use crate::authorization::lemma_listed_auth_unique;
use crate::invariants::{safe_add, safe_sub, InvariantError, ProtocolInvariants};
use crate::ledger::{
    lemma_listed_total_grows, lemma_total_of_bounds, lemma_total_of_empty, lemma_total_of_insert,
    lemma_total_of_listed, lemma_total_of_remove, listed_total, total_of,
};
use crate::table::{lemma_listed_map_unique, lists_map, Table};
use crate::types::Address;
use vstd::prelude::*;

verus! {

/// Why the pool refused an operation.
#[derive(Clone, Copy, Debug, PartialEq, Eq, Structural, Hash)]
pub enum ContractError {
    /// The caller's role does not allow the action.
    Unauthorized,
    /// The pool is paused.
    Paused,
    /// An argument is out of range.
    InvalidInput,
    /// The available liquidity does not cover the amount.
    InsufficientFunds,
    /// The record does not exist.
    NotFound,
    /// The record exists already.
    AlreadyExists,
    /// The pool's records contradict each other.
    InvalidState,
    /// The pool was not initialized.
    NotInitialized,
    /// The pool was initialized before.
    AlreadyInitialized,
    /// The role is not valid here.
    InvalidRole,
    /// No role is recorded.
    RoleNotFound,
    /// The calling component is not on the allowlist.
    NotTrustedContract,
    /// Liquidity would fall below the reservations.
    LiquidityViolation,
    /// A zero or negative amount.
    InvalidAmount,
    /// A balance would leave the range of the amount type.
    Overflow,
}

impl ContractError {
    /// The numeric code of each error, as published to callers.
    pub open spec fn code_spec(self) -> u32 {
        match self {
            ContractError::Unauthorized => 1,
            ContractError::Paused => 2,
            ContractError::InvalidInput => 3,
            ContractError::InsufficientFunds => 4,
            ContractError::NotFound => 5,
            ContractError::AlreadyExists => 6,
            ContractError::InvalidState => 7,
            ContractError::NotInitialized => 9,
            ContractError::AlreadyInitialized => 10,
            ContractError::InvalidRole => 11,
            ContractError::RoleNotFound => 12,
            ContractError::NotTrustedContract => 13,
            ContractError::LiquidityViolation => 100,
            ContractError::InvalidAmount => 103,
            ContractError::Overflow => 107,
        }
    }

    /// Returns the numeric code of this error.
    pub fn code(&self) -> (c: u32)
        ensures
            c == self.code_spec(),
    {
        match self {
            ContractError::Unauthorized => 1,
            ContractError::Paused => 2,
            ContractError::InvalidInput => 3,
            ContractError::InsufficientFunds => 4,
            ContractError::NotFound => 5,
            ContractError::AlreadyExists => 6,
            ContractError::InvalidState => 7,
            ContractError::NotInitialized => 9,
            ContractError::AlreadyInitialized => 10,
            ContractError::InvalidRole => 11,
            ContractError::RoleNotFound => 12,
            ContractError::NotTrustedContract => 13,
            ContractError::LiquidityViolation => 100,
            ContractError::InvalidAmount => 103,
            ContractError::Overflow => 107,
        }
    }

    /// The pool error that stands for an authorization error.
    pub open spec fn of_auth(err: AuthError) -> ContractError {
        match err {
            AuthError::Unauthorized => ContractError::Unauthorized,
            AuthError::InvalidRole => ContractError::InvalidRole,
            AuthError::RoleNotFound => ContractError::RoleNotFound,
            AuthError::NotTrustedContract => ContractError::NotTrustedContract,
            AuthError::AlreadyInitialized => ContractError::AlreadyInitialized,
        }
    }

    /// The pool error that stands for an invariant violation.
    pub open spec fn of_invariant(err: InvariantError) -> ContractError {
        match err {
            InvariantError::LiquidityViolation => ContractError::LiquidityViolation,
            InvariantError::InvalidAmount => ContractError::InvalidAmount,
            InvariantError::Overflow => ContractError::Overflow,
            _ => ContractError::InvalidState,
        }
    }
}

impl From<AuthError> for ContractError {
    fn from(err: AuthError) -> (r: ContractError) {
        match err {
            AuthError::Unauthorized => ContractError::Unauthorized,
            AuthError::InvalidRole => ContractError::InvalidRole,
            AuthError::RoleNotFound => ContractError::RoleNotFound,
            AuthError::NotTrustedContract => ContractError::NotTrustedContract,
            AuthError::AlreadyInitialized => ContractError::AlreadyInitialized,
        }
    }
}

impl vstd::std_specs::convert::FromSpecImpl<AuthError> for ContractError {
    open spec fn obeys_from_spec() -> bool {
        true
    }

    open spec fn from_spec(err: AuthError) -> ContractError {
        ContractError::of_auth(err)
    }
}

impl From<InvariantError> for ContractError {
    fn from(err: InvariantError) -> (r: ContractError) {
        match err {
            InvariantError::LiquidityViolation => ContractError::LiquidityViolation,
            InvariantError::InvalidAmount => ContractError::InvalidAmount,
            InvariantError::Overflow => ContractError::Overflow,
            _ => ContractError::InvalidState,
        }
    }
}

impl vstd::std_specs::convert::FromSpecImpl<InvariantError> for ContractError {
    open spec fn obeys_from_spec() -> bool {
        true
    }

    open spec fn from_spec(err: InvariantError) -> ContractError {
        ContractError::of_invariant(err)
    }
}

/// The pool's aggregate figures.
#[derive(Clone, Copy, Debug, PartialEq, Eq, Structural, Hash)]
pub struct PoolStats {
    /// Everything the pool holds, reserved or not.
    pub total_liquidity: i128,
    /// Everything the pool has paid out so far.
    pub total_paid_out: i128,
    /// The part of the liquidity that is earmarked for approved claims.
    pub reserved_total: i128,
    /// How many providers hold a stake.
    pub provider_count: u64,
}

/// The stake of one liquidity provider.
#[derive(Clone, Copy, Debug, PartialEq, Eq, Structural, Hash)]
pub struct ProviderStake {
    /// What the provider has paid in.
    pub principal: i128,
    /// The provider's stake, all deposits together.
    pub cumulative_stake: i128,
    /// When the provider made its first deposit.
    pub join_timestamp: u64,
}

/// Liquidity earmarked for one approved claim.
#[derive(Clone, Copy, Debug, PartialEq, Eq, Structural, Hash)]
pub struct ClaimReservation {
    /// The claim the liquidity is held for.
    pub claim_id: u64,
    /// How much is held.
    pub reserved_amount: i128,
}

/// The settings the pool was initialized with.
#[derive(Clone, Copy, Debug, PartialEq, Eq, Structural, Hash)]
pub struct PoolConfig {
    /// The token the pool holds its liquidity in.
    pub xlm_token: Address,
    /// The least stake a provider may hold after a deposit.
    pub min_provider_stake: i128,
}

/// A notification for the audit log, one per committed operation.
#[derive(Clone, Copy, Debug, PartialEq, Eq, Structural, Hash)]
pub enum PoolEvent {
    /// The pool was initialized by `admin`.
    Initialized { admin: Address },
    /// `provider` paid in `amount` and now holds `stake`.
    LiquidityDeposited { provider: Address, amount: i128, stake: i128 },
    /// `provider` took out `amount` and now holds `stake`.
    LiquidityWithdrawn { provider: Address, amount: i128, stake: i128 },
    /// `amount` was earmarked for `claim_id`; `reserved_total` is now held.
    LiquidityReserved { claim_id: u64, amount: i128, reserved_total: i128 },
    /// The reservation of `claim_id` is to be paid to `recipient`.
    ReservedClaimPayout { claim_id: u64, recipient: Address, amount: i128 },
    /// `amount` is to be paid to `recipient` outside the claims flow.
    ClaimPayout { recipient: Address, amount: i128 },
    /// `admin` paused the pool.
    Paused { admin: Address },
    /// `admin` resumed the pool.
    Unpaused { admin: Address },
    /// `admin` made `manager` a risk-pool manager.
    RoleGranted { manager: Address, admin: Address },
    /// `admin` reset `manager` to an ordinary user.
    RoleRevoked { manager: Address, admin: Address },
}

/// What a [`RiskPoolContract`] holds, as mathematical values.
pub struct PoolView {
    /// Roles and trusted components.
    pub auth: AuthView,
    /// The settings, once the pool was initialized.
    pub config: Option<PoolConfig>,
    /// Whether the pool is paused.
    pub paused: bool,
    /// The aggregate figures.
    pub stats: PoolStats,
    /// The stake of each provider.
    pub providers: Map<Address, ProviderStake>,
    /// The amount earmarked for each approved claim.
    pub reservations: Map<u64, i128>,
    /// The notifications that were not collected yet, oldest first.
    pub events: Seq<PoolEvent>,
}

impl PoolStats {
    /// The figures of a pool that holds nothing.
    pub open spec fn zero() -> PoolStats {
        PoolStats { total_liquidity: 0, total_paid_out: 0, reserved_total: 0, provider_count: 0 }
    }

    /// The liquidity that is not earmarked for any claim.
    pub open spec fn available(self) -> int {
        self.total_liquidity - self.reserved_total
    }
}

impl PoolView {
    /// The view of a pool on which nothing was done yet.
    pub open spec fn empty() -> PoolView {
        PoolView {
            auth: AuthView::empty(),
            config: None,
            paused: false,
            stats: PoolStats::zero(),
            providers: Map::empty(),
            reservations: Map::empty(),
            events: Seq::empty(),
        }
    }

    /// Liquidity preservation: the pool holds at least what it has earmarked.
    pub open spec fn liquidity_preserved(self) -> bool {
        self.stats.total_liquidity >= self.stats.reserved_total
    }

    /// What holds of the pool between any two operations: the liquidity
    /// covers the reserved total, the reserved total is the sum of the
    /// reservations, every reservation and every stake is positive, and the
    /// providers are counted.
    pub open spec fn consistent(self) -> bool {
        &&& self.liquidity_preserved()
        &&& self.stats.reserved_total >= 0
        &&& self.stats.total_paid_out >= 0
        &&& forall|id: u64| #[trigger]
            self.reservations.contains_key(id) ==> self.reservations[id] > 0
        &&& self.reservations.dom().finite()
        &&& self.stats.reserved_total == total_of(self.reservations)
        &&& forall|p: Address| #[trigger]
            self.providers.contains_key(p) ==> self.providers[p].cumulative_stake > 0
                && self.providers[p].principal == self.providers[p].cumulative_stake
        &&& self.providers.dom().finite()
        &&& self.stats.provider_count == self.providers.dom().len()
        &&& self.config.is_some() == self.auth.admin.is_some()
        &&& self.config.is_none() ==> self.stats == PoolStats::zero() && self.providers
            == Map::<Address, ProviderStake>::empty() && self.reservations == Map::<
            u64,
            i128,
        >::empty()
    }

    /// The view with one more notification in the log.
    pub open spec fn logged(self, event: PoolEvent) -> PoolView {
        PoolView { events: self.events.push(event), ..self }
    }

    /// What `initialize` does: it works once, with a positive minimum stake.
    pub open spec fn initialize(
        self,
        admin: Address,
        xlm_token: Address,
        min_provider_stake: i128,
        claims_contract: Address,
    ) -> Result<PoolView, ContractError> {
        if self.auth.admin.is_some() {
            Err(ContractError::AlreadyInitialized)
        } else if min_provider_stake <= 0 {
            Err(ContractError::InvalidInput)
        } else {
            Ok(
                PoolView {
                    auth: AuthView {
                        admin: Some(admin),
                        roles: self.auth.roles.insert(admin, Role::Admin),
                        trusted: self.auth.trusted.insert(claims_contract),
                    },
                    config: Some(PoolConfig { xlm_token, min_provider_stake }),
                    stats: PoolStats::zero(),
                    ..self
                }.logged(PoolEvent::Initialized { admin }),
            )
        }
    }

    /// The stake that `provider` holds; a provider that is not known yet
    /// holds nothing and would join at `now`.
    pub open spec fn stake_of(self, provider: Address, now: u64) -> ProviderStake {
        if self.providers.contains_key(provider) {
            self.providers[provider]
        } else {
            ProviderStake { principal: 0, cumulative_stake: 0, join_timestamp: now }
        }
    }

    /// What `deposit_liquidity` does: a positive amount that lifts the
    /// provider's stake to the minimum or above is added to the stake and to
    /// the pool's liquidity.
    pub open spec fn deposit(self, provider: Address, amount: i128, now: u64) -> Result<
        PoolView,
        ContractError,
    > {
        let known = self.providers.contains_key(provider);
        let prior = self.stake_of(provider, now);
        if self.paused {
            Err(ContractError::Paused)
        } else if amount <= 0 {
            Err(ContractError::InvalidAmount)
        } else if self.config.is_none() {
            Err(ContractError::NotInitialized)
        } else if prior.cumulative_stake + amount < self.config.unwrap().min_provider_stake {
            Err(ContractError::InvalidInput)
        } else if prior.cumulative_stake + amount > i128::MAX || prior.principal + amount
            > i128::MAX || self.stats.total_liquidity + amount > i128::MAX || (!known
            && self.stats.provider_count == u64::MAX) {
            Err(ContractError::Overflow)
        } else {
            Ok(
                PoolView {
                    stats: PoolStats {
                        total_liquidity: (self.stats.total_liquidity + amount) as i128,
                        provider_count: if known {
                            self.stats.provider_count
                        } else {
                            (self.stats.provider_count + 1) as u64
                        },
                        ..self.stats
                    },
                    providers: self.providers.insert(
                        provider,
                        ProviderStake {
                            principal: (prior.principal + amount) as i128,
                            cumulative_stake: (prior.cumulative_stake + amount) as i128,
                            join_timestamp: prior.join_timestamp,
                        },
                    ),
                    ..self
                }.logged(
                    PoolEvent::LiquidityDeposited {
                        provider,
                        amount,
                        stake: (prior.cumulative_stake + amount) as i128,
                    },
                ),
            )
        }
    }

    /// What `withdraw_liquidity` does: a provider takes a positive amount
    /// out of its stake and out of the liquidity that is not reserved; a
    /// provider whose stake reaches zero leaves the pool.
    pub open spec fn withdraw(self, provider: Address, amount: i128) -> Result<
        PoolView,
        ContractError,
    > {
        let prior = self.providers[provider];
        let rest = (prior.cumulative_stake - amount) as i128;
        if self.paused {
            Err(ContractError::Paused)
        } else if amount <= 0 {
            Err(ContractError::InvalidAmount)
        } else if self.config.is_none() {
            Err(ContractError::NotInitialized)
        } else if !self.providers.contains_key(provider) {
            Err(ContractError::NotFound)
        } else if prior.cumulative_stake < amount || self.stats.available() < amount {
            Err(ContractError::InsufficientFunds)
        } else {
            Ok(
                PoolView {
                    stats: PoolStats {
                        total_liquidity: (self.stats.total_liquidity - amount) as i128,
                        provider_count: if rest == 0 {
                            (self.stats.provider_count - 1) as u64
                        } else {
                            self.stats.provider_count
                        },
                        ..self.stats
                    },
                    providers: if rest == 0 {
                        self.providers.remove(provider)
                    } else {
                        self.providers.insert(
                            provider,
                            ProviderStake {
                                principal: rest,
                                cumulative_stake: rest,
                                join_timestamp: prior.join_timestamp,
                            },
                        )
                    },
                    ..self
                }.logged(PoolEvent::LiquidityWithdrawn { provider, amount, stake: rest }),
            )
        }
    }

    /// What `reserve_liquidity` does: a trusted component earmarks a
    /// positive amount, once per claim, out of what is still available.
    pub open spec fn reserve(self, caller_contract: Address, claim_id: u64, amount: i128) -> Result<
        PoolView,
        ContractError,
    > {
        if self.paused {
            Err(ContractError::Paused)
        } else if !self.auth.trusted.contains(caller_contract) {
            Err(ContractError::NotTrustedContract)
        } else if amount <= 0 {
            Err(ContractError::InvalidAmount)
        } else if self.reservations.contains_key(claim_id) {
            Err(ContractError::AlreadyExists)
        } else if self.config.is_none() {
            Err(ContractError::NotFound)
        } else if self.stats.available() < amount {
            Err(ContractError::InsufficientFunds)
        } else {
            Ok(
                PoolView {
                    stats: PoolStats {
                        reserved_total: (self.stats.reserved_total + amount) as i128,
                        ..self.stats
                    },
                    reservations: self.reservations.insert(claim_id, amount),
                    ..self
                }.logged(
                    PoolEvent::LiquidityReserved {
                        claim_id,
                        amount,
                        reserved_total: (self.stats.reserved_total + amount) as i128,
                    },
                ),
            )
        }
    }

    /// What `payout_reserved_claim` does: a trusted component consumes the
    /// reservation of a claim; the amount leaves both the liquidity and the
    /// reserved total and is added to what was paid out.
    pub open spec fn payout_reserved(
        self,
        caller_contract: Address,
        claim_id: u64,
        recipient: Address,
    ) -> Result<PoolView, ContractError> {
        let amount = self.reservations[claim_id];
        if self.paused {
            Err(ContractError::Paused)
        } else if !self.auth.trusted.contains(caller_contract) {
            Err(ContractError::NotTrustedContract)
        } else if self.config.is_none() {
            Err(ContractError::NotFound)
        } else if !self.reservations.contains_key(claim_id) {
            Err(ContractError::NotFound)
        } else if amount <= 0 || self.stats.reserved_total < amount {
            Err(ContractError::InvalidState)
        } else if self.stats.total_liquidity < amount {
            Err(ContractError::InsufficientFunds)
        } else if self.stats.total_paid_out + amount > i128::MAX {
            Err(ContractError::Overflow)
        } else {
            Ok(
                PoolView {
                    stats: PoolStats {
                        total_liquidity: (self.stats.total_liquidity - amount) as i128,
                        total_paid_out: (self.stats.total_paid_out + amount) as i128,
                        reserved_total: (self.stats.reserved_total - amount) as i128,
                        ..self.stats
                    },
                    reservations: self.reservations.remove(claim_id),
                    ..self
                }.logged(PoolEvent::ReservedClaimPayout { claim_id, recipient, amount }),
            )
        }
    }

    /// What `payout_claim` does: a manager pays a positive amount out of
    /// what is available, outside the claims flow.
    pub open spec fn payout(self, manager: Address, recipient: Address, amount: i128) -> Result<
        PoolView,
        ContractError,
    > {
        if self.paused {
            Err(ContractError::Paused)
        } else if !self.auth.role_of(manager).can_manage_risk_pool() {
            Err(ContractError::Unauthorized)
        } else if amount <= 0 {
            Err(ContractError::InvalidAmount)
        } else if self.config.is_none() {
            Err(ContractError::NotFound)
        } else if self.stats.available() < amount {
            Err(ContractError::InsufficientFunds)
        } else if self.stats.total_paid_out + amount > i128::MAX {
            Err(ContractError::Overflow)
        } else {
            Ok(
                PoolView {
                    stats: PoolStats {
                        total_liquidity: (self.stats.total_liquidity - amount) as i128,
                        total_paid_out: (self.stats.total_paid_out + amount) as i128,
                        ..self.stats
                    },
                    ..self
                }.logged(PoolEvent::ClaimPayout { recipient, amount }),
            )
        }
    }

    /// What `pause` and `unpause` do: an admin sets the switch.
    pub open spec fn set_paused(self, admin: Address, paused: bool) -> Result<
        PoolView,
        ContractError,
    > {
        if self.auth.role_of(admin) != Role::Admin {
            Err(ContractError::Unauthorized)
        } else {
            Ok(
                PoolView { paused, ..self }.logged(
                    if paused {
                        PoolEvent::Paused { admin }
                    } else {
                        PoolEvent::Unpaused { admin }
                    },
                ),
            )
        }
    }

    /// What `grant_manager_role` does: an admin makes `manager` a risk-pool
    /// manager.
    pub open spec fn grant_manager(self, admin: Address, manager: Address) -> Result<
        PoolView,
        ContractError,
    > {
        if self.auth.role_of(admin) != Role::Admin {
            Err(ContractError::Unauthorized)
        } else {
            Ok(
                PoolView {
                    auth: self.auth.with_role(manager, Role::RiskPoolManager),
                    ..self
                }.logged(PoolEvent::RoleGranted { manager, admin }),
            )
        }
    }

    /// What `revoke_manager_role` does: an admin resets another identity to
    /// an ordinary user.
    pub open spec fn revoke_manager(self, admin: Address, manager: Address) -> Result<
        PoolView,
        ContractError,
    > {
        if self.auth.role_of(admin) != Role::Admin || admin == manager {
            Err(ContractError::Unauthorized)
        } else {
            Ok(
                PoolView { auth: self.auth.with_role(manager, Role::User), ..self }.logged(
                    PoolEvent::RoleRevoked { manager, admin },
                ),
            )
        }
    }
}

/// Whether `r` and `after` are what an operation with the outcome `outcome`
/// leaves behind on a pool that showed `before`: on success the new view, on
/// failure the error and the old view.
pub open spec fn pool_committed(
    outcome: Result<PoolView, ContractError>,
    before: PoolView,
    after: PoolView,
    r: Result<(), ContractError>,
) -> bool {
    match outcome {
        Ok(v) => r == Ok::<(), ContractError>(()) && after == v,
        Err(e) => r == Err::<(), ContractError>(e) && after == before,
    }
}

/// Accepts a strictly positive amount and refuses any other with
/// `InvalidAmount`.
pub fn validate_amount(amount: i128) -> (r: Result<(), ContractError>)
    ensures
        amount > 0 ==> r == Ok::<(), ContractError>(()),
        amount <= 0 ==> r == Err::<(), ContractError>(ContractError::InvalidAmount),
{
    match ProtocolInvariants::amount_positive(amount) {
        Ok(()) => Ok(()),
        Err(e) => Err(ContractError::from(e)),
    }
}

/// Checks liquidity preservation on proposed figures: `LiquidityViolation`
/// exactly when the liquidity would fall below the reservations.
pub fn check_liquidity_invariant(stats: &PoolStats) -> (r: Result<(), ContractError>)
    ensures
        stats.total_liquidity >= stats.reserved_total ==> r == Ok::<(), ContractError>(()),
        stats.total_liquidity < stats.reserved_total ==> r == Err::<(), ContractError>(
            ContractError::LiquidityViolation,
        ),
{
    match ProtocolInvariants::liquidity_sufficient(stats.total_liquidity, stats.reserved_total) {
        Ok(()) => Ok(()),
        Err(e) => Err(ContractError::from(e)),
    }
}

/// The risk pool: its authorization state, its settings and its ledger.
#[derive(Debug)]
pub struct RiskPoolContract {
    auth: AuthStore,
    config: Option<PoolConfig>,
    paused: bool,
    stats: PoolStats,
    providers: Table<Address, ProviderStake>,
    reservations: Table<u64, i128>,
    events: Vec<PoolEvent>,
}

impl View for RiskPoolContract {
    type V = PoolView;

    closed spec fn view(&self) -> PoolView {
        PoolView {
            auth: self.auth@,
            config: self.config,
            paused: self.paused,
            stats: self.stats,
            providers: self.providers@,
            reservations: self.reservations@,
            events: self.events@,
        }
    }
}

impl RiskPoolContract {
    /// The representation invariant of the pool's tables.
    pub closed spec fn inv(&self) -> bool {
        self.auth.wf() && self.providers.wf() && self.reservations.wf()
    }

    /// A pool is well formed when its tables are and its view is consistent.
    pub open spec fn wf(&self) -> bool {
        self.inv() && self@.consistent()
    }

    /// A pool on which nothing was done yet.
    pub fn new() -> (pool: RiskPoolContract)
        ensures
            pool.wf(),
            pool@ == PoolView::empty(),
    {
        let pool = RiskPoolContract {
            auth: AuthStore::new(),
            config: None,
            paused: false,
            stats: PoolStats {
                total_liquidity: 0,
                total_paid_out: 0,
                reserved_total: 0,
                provider_count: 0,
            },
            providers: Table::new(),
            reservations: Table::new(),
            events: Vec::new(),
        };
        proof {
            assert(pool@.events =~= Seq::<PoolEvent>::empty());
            assert(pool@.reservations.dom() =~= Set::<u64>::empty());
            lemma_total_of_empty();
        }
        pool
    }

    /// Sets the pool up: `admin` becomes the protocol admin, `claims_contract`
    /// a trusted component, and the ledger starts at zero.
    ///
    /// Fails with `AlreadyInitialized` on a pool that has an admin and with
    /// `InvalidInput` on a minimum stake that is not positive.
    pub fn initialize(
        &mut self,
        admin: Address,
        xlm_token: Address,
        min_provider_stake: i128,
        claims_contract: Address,
    ) -> (r: Result<(), ContractError>)
        requires
            old(self).wf(),
        ensures
            final(self).wf(),
            pool_committed(
                old(self)@.initialize(admin, xlm_token, min_provider_stake, claims_contract),
                old(self)@,
                final(self)@,
                r,
            ),
    {
        if get_admin(&self.auth).is_some() {
            return Err(ContractError::AlreadyInitialized);
        }
        if min_provider_stake <= 0 {
            return Err(ContractError::InvalidInput);
        }
        match initialize_admin(&mut self.auth, admin) {
            Ok(()) => {},
            Err(e) => {
                return Err(ContractError::from(e));
            },
        }
        match register_trusted_contract(&mut self.auth, &admin, &claims_contract) {
            Ok(()) => {},
            Err(e) => {
                return Err(ContractError::from(e));
            },
        }
        self.config = Some(PoolConfig { xlm_token, min_provider_stake });
        self.events.push(PoolEvent::Initialized { admin });
        Ok(())
    }

    /// Adds `amount` to the stake of `provider` and to the pool's liquidity.
    /// `now` is the current time; it is recorded when the provider joins.
    ///
    /// Fails with `Paused` while the pool is paused, `InvalidAmount` unless
    /// the amount is positive, `NotInitialized` before `initialize`,
    /// `InvalidInput` if the resulting stake is below the minimum, and
    /// `Overflow` if a balance would leave the amount type.
    pub fn deposit_liquidity(&mut self, provider: Address, amount: i128, now: u64) -> (r: Result<
        (),
        ContractError,
    >)
        requires
            old(self).wf(),
        ensures
            final(self).wf(),
            pool_committed(
                old(self)@.deposit(provider, amount, now),
                old(self)@,
                final(self)@,
                r,
            ),
    {
        if self.paused {
            return Err(ContractError::Paused);
        }
        match validate_amount(amount) {
            Ok(()) => {},
            Err(e) => {
                return Err(e);
            },
        }
        let config = match self.config {
            Some(c) => c,
            None => {
                return Err(ContractError::NotInitialized);
            },
        };
        let (known, prior) = match self.providers.get(provider) {
            Some(p) => (true, *p),
            None => (false, ProviderStake { principal: 0, cumulative_stake: 0, join_timestamp: now }),
        };
        let stake = match safe_add(prior.cumulative_stake, amount) {
            Ok(v) => {
                if v < config.min_provider_stake {
                    return Err(ContractError::InvalidInput);
                }
                v
            },
            Err(e) => {
                return Err(ContractError::from(e));
            },
        };
        let principal = match safe_add(prior.principal, amount) {
            Ok(v) => v,
            Err(e) => {
                return Err(ContractError::from(e));
            },
        };
        let total_liquidity = match safe_add(self.stats.total_liquidity, amount) {
            Ok(v) => v,
            Err(e) => {
                return Err(ContractError::from(e));
            },
        };
        let provider_count = if known {
            self.stats.provider_count
        } else {
            match self.stats.provider_count.checked_add(1) {
                Some(v) => v,
                None => {
                    return Err(ContractError::Overflow);
                },
            }
        };
        let stats = PoolStats {
            total_liquidity,
            total_paid_out: self.stats.total_paid_out,
            reserved_total: self.stats.reserved_total,
            provider_count,
        };
        match check_liquidity_invariant(&stats) {
            Ok(()) => {},
            Err(e) => {
                return Err(e);
            },
        }
        proof {
            self.providers.lemma_finite();
        }
        self.providers.insert(
            provider,
            ProviderStake { principal, cumulative_stake: stake, join_timestamp: prior.join_timestamp },
        );
        self.stats = stats;
        self.events.push(PoolEvent::LiquidityDeposited { provider, amount, stake });
        Ok(())
    }

    /// Takes `amount` out of the stake of `provider` and out of the pool's
    /// liquidity. A provider whose stake reaches zero leaves the pool.
    ///
    /// Fails with `Paused` while the pool is paused, `InvalidAmount` unless
    /// the amount is positive, `NotInitialized` before `initialize`,
    /// `NotFound` if the provider holds no stake, and `InsufficientFunds` if
    /// the stake or the liquidity that is not reserved is below the amount.
    pub fn withdraw_liquidity(&mut self, provider: Address, amount: i128) -> (r: Result<
        (),
        ContractError,
    >)
        requires
            old(self).wf(),
        ensures
            final(self).wf(),
            pool_committed(old(self)@.withdraw(provider, amount), old(self)@, final(self)@, r),
    {
        if self.paused {
            return Err(ContractError::Paused);
        }
        match validate_amount(amount) {
            Ok(()) => {},
            Err(e) => {
                return Err(e);
            },
        }
        if self.config.is_none() {
            return Err(ContractError::NotInitialized);
        }
        let prior = match self.providers.get(provider) {
            Some(p) => *p,
            None => {
                return Err(ContractError::NotFound);
            },
        };
        if prior.cumulative_stake < amount {
            return Err(ContractError::InsufficientFunds);
        }
        let available = match safe_sub(self.stats.total_liquidity, self.stats.reserved_total) {
            Ok(v) => v,
            Err(e) => {
                return Err(ContractError::from(e));
            },
        };
        if available < amount {
            return Err(ContractError::InsufficientFunds);
        }
        let rest = prior.cumulative_stake - amount;
        let total_liquidity = self.stats.total_liquidity - amount;
        proof {
            assert(self@.providers.dom().contains(provider));
            assert(self@.providers.dom().len() >= 1) by {
                if self@.providers.dom().len() == 0 {
                    assert(self@.providers.dom() =~= Set::<Address>::empty());
                }
            }
        }
        let provider_count = if rest == 0 {
            self.stats.provider_count - 1
        } else {
            self.stats.provider_count
        };
        let stats = PoolStats {
            total_liquidity,
            total_paid_out: self.stats.total_paid_out,
            reserved_total: self.stats.reserved_total,
            provider_count,
        };
        match check_liquidity_invariant(&stats) {
            Ok(()) => {},
            Err(e) => {
                return Err(e);
            },
        }
        if rest == 0 {
            self.providers.remove(provider);
        } else {
            self.providers.insert(
                provider,
                ProviderStake {
                    principal: rest,
                    cumulative_stake: rest,
                    join_timestamp: prior.join_timestamp,
                },
            );
        }
        self.stats = stats;
        self.events.push(PoolEvent::LiquidityWithdrawn { provider, amount, stake: rest });
        Ok(())
    }

    /// The pool's aggregate figures; `NotFound` before `initialize`.
    pub fn get_pool_stats(&self) -> (r: Result<PoolStats, ContractError>)
        ensures
            self@.config.is_some() ==> r == Ok::<PoolStats, ContractError>(self@.stats),
            self@.config.is_none() ==> r == Err::<PoolStats, ContractError>(
                ContractError::NotFound,
            ),
    {
        if self.config.is_none() {
            return Err(ContractError::NotFound);
        }
        Ok(self.stats)
    }

    /// The stake of `provider`; `NotFound` if it never made a deposit.
    pub fn get_provider_info(&self, provider: Address) -> (r: Result<ProviderStake, ContractError>)
        requires
            self.wf(),
        ensures
            self@.providers.contains_key(provider) ==> r == Ok::<ProviderStake, ContractError>(
                self@.providers[provider],
            ),
            !self@.providers.contains_key(provider) ==> r == Err::<ProviderStake, ContractError>(
                ContractError::NotFound,
            ),
    {
        match self.providers.get(provider) {
            Some(p) => Ok(*p),
            None => Err(ContractError::NotFound),
        }
    }

    /// The reservation held for `claim_id`, if there is one.
    pub fn get_reservation(&self, claim_id: u64) -> (r: Option<ClaimReservation>)
        requires
            self.wf(),
        ensures
            self@.reservations.contains_key(claim_id) ==> r == Some(
                ClaimReservation { claim_id, reserved_amount: self@.reservations[claim_id] },
            ),
            !self@.reservations.contains_key(claim_id) ==> r.is_none(),
    {
        match self.reservations.get(claim_id) {
            Some(amount) => Some(ClaimReservation { claim_id, reserved_amount: *amount }),
            None => None,
        }
    }

    /// Earmarks `amount` for the claim `claim_id`, on behalf of the trusted
    /// component `caller_contract`.
    ///
    /// Fails with `Paused` while the pool is paused, `NotTrustedContract` if
    /// the caller is not on the allowlist, `InvalidAmount` unless the amount
    /// is positive, `AlreadyExists` if the claim has a reservation,
    /// `NotFound` before `initialize`, and `InsufficientFunds` if the
    /// liquidity that is not yet reserved is below the amount.
    pub fn reserve_liquidity(&mut self, caller_contract: Address, claim_id: u64, amount: i128) -> (r:
        Result<(), ContractError>)
        requires
            old(self).wf(),
        ensures
            final(self).wf(),
            pool_committed(
                old(self)@.reserve(caller_contract, claim_id, amount),
                old(self)@,
                final(self)@,
                r,
            ),
    {
        if self.paused {
            return Err(ContractError::Paused);
        }
        match require_trusted_contract(&self.auth, &caller_contract) {
            Ok(()) => {},
            Err(e) => {
                return Err(ContractError::from(e));
            },
        }
        match validate_amount(amount) {
            Ok(()) => {},
            Err(e) => {
                return Err(e);
            },
        }
        if self.reservations.contains_key(claim_id) {
            return Err(ContractError::AlreadyExists);
        }
        if self.config.is_none() {
            return Err(ContractError::NotFound);
        }
        let available = match safe_sub(self.stats.total_liquidity, self.stats.reserved_total) {
            Ok(v) => v,
            Err(e) => {
                return Err(ContractError::from(e));
            },
        };
        if available < amount {
            return Err(ContractError::InsufficientFunds);
        }
        let reserved_total = match safe_add(self.stats.reserved_total, amount) {
            Ok(v) => v,
            Err(e) => {
                return Err(ContractError::from(e));
            },
        };
        let stats = PoolStats {
            total_liquidity: self.stats.total_liquidity,
            total_paid_out: self.stats.total_paid_out,
            reserved_total,
            provider_count: self.stats.provider_count,
        };
        match check_liquidity_invariant(&stats) {
            Ok(()) => {},
            Err(e) => {
                return Err(e);
            },
        }
        proof {
            lemma_total_of_insert(self@.reservations, claim_id, amount);
        }
        self.reservations.insert(claim_id, amount);
        self.stats = stats;
        self.events.push(PoolEvent::LiquidityReserved { claim_id, amount, reserved_total });
        Ok(())
    }

    /// Consumes the reservation of `claim_id`, on behalf of the trusted
    /// component `caller_contract`: the reserved amount leaves the pool and
    /// is to be paid to `recipient`.
    ///
    /// Fails with `Paused` while the pool is paused, `NotTrustedContract` if
    /// the caller is not on the allowlist, `NotFound` before `initialize` or
    /// if the claim has no reservation, `InvalidState` if the reserved total
    /// is below the reservation, `InsufficientFunds` if the liquidity is, and
    /// `Overflow` if the paid-out total would leave the amount type.
    pub fn payout_reserved_claim(
        &mut self,
        caller_contract: Address,
        claim_id: u64,
        recipient: Address,
    ) -> (r: Result<(), ContractError>)
        requires
            old(self).wf(),
        ensures
            final(self).wf(),
            pool_committed(
                old(self)@.payout_reserved(caller_contract, claim_id, recipient),
                old(self)@,
                final(self)@,
                r,
            ),
    {
        if self.paused {
            return Err(ContractError::Paused);
        }
        match require_trusted_contract(&self.auth, &caller_contract) {
            Ok(()) => {},
            Err(e) => {
                return Err(ContractError::from(e));
            },
        }
        if self.config.is_none() {
            return Err(ContractError::NotFound);
        }
        let amount = match self.reservations.get(claim_id) {
            Some(a) => *a,
            None => {
                return Err(ContractError::NotFound);
            },
        };
        if amount <= 0 {
            return Err(ContractError::InvalidState);
        }
        if self.stats.reserved_total < amount {
            return Err(ContractError::InvalidState);
        }
        if self.stats.total_liquidity < amount {
            return Err(ContractError::InsufficientFunds);
        }
        let reserved_total = match safe_sub(self.stats.reserved_total, amount) {
            Ok(v) => v,
            Err(e) => {
                return Err(ContractError::from(e));
            },
        };
        let total_liquidity = match safe_sub(self.stats.total_liquidity, amount) {
            Ok(v) => v,
            Err(e) => {
                return Err(ContractError::from(e));
            },
        };
        let total_paid_out = match safe_add(self.stats.total_paid_out, amount) {
            Ok(v) => v,
            Err(e) => {
                return Err(ContractError::from(e));
            },
        };
        let stats = PoolStats {
            total_liquidity,
            total_paid_out,
            reserved_total,
            provider_count: self.stats.provider_count,
        };
        match check_liquidity_invariant(&stats) {
            Ok(()) => {},
            Err(e) => {
                return Err(e);
            },
        }
        proof {
            lemma_total_of_remove(self@.reservations, claim_id);
        }
        self.reservations.remove(claim_id);
        self.stats = stats;
        self.events.push(PoolEvent::ReservedClaimPayout { claim_id, recipient, amount });
        Ok(())
    }

    /// Pays `amount` to `recipient` outside the claims flow, on the word of
    /// a risk-pool manager or admin.
    ///
    /// Fails with `Paused` while the pool is paused, `Unauthorized` if
    /// `manager` may not manage the pool, `InvalidAmount` unless the amount
    /// is positive, `NotFound` before `initialize`, `InsufficientFunds` if
    /// the liquidity that is not reserved is below the amount, and `Overflow`
    /// if the paid-out total would leave the amount type.
    pub fn payout_claim(&mut self, manager: Address, recipient: Address, amount: i128) -> (r:
        Result<(), ContractError>)
        requires
            old(self).wf(),
        ensures
            final(self).wf(),
            pool_committed(
                old(self)@.payout(manager, recipient, amount),
                old(self)@,
                final(self)@,
                r,
            ),
    {
        if self.paused {
            return Err(ContractError::Paused);
        }
        match require_risk_pool_management(&self.auth, &manager) {
            Ok(()) => {},
            Err(e) => {
                return Err(ContractError::from(e));
            },
        }
        match validate_amount(amount) {
            Ok(()) => {},
            Err(e) => {
                return Err(e);
            },
        }
        if self.config.is_none() {
            return Err(ContractError::NotFound);
        }
        let available = match safe_sub(self.stats.total_liquidity, self.stats.reserved_total) {
            Ok(v) => v,
            Err(e) => {
                return Err(ContractError::from(e));
            },
        };
        if available < amount {
            return Err(ContractError::InsufficientFunds);
        }
        let total_liquidity = match safe_sub(self.stats.total_liquidity, amount) {
            Ok(v) => v,
            Err(e) => {
                return Err(ContractError::from(e));
            },
        };
        let total_paid_out = match safe_add(self.stats.total_paid_out, amount) {
            Ok(v) => v,
            Err(e) => {
                return Err(ContractError::from(e));
            },
        };
        let stats = PoolStats {
            total_liquidity,
            total_paid_out,
            reserved_total: self.stats.reserved_total,
            provider_count: self.stats.provider_count,
        };
        match check_liquidity_invariant(&stats) {
            Ok(()) => {},
            Err(e) => {
                return Err(e);
            },
        }
        self.stats = stats;
        self.events.push(PoolEvent::ClaimPayout { recipient, amount });
        Ok(())
    }

    /// Whether the pool is paused.
    pub fn is_paused(&self) -> (r: bool)
        ensures
            r == self@.paused,
    {
        self.paused
    }

    /// Pauses the pool. Only an admin may do so.
    pub fn pause(&mut self, admin: Address) -> (r: Result<(), ContractError>)
        requires
            old(self).wf(),
        ensures
            final(self).wf(),
            pool_committed(old(self)@.set_paused(admin, true), old(self)@, final(self)@, r),
    {
        match require_admin(&self.auth, &admin) {
            Ok(()) => {},
            Err(e) => {
                return Err(ContractError::from(e));
            },
        }
        self.paused = true;
        self.events.push(PoolEvent::Paused { admin });
        Ok(())
    }

    /// Resumes the pool. Only an admin may do so.
    pub fn unpause(&mut self, admin: Address) -> (r: Result<(), ContractError>)
        requires
            old(self).wf(),
        ensures
            final(self).wf(),
            pool_committed(old(self)@.set_paused(admin, false), old(self)@, final(self)@, r),
    {
        match require_admin(&self.auth, &admin) {
            Ok(()) => {},
            Err(e) => {
                return Err(ContractError::from(e));
            },
        }
        self.paused = false;
        self.events.push(PoolEvent::Unpaused { admin });
        Ok(())
    }

    /// Makes `manager` a risk-pool manager. Only an admin may do so.
    pub fn grant_manager_role(&mut self, admin: Address, manager: Address) -> (r: Result<
        (),
        ContractError,
    >)
        requires
            old(self).wf(),
        ensures
            final(self).wf(),
            pool_committed(old(self)@.grant_manager(admin, manager), old(self)@, final(self)@, r),
    {
        match require_admin(&self.auth, &admin) {
            Ok(()) => {},
            Err(e) => {
                return Err(ContractError::from(e));
            },
        }
        match grant_role(&mut self.auth, &admin, &manager, Role::RiskPoolManager) {
            Ok(()) => {},
            Err(e) => {
                return Err(ContractError::from(e));
            },
        }
        self.events.push(PoolEvent::RoleGranted { manager, admin });
        Ok(())
    }

    /// Resets `manager` to an ordinary user. Only an admin may do so, and
    /// not on itself.
    pub fn revoke_manager_role(&mut self, admin: Address, manager: Address) -> (r: Result<
        (),
        ContractError,
    >)
        requires
            old(self).wf(),
        ensures
            final(self).wf(),
            pool_committed(old(self)@.revoke_manager(admin, manager), old(self)@, final(self)@, r),
    {
        match require_admin(&self.auth, &admin) {
            Ok(()) => {},
            Err(e) => {
                return Err(ContractError::from(e));
            },
        }
        match revoke_role(&mut self.auth, &admin, &manager) {
            Ok(()) => {},
            Err(e) => {
                return Err(ContractError::from(e));
            },
        }
        self.events.push(PoolEvent::RoleRevoked { manager, admin });
        Ok(())
    }

    /// The role of `address` in the pool.
    pub fn get_user_role(&self, address: Address) -> (r: Role)
        requires
            self.wf(),
        ensures
            r == self@.auth.role_of(address),
    {
        get_role(&self.auth, &address)
    }

    /// Hands out the notifications logged since the last call, oldest
    /// first, and empties the log.
    pub fn take_events(&mut self) -> (events: Vec<PoolEvent>)
        requires
            old(self).wf(),
        ensures
            final(self).wf(),
            events@ == old(self)@.events,
            final(self)@ == (PoolView { events: Seq::empty(), ..old(self)@ }),
    {
        let mut events: Vec<PoolEvent> = Vec::new();
        core::mem::swap(&mut self.events, &mut events);
        assert(self@.events =~= Seq::<PoolEvent>::empty());
        events
    }
}

/// The contents of a [`RiskPoolContract`] as plain lists, for keeping them
/// outside the program. Notifications are not part of it.
#[derive(Debug)]
pub struct PoolSnapshot {
    /// Roles and trusted components.
    pub auth: AuthSnapshot,
    /// The settings, once the pool was initialized.
    pub config: Option<PoolConfig>,
    /// Whether the pool is paused.
    pub paused: bool,
    /// The aggregate figures.
    pub stats: PoolStats,
    /// The stake of each provider, one entry per provider.
    pub providers: Vec<(Address, ProviderStake)>,
    /// The amount earmarked for each claim, one entry per claim.
    pub reservations: Vec<(u64, i128)>,
}

impl PoolSnapshot {
    /// Whether the snapshot lists exactly what `view` holds, and `view` has
    /// no notifications waiting.
    pub open spec fn lists(&self, view: PoolView) -> bool {
        &&& self.auth.lists(view.auth)
        &&& self.config == view.config
        &&& self.paused == view.paused
        &&& self.stats == view.stats
        &&& lists_map(self.providers@, view.providers)
        &&& lists_map(self.reservations@, view.reservations)
        &&& view.events == Seq::<PoolEvent>::empty()
    }
}

impl RiskPoolContract {
    /// Lists what the pool holds, but for the notifications.
    pub fn snapshot(&self) -> (s: PoolSnapshot)
        requires
            self.wf(),
        ensures
            s.lists(PoolView { events: Seq::empty(), ..self@ }),
    {
        PoolSnapshot {
            auth: self.auth.snapshot(),
            config: self.config,
            paused: self.paused,
            stats: self.stats,
            providers: self.providers.to_entries(),
            reservations: self.reservations.to_entries(),
        }
    }

    /// Decides whether the pool's view is consistent.
    fn is_consistent(&self) -> (r: bool)
        requires
            self.inv(),
        ensures
            r == self@.consistent(),
    {
        let held = self.providers.len();
        if self.stats.total_liquidity < self.stats.reserved_total || self.stats.reserved_total < 0
            || self.stats.total_paid_out < 0 {
            return false;
        }
        if self.stats.provider_count != held as u64 {
            return false;
        }
        if self.config.is_some() != get_admin(&self.auth).is_some() {
            return false;
        }
        if self.config.is_none() {
            let earmarked = self.reservations.len();
            if held != 0 || earmarked != 0 || self.stats.total_liquidity != 0
                || self.stats.total_paid_out != 0 || self.stats.reserved_total != 0
                || self.stats.provider_count != 0 {
                assert(held != 0 ==> self@.providers.dom().len() != 0);
                assert(earmarked != 0 ==> self@.reservations.dom().len() != 0);
                return false;
            }
            assert(self@.providers.dom() =~= Set::<Address>::empty());
            assert(self@.providers =~= Map::<Address, ProviderStake>::empty());
            assert(self@.reservations.dom() =~= Set::<u64>::empty());
            assert(self@.reservations =~= Map::<u64, i128>::empty());
        }
        let staked = self.providers.to_entries();
        let mut n: usize = 0;
        while n < staked.len()
            invariant
                n <= staked@.len(),
                lists_map(staked@, self@.providers),
                forall|k: int|
                    0 <= k < n ==> (#[trigger] staked@[k]).1.cumulative_stake > 0
                        && staked@[k].1.principal == staked@[k].1.cumulative_stake,
            decreases staked@.len() - n,
        {
            if staked[n].1.cumulative_stake <= 0 || staked[n].1.principal
                != staked[n].1.cumulative_stake {
                assert(self@.providers.contains_key(staked@[n as int].0));
                return false;
            }
            n += 1;
        }
        assert forall|p: Address| #[trigger] self@.providers.contains_key(p) implies self@.providers[p].cumulative_stake
            > 0 && self@.providers[p].principal == self@.providers[p].cumulative_stake by {
            let k = choose|k: int| 0 <= k < staked@.len() && (#[trigger] staked@[k]).0 == p;
            assert(self@.providers[staked@[k].0] == staked@[k].1);
        }
        let reserved = self.reservations.to_entries();
        let mut i: usize = 0;
        while i < reserved.len()
            invariant
                i <= reserved@.len(),
                lists_map(reserved@, self@.reservations),
                forall|k: int| 0 <= k < i ==> (#[trigger] reserved@[k]).1 > 0,
            decreases reserved@.len() - i,
        {
            if reserved[i].1 <= 0 {
                assert(self@.reservations.contains_key(reserved@[i as int].0));
                return false;
            }
            i += 1;
        }
        assert forall|id: u64| #[trigger] self@.reservations.contains_key(id) implies self@.reservations[id]
            > 0 by {
            let k = choose|k: int| 0 <= k < reserved@.len() && (#[trigger] reserved@[k]).0 == id;
            assert(self@.reservations[reserved@[k].0] == reserved@[k].1);
        }
        proof {
            lemma_total_of_listed(reserved@, self@.reservations);
        }
        let mut sum: i128 = 0;
        let mut j: usize = 0;
        while j < reserved.len()
            invariant
                j <= reserved@.len(),
                forall|k: int| 0 <= k < reserved@.len() ==> (#[trigger] reserved@[k]).1 > 0,
                sum == listed_total(reserved@.take(j as int)),
                0 <= sum <= self.stats.reserved_total,
                self@.reservations.dom().finite(),
                total_of(self@.reservations) == listed_total(reserved@),
            decreases reserved@.len() - j,
        {
            proof {
                assert(reserved@.take(j + 1).drop_last() =~= reserved@.take(j as int));
                assert(reserved@.take(j + 1).last() == reserved@[j as int]);
                lemma_listed_total_grows(reserved@, j + 1);
            }
            if reserved[j].1 > self.stats.reserved_total - sum {
                return false;
            }
            sum = sum + reserved[j].1;
            j += 1;
        }
        assert(reserved@.take(j as int) =~= reserved@);
        sum == self.stats.reserved_total
    }

    /// Builds the pool that `snapshot` lists.
    ///
    /// Fails with `InvalidState` if the snapshot names a key twice in one of
    /// its lists or if what it lists is not consistent: a pool is rebuilt
    /// only in a state that its operations could have left.
    pub fn restore(snapshot: PoolSnapshot) -> (r: Result<RiskPoolContract, ContractError>)
        ensures
            match r {
                Ok(pool) => pool.wf() && snapshot.lists(pool@),
                Err(e) => e == ContractError::InvalidState && forall|view: PoolView|
                    snapshot.lists(view) ==> !view.consistent(),
            },
    {
        let PoolSnapshot { auth, config, paused, stats, providers, reservations } = snapshot;
        let auth = match AuthStore::restore(auth) {
            Some(a) => a,
            None => {
                return Err(ContractError::InvalidState);
            },
        };
        let providers = match Table::from_entries(providers) {
            Some(t) => t,
            None => {
                return Err(ContractError::InvalidState);
            },
        };
        let reservations = match Table::from_entries(reservations) {
            Some(t) => t,
            None => {
                return Err(ContractError::InvalidState);
            },
        };
        let pool = RiskPoolContract {
            auth,
            config,
            paused,
            stats,
            providers,
            reservations,
            events: Vec::new(),
        };
        assert(pool@.events =~= Seq::<PoolEvent>::empty());
        if !pool.is_consistent() {
            proof {
                assert forall|view: PoolView| snapshot.lists(view) implies !view.consistent() by {
                    lemma_listed_pool_unique(snapshot, view, pool@);
                }
            }
            return Err(ContractError::InvalidState);
        }
        Ok(pool)
    }
}

/// A snapshot determines the pool it lists.
pub proof fn lemma_listed_pool_unique(snapshot: PoolSnapshot, a: PoolView, b: PoolView)
    requires
        snapshot.lists(a),
        snapshot.lists(b),
    ensures
        a == b,
{
    lemma_listed_auth_unique(snapshot.auth, a.auth, b.auth);
    lemma_listed_map_unique(snapshot.providers@, a.providers, b.providers);
    lemma_listed_map_unique(snapshot.reservations@, a.reservations, b.reservations);
}

/// One operation on the pool, with its arguments.
pub enum PoolOperation {
    /// `initialize`
    Initialize {
        admin: Address,
        xlm_token: Address,
        min_provider_stake: i128,
        claims_contract: Address,
    },
    /// `deposit_liquidity`
    Deposit { provider: Address, amount: i128, now: u64 },
    /// `withdraw_liquidity`
    Withdraw { provider: Address, amount: i128 },
    /// `reserve_liquidity`
    Reserve { caller_contract: Address, claim_id: u64, amount: i128 },
    /// `payout_reserved_claim`
    PayoutReserved { caller_contract: Address, claim_id: u64, recipient: Address },
    /// `payout_claim`
    Payout { manager: Address, recipient: Address, amount: i128 },
    /// `pause`
    Pause { admin: Address },
    /// `unpause`
    Unpause { admin: Address },
    /// `grant_manager_role`
    GrantManager { admin: Address, manager: Address },
    /// `revoke_manager_role`
    RevokeManager { admin: Address, manager: Address },
}

impl PoolView {
    /// The outcome of one operation.
    pub open spec fn outcome(self, op: PoolOperation) -> Result<PoolView, ContractError> {
        match op {
            PoolOperation::Initialize { admin, xlm_token, min_provider_stake, claims_contract } =>
                self.initialize(admin, xlm_token, min_provider_stake, claims_contract),
            PoolOperation::Deposit { provider, amount, now } => self.deposit(provider, amount, now),
            PoolOperation::Withdraw { provider, amount } => self.withdraw(provider, amount),
            PoolOperation::Reserve { caller_contract, claim_id, amount } => self.reserve(
                caller_contract,
                claim_id,
                amount,
            ),
            PoolOperation::PayoutReserved { caller_contract, claim_id, recipient } =>
                self.payout_reserved(caller_contract, claim_id, recipient),
            PoolOperation::Payout { manager, recipient, amount } => self.payout(
                manager,
                recipient,
                amount,
            ),
            PoolOperation::Pause { admin } => self.set_paused(admin, true),
            PoolOperation::Unpause { admin } => self.set_paused(admin, false),
            PoolOperation::GrantManager { admin, manager } => self.grant_manager(admin, manager),
            PoolOperation::RevokeManager { admin, manager } => self.revoke_manager(admin, manager),
        }
    }

    /// The pool after one operation: what the operation commits, or the
    /// pool as it was if the operation is refused.
    pub open spec fn after(self, op: PoolOperation) -> PoolView {
        match self.outcome(op) {
            Ok(v) => v,
            Err(_) => self,
        }
    }

    /// The pool after a sequence of operations.
    pub open spec fn after_all(self, ops: Seq<PoolOperation>) -> PoolView
        decreases ops.len(),
    {
        if ops.len() == 0 {
            self
        } else {
            self.after_all(ops.drop_last()).after(ops.last())
        }
    }
}

/// Every operation, committed or refused, leaves a consistent pool
/// consistent.
pub proof fn lemma_operation_keeps_consistency(before: PoolView, op: PoolOperation)
    requires
        before.consistent(),
    ensures
        before.after(op).consistent(),
{
    match op {
        PoolOperation::Deposit { provider, amount, now } => {
            if before.deposit(provider, amount, now).is_ok() {
                let after = before.deposit(provider, amount, now).unwrap();
                assert(after.providers.dom() =~= before.providers.dom().insert(provider));
            }
        },
        PoolOperation::Withdraw { provider, amount } => {
            if before.withdraw(provider, amount).is_ok() {
                let after = before.withdraw(provider, amount).unwrap();
                assert(before.providers.dom().contains(provider));
                if before.providers[provider].cumulative_stake == amount {
                    assert(after.providers.dom() =~= before.providers.dom().remove(provider));
                } else {
                    assert(after.providers.dom() =~= before.providers.dom().insert(provider));
                }
            }
        },
        PoolOperation::Initialize { admin, xlm_token, min_provider_stake, claims_contract } => {},
        PoolOperation::Reserve { caller_contract, claim_id, amount } => {
            if before.reserve(caller_contract, claim_id, amount).is_ok() {
                lemma_total_of_insert(before.reservations, claim_id, amount);
            }
        },
        PoolOperation::PayoutReserved { caller_contract, claim_id, recipient } => {
            if before.payout_reserved(caller_contract, claim_id, recipient).is_ok() {
                lemma_total_of_remove(before.reservations, claim_id);
            }
        },
        PoolOperation::Payout { manager, recipient, amount } => {},
        PoolOperation::Pause { admin } => {},
        PoolOperation::Unpause { admin } => {},
        PoolOperation::GrantManager { admin, manager } => {},
        PoolOperation::RevokeManager { admin, manager } => {},
    }
}

/// Liquidity preservation: whatever operations are tried on a consistent
/// pool, in whatever order and with whatever arguments, the pool stays
/// consistent, and in particular its liquidity never falls below its
/// reservations.
pub proof fn lemma_liquidity_always_preserved(start: PoolView, ops: Seq<PoolOperation>)
    requires
        start.consistent(),
    ensures
        start.after_all(ops).consistent(),
        start.after_all(ops).stats.total_liquidity >= start.after_all(ops).stats.reserved_total,
    decreases ops.len(),
{
    if ops.len() > 0 {
        lemma_liquidity_always_preserved(start, ops.drop_last());
        lemma_operation_keeps_consistency(start.after_all(ops.drop_last()), ops.last());
    }
}

/// A pool on which nothing was done yet is consistent.
pub proof fn lemma_empty_pool_consistent()
    ensures
        PoolView::empty().consistent(),
{
    assert(PoolView::empty().providers.dom() =~= Set::<Address>::empty());
    assert(PoolView::empty().reservations.dom() =~= Set::<u64>::empty());
    lemma_total_of_empty();
}

/// Reservation is exactly once per claim: after a reservation for a claim
/// was committed, every further one for that claim is refused, and a
/// refused operation changes nothing, so the reserved total stays. The
/// refusal is `AlreadyExists` for a trusted caller with a positive amount
/// while the pool is not paused; other calls are turned away earlier.
pub proof fn lemma_reservation_exactly_once(
    before: PoolView,
    caller_contract: Address,
    claim_id: u64,
    amount: i128,
    second_caller: Address,
    second_amount: i128,
)
    requires
        before.consistent(),
        before.reserve(caller_contract, claim_id, amount).is_ok(),
    ensures
        ({
            let reserved = before.reserve(caller_contract, claim_id, amount).unwrap();
            let again = PoolOperation::Reserve {
                caller_contract: second_caller,
                claim_id,
                amount: second_amount,
            };
            &&& reserved.reservations.contains_key(claim_id)
            &&& reserved.reservations[claim_id] == amount
            &&& reserved.stats.reserved_total == before.stats.reserved_total + amount
            &&& reserved.outcome(again).is_err()
            &&& reserved.after(again) == reserved
            &&& reserved.auth.trusted.contains(second_caller) && second_amount > 0
                ==> reserved.outcome(again) == Err::<PoolView, ContractError>(
                ContractError::AlreadyExists,
            )
        }),
{
}

/// A reservation is consumed exactly once: after the payout of a claim's
/// reservation was committed, the claim has none, and a second payout for
/// it is refused.
pub proof fn lemma_reservation_consumed_once(
    before: PoolView,
    caller_contract: Address,
    claim_id: u64,
    recipient: Address,
    second_caller: Address,
    second_recipient: Address,
)
    requires
        before.consistent(),
        before.payout_reserved(caller_contract, claim_id, recipient).is_ok(),
    ensures
        ({
            let paid = before.payout_reserved(caller_contract, claim_id, recipient).unwrap();
            let amount = before.reservations[claim_id];
            &&& !paid.reservations.contains_key(claim_id)
            &&& paid.stats.total_liquidity == before.stats.total_liquidity - amount
            &&& paid.stats.reserved_total == before.stats.reserved_total - amount
            &&& paid.stats.total_paid_out == before.stats.total_paid_out + amount
            &&& paid.payout_reserved(second_caller, claim_id, second_recipient).is_err()
        }),
{
}

/// What is earmarked is there: in a consistent pool every reservation is
/// covered by the reserved total and so by the liquidity, and the payout of
/// a reservation on the word of a trusted component is refused only while
/// the pool is paused or if the paid-out total would leave the amount type.
pub proof fn lemma_reservation_can_be_paid(
    pool: PoolView,
    caller_contract: Address,
    claim_id: u64,
    recipient: Address,
)
    requires
        pool.consistent(),
        pool.reservations.contains_key(claim_id),
    ensures
        0 < pool.reservations[claim_id] <= pool.stats.reserved_total
            <= pool.stats.total_liquidity,
        pool.config.is_some(),
        !pool.paused && pool.auth.trusted.contains(caller_contract) && pool.stats.total_paid_out
            + pool.reservations[claim_id] <= i128::MAX ==> pool.payout_reserved(
            caller_contract,
            claim_id,
            recipient,
        ).is_ok(),
{
    lemma_total_of_bounds(pool.reservations);
}

} // verus!
