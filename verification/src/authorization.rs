//! Role-based access control and the registry of trusted components.
//!
//! Every identity holds exactly one role; an identity that was never given
//! one is a `User`. Besides the roles the store keeps the protocol admin and
//! the set of components that may make privileged cross-component calls.

use crate::table::{
    lemma_listed_map_unique, lemma_listed_set_unique, lists_map, lists_set, KeySet, Table,
};
use crate::types::Address;
use vstd::prelude::*;

verus! {

/// The protocol's roles. They do not combine: an identity holds one of them.
#[derive(Clone, Copy, Debug, PartialEq, Eq, Structural, Hash)]
pub enum Role {
    /// Root administrator with full access.
    Admin,
    /// Governance participant.
    Governance,
    /// May handle liquidity operations.
    RiskPoolManager,
    /// May create and manage policies.
    PolicyManager,
    /// May review, approve, reject and settle claims.
    ClaimProcessor,
    /// Policyholder, liquidity provider or anyone else.
    User,
}

/// Why an authorization request was refused.
#[derive(Clone, Copy, Debug, PartialEq, Eq, Structural, Hash)]
pub enum AuthError {
    /// The caller's role does not allow the action.
    Unauthorized,
    /// The role is not valid here.
    InvalidRole,
    /// No role is recorded.
    RoleNotFound,
    /// The calling component is not on the allowlist.
    NotTrustedContract,
    /// The admin was already set.
    AlreadyInitialized,
}

impl Role {
    /// Only `Admin` may take administrative actions.
    pub open spec fn spec_can_admin(&self) -> bool {
        *self == Role::Admin
    }

    /// `Admin` and `PolicyManager` may manage policies.
    pub open spec fn spec_can_manage_policies(&self) -> bool {
        *self == Role::Admin || *self == Role::PolicyManager
    }

    /// `Admin` and `ClaimProcessor` may process claims.
    pub open spec fn spec_can_process_claims(&self) -> bool {
        *self == Role::Admin || *self == Role::ClaimProcessor
    }

    /// `Admin` and `RiskPoolManager` may manage the risk pool.
    pub open spec fn spec_can_manage_risk_pool(&self) -> bool {
        *self == Role::Admin || *self == Role::RiskPoolManager
    }

    /// `Admin` and `Governance` may take part in governance.
    pub open spec fn spec_can_govern(&self) -> bool {
        *self == Role::Admin || *self == Role::Governance
    }

    /// Everyone but a `ClaimProcessor` may file a claim.
    pub open spec fn spec_can_submit_claim(&self) -> bool {
        *self != Role::ClaimProcessor
    }

    /// Whether this role may take administrative actions.
    #[verifier::when_used_as_spec(spec_can_admin)]
    pub fn can_admin(&self) -> (r: bool)
        ensures
            r == self.spec_can_admin(),
    {
        matches!(self, Role::Admin)
    }

    /// Whether this role may manage policies.
    #[verifier::when_used_as_spec(spec_can_manage_policies)]
    pub fn can_manage_policies(&self) -> (r: bool)
        ensures
            r == self.spec_can_manage_policies(),
    {
        matches!(self, Role::Admin | Role::PolicyManager)
    }

    /// Whether this role may process claims.
    #[verifier::when_used_as_spec(spec_can_process_claims)]
    pub fn can_process_claims(&self) -> (r: bool)
        ensures
            r == self.spec_can_process_claims(),
    {
        matches!(self, Role::Admin | Role::ClaimProcessor)
    }

    /// Whether this role may manage the risk pool.
    #[verifier::when_used_as_spec(spec_can_manage_risk_pool)]
    pub fn can_manage_risk_pool(&self) -> (r: bool)
        ensures
            r == self.spec_can_manage_risk_pool(),
    {
        matches!(self, Role::Admin | Role::RiskPoolManager)
    }

    /// Whether this role may take part in governance.
    #[verifier::when_used_as_spec(spec_can_govern)]
    pub fn can_govern(&self) -> (r: bool)
        ensures
            r == self.spec_can_govern(),
    {
        matches!(self, Role::Admin | Role::Governance)
    }

    /// Whether this role may file a claim. Processors may not file their own.
    #[verifier::when_used_as_spec(spec_can_submit_claim)]
    pub fn can_submit_claim(&self) -> (r: bool)
        ensures
            r == self.spec_can_submit_claim(),
    {
        !matches!(self, Role::ClaimProcessor)
    }
}

/// What an [`AuthStore`] holds, as mathematical values.
pub struct AuthView {
    /// The protocol admin, once it was set.
    pub admin: Option<Address>,
    /// The roles that were assigned.
    pub roles: Map<Address, Role>,
    /// The components on the allowlist.
    pub trusted: Set<Address>,
}

impl AuthView {
    /// The role of `address`: the assigned one, or `User` if none was.
    pub open spec fn role_of(self, address: Address) -> Role {
        if self.roles.contains_key(address) {
            self.roles[address]
        } else {
            Role::User
        }
    }

    /// The view after `role` was assigned to `target`.
    pub open spec fn with_role(self, target: Address, role: Role) -> AuthView {
        AuthView { admin: self.admin, roles: self.roles.insert(target, role), trusted: self.trusted }
    }

    /// The view of a store in which nothing was set yet.
    pub open spec fn empty() -> AuthView {
        AuthView { admin: None, roles: Map::empty(), trusted: Set::empty() }
    }
}

/// The authorization state of one component.
#[derive(Debug)]
pub struct AuthStore {
    admin: Option<Address>,
    roles: Table<Address, Role>,
    trusted: KeySet<Address>,
}

impl View for AuthStore {
    type V = AuthView;

    closed spec fn view(&self) -> AuthView {
        AuthView {
            admin: self.admin,
            roles: self.roles@,
            trusted: self.trusted@,
        }
    }
}

impl AuthStore {
    /// The representation invariant of the store.
    pub closed spec fn wf(&self) -> bool {
        self.roles.wf() && self.trusted.wf()
    }

    /// A store with no admin, no roles and no trusted components.
    pub fn new() -> (s: AuthStore)
        ensures
            s.wf(),
            s@ == AuthView::empty(),
    {
        AuthStore { admin: None, roles: Table::new(), trusted: KeySet::new() }
    }
}

/// The contents of an [`AuthStore`] as plain lists, for keeping them
/// outside the program.
#[derive(Debug)]
pub struct AuthSnapshot {
    /// The protocol admin, once it was set.
    pub admin: Option<Address>,
    /// The roles that were assigned, one entry per identity.
    pub roles: Vec<(Address, Role)>,
    /// The components on the allowlist, each once.
    pub trusted: Vec<Address>,
}

impl AuthSnapshot {
    /// Whether the snapshot lists exactly what `view` holds.
    pub open spec fn lists(&self, view: AuthView) -> bool {
        &&& self.admin == view.admin
        &&& lists_map(self.roles@, view.roles)
        &&& lists_set(self.trusted@, view.trusted)
    }
}

impl AuthStore {
    /// Lists what the store holds.
    pub fn snapshot(&self) -> (s: AuthSnapshot)
        requires
            self.wf(),
        ensures
            s.lists(self@),
    {
        AuthSnapshot {
            admin: self.admin,
            roles: self.roles.to_entries(),
            trusted: self.trusted.to_keys(),
        }
    }

    /// Builds the store that `snapshot` lists. `None` if the snapshot names
    /// an identity twice among the roles or among the trusted components.
    pub fn restore(snapshot: AuthSnapshot) -> (r: Option<AuthStore>)
        ensures
            match r {
                Some(store) => store.wf() && snapshot.lists(store@),
                None => forall|view: AuthView| !snapshot.lists(view),
            },
    {
        let AuthSnapshot { admin, roles, trusted } = snapshot;
        let roles = match Table::from_entries(roles) {
            Some(t) => t,
            None => {
                return None;
            },
        };
        let trusted = match KeySet::from_keys(trusted) {
            Some(t) => t,
            None => {
                return None;
            },
        };
        let store = AuthStore { admin, roles, trusted };
        Some(store)
    }
}

/// Sets the protocol admin and gives that identity the `Admin` role.
///
/// This works once: on a store that already has an admin it fails with
/// `AlreadyInitialized` and changes nothing.
pub fn initialize_admin(store: &mut AuthStore, admin: Address) -> (r: Result<(), AuthError>)
    requires
        old(store).wf(),
    ensures
        final(store).wf(),
        old(store)@.admin.is_none() ==> r.is_ok() && final(store)@ == (AuthView {
            admin: Some(admin),
            roles: old(store)@.roles.insert(admin, Role::Admin),
            trusted: old(store)@.trusted,
        }),
        old(store)@.admin.is_some() ==> r == Err::<(), AuthError>(AuthError::AlreadyInitialized)
            && final(store)@ == old(store)@,
{
    if store.admin.is_some() {
        return Err(AuthError::AlreadyInitialized);
    }
    store.admin = Some(admin);
    store.roles.insert(admin, Role::Admin);
    Ok(())
}

/// The protocol admin, if one was set.
pub fn get_admin(store: &AuthStore) -> (r: Option<Address>)
    ensures
        r == store@.admin,
{
    store.admin
}

/// The role of `address`; `User` where none was assigned.
pub fn get_role(store: &AuthStore, address: &Address) -> (r: Role)
    requires
        store.wf(),
    ensures
        r == store@.role_of(*address),
{
    match store.roles.get(*address) {
        Some(role) => *role,
        None => Role::User,
    }
}

/// Whether `address` holds exactly `required_role`.
pub fn has_role(store: &AuthStore, address: &Address, required_role: Role) -> (r: bool)
    requires
        store.wf(),
    ensures
        r == (store@.role_of(*address) == required_role),
{
    let user_role = get_role(store, address);
    user_role == required_role
}

/// Succeeds if `address` holds exactly `required_role`, else `Unauthorized`.
pub fn require_role(store: &AuthStore, address: &Address, required_role: Role) -> (r: Result<
    (),
    AuthError,
>)
    requires
        store.wf(),
    ensures
        store@.role_of(*address) == required_role ==> r == Ok::<(), AuthError>(()),
        store@.role_of(*address) != required_role ==> r == Err::<(), AuthError>(
            AuthError::Unauthorized,
        ),
{
    let user_role = get_role(store, address);
    if user_role == required_role {
        Ok(())
    } else {
        Err(AuthError::Unauthorized)
    }
}

/// Succeeds if `address` is an `Admin`, else `Unauthorized`.
pub fn require_admin(store: &AuthStore, address: &Address) -> (r: Result<(), AuthError>)
    requires
        store.wf(),
    ensures
        store@.role_of(*address) == Role::Admin ==> r == Ok::<(), AuthError>(()),
        store@.role_of(*address) != Role::Admin ==> r == Err::<(), AuthError>(
            AuthError::Unauthorized,
        ),
{
    require_role(store, address, Role::Admin)
}

/// Gives `target` the role `role`. Only an `Admin` may do so; any other
/// caller gets `Unauthorized` and nothing changes.
pub fn grant_role(store: &mut AuthStore, caller: &Address, target: &Address, role: Role) -> (r:
    Result<(), AuthError>)
    requires
        old(store).wf(),
    ensures
        final(store).wf(),
        old(store)@.role_of(*caller) == Role::Admin ==> r == Ok::<(), AuthError>(())
            && final(store)@ == old(store)@.with_role(*target, role),
        old(store)@.role_of(*caller) != Role::Admin ==> r == Err::<(), AuthError>(
            AuthError::Unauthorized,
        ) && final(store)@ == old(store)@,
{
    require_role(store, caller, Role::Admin)?;
    store.roles.insert(*target, role);
    Ok(())
}

/// Resets `target` to `User`. Only an `Admin` may do so, and not on itself:
/// a caller that is no admin, or that names itself, gets `Unauthorized` and
/// nothing changes.
pub fn revoke_role(store: &mut AuthStore, caller: &Address, target: &Address) -> (r: Result<
    (),
    AuthError,
>)
    requires
        old(store).wf(),
    ensures
        final(store).wf(),
        old(store)@.role_of(*caller) == Role::Admin && *caller != *target ==> r == Ok::<
            (),
            AuthError,
        >(()) && final(store)@ == old(store)@.with_role(*target, Role::User),
        old(store)@.role_of(*caller) != Role::Admin || *caller == *target ==> r == Err::<
            (),
            AuthError,
        >(AuthError::Unauthorized) && final(store)@ == old(store)@,
{
    require_role(store, caller, Role::Admin)?;
    if *caller == *target {
        return Err(AuthError::Unauthorized);
    }
    store.roles.insert(*target, Role::User);
    Ok(())
}

/// Whether the role of `address` is one of `roles`.
pub fn has_any_role(store: &AuthStore, address: &Address, roles: &[Role]) -> (r: bool)
    requires
        store.wf(),
    ensures
        r == roles@.contains(store@.role_of(*address)),
{
    let user_role = get_role(store, address);
    let mut i: usize = 0;
    while i < roles.len()
        invariant
            i <= roles@.len(),
            user_role == store@.role_of(*address),
            forall|k: int| 0 <= k < i ==> roles@[k] != user_role,
        decreases roles@.len() - i,
    {
        if roles[i] == user_role {
            assert(roles@[i as int] == user_role);
            return true;
        }
        i += 1;
    }
    false
}

/// Succeeds if the role of `address` is one of `roles`, else `Unauthorized`.
pub fn require_any_role(store: &AuthStore, address: &Address, roles: &[Role]) -> (r: Result<
    (),
    AuthError,
>)
    requires
        store.wf(),
    ensures
        roles@.contains(store@.role_of(*address)) ==> r == Ok::<(), AuthError>(()),
        !roles@.contains(store@.role_of(*address)) ==> r == Err::<(), AuthError>(
            AuthError::Unauthorized,
        ),
{
    if has_any_role(store, address, roles) {
        Ok(())
    } else {
        Err(AuthError::Unauthorized)
    }
}

/// Succeeds if `address` may manage policies, else `Unauthorized`.
pub fn require_policy_management(store: &AuthStore, address: &Address) -> (r: Result<
    (),
    AuthError,
>)
    requires
        store.wf(),
    ensures
        store@.role_of(*address).can_manage_policies() ==> r == Ok::<(), AuthError>(()),
        !store@.role_of(*address).can_manage_policies() ==> r == Err::<(), AuthError>(
            AuthError::Unauthorized,
        ),
{
    let role = get_role(store, address);
    if role.can_manage_policies() {
        Ok(())
    } else {
        Err(AuthError::Unauthorized)
    }
}

/// Succeeds if `address` may process claims, else `Unauthorized`.
pub fn require_claim_processing(store: &AuthStore, address: &Address) -> (r: Result<
    (),
    AuthError,
>)
    requires
        store.wf(),
    ensures
        store@.role_of(*address).can_process_claims() ==> r == Ok::<(), AuthError>(()),
        !store@.role_of(*address).can_process_claims() ==> r == Err::<(), AuthError>(
            AuthError::Unauthorized,
        ),
{
    let role = get_role(store, address);
    if role.can_process_claims() {
        Ok(())
    } else {
        Err(AuthError::Unauthorized)
    }
}

/// Succeeds if `address` may manage the risk pool, else `Unauthorized`.
pub fn require_risk_pool_management(store: &AuthStore, address: &Address) -> (r: Result<
    (),
    AuthError,
>)
    requires
        store.wf(),
    ensures
        store@.role_of(*address).can_manage_risk_pool() ==> r == Ok::<(), AuthError>(()),
        !store@.role_of(*address).can_manage_risk_pool() ==> r == Err::<(), AuthError>(
            AuthError::Unauthorized,
        ),
{
    let role = get_role(store, address);
    if role.can_manage_risk_pool() {
        Ok(())
    } else {
        Err(AuthError::Unauthorized)
    }
}

/// Succeeds if `address` may take part in governance, else `Unauthorized`.
pub fn require_governance_permission(store: &AuthStore, address: &Address) -> (r: Result<
    (),
    AuthError,
>)
    requires
        store.wf(),
    ensures
        store@.role_of(*address).can_govern() ==> r == Ok::<(), AuthError>(()),
        !store@.role_of(*address).can_govern() ==> r == Err::<(), AuthError>(
            AuthError::Unauthorized,
        ),
{
    let role = get_role(store, address);
    if role.can_govern() {
        Ok(())
    } else {
        Err(AuthError::Unauthorized)
    }
}

/// Puts `contract_address` on the allowlist. Only an `Admin` may do so.
pub fn register_trusted_contract(
    store: &mut AuthStore,
    caller: &Address,
    contract_address: &Address,
) -> (r: Result<(), AuthError>)
    requires
        old(store).wf(),
    ensures
        final(store).wf(),
        old(store)@.role_of(*caller) == Role::Admin ==> r == Ok::<(), AuthError>(())
            && final(store)@ == (AuthView {
            admin: old(store)@.admin,
            roles: old(store)@.roles,
            trusted: old(store)@.trusted.insert(*contract_address),
        }),
        old(store)@.role_of(*caller) != Role::Admin ==> r == Err::<(), AuthError>(
            AuthError::Unauthorized,
        ) && final(store)@ == old(store)@,
{
    require_admin(store, caller)?;
    store.trusted.insert(*contract_address);
    Ok(())
}

/// Takes `contract_address` off the allowlist. Only an `Admin` may do so.
pub fn unregister_trusted_contract(
    store: &mut AuthStore,
    caller: &Address,
    contract_address: &Address,
) -> (r: Result<(), AuthError>)
    requires
        old(store).wf(),
    ensures
        final(store).wf(),
        old(store)@.role_of(*caller) == Role::Admin ==> r == Ok::<(), AuthError>(())
            && final(store)@ == (AuthView {
            admin: old(store)@.admin,
            roles: old(store)@.roles,
            trusted: old(store)@.trusted.remove(*contract_address),
        }),
        old(store)@.role_of(*caller) != Role::Admin ==> r == Err::<(), AuthError>(
            AuthError::Unauthorized,
        ) && final(store)@ == old(store)@,
{
    require_admin(store, caller)?;
    store.trusted.remove(*contract_address);
    Ok(())
}

/// Whether `contract_address` is on the allowlist.
pub fn is_trusted_contract(store: &AuthStore, contract_address: &Address) -> (r: bool)
    requires
        store.wf(),
    ensures
        r == store@.trusted.contains(*contract_address),
{
    store.trusted.contains(*contract_address)
}

/// Succeeds if `contract_address` is on the allowlist, else
/// `NotTrustedContract`.
pub fn require_trusted_contract(store: &AuthStore, contract_address: &Address) -> (r: Result<
    (),
    AuthError,
>)
    requires
        store.wf(),
    ensures
        store@.trusted.contains(*contract_address) ==> r == Ok::<(), AuthError>(()),
        !store@.trusted.contains(*contract_address) ==> r == Err::<(), AuthError>(
            AuthError::NotTrustedContract,
        ),
{
    if is_trusted_contract(store, contract_address) {
        Ok(())
    } else {
        Err(AuthError::NotTrustedContract)
    }
}

/// The role check of a privileged operation: succeeds if `caller` holds
/// exactly `required_role`, else `Unauthorized`. The caller's identity must
/// have been verified before this is called.
pub fn verify_and_require_role(store: &AuthStore, caller: &Address, required_role: Role) -> (r:
    Result<(), AuthError>)
    requires
        store.wf(),
    ensures
        store@.role_of(*caller) == required_role ==> r == Ok::<(), AuthError>(()),
        store@.role_of(*caller) != required_role ==> r == Err::<(), AuthError>(
            AuthError::Unauthorized,
        ),
{
    require_role(store, caller, required_role)
}

/// The permission check of a privileged operation: applies
/// `permission_check` to the role of `caller` and succeeds if it says yes,
/// else `Unauthorized`. The caller's identity must have been verified before
/// this is called.
pub fn verify_and_check_permission<F>(store: &AuthStore, caller: &Address, permission_check: F) -> (r:
    Result<(), AuthError>) where F: Fn(&Role) -> bool
    requires
        store.wf(),
        forall|role: Role| permission_check.requires((&role,)),
    ensures
        r.is_ok() ==> permission_check.ensures((&store@.role_of(*caller),), true),
        r.is_err() ==> r == Err::<(), AuthError>(AuthError::Unauthorized)
            && permission_check.ensures((&store@.role_of(*caller),), false),
{
    let role = get_role(store, caller);
    if permission_check(&role) {
        Ok(())
    } else {
        Err(AuthError::Unauthorized)
    }
}

/// Revocation: an admin that names itself is refused and keeps its role;
/// an admin that names another identity resets it to `User`, whatever it
/// was, and from then on that identity is no admin and passes no check that
/// asks for one. Nobody else's role changes.
pub proof fn lemma_revocation(before: AuthView, caller: Address, target: Address)
    requires
        before.role_of(caller) == Role::Admin,
    ensures
        caller == target ==> before.role_of(target) == Role::Admin,
        caller != target ==> {
            let after = before.with_role(target, Role::User);
            &&& after.role_of(target) == Role::User
            &&& !after.role_of(target).can_admin()
            &&& after.role_of(caller) == Role::Admin
            &&& forall|other: Address|
                other != target ==> after.role_of(other) == before.role_of(other)
        },
{
}

/// A snapshot determines the store it lists.
pub proof fn lemma_listed_auth_unique(snapshot: AuthSnapshot, a: AuthView, b: AuthView)
    requires
        snapshot.lists(a),
        snapshot.lists(b),
    ensures
        a == b,
{
    lemma_listed_map_unique(snapshot.roles@, a.roles, b.roles);
    lemma_listed_set_unique(snapshot.trusted@, a.trusted, b.trusted);
}

} // verus!
