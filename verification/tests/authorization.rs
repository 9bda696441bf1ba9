use insurance_protocol::authorization::{
    get_admin, get_role, grant_role, has_any_role, has_role, initialize_admin,
    is_trusted_contract, register_trusted_contract, require_admin, require_any_role,
    require_claim_processing, require_governance_permission, require_policy_management,
    require_risk_pool_management, require_role, require_trusted_contract, revoke_role,
    unregister_trusted_contract, verify_and_check_permission, verify_and_require_role,
    AuthError, AuthStore, Role,
};
use insurance_protocol::types::Address;

fn root() -> Address {
    Address::account(0, 1)
}

fn second_admin() -> Address {
    Address::account(0, 2)
}

fn someone() -> Address {
    Address::account(0, 3)
}

fn component() -> Address {
    Address::component(9, 9)
}

fn store_with_admin() -> AuthStore {
    let mut store = AuthStore::new();
    assert_eq!(initialize_admin(&mut store, root()), Ok(()));
    store
}

const ALL_ROLES: [Role; 6] = [
    Role::Admin,
    Role::Governance,
    Role::RiskPoolManager,
    Role::PolicyManager,
    Role::ClaimProcessor,
    Role::User,
];

#[test]
fn permission_matrix_admits_admin_and_one_specialist() {
    for role in ALL_ROLES {
        assert_eq!(role.can_admin(), role == Role::Admin);
        assert_eq!(
            role.can_manage_policies(),
            role == Role::Admin || role == Role::PolicyManager
        );
        assert_eq!(
            role.can_process_claims(),
            role == Role::Admin || role == Role::ClaimProcessor
        );
        assert_eq!(
            role.can_manage_risk_pool(),
            role == Role::Admin || role == Role::RiskPoolManager
        );
        assert_eq!(
            role.can_govern(),
            role == Role::Admin || role == Role::Governance
        );
        assert_eq!(role.can_submit_claim(), role != Role::ClaimProcessor);
    }
}

#[test]
fn initialize_admin_works_once() {
    let mut store = AuthStore::new();
    assert_eq!(get_admin(&store), None);
    assert_eq!(initialize_admin(&mut store, root()), Ok(()));
    assert_eq!(get_admin(&store), Some(root()));
    assert_eq!(get_role(&store, &root()), Role::Admin);

    assert_eq!(
        initialize_admin(&mut store, someone()),
        Err(AuthError::AlreadyInitialized)
    );
    assert_eq!(get_admin(&store), Some(root()));
    assert_eq!(get_role(&store, &someone()), Role::User);
}

#[test]
fn unset_role_is_user() {
    let store = AuthStore::new();
    assert_eq!(get_role(&store, &someone()), Role::User);
    assert!(has_role(&store, &someone(), Role::User));
    assert!(!has_role(&store, &someone(), Role::Admin));
    assert_eq!(require_role(&store, &someone(), Role::User), Ok(()));
}

#[test]
fn grant_role_needs_an_admin() {
    let mut store = store_with_admin();
    assert_eq!(
        grant_role(&mut store, &someone(), &someone(), Role::Admin),
        Err(AuthError::Unauthorized)
    );
    assert_eq!(get_role(&store, &someone()), Role::User);

    assert_eq!(
        grant_role(&mut store, &root(), &someone(), Role::ClaimProcessor),
        Ok(())
    );
    assert_eq!(get_role(&store, &someone()), Role::ClaimProcessor);

    // a role replaces the one held before
    assert_eq!(
        grant_role(&mut store, &root(), &someone(), Role::Governance),
        Ok(())
    );
    assert_eq!(get_role(&store, &someone()), Role::Governance);
    assert_eq!(get_role(&store, &root()), Role::Admin);
}

#[test]
fn admin_cannot_revoke_itself() {
    let mut store = store_with_admin();
    assert_eq!(
        revoke_role(&mut store, &root(), &root()),
        Err(AuthError::Unauthorized)
    );
    assert_eq!(get_role(&store, &root()), Role::Admin);
    assert_eq!(require_admin(&store, &root()), Ok(()));
}

#[test]
fn revoking_another_admin_resets_it_to_user() {
    let mut store = store_with_admin();
    assert_eq!(
        grant_role(&mut store, &root(), &second_admin(), Role::Admin),
        Ok(())
    );
    assert_eq!(require_admin(&store, &second_admin()), Ok(()));

    assert_eq!(revoke_role(&mut store, &root(), &second_admin()), Ok(()));
    assert_eq!(get_role(&store, &second_admin()), Role::User);
    assert_eq!(
        require_admin(&store, &second_admin()),
        Err(AuthError::Unauthorized)
    );
    // the revoked identity can no longer revoke or grant
    assert_eq!(
        revoke_role(&mut store, &second_admin(), &root()),
        Err(AuthError::Unauthorized)
    );
    assert_eq!(
        grant_role(&mut store, &second_admin(), &second_admin(), Role::Admin),
        Err(AuthError::Unauthorized)
    );
    assert_eq!(require_admin(&store, &root()), Ok(()));
}

#[test]
fn revoke_role_needs_an_admin() {
    let mut store = store_with_admin();
    assert_eq!(
        grant_role(&mut store, &root(), &someone(), Role::PolicyManager),
        Ok(())
    );
    assert_eq!(
        revoke_role(&mut store, &someone(), &root()),
        Err(AuthError::Unauthorized)
    );
    assert_eq!(get_role(&store, &root()), Role::Admin);
    assert_eq!(get_role(&store, &someone()), Role::PolicyManager);
}

#[test]
fn any_role_checks_membership() {
    let mut store = store_with_admin();
    assert_eq!(
        grant_role(&mut store, &root(), &someone(), Role::Governance),
        Ok(())
    );
    let wanted = [Role::PolicyManager, Role::Governance];
    assert!(has_any_role(&store, &someone(), &wanted));
    assert!(!has_any_role(&store, &root(), &wanted));
    assert!(!has_any_role(&store, &root(), &[]));
    assert_eq!(require_any_role(&store, &someone(), &wanted), Ok(()));
    assert_eq!(
        require_any_role(&store, &root(), &wanted),
        Err(AuthError::Unauthorized)
    );
}

#[test]
fn permission_requirements_follow_the_matrix() {
    let mut store = store_with_admin();
    for (n, role) in ALL_ROLES.into_iter().enumerate() {
        let who = Address::account(5, n as u128);
        assert_eq!(grant_role(&mut store, &root(), &who, role), Ok(()));
        let expect = |allowed: bool| {
            if allowed {
                Ok(())
            } else {
                Err(AuthError::Unauthorized)
            }
        };
        assert_eq!(
            require_policy_management(&store, &who),
            expect(role.can_manage_policies())
        );
        assert_eq!(
            require_claim_processing(&store, &who),
            expect(role.can_process_claims())
        );
        assert_eq!(
            require_risk_pool_management(&store, &who),
            expect(role.can_manage_risk_pool())
        );
        assert_eq!(
            require_governance_permission(&store, &who),
            expect(role.can_govern())
        );
        assert_eq!(
            verify_and_require_role(&store, &who, role),
            Ok(())
        );
        assert_eq!(
            verify_and_check_permission(&store, &who, |r: &Role| r.can_submit_claim()),
            expect(role.can_submit_claim())
        );
    }
    assert_eq!(
        verify_and_require_role(&store, &someone(), Role::Admin),
        Err(AuthError::Unauthorized)
    );
}

#[test]
fn trusted_contracts_are_registered_by_admins_only() {
    let mut store = store_with_admin();
    assert!(!is_trusted_contract(&store, &component()));
    assert_eq!(
        require_trusted_contract(&store, &component()),
        Err(AuthError::NotTrustedContract)
    );

    assert_eq!(
        register_trusted_contract(&mut store, &someone(), &component()),
        Err(AuthError::Unauthorized)
    );
    assert!(!is_trusted_contract(&store, &component()));

    assert_eq!(
        register_trusted_contract(&mut store, &root(), &component()),
        Ok(())
    );
    assert!(is_trusted_contract(&store, &component()));
    assert_eq!(require_trusted_contract(&store, &component()), Ok(()));
    // an account with the same key is another identity
    assert!(!is_trusted_contract(&store, &Address::account(9, 9)));

    assert_eq!(
        unregister_trusted_contract(&mut store, &someone(), &component()),
        Err(AuthError::Unauthorized)
    );
    assert!(is_trusted_contract(&store, &component()));
    assert_eq!(
        unregister_trusted_contract(&mut store, &root(), &component()),
        Ok(())
    );
    assert!(!is_trusted_contract(&store, &component()));
}
