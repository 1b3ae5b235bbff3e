use drip::account::Account;
use drip::keys::{DataKey, RoleKey};
use drip::rbac::{
    admin_count, grant, has_role, require_role, require_role_or_admin, revoke, role_members,
    RbacError,
};
use soroban_sdk::address_payload::AddressPayload;
use soroban_sdk::testutils::{ContractFunctionSet, EnvTestConfig};
use soroban_sdk::{Address, Bytes, BytesN, Env, IntoVal, Symbol, Val};

/// A contract without entry points: the tests run in its frame.
struct Governor;

impl ContractFunctionSet for Governor {
    fn call(&self, _func: &str, _env: Env, _args: &[Val]) -> Option<Val> {
        None
    }
}

const ADMIN: u32 = 0;
const PAUSER: u32 = 1;

fn role_key(role: u32, account: &Account) -> DataKey {
    DataKey::Role(RoleKey { role, account: *account })
}

fn setup() -> (Env, Address) {
    let env = Env::new_with_config(EnvTestConfig { capture_snapshot_at_drop: false });
    env.mock_all_auths();
    let contract = env.register(Governor, ());
    (env, contract)
}

/// Runs the calls in one invocation of the contract.
fn invoke<T>(f: impl FnOnce(&mut Env) -> T) -> T {
    let (env, contract) = setup();
    let mut handle = env.clone();
    env.as_contract(&contract, || f(&mut handle))
}

fn grant_role(env: &mut Env, role: u32, account: &Account) -> bool {
    grant(
        env,
        &role_key(role, account),
        &DataKey::AdminCount,
        &DataKey::RoleMembers(role),
        role == ADMIN,
        account,
    )
}

fn revoke_role(env: &mut Env, role: u32, account: &Account) -> Result<bool, RbacError> {
    revoke(
        env,
        &role_key(role, account),
        &DataKey::AdminCount,
        &DataKey::RoleMembers(role),
        role == ADMIN,
        account,
    )
}

fn holds(env: &Env, role: u32, account: &Account) -> bool {
    has_role(env, &role_key(role, account))
}

fn admins(env: &Env) -> u32 {
    admin_count(env, &DataKey::AdminCount)
}

fn account(address: Address) -> Account {
    match address.to_payload().unwrap() {
        AddressPayload::AccountIdPublicKeyEd25519(id) => Account::Key(id.to_array()),
        AddressPayload::ContractIdHash(id) => Account::Contract(id.to_array()),
    }
}

fn address(env: &Env, account: &Account) -> Address {
    let payload = match account {
        Account::Key(id) => AddressPayload::AccountIdPublicKeyEd25519(BytesN::from_array(env, id)),
        Account::Contract(id) => AddressPayload::ContractIdHash(BytesN::from_array(env, id)),
    };
    Address::from_payload(env, payload)
}

fn members(env: &Env, role: u32) -> Vec<Account> {
    role_members(env, &DataKey::RoleMembers(role)).iter().map(account).collect()
}

const ALICE: Account = Account::Key([1; 32]);
const BOB: Account = Account::Contract([1; 32]);
const CAROL: Account = Account::Key([3; 32]);

#[test]
fn nothing_is_held_before_the_first_grant() {
    invoke(|env| {
        assert!(!holds(env, ADMIN, &ALICE));
        assert_eq!(admins(env), 0);
        assert_eq!(members(env, ADMIN), vec![]);
    });
}

#[test]
fn grant_marks_counts_and_indexes() {
    invoke(|env| {
        assert!(grant_role(env, ADMIN, &ALICE));
        assert!(grant_role(env, ADMIN, &BOB));
        assert!(holds(env, ADMIN, &ALICE));
        assert!(holds(env, ADMIN, &BOB));
        assert!(!holds(env, ADMIN, &CAROL));
        assert_eq!(admins(env), 2);
        assert_eq!(members(env, ADMIN), vec![ALICE, BOB]);
    });
}

#[test]
fn grant_is_idempotent() {
    invoke(|env| {
        assert!(grant_role(env, ADMIN, &ALICE));
        assert!(!grant_role(env, ADMIN, &ALICE));
        assert_eq!(admins(env), 1);
        assert_eq!(members(env, ADMIN), vec![ALICE]);
    });
}

#[test]
fn other_roles_are_not_counted() {
    invoke(|env| {
        assert!(grant_role(env, PAUSER, &ALICE));
        assert_eq!(admins(env), 0);
        assert_eq!(members(env, PAUSER), vec![ALICE]);
        assert_eq!(members(env, ADMIN), vec![]);
        assert!(!holds(env, ADMIN, &ALICE));
    });
}

#[test]
fn revoke_removes_mark_count_and_index() {
    invoke(|env| {
        grant_role(env, ADMIN, &ALICE);
        grant_role(env, ADMIN, &BOB);
        grant_role(env, ADMIN, &CAROL);
        assert_eq!(revoke_role(env, ADMIN, &BOB), Ok(true));
        assert!(!holds(env, ADMIN, &BOB));
        assert!(holds(env, ADMIN, &ALICE));
        assert_eq!(admins(env), 2);
        assert_eq!(members(env, ADMIN), vec![ALICE, CAROL]);
    });
}

#[test]
fn revoke_is_idempotent() {
    invoke(|env| {
        grant_role(env, PAUSER, &ALICE);
        assert_eq!(revoke_role(env, PAUSER, &BOB), Ok(false));
        assert_eq!(members(env, PAUSER), vec![ALICE]);
        assert_eq!(revoke_role(env, PAUSER, &ALICE), Ok(true));
        assert_eq!(revoke_role(env, PAUSER, &ALICE), Ok(false));
        assert_eq!(members(env, PAUSER), vec![]);
    });
}

#[test]
fn the_last_admin_is_kept() {
    invoke(|env| {
        grant_role(env, ADMIN, &ALICE);
        grant_role(env, ADMIN, &BOB);
        assert_eq!(revoke_role(env, ADMIN, &ALICE), Ok(true));
        assert_eq!(revoke_role(env, ADMIN, &BOB), Err(RbacError::LastAdmin));
        assert!(holds(env, ADMIN, &BOB));
        assert_eq!(admins(env), 1);
        assert_eq!(members(env, ADMIN), vec![BOB]);
    });
}

#[test]
fn the_last_holder_of_another_role_is_not_kept() {
    invoke(|env| {
        grant_role(env, PAUSER, &ALICE);
        assert_eq!(revoke_role(env, PAUSER, &ALICE), Ok(true));
        assert!(!holds(env, PAUSER, &ALICE));
    });
}

#[test]
fn revoke_undoes_grant() {
    invoke(|env| {
        grant_role(env, ADMIN, &ALICE);
        grant_role(env, PAUSER, &CAROL);
        grant_role(env, ADMIN, &BOB);
        assert_eq!(revoke_role(env, ADMIN, &BOB), Ok(true));
        assert!(!holds(env, ADMIN, &BOB));
        assert_eq!(admins(env), 1);
        assert_eq!(members(env, ADMIN), vec![ALICE]);
        assert_eq!(members(env, PAUSER), vec![CAROL]);
    });
}

#[test]
fn index_and_counter_follow_a_history() {
    invoke(|env| {
        for account in [ALICE, BOB, CAROL, ALICE] {
            grant_role(env, ADMIN, &account);
        }
        for account in [BOB, BOB, ALICE, CAROL] {
            let _ = revoke_role(env, ADMIN, &account);
        }
        grant_role(env, ADMIN, &ALICE);
        assert_eq!(members(env, ADMIN), vec![CAROL, ALICE]);
        assert_eq!(admins(env), 2);
        assert!(!holds(env, ADMIN, &BOB));
    });
}

#[test]
fn roles_follow_a_mixed_history() {
    invoke(|env| {
        assert!(grant_role(env, ADMIN, &ALICE));
        assert!(grant_role(env, PAUSER, &CAROL));
        assert!(grant_role(env, PAUSER, &ALICE));
        assert!(grant_role(env, ADMIN, &BOB));
        assert_eq!(revoke_role(env, PAUSER, &CAROL), Ok(true));
        assert_eq!(revoke_role(env, ADMIN, &ALICE), Ok(true));
        assert!(grant_role(env, PAUSER, &BOB));
        assert!(grant_role(env, PAUSER, &CAROL));
        assert_eq!(revoke_role(env, ADMIN, &BOB), Err(RbacError::LastAdmin));
        assert_eq!(members(env, PAUSER), vec![ALICE, BOB, CAROL]);
        assert_eq!(members(env, ADMIN), vec![BOB]);
        assert_eq!(admins(env), 1);
        assert!(holds(env, PAUSER, &ALICE));
        assert!(!holds(env, ADMIN, &ALICE));
    });
}

#[test]
fn a_second_grant_does_not_move_a_member() {
    invoke(|env| {
        for account in [CAROL, ALICE, BOB, CAROL] {
            grant_role(env, PAUSER, &account);
        }
        assert_eq!(members(env, PAUSER), vec![CAROL, ALICE, BOB]);
        assert_eq!(revoke_role(env, PAUSER, &CAROL), Ok(true));
        assert!(grant_role(env, PAUSER, &CAROL));
        assert_eq!(members(env, PAUSER), vec![ALICE, BOB, CAROL]);
    });
}

#[test]
fn roles_outlive_the_invocation() {
    let (env, contract) = setup();
    let mut handle = env.clone();
    env.as_contract(&contract, || grant_role(&mut handle, ADMIN, &ALICE));
    env.as_contract(&contract, || {
        assert!(holds(&env, ADMIN, &ALICE));
        assert_eq!(admins(&env), 1);
        assert_eq!(members(&env, ADMIN), vec![ALICE]);
    });
}

#[test]
fn values_are_stored_in_their_own_kinds() {
    invoke(|env| {
        grant_role(env, ADMIN, &ALICE);
        let instance = env.storage().instance();
        let key = |bytes: &[u8]| Bytes::from_slice(env, bytes);
        let mut role = vec![0, 0, 0, 0, 0, 0];
        role.extend_from_slice(&[1; 32]);
        assert_eq!(instance.get::<Bytes, bool>(&key(&role)), Some(true));
        assert_eq!(instance.get::<Bytes, u32>(&key(&[1])), Some(1));
        let stored: soroban_sdk::Vec<Address> = instance.get(&key(&[2, 0, 0, 0, 0])).unwrap();
        assert_eq!(stored.len(), 1);
    });
}

/// The keys of a contract that tags its entries with symbols: a role's mark, the admin
/// counter, and a role's index.
fn own_keys(env: &Env, account: &Account) -> (Val, Val, Val) {
    let tag = |name: &str| Symbol::new(env, name);
    (
        (tag("Role"), ADMIN, address(env, account)).into_val(env),
        tag("AdminCount").into_val(env),
        (tag("RoleMembers"), ADMIN).into_val(env),
    )
}

#[test]
fn roles_under_a_contracts_own_keys_are_found() {
    invoke(|env| {
        let (role, count, index) = own_keys(env, &CAROL);
        let stored = soroban_sdk::Vec::from_array(env, [address(env, &CAROL)]);
        env.storage().instance().set(&role, &true);
        env.storage().instance().set(&count, &1u32);
        env.storage().instance().set(&index, &stored);

        let (again, count_again, index_again) = own_keys(env, &CAROL);
        assert!(has_role(env, &again));
        assert_eq!(admin_count(env, &count_again), 1);
        assert_eq!(role_members(env, &index_again), stored);
        assert!(!grant(env, &again, &count, &index, true, &CAROL));
        assert_eq!(revoke(env, &again, &count, &index, true, &CAROL), Err(RbacError::LastAdmin));
        assert_eq!(require_role(env, &CAROL, &again, None::<fn(&mut Env)>), Ok(()));
    });
}

#[test]
fn roles_are_written_under_a_contracts_own_keys() {
    invoke(|env| {
        let (alice, count, index) = own_keys(env, &ALICE);
        let (bob, _, _) = own_keys(env, &BOB);
        assert!(grant(env, &alice, &count, &index, true, &ALICE));
        assert!(grant(env, &bob, &count, &index, true, &BOB));
        assert_eq!(env.storage().instance().get::<Val, bool>(&alice), Some(true));
        assert_eq!(env.storage().instance().get::<Val, u32>(&count), Some(2));
        let both = soroban_sdk::Vec::from_array(env, [address(env, &ALICE), address(env, &BOB)]);
        assert_eq!(env.storage().instance().get(&index), Some(both));
        assert_eq!(revoke(env, &alice, &count, &index, true, &ALICE), Ok(true));
        assert!(!env.storage().instance().has(&alice));
        assert_eq!(env.storage().instance().get::<Val, u32>(&count), Some(1));
    });
}

#[test]
fn a_grant_does_not_look_at_what_the_index_lists() {
    invoke(|env| {
        let (role, count, index) = own_keys(env, &ALICE);
        let odd: soroban_sdk::Vec<Val> = soroban_sdk::Vec::from_array(env, [7u32.into_val(env)]);
        env.storage().instance().set(&index, &odd);
        assert!(grant(env, &role, &count, &index, false, &ALICE));
        assert_eq!(role_members(env, &index).len(), 2);
        let stored: soroban_sdk::Vec<Val> = env.storage().instance().get(&index).unwrap();
        let first: u32 = stored.get(0).unwrap().into_val(env);
        assert_eq!(first, 7);
        let second: Address = stored.get(1).unwrap().into_val(env);
        assert_eq!(account(second), ALICE);
    });
}

#[test]
fn other_storage_is_untouched() {
    invoke(|env| {
        let (role, count, index) = own_keys(env, &ALICE);
        let bystander = Symbol::new(env, "Threshold");
        env.storage().instance().set(&bystander, &11u64);
        for key in [role, count, index] {
            env.storage().persistent().set(&key, &12u64);
            env.storage().temporary().set(&key, &13u64);
        }
        let (bob, _, _) = own_keys(env, &BOB);
        assert!(grant(env, &role, &count, &index, true, &ALICE));
        assert!(grant(env, &bob, &count, &index, true, &BOB));
        assert_eq!(require_role(env, &ALICE, &role, None::<fn(&mut Env)>), Ok(()));
        assert_eq!(
            require_role_or_admin(env, &BOB, &role, &bob, None::<fn(&mut Env)>),
            Ok(())
        );
        assert_eq!(revoke(env, &role, &count, &index, true, &ALICE), Ok(true));
        assert_eq!(env.storage().instance().get::<Symbol, u64>(&bystander), Some(11));
        for key in [role, count, index] {
            assert_eq!(env.storage().persistent().get::<Val, u64>(&key), Some(12));
            assert_eq!(env.storage().temporary().get::<Val, u64>(&key), Some(13));
        }
    });
}

#[test]
fn keys_spell_out_kind_role_and_account() {
    assert_eq!(DataKey::AdminCount.to_bytes(), vec![1]);
    assert_eq!(DataKey::RoleMembers(0x0102_0304).to_bytes(), vec![2, 4, 3, 2, 1]);
    let mut alice = vec![0, 1, 0, 0, 0, 0];
    alice.extend_from_slice(&[1; 32]);
    assert_eq!(role_key(PAUSER, &ALICE).to_bytes(), alice);
    let mut bob = vec![0, 1, 0, 0, 0, 1];
    bob.extend_from_slice(&[1; 32]);
    assert_eq!(role_key(PAUSER, &BOB).to_bytes(), bob);
}

#[test]
fn accounts_are_told_apart() {
    assert!(ALICE.same(&Account::Key([1; 32])));
    assert!(!ALICE.same(&BOB));
    assert!(!BOB.same(&ALICE));
    assert!(!ALICE.same(&CAROL));
    let mut id = [1; 32];
    id[31] = 2;
    assert!(!BOB.same(&Account::Contract(id)));
    assert!(Account::Contract(id).same(&Account::Contract(id)));
}

fn pass_any(env: &mut Env, caller: &Account, role: u32) -> Result<(), RbacError> {
    require_role_or_admin(
        env,
        caller,
        &role_key(role, caller),
        &role_key(ADMIN, caller),
        None::<fn(&mut Env)>,
    )
}

fn pass_exact(env: &mut Env, caller: &Account, role: u32) -> Result<(), RbacError> {
    require_role(env, caller, &role_key(role, caller), None::<fn(&mut Env)>)
}

/// Runs the calls after `ALICE` became an admin and `BOB` a pauser.
fn staffed<T>(f: impl FnOnce(&mut Env) -> T) -> T {
    invoke(|env| {
        grant_role(env, ADMIN, &ALICE);
        grant_role(env, PAUSER, &BOB);
        f(env)
    })
}

#[test]
fn the_role_lets_the_caller_pass() {
    assert_eq!(staffed(|env| pass_any(env, &BOB, PAUSER)), Ok(()));
    assert_eq!(staffed(|env| pass_exact(env, &BOB, PAUSER)), Ok(()));
}

#[test]
fn an_admin_passes_for_any_role() {
    assert_eq!(staffed(|env| pass_any(env, &ALICE, PAUSER)), Ok(()));
}

#[test]
fn an_admin_does_not_stand_in_for_the_exact_role() {
    assert_eq!(
        staffed(|env| pass_exact(env, &ALICE, PAUSER)),
        Err(RbacError::NotAuthorized)
    );
    assert_eq!(staffed(|env| pass_exact(env, &ALICE, ADMIN)), Ok(()));
}

#[test]
fn others_are_turned_away() {
    assert_eq!(staffed(|env| pass_any(env, &CAROL, PAUSER)), Err(RbacError::NotAuthorized));
    assert_eq!(staffed(|env| pass_any(env, &BOB, ADMIN)), Err(RbacError::NotAuthorized));
    assert_eq!(staffed(|env| pass_exact(env, &BOB, ADMIN)), Err(RbacError::NotAuthorized));
}

#[test]
fn a_revoked_role_no_longer_lets_the_caller_pass() {
    let outcome = staffed(|env| {
        assert_eq!(revoke_role(env, PAUSER, &BOB), Ok(true));
        pass_any(env, &BOB, PAUSER)
    });
    assert_eq!(outcome, Err(RbacError::NotAuthorized));
}

#[test]
fn the_callback_runs_on_success_only() {
    let bump = |env: &mut Env| {
        grant_role(env, PAUSER, &CAROL);
    };
    staffed(|env| {
        let key = role_key(PAUSER, &BOB);
        assert_eq!(require_role(env, &BOB, &key, Some(bump)), Ok(()));
        assert_eq!(members(env, PAUSER), vec![BOB, CAROL]);
    });
    staffed(|env| {
        let key = role_key(PAUSER, &ALICE);
        assert_eq!(require_role(env, &ALICE, &key, Some(bump)), Err(RbacError::NotAuthorized));
        assert_eq!(members(env, PAUSER), vec![BOB]);
    });
    staffed(|env| {
        let role = role_key(PAUSER, &ALICE);
        let admin = role_key(ADMIN, &ALICE);
        assert_eq!(require_role_or_admin(env, &ALICE, &role, &admin, Some(bump)), Ok(()));
        assert_eq!(members(env, PAUSER), vec![BOB, CAROL]);
    });
    staffed(|env| {
        let role = role_key(PAUSER, &CAROL);
        let admin = role_key(ADMIN, &CAROL);
        assert_eq!(
            require_role_or_admin(env, &CAROL, &role, &admin, Some(bump)),
            Err(RbacError::NotAuthorized)
        );
        assert_eq!(members(env, PAUSER), vec![BOB]);
    });
}

/// The accounts that were asked for their authorization while the calls ran, after
/// `ALICE` became an admin and `BOB` a pauser.
fn asked(f: impl FnOnce(&mut Env)) -> Vec<Account> {
    let (env, contract) = setup();
    let mut handle = env.clone();
    env.as_contract(&contract, || {
        grant_role(&mut handle, ADMIN, &ALICE);
        grant_role(&mut handle, PAUSER, &BOB);
        f(&mut handle)
    });
    env.auths().into_iter().map(|(address, _)| account(address)).collect()
}

#[test]
fn the_caller_is_asked_for_authorization() {
    assert_eq!(asked(|env| assert_eq!(pass_any(env, &BOB, PAUSER), Ok(()))), vec![BOB]);
    assert_eq!(asked(|env| assert_eq!(pass_any(env, &ALICE, PAUSER), Ok(()))), vec![ALICE]);
    assert_eq!(asked(|env| assert_eq!(pass_exact(env, &BOB, PAUSER), Ok(()))), vec![BOB]);
}

#[test]
fn a_caller_who_is_turned_away_is_asked_too() {
    let refused = Err(RbacError::NotAuthorized);
    assert_eq!(asked(|env| assert_eq!(pass_any(env, &CAROL, PAUSER), refused)), vec![CAROL]);
    assert_eq!(asked(|env| assert_eq!(pass_exact(env, &ALICE, PAUSER), refused)), vec![ALICE]);
}

#[test]
fn the_callback_may_ask_others() {
    let bump = |env: &mut Env| address(env, &CAROL).require_auth();
    let order = asked(|env| {
        let key = role_key(PAUSER, &BOB);
        assert_eq!(require_role(env, &BOB, &key, Some(bump)), Ok(()));
    });
    assert_eq!(order.len(), 2);
    assert!(order.contains(&BOB) && order.contains(&CAROL));
}

#[test]
fn grants_and_revocations_ask_nobody() {
    let nobody = asked(|env| {
        assert!(grant_role(env, ADMIN, &CAROL));
        assert_eq!(revoke_role(env, ADMIN, &ALICE), Ok(true));
    });
    assert_eq!(nobody, vec![]);
}

/// Whether a check that the caller passes ends the invocation when the caller did not
/// authorize it.
fn ends_unauthorized(check: fn(&mut Env, &Account, u32) -> Result<(), RbacError>) -> bool {
    let env = Env::new_with_config(EnvTestConfig { capture_snapshot_at_drop: false });
    let contract = env.register(Governor, ());
    let mut handle = env.clone();
    env.as_contract(&contract, || grant_role(&mut handle, PAUSER, &BOB));
    let outcome = env.try_as_contract::<(), soroban_sdk::Error>(&contract, || {
        let _ = check(&mut handle, &BOB, PAUSER);
    });
    outcome.is_err()
}

#[test]
fn a_caller_without_authorization_ends_the_invocation() {
    assert!(ends_unauthorized(pass_any));
    assert!(ends_unauthorized(pass_exact));
}
