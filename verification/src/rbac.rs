//! Shared role-based access control (RBAC).
//!
//! - A set of roles, each of which may be held by any number of accounts.
//! - An `Admin` super-user that can grant and revoke any role, `Admin` included.
//! - A guard on the last `Admin`: it can never be revoked, so governance can never
//!   be permanently frozen.
//! - An index of each role's members, maintained on every grant and revoke, so that
//!   membership can be enumerated on-chain without replaying events.
//! - Checks that a caller authorized the invocation and holds a role, with or without
//!   `Admin` standing in for it.
//!
//! All functions are generic over the types of the storage keys, so that each
//! contract supplies its own. Everything is kept in instance storage.

use crate::account::Account;
use crate::ledger::{
    instance_get_count, instance_get_list, instance_has, instance_remove, instance_set_count,
    instance_set_flag, instance_set_list, list_get, list_len, list_new, list_push_back,
    require_auth,
};
use soroban_sdk::{Address, Env, Val};
use vstd::prelude::*;

verus! {

use crate::ledger::{
    asked, authorizers, in_contract, instance_entries, items, kept_by, key_of, keys_kept,
    only_instance_differs, Entry, Item, Key,
};

/// A type usable as a key of instance storage.
///
/// A host value is one as it stands, so a contract hands over whatever its own key
/// types convert to. [`crate::keys::DataKey`] is one too.
pub trait StorageKey {
    /// The key under which storage keeps the entry, if the value can be one. Values of
    /// different types with the same key address the same entry.
    spec fn slot(&self, env: Env) -> Option<Key>;

    /// The host value of the key.
    fn to_val(&self, env: &Env) -> (key: Val)
        requires
            self.slot(*env) is Some,
        ensures
            key_of(key, *env) == self.slot(*env),
    ;

    /// The key stays the same as long as host values do.
    proof fn lemma_slot_stays(&self, before: Env, after: Env)
        requires
            keys_kept(before, after),
            self.slot(before) is Some,
        ensures
            self.slot(after) == self.slot(before),
    ;
}

/// A host value is a key as it stands.
impl StorageKey for Val {
    open spec fn slot(&self, env: Env) -> Option<Key> {
        key_of(*self, env)
    }

    fn to_val(&self, env: &Env) -> (key: Val) {
        *self
    }

    proof fn lemma_slot_stays(&self, before: Env, after: Env) {
    }
}

/// Errors that the RBAC functions can return. Each contract maps these to its own.
#[derive(Copy, Clone, Debug, PartialEq, Eq)]
pub enum RbacError {
    /// The caller does not hold the required role or `Admin`.
    NotAuthorized,
    /// Refused to revoke the last `Admin`, which would freeze governance.
    LastAdmin,
}

/// Whether the slot can be read as a counter: it is empty or holds a number.
pub open spec fn holds_count(entries: Map<Key, Entry>, slot: Key) -> bool {
    entries.contains_key(slot) ==> entries[slot] is Count
}

/// The counter at the slot, zero when it is empty.
pub open spec fn count_at(entries: Map<Key, Entry>, slot: Key) -> int {
    if entries.contains_key(slot) {
        entries[slot]->Count_0 as int
    } else {
        0
    }
}

/// Whether the slot can be read as a membership index: it is empty or holds a vector.
pub open spec fn holds_members(entries: Map<Key, Entry>, slot: Key) -> bool {
    entries.contains_key(slot) ==> entries[slot] is List
}

/// The items at the slot in their order, none when it is empty.
pub open spec fn members_at(entries: Map<Key, Entry>, slot: Key) -> Seq<Item> {
    if entries.contains_key(slot) {
        entries[slot]->List_0
    } else {
        Seq::empty()
    }
}

/// Whether every item is the address of an account or a contract.
pub open spec fn all_accounts(members: Seq<Item>) -> bool {
    forall|i: int| 0 <= i < members.len() ==> #[trigger] members[i] is Account
}

/// Being another item than `account`.
pub open spec fn other_than(account: Account) -> spec_fn(Item) -> bool {
    |member: Item| member != Item::Account(account)
}

/// The members other than `account`, in their order.
pub open spec fn without(members: Seq<Item>, account: Account) -> Seq<Item> {
    members.filter(other_than(account))
}

/// Storage once the role is marked as held and, for `Admin`, counted.
pub open spec fn marked(
    entries: Map<Key, Entry>,
    role: Key,
    count: Key,
    is_admin: bool,
) -> Map<Key, Entry> {
    let held = entries.insert(role, Entry::Flag(true));
    if is_admin {
        held.insert(count, Entry::Count((count_at(held, count) + 1) as u32))
    } else {
        held
    }
}

/// Storage after a role that was not held is granted to `account`: the role is
/// marked, an `Admin` is counted, and the account is last in the role's index.
pub open spec fn granted(
    entries: Map<Key, Entry>,
    role: Key,
    count: Key,
    members: Key,
    is_admin: bool,
    account: Account,
) -> Map<Key, Entry> {
    let next = marked(entries, role, count, is_admin);
    next.insert(members, Entry::List(members_at(next, members).push(Item::Account(account))))
}

/// Whether a role that is not held can be granted: the slots that a grant reads hold
/// what it reads them as, and counter and index have room for one more.
pub open spec fn grantable(
    entries: Map<Key, Entry>,
    role: Key,
    count: Key,
    members: Key,
    is_admin: bool,
) -> bool {
    let held = entries.insert(role, Entry::Flag(true));
    let next = marked(entries, role, count, is_admin);
    &&& is_admin ==> holds_count(held, count) && count_at(held, count) < u32::MAX
    &&& holds_members(next, members)
    &&& members_at(next, members).len() < u32::MAX
}

/// Whether a held role is `Admin` and, by the counter, nobody else holds it: then it is
/// kept.
pub open spec fn guarded(entries: Map<Key, Entry>, count: Key, is_admin: bool) -> bool {
    is_admin && count_at(entries, count) <= 1
}

/// Storage once a held role is no longer marked and, for `Admin`, no longer counted.
pub open spec fn unmarked(
    entries: Map<Key, Entry>,
    role: Key,
    count: Key,
    is_admin: bool,
) -> Map<Key, Entry> {
    let counted = if is_admin {
        entries.insert(count, Entry::Count((count_at(entries, count) - 1) as u32))
    } else {
        entries
    };
    counted.remove(role)
}

/// Storage after a held role is revoked from `account`: the mark is gone, an `Admin`
/// is no longer counted, and the role's index is without the account.
pub open spec fn revoked(
    entries: Map<Key, Entry>,
    role: Key,
    count: Key,
    members: Key,
    is_admin: bool,
    account: Account,
) -> Map<Key, Entry> {
    let next = unmarked(entries, role, count, is_admin);
    next.insert(members, Entry::List(without(members_at(next, members), account)))
}

/// Whether the revocation of a held role can be carried out or refused: the slots
/// that it reads hold what it reads them as, and the index nothing but addresses.
pub open spec fn revocable(
    entries: Map<Key, Entry>,
    role: Key,
    count: Key,
    members: Key,
    is_admin: bool,
) -> bool {
    let next = unmarked(entries, role, count, is_admin);
    &&& is_admin ==> holds_count(entries, count)
    &&& !guarded(entries, count, is_admin) ==> holds_members(next, members) && all_accounts(
        members_at(next, members),
    )
}

/// What a revocation answers: nothing to revoke, the refusal of the last `Admin`, or
/// that the role was removed.
pub open spec fn revocation(
    entries: Map<Key, Entry>,
    role: Key,
    count: Key,
    is_admin: bool,
) -> Result<bool, RbacError> {
    if !entries.contains_key(role) {
        Ok(false)
    } else if guarded(entries, count, is_admin) {
        Err(RbacError::LastAdmin)
    } else {
        Ok(true)
    }
}

/// Whether the role identified by `role_key` is currently held. `role_key` is the
/// composite key of role and account.
pub fn has_role<RK: StorageKey>(env: &Env, role_key: &RK) -> (held: bool)
    requires
        in_contract(*env),
        role_key.slot(*env) is Some,
    ensures
        held == instance_entries(*env).contains_key(role_key.slot(*env)->0),
{
    instance_has(env, &role_key.to_val(env))
}

/// Number of accounts currently holding `Admin`, zero before the first is granted.
pub fn admin_count<AK: StorageKey>(env: &Env, admin_count_key: &AK) -> (count: u32)
    requires
        in_contract(*env),
        admin_count_key.slot(*env) is Some,
        holds_count(instance_entries(*env), admin_count_key.slot(*env)->0),
    ensures
        count == count_at(instance_entries(*env), admin_count_key.slot(*env)->0),
{
    match instance_get_count(env, &admin_count_key.to_val(env)) {
        Some(count) => count,
        None => 0,
    }
}

/// Every account currently holding a role, in the order in which they were newly
/// granted it; none when no account holds it. `members_key` is the key of the role's
/// index.
pub fn role_members<MK: StorageKey>(env: &Env, members_key: &MK) -> (members: soroban_sdk::Vec<
    Address,
>)
    requires
        in_contract(*env),
        members_key.slot(*env) is Some,
        holds_members(instance_entries(*env), members_key.slot(*env)->0),
    ensures
        items(members) == members_at(instance_entries(*env), members_key.slot(*env)->0),
        kept_by(members, *env),
{
    match instance_get_list(env, &members_key.to_val(env)) {
        Some(members) => members,
        None => list_new(env),
    }
}

/// Grants the role identified by `role_key` to an account.
///
/// - `role_key`: composite key of role and account
/// - `admin_count_key`: key of the admin counter, incremented when `is_admin`
/// - `members_key`: key of the role's membership index
/// - `is_admin`: whether the role being granted is `Admin`
/// - `account`: the account being granted the role
///
/// Granting a role that is held changes nothing. Returns whether the role was newly
/// granted. Only instance storage is written.
pub fn grant<RK: StorageKey, AK: StorageKey, MK: StorageKey>(
    env: &mut Env,
    role_key: &RK,
    admin_count_key: &AK,
    members_key: &MK,
    is_admin: bool,
    account: &Account,
) -> (newly: bool)
    requires
        in_contract(*old(env)),
        role_key.slot(*old(env)) is Some,
        !instance_entries(*old(env)).contains_key(role_key.slot(*old(env))->0) ==> {
            &&& is_admin ==> admin_count_key.slot(*old(env)) is Some
            &&& members_key.slot(*old(env)) is Some
            &&& grantable(
                instance_entries(*old(env)),
                role_key.slot(*old(env))->0,
                admin_count_key.slot(*old(env))->0,
                members_key.slot(*old(env))->0,
                is_admin,
            )
        },
    ensures
        newly == !instance_entries(*old(env)).contains_key(role_key.slot(*old(env))->0),
        newly ==> instance_entries(*final(env)) == granted(
            instance_entries(*old(env)),
            role_key.slot(*old(env))->0,
            admin_count_key.slot(*old(env))->0,
            members_key.slot(*old(env))->0,
            is_admin,
            *account,
        ),
        !newly ==> instance_entries(*final(env)) == instance_entries(*old(env)),
        only_instance_differs(*old(env), *final(env)),
{
    if has_role(env, role_key) {
        return false;
    }
    let role = role_key.to_val(env);
    instance_set_flag(env, &role, true);
    proof {
        if is_admin {
            admin_count_key.lemma_slot_stays(*old(env), *env);
        }
    }
    if is_admin {
        let next: u32 = admin_count(env, admin_count_key) + 1;
        let counter = admin_count_key.to_val(env);
        instance_set_count(env, &counter, next);
    }
    proof {
        members_key.lemma_slot_stays(*old(env), *env);
    }
    let mut members = role_members(env, members_key);
    list_push_back(&mut members, account);
    let index = members_key.to_val(env);
    instance_set_list(env, &index, &members);
    true
}

/// The index without one account.
fn rebuild(env: &Env, members: &soroban_sdk::Vec<Address>, account: &Account) -> (updated:
    soroban_sdk::Vec<Address>)
    requires
        all_accounts(items(*members)),
    ensures
        items(updated) == without(items(*members), *account),
        kept_by(updated, *env),
{
    let mut updated = list_new(env);
    let len: u32 = list_len(members);
    let mut i: u32 = 0;
    while i < len
        invariant
            i <= len,
            len == items(*members).len(),
            all_accounts(items(*members)),
            kept_by(updated, *env),
            items(updated) == without(items(*members).take(i as int), *account),
            items(updated).len() <= i,
        decreases len - i,
    {
        proof {
            reveal(Seq::filter);
            assert(items(*members).take(i + 1).drop_last() =~= items(*members).take(i as int));
        }
        if let Some(member) = list_get(members, i) {
            if !member.same(account) {
                list_push_back(&mut updated, &member);
            }
        }
        i += 1;
    }
    assert(items(*members).take(i as int) =~= items(*members));
    updated
}

/// Revokes the role identified by `role_key` from an account.
///
/// - `role_key`: composite key of role and account
/// - `admin_count_key`: key of the admin counter, decremented when `is_admin`
/// - `members_key`: key of the role's membership index
/// - `is_admin`: whether the role being revoked is `Admin`
/// - `account`: the account whose role is being revoked
///
/// Revoking a role that is not held returns `Ok(false)`. The last `Admin` is refused
/// with `Err(RbacError::LastAdmin)`. Returns `Ok(true)` when the role was removed;
/// what a contract does besides belongs at the call site, conditional on that value.
/// Only instance storage is written.
pub fn revoke<RK: StorageKey, AK: StorageKey, MK: StorageKey>(
    env: &mut Env,
    role_key: &RK,
    admin_count_key: &AK,
    members_key: &MK,
    is_admin: bool,
    account: &Account,
) -> (result: Result<bool, RbacError>)
    requires
        in_contract(*old(env)),
        role_key.slot(*old(env)) is Some,
        instance_entries(*old(env)).contains_key(role_key.slot(*old(env))->0) ==> {
            &&& is_admin ==> admin_count_key.slot(*old(env)) is Some
            &&& !guarded(
                instance_entries(*old(env)),
                admin_count_key.slot(*old(env))->0,
                is_admin,
            ) ==> members_key.slot(*old(env)) is Some
            &&& revocable(
                instance_entries(*old(env)),
                role_key.slot(*old(env))->0,
                admin_count_key.slot(*old(env))->0,
                members_key.slot(*old(env))->0,
                is_admin,
            )
        },
    ensures
        result == revocation(
            instance_entries(*old(env)),
            role_key.slot(*old(env))->0,
            admin_count_key.slot(*old(env))->0,
            is_admin,
        ),
        result == Ok::<bool, RbacError>(true) ==> instance_entries(*final(env)) == revoked(
            instance_entries(*old(env)),
            role_key.slot(*old(env))->0,
            admin_count_key.slot(*old(env))->0,
            members_key.slot(*old(env))->0,
            is_admin,
            *account,
        ),
        result != Ok::<bool, RbacError>(true) ==> instance_entries(*final(env))
            == instance_entries(*old(env)),
        only_instance_differs(*old(env), *final(env)),
{
    if !has_role(env, role_key) {
        return Ok(false);
    }
    if is_admin {
        let count: u32 = admin_count(env, admin_count_key);
        if count <= 1 {
            return Err(RbacError::LastAdmin);
        }
        let counter = admin_count_key.to_val(env);
        instance_set_count(env, &counter, count - 1);
    }
    proof {
        role_key.lemma_slot_stays(*old(env), *env);
    }
    let role = role_key.to_val(env);
    instance_remove(env, &role);
    proof {
        members_key.lemma_slot_stays(*old(env), *env);
    }
    let members = role_members(env, members_key);
    let updated = rebuild(env, &members, account);
    let index = members_key.to_val(env);
    instance_set_list(env, &index, &updated);
    Ok(true)
}

/// Whether a callback can be run once the host has confirmed the caller's authorization.
pub open spec fn callable<F: FnOnce(&mut Env)>(callback: F, before: Env, caller: Account) -> bool {
    forall|env: &mut Env|
        asked(before, *env, caller) ==> #[trigger] call_requires(callback, (env,))
}

/// Requires that `caller` authorized the invocation and holds the role identified by
/// `role_key` **or** is an `Admin`, identified by `admin_key`.
///
/// - `caller`: the signer being checked
/// - `role_key`: composite key of the specific role and the caller
/// - `admin_key`: composite key of `Admin` and the caller
/// - `on_success`: callback run once after a successful check, such as one that
///   extends the lifetime of the instance
///
/// The host is asked for the caller's authorization first, whatever the caller holds; a
/// caller that did not authorize the invocation ends it. Returns
/// `Err(RbacError::NotAuthorized)` when neither role is held, without running the
/// callback.
pub fn require_role_or_admin<RK: StorageKey, F: FnOnce(&mut Env)>(
    env: &mut Env,
    caller: &Account,
    role_key: &RK,
    admin_key: &RK,
    on_success: Option<F>,
) -> (result: Result<(), RbacError>)
    requires
        in_contract(*old(env)),
        authorizers(*old(env)).contains(*caller),
        admin_key.slot(*old(env)) is Some,
        !instance_entries(*old(env)).contains_key(admin_key.slot(*old(env))->0) ==> role_key.slot(
            *old(env),
        ) is Some,
        on_success matches Some(callback) ==> callable(callback, *old(env), *caller),
    ensures
        result == (if instance_entries(*old(env)).contains_key(admin_key.slot(*old(env))->0)
            || instance_entries(*old(env)).contains_key(role_key.slot(*old(env))->0) {
            Ok(())
        } else {
            Err(RbacError::NotAuthorized)
        }),
        result is Err || on_success is None ==> asked(*old(env), *final(env), *caller),
        result is Ok && on_success is Some ==> exists|inner: &mut Env|
            asked(*old(env), *inner, *caller) && *final(inner) == *final(env)
                && #[trigger] call_ensures(on_success->0, (inner,), ()),
{
    require_auth(env, caller);
    proof {
        admin_key.lemma_slot_stays(*old(env), *env);
        if !instance_entries(*old(env)).contains_key(admin_key.slot(*old(env))->0) {
            role_key.lemma_slot_stays(*old(env), *env);
        }
    }
    if has_role(env, admin_key) || has_role(env, role_key) {
        if let Some(bump) = on_success {
            bump(env);
        }
        Ok(())
    } else {
        Err(RbacError::NotAuthorized)
    }
}

/// Requires that `caller` authorized the invocation and holds the role identified by
/// `role_key` exactly: `Admin` does not stand in for it.
///
/// The host is asked for the caller's authorization first, whatever the caller holds; a
/// caller that did not authorize the invocation ends it. Returns
/// `Err(RbacError::NotAuthorized)` when the role is not held, without running the
/// callback.
pub fn require_role<RK: StorageKey, F: FnOnce(&mut Env)>(
    env: &mut Env,
    caller: &Account,
    role_key: &RK,
    on_success: Option<F>,
) -> (result: Result<(), RbacError>)
    requires
        in_contract(*old(env)),
        authorizers(*old(env)).contains(*caller),
        role_key.slot(*old(env)) is Some,
        on_success matches Some(callback) ==> callable(callback, *old(env), *caller),
    ensures
        result == (if instance_entries(*old(env)).contains_key(role_key.slot(*old(env))->0) {
            Ok(())
        } else {
            Err(RbacError::NotAuthorized)
        }),
        result is Err || on_success is None ==> asked(*old(env), *final(env), *caller),
        result is Ok && on_success is Some ==> exists|inner: &mut Env|
            asked(*old(env), *inner, *caller) && *final(inner) == *final(env)
                && #[trigger] call_ensures(on_success->0, (inner,), ()),
{
    require_auth(env, caller);
    proof {
        role_key.lemma_slot_stays(*old(env), *env);
    }
    if has_role(env, role_key) {
        if let Some(bump) = on_success {
            bump(env);
        }
        Ok(())
    } else {
        Err(RbacError::NotAuthorized)
    }
}

} // verus!
