//! What a contract can rely on when it calls the functions of [`crate::rbac`], said of
//! the calls, of what storage holds before and after them, and of nothing else.
//!
//! In the laws a call is known by its arguments and its result. `role`, `count` and
//! `index` are the keys that it was given, as storage knows them.

use crate::account::Account;
use crate::rbac::{
    admin_count, grant, has_role, require_role, require_role_or_admin, revoke, role_members,
    RbacError, StorageKey,
};
use soroban_sdk::{Address, Env, Val};
use vstd::prelude::*;

verus! {

use crate::ledger::{
    authorizers, confirmed, in_contract, instance_entries, items, key_of, persistent_entries,
    temporary_entries, Entry, Item, Key,
};

/// A role is held exactly when storage has an entry under its key. In a running
/// contract that can always be asked.
pub proof fn law_has_role_finds_the_mark<RK: StorageKey>(
    env: &Env,
    role_key: &RK,
    role: Key,
    held: bool,
)
    requires
        call_ensures(has_role::<RK>, (env, role_key), held),
        role_key.slot(*env) == Some(role),
    ensures
        in_contract(*env) ==> call_requires(has_role::<RK>, (env, role_key)),
        held == instance_entries(*env).contains_key(role),
{
}

/// The admin counter reads as the number that storage has under its key, and as zero
/// where there is none.
pub proof fn law_admin_count_reads_the_counter<AK: StorageKey>(
    env: &Env,
    admin_count_key: &AK,
    count: Key,
    admins: u32,
    result: u32,
)
    requires
        call_ensures(admin_count::<AK>, (env, admin_count_key), result),
        admin_count_key.slot(*env) == Some(count),
        if instance_entries(*env).contains_key(count) {
            instance_entries(*env)[count] == Entry::Count(admins)
        } else {
            admins == 0
        },
    ensures
        in_contract(*env) ==> call_requires(admin_count::<AK>, (env, admin_count_key)),
        result == admins,
{
}

/// A role's members read as the items that storage has under the key of its index, in
/// their order, and as none where there is no index.
pub proof fn law_role_members_reads_the_index<MK: StorageKey>(
    env: &Env,
    members_key: &MK,
    index: Key,
    listed: Seq<Item>,
    result: soroban_sdk::Vec<Address>,
)
    requires
        call_ensures(role_members::<MK>, (env, members_key), result),
        members_key.slot(*env) == Some(index),
        if instance_entries(*env).contains_key(index) {
            instance_entries(*env)[index] == Entry::List(listed)
        } else {
            listed.len() == 0
        },
    ensures
        in_contract(*env) ==> call_requires(role_members::<MK>, (env, members_key)),
        items(result) == listed,
{
    if !instance_entries(*env).contains_key(index) {
        assert(listed =~= Seq::empty());
    }
}

/// A grant of a role that is not held marks the role, counts one more `Admin` if it is
/// that role, lists the account behind the others, and leaves every other entry as it
/// was. It can be made whenever counter and index hold what they are read as and have
/// room.
pub proof fn law_grant_marks_counts_and_lists<RK: StorageKey, AK: StorageKey, MK: StorageKey>(
    env: &mut Env,
    role_key: &RK,
    admin_count_key: &AK,
    members_key: &MK,
    is_admin: bool,
    account: &Account,
    role: Key,
    count: Key,
    index: Key,
    admins: u32,
    listed: Seq<Item>,
    newly: bool,
)
    requires
        call_ensures(
            grant::<RK, AK, MK>,
            (env, role_key, admin_count_key, members_key, is_admin, account),
            newly,
        ),
        in_contract(*old(env)),
        role_key.slot(*old(env)) == Some(role),
        is_admin ==> admin_count_key.slot(*old(env)) == Some(count),
        members_key.slot(*old(env)) == Some(index),
        !instance_entries(*old(env)).contains_key(role),
        role != index,
        is_admin ==> count != role && count != index,
        if is_admin && instance_entries(*old(env)).contains_key(count) {
            instance_entries(*old(env))[count] == Entry::Count(admins)
        } else {
            admins == 0
        },
        if instance_entries(*old(env)).contains_key(index) {
            instance_entries(*old(env))[index] == Entry::List(listed)
        } else {
            listed.len() == 0
        },
        admins < u32::MAX,
        listed.len() < u32::MAX,
    ensures
        call_requires(
            grant::<RK, AK, MK>,
            (env, role_key, admin_count_key, members_key, is_admin, account),
        ),
        newly,
        is_admin ==> instance_entries(*final(env)) == instance_entries(*old(env)).insert(
            role,
            Entry::Flag(true),
        ).insert(count, Entry::Count((admins + 1) as u32)).insert(
            index,
            Entry::List(listed.push(Item::Account(*account))),
        ),
        !is_admin ==> instance_entries(*final(env)) == instance_entries(*old(env)).insert(
            role,
            Entry::Flag(true),
        ).insert(index, Entry::List(listed.push(Item::Account(*account)))),
{
    if !instance_entries(*env).contains_key(index) {
        assert(listed =~= Seq::empty());
    }
}

/// A grant of a role that is held can always be made, says so, and changes no entry.
pub proof fn law_grant_of_a_held_role_changes_nothing<
    RK: StorageKey,
    AK: StorageKey,
    MK: StorageKey,
>(
    env: &mut Env,
    role_key: &RK,
    admin_count_key: &AK,
    members_key: &MK,
    is_admin: bool,
    account: &Account,
    role: Key,
    newly: bool,
)
    requires
        call_ensures(
            grant::<RK, AK, MK>,
            (env, role_key, admin_count_key, members_key, is_admin, account),
            newly,
        ),
        in_contract(*old(env)),
        role_key.slot(*old(env)) == Some(role),
        instance_entries(*old(env)).contains_key(role),
    ensures
        call_requires(
            grant::<RK, AK, MK>,
            (env, role_key, admin_count_key, members_key, is_admin, account),
        ),
        !newly,
        instance_entries(*final(env)) == instance_entries(*old(env)),
{
}

/// The revocation of a role that is not held can always be made, says so, and changes no
/// entry.
pub proof fn law_revoke_of_a_missing_role_changes_nothing<
    RK: StorageKey,
    AK: StorageKey,
    MK: StorageKey,
>(
    env: &mut Env,
    role_key: &RK,
    admin_count_key: &AK,
    members_key: &MK,
    is_admin: bool,
    account: &Account,
    role: Key,
    result: Result<bool, RbacError>,
)
    requires
        call_ensures(
            revoke::<RK, AK, MK>,
            (env, role_key, admin_count_key, members_key, is_admin, account),
            result,
        ),
        in_contract(*old(env)),
        role_key.slot(*old(env)) == Some(role),
        !instance_entries(*old(env)).contains_key(role),
    ensures
        call_requires(
            revoke::<RK, AK, MK>,
            (env, role_key, admin_count_key, members_key, is_admin, account),
        ),
        result == Ok::<bool, RbacError>(false),
        instance_entries(*final(env)) == instance_entries(*old(env)),
{
}

/// While the counter stands at one or less, the revocation of `Admin` from an account
/// that holds it is refused, whatever the index lists, and changes no entry.
pub proof fn law_revoke_refuses_the_last_admin<RK: StorageKey, AK: StorageKey, MK: StorageKey>(
    env: &mut Env,
    role_key: &RK,
    admin_count_key: &AK,
    members_key: &MK,
    account: &Account,
    role: Key,
    count: Key,
    admins: u32,
    result: Result<bool, RbacError>,
)
    requires
        call_ensures(
            revoke::<RK, AK, MK>,
            (env, role_key, admin_count_key, members_key, true, account),
            result,
        ),
        in_contract(*old(env)),
        role_key.slot(*old(env)) == Some(role),
        admin_count_key.slot(*old(env)) == Some(count),
        instance_entries(*old(env)).contains_key(role),
        if instance_entries(*old(env)).contains_key(count) {
            instance_entries(*old(env))[count] == Entry::Count(admins)
        } else {
            admins == 0
        },
        admins <= 1,
    ensures
        call_requires(
            revoke::<RK, AK, MK>,
            (env, role_key, admin_count_key, members_key, true, account),
        ),
        result == Err::<bool, RbacError>(RbacError::LastAdmin),
        instance_entries(*final(env)) == instance_entries(*old(env)),
{
}

/// The revocation of a role that is held, and is not `Admin` with a counter of one or
/// less, removes the mark, counts one `Admin` less if it is that role, leaves the account
/// out of the index, where the others keep their order, and leaves every other entry as
/// it was. An index under the key of the mark goes with the mark.
pub proof fn law_revoke_unmarks_uncounts_and_unlists<
    RK: StorageKey,
    AK: StorageKey,
    MK: StorageKey,
>(
    env: &mut Env,
    role_key: &RK,
    admin_count_key: &AK,
    members_key: &MK,
    is_admin: bool,
    account: &Account,
    role: Key,
    count: Key,
    index: Key,
    admins: u32,
    listed: Seq<Item>,
    result: Result<bool, RbacError>,
)
    requires
        call_ensures(
            revoke::<RK, AK, MK>,
            (env, role_key, admin_count_key, members_key, is_admin, account),
            result,
        ),
        in_contract(*old(env)),
        role_key.slot(*old(env)) == Some(role),
        is_admin ==> admin_count_key.slot(*old(env)) == Some(count),
        members_key.slot(*old(env)) == Some(index),
        instance_entries(*old(env)).contains_key(role),
        is_admin ==> instance_entries(*old(env)).contains_key(count)
            && instance_entries(*old(env))[count] == Entry::Count(admins) && admins > 1,
        if role != index && instance_entries(*old(env)).contains_key(index) {
            instance_entries(*old(env))[index] == Entry::List(listed)
        } else {
            listed.len() == 0
        },
        forall|i: int| 0 <= i < listed.len() ==> #[trigger] listed[i] is Account,
    ensures
        call_requires(
            revoke::<RK, AK, MK>,
            (env, role_key, admin_count_key, members_key, is_admin, account),
        ),
        result == Ok::<bool, RbacError>(true),
        is_admin ==> instance_entries(*final(env)) == instance_entries(*old(env)).insert(
            count,
            Entry::Count((admins - 1) as u32),
        ).remove(role).insert(
            index,
            Entry::List(listed.filter(|item: Item| item != Item::Account(*account))),
        ),
        !is_admin ==> instance_entries(*final(env)) == instance_entries(*old(env)).remove(
            role,
        ).insert(
            index,
            Entry::List(listed.filter(|item: Item| item != Item::Account(*account))),
        ),
{
    if role == index || !instance_entries(*env).contains_key(index) {
        assert(listed =~= Seq::empty());
    }
    assert(crate::rbac::other_than(*account) =~= (|item: Item| item != Item::Account(*account)));
}

/// A role is held once it has been granted, whether or not it was before.
pub proof fn law_granted_is_held<RK: StorageKey, AK: StorageKey, MK: StorageKey>(
    env: &mut Env,
    role_key: &RK,
    admin_count_key: &AK,
    members_key: &MK,
    is_admin: bool,
    account: &Account,
    newly: bool,
    after: &Env,
    held: bool,
)
    requires
        role_key.slot(*old(env)) is Some,
        call_ensures(
            grant::<RK, AK, MK>,
            (env, role_key, admin_count_key, members_key, is_admin, account),
            newly,
        ),
        *after == *final(env),
        call_ensures(has_role::<RK>, (after, role_key), held),
    ensures
        held,
{
    role_key.lemma_slot_stays(*env, *after);
}

/// A role is not held once its revocation has been answered with `Ok`, unless its mark
/// and its index share a key.
pub proof fn law_revoked_is_not_held<RK: StorageKey, AK: StorageKey, MK: StorageKey>(
    env: &mut Env,
    role_key: &RK,
    admin_count_key: &AK,
    members_key: &MK,
    is_admin: bool,
    account: &Account,
    answer: bool,
    after: &Env,
    held: bool,
)
    requires
        role_key.slot(*old(env)) is Some,
        members_key.slot(*old(env)) is Some,
        role_key.slot(*old(env)) != members_key.slot(*old(env)),
        call_ensures(
            revoke::<RK, AK, MK>,
            (env, role_key, admin_count_key, members_key, is_admin, account),
            Ok::<bool, RbacError>(answer),
        ),
        *after == *final(env),
        call_ensures(has_role::<RK>, (after, role_key), held),
    ensures
        !held,
{
    role_key.lemma_slot_stays(*env, *after);
}

/// Grants and revocations touch neither the other storage of the contract nor the
/// authorizations, ask nobody, and leave every key standing for what it stood for.
pub proof fn law_grant_and_revoke_touch_nothing_else<
    RK: StorageKey,
    AK: StorageKey,
    MK: StorageKey,
>(
    env: &mut Env,
    role_key: &RK,
    admin_count_key: &AK,
    members_key: &MK,
    is_admin: bool,
    account: &Account,
    newly: bool,
    result: Result<bool, RbacError>,
)
    requires
        call_ensures(
            grant::<RK, AK, MK>,
            (env, role_key, admin_count_key, members_key, is_admin, account),
            newly,
        ) || call_ensures(
            revoke::<RK, AK, MK>,
            (env, role_key, admin_count_key, members_key, is_admin, account),
            result,
        ),
    ensures
        in_contract(*final(env)),
        persistent_entries(*final(env)) == persistent_entries(*old(env)),
        temporary_entries(*final(env)) == temporary_entries(*old(env)),
        authorizers(*final(env)) == authorizers(*old(env)),
        confirmed(*final(env)) == confirmed(*old(env)),
        forall|key: Val|
            key_of(key, *old(env)) is Some ==> #[trigger] key_of(key, *final(env)) == key_of(
                key,
                *old(env),
            ),
{
}

/// A caller passes the check for a role exactly when it holds the role, and for a role or
/// `Admin` exactly when it holds either; otherwise it is told that it is not authorized.
pub proof fn law_checks_go_by_what_is_held<RK: StorageKey, F: FnOnce(&mut Env)>(
    env: &mut Env,
    caller: &Account,
    role_key: &RK,
    admin_key: &RK,
    on_success: Option<F>,
    role: Key,
    admin: Key,
    result: Result<(), RbacError>,
)
    requires
        role_key.slot(*old(env)) == Some(role),
        admin_key.slot(*old(env)) == Some(admin),
    ensures
        call_ensures(require_role::<RK, F>, (env, caller, role_key, on_success), result)
            ==> result == if instance_entries(*old(env)).contains_key(role) {
            Ok::<(), RbacError>(())
        } else {
            Err(RbacError::NotAuthorized)
        },
        call_ensures(
            require_role_or_admin::<RK, F>,
            (env, caller, role_key, admin_key, on_success),
            result,
        ) ==> result == if instance_entries(*old(env)).contains_key(role) || instance_entries(
            *old(env),
        ).contains_key(admin) {
            Ok::<(), RbacError>(())
        } else {
            Err(RbacError::NotAuthorized)
        },
{
}

/// Whatever a check answers, the host has confirmed the caller's authorization when it
/// does. A check without a callback, or that turns the caller away, has changed nothing
/// else: all storage of the contract is as it was.
pub proof fn law_checks_ask_the_caller<RK: StorageKey, F: FnOnce(&mut Env)>(
    env: &mut Env,
    caller: &Account,
    role_key: &RK,
    admin_key: &RK,
    on_success: Option<F>,
    result: Result<(), RbacError>,
)
    requires
        call_ensures(require_role::<RK, F>, (env, caller, role_key, on_success), result)
            || call_ensures(
            require_role_or_admin::<RK, F>,
            (env, caller, role_key, admin_key, on_success),
            result,
        ),
        on_success is None || result is Err,
    ensures
        in_contract(*final(env)),
        confirmed(*final(env)) == confirmed(*old(env)).push(*caller),
        instance_entries(*final(env)) == instance_entries(*old(env)),
        persistent_entries(*final(env)) == persistent_entries(*old(env)),
        temporary_entries(*final(env)) == temporary_entries(*old(env)),
        forall|key: Val|
            key_of(key, *old(env)) is Some ==> #[trigger] key_of(key, *final(env)) == key_of(
                key,
                *old(env),
            ),
{
}

/// A callback runs, once, when the caller has passed: after the host has confirmed the
/// caller's authorization, with all storage as it was, and it has the last word on what
/// the check leaves behind.
pub proof fn law_callback_runs_after_the_check<RK: StorageKey, F: FnOnce(&mut Env)>(
    env: &mut Env,
    caller: &Account,
    role_key: &RK,
    admin_key: &RK,
    callback: F,
)
    requires
        call_ensures(require_role::<RK, F>, (env, caller, role_key, Some(callback)), Ok(()))
            || call_ensures(
            require_role_or_admin::<RK, F>,
            (env, caller, role_key, admin_key, Some(callback)),
            Ok(()),
        ),
    ensures
        exists|inner: &mut Env|
            {
                &&& #[trigger] call_ensures(callback, (inner,), ())
                &&& *final(inner) == *final(env)
                &&& in_contract(*inner)
                &&& confirmed(*inner) == confirmed(*old(env)).push(*caller)
                &&& instance_entries(*inner) == instance_entries(*old(env))
                &&& persistent_entries(*inner) == persistent_entries(*old(env))
                &&& temporary_entries(*inner) == temporary_entries(*old(env))
            },
{
}

/// A check can be made in any running contract for any caller that the host would
/// confirm, under any key, with any callback that accepts an environment in which the
/// caller has been confirmed and all storage is as it was.
pub proof fn law_checks_can_be_made<RK: StorageKey, F: FnOnce(&mut Env)>(
    env: &mut Env,
    caller: &Account,
    role_key: &RK,
    admin_key: &RK,
    on_success: Option<F>,
)
    requires
        in_contract(*old(env)),
        authorizers(*old(env)).contains(*caller),
        role_key.slot(*old(env)) is Some,
        admin_key.slot(*old(env)) is Some,
        on_success is Some ==> forall|inner: &mut Env|
            in_contract(*inner) && confirmed(*inner) == confirmed(*old(env)).push(*caller)
                && instance_entries(*inner) == instance_entries(*old(env)) && persistent_entries(
                *inner,
            ) == persistent_entries(*old(env)) && temporary_entries(*inner) == temporary_entries(
                *old(env),
            ) ==> #[trigger] call_requires(on_success->0, (inner,)),
    ensures
        call_requires(require_role::<RK, F>, (env, caller, role_key, on_success)),
        call_requires(
            require_role_or_admin::<RK, F>,
            (env, caller, role_key, admin_key, on_success),
        ),
{
}

/// A host value is a key as it stands, and a key's host value stands for it.
pub proof fn law_host_values_are_keys<RK: StorageKey>(env: Env, value: Val, key: &RK, result: Val)
    requires
        key.slot(env) is Some,
        call_ensures(RK::to_val, (key, &env), result),
    ensures
        value.slot(env) == key_of(value, env),
        result.slot(env) == key.slot(env),
{
}

/// Accounts are told apart exactly by kind and identifier.
pub proof fn law_same_is_equality(left: &Account, right: &Account, same: bool)
    requires
        call_ensures(Account::same, (left, right), same),
    ensures
        same == (*left == *right),
{
}

} // verus!
