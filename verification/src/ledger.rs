//! The host environment of a running contract: its storage, the authorizations of
//! the current invocation, and the ledger's close time.
//!
//! The declared types, the spec functions without a body and the functions in this
//! file are trusted: their contracts state what `soroban_sdk` does and are not proved.
//! They speak of one invocation that reaches its storage through one `Env` handle,
//! which is borrowed mutably wherever something changes, and they leave the host's
//! metering aside: a call that exhausts the invocation's budget or size limits ends
//! the invocation.

use crate::account::Account;
use soroban_sdk::address_payload::AddressPayload;
use soroban_sdk::{Address, Bytes, BytesN, Env, Val};
use vstd::prelude::*;

verus! {

/// The environment handle that the host gives to a contract.
#[verifier::external_type_specification]
#[verifier::external_body]
pub struct ExEnv(soroban_sdk::Env);

/// A handle of a value that the host keeps.
#[verifier::external_type_specification]
#[verifier::external_body]
pub struct ExVal(soroban_sdk::Val);

/// An address, which designates an account or a contract.
#[verifier::external_type_specification]
#[verifier::external_body]
pub struct ExAddress(soroban_sdk::Address);

/// A vector that the host keeps.
#[verifier::external_type_specification]
#[verifier::external_body]
#[verifier::reject_recursive_types(T)]
pub struct ExHostVec<T>(soroban_sdk::Vec<T>);

/// A value under which storage keeps an entry.
pub ghost enum Key {
    /// A byte string.
    Bytes(Seq<u8>),
    /// A value of any other kind, by its XDR form.
    Other(Seq<u8>),
}

/// An item of a vector.
pub ghost enum Item {
    /// The address of an account or a contract.
    Account(Account),
    /// A value of any other kind, by its XDR form.
    Other(Seq<u8>),
}

/// What an entry of instance storage holds.
pub ghost enum Entry {
    /// A boolean.
    Flag(bool),
    /// An unsigned 32-bit number.
    Count(u32),
    /// A vector.
    List(Seq<Item>),
    /// A value of any other kind, by its XDR form.
    Other(Seq<u8>),
}

/// The value that a handle stands for on the environment's host, if it stands for one
/// that instance storage can keep an entry under.
pub uninterp spec fn key_of(key: Val, env: Env) -> Option<Key>;

/// The entries of the running contract's instance storage.
pub uninterp spec fn instance_entries(env: Env) -> Map<Key, Entry>;

/// The entries of the running contract's persistent storage, by the XDR form of what
/// they hold. The instance that holds instance storage is not among them.
pub uninterp spec fn persistent_entries(env: Env) -> Map<Key, Seq<u8>>;

/// The entries of the running contract's temporary storage, by the XDR form of what
/// they hold. Nonces, which the host keeps for itself under keys that no contract can
/// name, are not among them.
pub uninterp spec fn temporary_entries(env: Env) -> Map<Key, Seq<u8>>;

/// Whether a contract is running. Outside of one there is no instance storage and
/// nothing to authorize, and the calls below that ask for either panic.
pub uninterp spec fn in_contract(env: Env) -> bool;

/// The accounts whose authorization of the current invocation the host would
/// confirm if it were asked now, without calling back into the running contract.
pub uninterp spec fn authorizers(env: Env) -> Set<Account>;

/// The accounts whose authorization of the current invocation the host was asked for
/// and has confirmed, in the order of the requests.
pub uninterp spec fn confirmed(env: Env) -> Seq<Account>;

/// The items of a host vector, in their order.
pub uninterp spec fn items(list: soroban_sdk::Vec<Address>) -> Seq<Item>;

/// Whether a vector is kept by the environment's host: a handle may stem from another.
pub uninterp spec fn kept_by(list: soroban_sdk::Vec<Address>, env: Env) -> bool;

/// The close time in the header of the ledger that the environment works on, in
/// seconds, if it has been given a ledger. It is part of the environment and does not
/// move while it is held.
pub uninterp spec fn close_time(env: Env) -> Option<u64>;

/// Whether every handle that stands for a key still stands for the same.
pub open spec fn keys_kept(before: Env, after: Env) -> bool {
    forall|key: Val|
        key_of(key, before) is Some ==> #[trigger] key_of(key, after) == key_of(key, before)
}

/// Whether nothing but instance storage may differ: the contract still runs, keys stand
/// for the same, the other storage is untouched, and the host's view of authorizations
/// is as it was.
pub open spec fn only_instance_differs(before: Env, after: Env) -> bool {
    &&& in_contract(after)
    &&& keys_kept(before, after)
    &&& persistent_entries(after) == persistent_entries(before)
    &&& temporary_entries(after) == temporary_entries(before)
    &&& authorizers(after) == authorizers(before)
    &&& confirmed(after) == confirmed(before)
}

/// Whether the host has been asked for the caller's authorization, has confirmed it,
/// and has done nothing else: the contract still runs, keys stand for the same, and all
/// of its storage is untouched.
pub open spec fn asked(before: Env, after: Env, caller: Account) -> bool {
    &&& in_contract(after)
    &&& keys_kept(before, after)
    &&& instance_entries(after) == instance_entries(before)
    &&& persistent_entries(after) == persistent_entries(before)
    &&& temporary_entries(after) == temporary_entries(before)
    &&& confirmed(after) == confirmed(before).push(caller)
}

/// `soroban_sdk::ledger::Ledger::timestamp`: the close time of the environment's
/// ledger. It panics when there is none.
#[verifier::external_body]
pub(crate) fn ledger_timestamp(env: &Env) -> (now: u64)
    requires
        close_time(*env) is Some,
    ensures
        close_time(*env) == Some(now),
{
    env.ledger().timestamp()
}

/// `soroban_sdk::Bytes::from_slice`: a handle of the byte string, which can be a key. A
/// byte string is at most `u32::MAX` long.
#[verifier::external_body]
pub(crate) fn bytes_key(env: &Env, bytes: &Vec<u8>) -> (key: Val)
    requires
        bytes@.len() <= u32::MAX,
    ensures
        key_of(key, *env) == Some(Key::Bytes(bytes@)),
{
    Bytes::from_slice(env, bytes).to_val()
}

/// `soroban_sdk::storage::Instance::has`: whether the key has an entry. Keys are
/// compared by what they stand for.
#[verifier::external_body]
pub(crate) fn instance_has(env: &Env, key: &Val) -> (found: bool)
    requires
        in_contract(*env),
        key_of(*key, *env) is Some,
    ensures
        found == instance_entries(*env).contains_key(key_of(*key, *env)->0),
{
    env.storage().instance().has(key)
}

/// `soroban_sdk::storage::Instance::get` at `u32`: the number under the key, or
/// `None` when the key has no entry. It panics on an entry of another kind.
#[verifier::external_body]
pub(crate) fn instance_get_count(env: &Env, key: &Val) -> (count: Option<u32>)
    requires
        in_contract(*env),
        key_of(*key, *env) is Some,
        instance_entries(*env).contains_key(key_of(*key, *env)->0) ==> instance_entries(
            *env,
        )[key_of(*key, *env)->0] is Count,
    ensures
        count is Some <==> instance_entries(*env).contains_key(key_of(*key, *env)->0),
        count matches Some(n) ==> instance_entries(*env)[key_of(*key, *env)->0] == Entry::Count(n),
{
    env.storage().instance().get(key)
}

/// `soroban_sdk::storage::Instance::get` at `soroban_sdk::Vec<Address>`: the vector
/// under the key, or `None` when the key has no entry. It panics on an entry that is
/// no vector; the items are not looked at.
#[verifier::external_body]
pub(crate) fn instance_get_list(env: &Env, key: &Val) -> (list: Option<soroban_sdk::Vec<Address>>)
    requires
        in_contract(*env),
        key_of(*key, *env) is Some,
        instance_entries(*env).contains_key(key_of(*key, *env)->0) ==> instance_entries(
            *env,
        )[key_of(*key, *env)->0] is List,
    ensures
        list is Some <==> instance_entries(*env).contains_key(key_of(*key, *env)->0),
        list matches Some(found) ==> instance_entries(*env)[key_of(*key, *env)->0] == Entry::List(
            items(found),
        ) && kept_by(found, *env),
{
    env.storage().instance().get(key)
}

/// `soroban_sdk::storage::Instance::set` at `bool`: the key's entry becomes the flag,
/// whatever it was, and every other entry stays. Neither authorizations nor the other
/// kinds of storage are touched, and host values do not change.
#[verifier::external_body]
pub(crate) fn instance_set_flag(env: &mut Env, key: &Val, flag: bool)
    requires
        in_contract(*old(env)),
        key_of(*key, *old(env)) is Some,
    ensures
        instance_entries(*final(env)) == instance_entries(*old(env)).insert(
            key_of(*key, *old(env))->0,
            Entry::Flag(flag),
        ),
        in_contract(*final(env)),
        keys_kept(*old(env), *final(env)),
        persistent_entries(*final(env)) == persistent_entries(*old(env)),
        temporary_entries(*final(env)) == temporary_entries(*old(env)),
        authorizers(*final(env)) == authorizers(*old(env)),
        confirmed(*final(env)) == confirmed(*old(env)),
{
    env.storage().instance().set(key, &flag)
}

/// `soroban_sdk::storage::Instance::set` at `u32`: the key's entry becomes the number,
/// whatever it was, and every other entry stays, as does what is not in instance
/// storage.
#[verifier::external_body]
pub(crate) fn instance_set_count(env: &mut Env, key: &Val, count: u32)
    requires
        in_contract(*old(env)),
        key_of(*key, *old(env)) is Some,
    ensures
        instance_entries(*final(env)) == instance_entries(*old(env)).insert(
            key_of(*key, *old(env))->0,
            Entry::Count(count),
        ),
        in_contract(*final(env)),
        keys_kept(*old(env), *final(env)),
        persistent_entries(*final(env)) == persistent_entries(*old(env)),
        temporary_entries(*final(env)) == temporary_entries(*old(env)),
        authorizers(*final(env)) == authorizers(*old(env)),
        confirmed(*final(env)) == confirmed(*old(env)),
{
    env.storage().instance().set(key, &count)
}

/// `soroban_sdk::storage::Instance::set` at `soroban_sdk::Vec<Address>`: the key's
/// entry becomes the vector, whatever it was, and every other entry stays, as does what
/// is not in instance storage.
#[verifier::external_body]
pub(crate) fn instance_set_list(env: &mut Env, key: &Val, list: &soroban_sdk::Vec<Address>)
    requires
        in_contract(*old(env)),
        key_of(*key, *old(env)) is Some,
        kept_by(*list, *old(env)),
    ensures
        instance_entries(*final(env)) == instance_entries(*old(env)).insert(
            key_of(*key, *old(env))->0,
            Entry::List(items(*list)),
        ),
        in_contract(*final(env)),
        keys_kept(*old(env), *final(env)),
        persistent_entries(*final(env)) == persistent_entries(*old(env)),
        temporary_entries(*final(env)) == temporary_entries(*old(env)),
        authorizers(*final(env)) == authorizers(*old(env)),
        confirmed(*final(env)) == confirmed(*old(env)),
{
    env.storage().instance().set(key, list)
}

/// `soroban_sdk::storage::Instance::remove`: the key has no entry afterwards, whether
/// or not it had one, and every other entry stays, as does what is not in instance
/// storage.
#[verifier::external_body]
pub(crate) fn instance_remove(env: &mut Env, key: &Val)
    requires
        in_contract(*old(env)),
        key_of(*key, *old(env)) is Some,
    ensures
        instance_entries(*final(env)) == instance_entries(*old(env)).remove(
            key_of(*key, *old(env))->0,
        ),
        in_contract(*final(env)),
        keys_kept(*old(env), *final(env)),
        persistent_entries(*final(env)) == persistent_entries(*old(env)),
        temporary_entries(*final(env)) == temporary_entries(*old(env)),
        authorizers(*final(env)) == authorizers(*old(env)),
        confirmed(*final(env)) == confirmed(*old(env)),
{
    env.storage().instance().remove(key)
}

/// `soroban_sdk::Vec::new`: an empty vector of the environment's host.
#[verifier::external_body]
pub(crate) fn list_new(env: &Env) -> (list: soroban_sdk::Vec<Address>)
    ensures
        items(list) == Seq::<Item>::empty(),
        kept_by(list, *env),
{
    soroban_sdk::Vec::new(env)
}

/// `soroban_sdk::Vec::len`: the number of items, which the host counts in 32 bits.
#[verifier::external_body]
pub(crate) fn list_len(list: &soroban_sdk::Vec<Address>) -> (len: u32)
    ensures
        len == items(*list).len(),
{
    list.len()
}

/// `soroban_sdk::Vec::get`: the item at the position, or `None` past the end. It panics
/// on an item that is no address.
#[verifier::external_body]
pub(crate) fn list_get(list: &soroban_sdk::Vec<Address>, i: u32) -> (account: Option<Account>)
    requires
        i < items(*list).len() ==> items(*list)[i as int] is Account,
    ensures
        account is Some <==> i < items(*list).len(),
        account matches Some(found) ==> items(*list)[i as int] == Item::Account(found),
{
    Some(match list.get(i)?.to_payload().unwrap() {
        AddressPayload::AccountIdPublicKeyEd25519(id) => Account::Key(id.to_array()),
        AddressPayload::ContractIdHash(id) => Account::Contract(id.to_array()),
    })
}

/// `soroban_sdk::Vec::push_back`: the account's address becomes the last item. The
/// vector stays with its host.
#[verifier::external_body]
pub(crate) fn list_push_back(list: &mut soroban_sdk::Vec<Address>, account: &Account)
    requires
        items(*old(list)).len() < u32::MAX,
    ensures
        items(*final(list)) == items(*old(list)).push(Item::Account(*account)),
        forall|env: Env| #[trigger] kept_by(*final(list), env) == kept_by(*old(list), env),
{
    let env = list.env().clone();
    let payload = match account {
        Account::Key(id) => AddressPayload::AccountIdPublicKeyEd25519(BytesN::from_array(&env, id)),
        Account::Contract(id) => AddressPayload::ContractIdHash(BytesN::from_array(&env, id)),
    };
    list.push_back(Address::from_payload(&env, payload))
}

/// `soroban_sdk::Address::require_auth`: asks the host for the caller's authorization
/// of the current invocation, returns when the host confirms it and panics when not.
/// The contract's storage stays as it is. An authorization may be used up by the call,
/// so nothing is said of what the host would confirm next.
#[verifier::external_body]
pub(crate) fn require_auth(env: &mut Env, caller: &Account)
    requires
        in_contract(*old(env)),
        authorizers(*old(env)).contains(*caller),
    ensures
        confirmed(*final(env)) == confirmed(*old(env)).push(*caller),
        in_contract(*final(env)),
        keys_kept(*old(env), *final(env)),
        instance_entries(*final(env)) == instance_entries(*old(env)),
        persistent_entries(*final(env)) == persistent_entries(*old(env)),
        temporary_entries(*final(env)) == temporary_entries(*old(env)),
{
    let payload = match caller {
        Account::Key(id) => AddressPayload::AccountIdPublicKeyEd25519(BytesN::from_array(env, id)),
        Account::Contract(id) => AddressPayload::ContractIdHash(BytesN::from_array(env, id)),
    };
    Address::from_payload(env, payload).require_auth()
}

} // verus!
