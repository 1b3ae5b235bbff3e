//! Storage keys for a contract's roles.

use crate::account::Account;
use crate::ledger::bytes_key;
use crate::rbac::StorageKey;
use soroban_sdk::{Env, Val};
use vstd::prelude::*;

verus! {

use crate::ledger::Key;
use crate::roles::Roles;
use vstd::bytes::{
    lemma_auto_spec_u32_to_from_le_bytes, spec_u32_from_le_bytes, spec_u32_to_le_bytes,
};

/// A role together with an account.
#[derive(Copy, Clone, Debug, PartialEq, Eq)]
pub struct RoleKey {
    /// The number of the role.
    pub role: u32,
    /// The account.
    pub account: Account,
}

/// The keys under which roles are kept.
#[derive(Copy, Clone, Debug, PartialEq, Eq)]
pub enum DataKey {
    /// Marks that an account holds a role.
    Role(RoleKey),
    /// The number of accounts that hold `Admin`.
    AdminCount,
    /// The accounts that hold a role.
    RoleMembers(u32),
}

/// The bytes of an account: its kind, then its identifier.
pub open spec fn account_bytes(account: Account) -> Seq<u8> {
    match account {
        Account::Key(id) => seq![0u8] + id@,
        Account::Contract(id) => seq![1u8] + id@,
    }
}

/// Appends the identifier to the key.
fn push_id(key: &mut Vec<u8>, id: &[u8; 32])
    ensures
        final(key)@ == old(key)@ + id@,
{
    let mut i: usize = 0;
    while i < 32
        invariant
            i <= 32,
            key@ == old(key)@ + id@.take(i as int),
        decreases 32 - i,
    {
        key.push(id[i]);
        assert(id@.take(i + 1) =~= id@.take(i as int).push(id@[i as int]));
        i += 1;
    }
    assert(id@.take(i as int) =~= id@);
}

impl DataKey {
    /// The kind of the key, then the role in little-endian order, then the account.
    pub open spec fn spelled(self) -> Seq<u8> {
        match self {
            DataKey::Role(key) => seq![0u8] + spec_u32_to_le_bytes(key.role) + account_bytes(
                key.account,
            ),
            DataKey::AdminCount => seq![1u8],
            DataKey::RoleMembers(role) => seq![2u8] + spec_u32_to_le_bytes(role),
        }
    }

    /// The bytes that spell the key.
    pub fn to_bytes(&self) -> (bytes: Vec<u8>)
        ensures
            bytes@ == self.spelled(),
    {
        let mut bytes: Vec<u8> = Vec::new();
        match self {
            DataKey::Role(key) => {
                let mut role = vstd::bytes::u32_to_le_bytes(key.role);
                bytes.push(0);
                bytes.append(&mut role);
                match &key.account {
                    Account::Key(id) => {
                        bytes.push(0);
                        push_id(&mut bytes, id);
                    },
                    Account::Contract(id) => {
                        bytes.push(1);
                        push_id(&mut bytes, id);
                    },
                }
            },
            DataKey::AdminCount => {
                bytes.push(1);
            },
            DataKey::RoleMembers(role) => {
                let mut role = vstd::bytes::u32_to_le_bytes(*role);
                bytes.push(2);
                bytes.append(&mut role);
            },
        }
        assert(bytes@ =~= self.spelled());
        bytes
    }
}

/// The key is the byte string that spells it.
impl StorageKey for DataKey {
    open spec fn slot(&self, env: Env) -> Option<Key> {
        Some(Key::Bytes(self.spelled()))
    }

    fn to_val(&self, env: &Env) -> (key: Val) {
        let bytes = self.to_bytes();
        proof {
            lemma_auto_spec_u32_to_from_le_bytes();
        }
        bytes_key(env, &bytes)
    }

    proof fn lemma_slot_stays(&self, before: Env, after: Env) {
    }
}

/// Different keys are never spelled alike.
pub proof fn law_spelling_identifies_keys(left: DataKey, right: DataKey)
    ensures
        left.spelled() == right.spelled() ==> left == right,
{
    lemma_auto_spec_u32_to_from_le_bytes();
    if left.spelled() == right.spelled() {
        let (l, r) = (left.spelled(), right.spelled());
        assert(l[0] == r[0]);
        match (left, right) {
            (DataKey::Role(a), DataKey::Role(b)) => {
                assert(l.subrange(1, 5) =~= spec_u32_to_le_bytes(a.role));
                assert(r.subrange(1, 5) =~= spec_u32_to_le_bytes(b.role));
                assert(l[5] == account_bytes(a.account)[0]);
                assert(r[5] == account_bytes(b.account)[0]);
                match (a.account, b.account) {
                    (Account::Key(x), Account::Key(y)) => {
                        assert(l.subrange(6, 38) =~= x@);
                        assert(r.subrange(6, 38) =~= y@);
                        assert(x =~= y);
                    },
                    (Account::Contract(x), Account::Contract(y)) => {
                        assert(l.subrange(6, 38) =~= x@);
                        assert(r.subrange(6, 38) =~= y@);
                        assert(x =~= y);
                    },
                    _ => {},
                }
            },
            (DataKey::RoleMembers(a), DataKey::RoleMembers(b)) => {
                assert(l.subrange(1, 5) =~= spec_u32_to_le_bytes(a));
                assert(r.subrange(1, 5) =~= spec_u32_to_le_bytes(b));
            },
            _ => {},
        }
    }
}

/// Storage knows a key by the bytes that it is turned into, and kind, role and account
/// can be read off them.
pub proof fn law_keys_can_be_read_back(key: &DataKey, env: Env, bytes: Vec<u8>)
    requires
        call_ensures(DataKey::to_bytes, (key,), bytes),
    ensures
        key.slot(env) == Some(Key::Bytes(bytes@)),
        match *key {
            DataKey::Role(RoleKey { role, account }) => {
                &&& bytes@.len() == 38
                &&& bytes@[0] == 0
                &&& spec_u32_from_le_bytes(bytes@.subrange(1, 5)) == role
                &&& match account {
                    Account::Key(id) => bytes@[5] == 0 && bytes@.subrange(6, 38) == id@,
                    Account::Contract(id) => bytes@[5] == 1 && bytes@.subrange(6, 38) == id@,
                }
            },
            DataKey::AdminCount => bytes@ == seq![1u8],
            DataKey::RoleMembers(role) => {
                &&& bytes@.len() == 5
                &&& bytes@[0] == 2
                &&& spec_u32_from_le_bytes(bytes@.subrange(1, 5)) == role
            },
        },
{
    lemma_auto_spec_u32_to_from_le_bytes();
    match *key {
        DataKey::Role(RoleKey { role, account }) => {
            assert(bytes@.subrange(1, 5) =~= spec_u32_to_le_bytes(role));
            assert(bytes@[5] == account_bytes(account)[0]);
        },
        DataKey::AdminCount => {},
        DataKey::RoleMembers(role) => {
            assert(bytes@.subrange(1, 5) =~= spec_u32_to_le_bytes(role));
        },
    }
}

/// Where these keys keep a contract's roles.
pub open spec fn roles(admin: u32) -> Roles {
    Roles {
        role: |role: u32, account: Account|
            Key::Bytes(DataKey::Role(RoleKey { role, account }).spelled()),
        members: |role: u32| Key::Bytes(DataKey::RoleMembers(role).spelled()),
        count: Key::Bytes(DataKey::AdminCount.spelled()),
        admin,
    }
}

/// With these keys no slot serves two purposes.
pub proof fn law_keys_keep_roles_apart(admin: u32)
    ensures
        roles(admin).apart(),
{
    let roles = roles(admin);
    assert forall|r: u32, a: Account, s: u32, b: Account| #[trigger]
        (roles.role)(r, a) == #[trigger] (roles.role)(s, b) implies r == s && a == b by {
        law_spelling_identifies_keys(
            DataKey::Role(RoleKey { role: r, account: a }),
            DataKey::Role(RoleKey { role: s, account: b }),
        );
    }
    assert forall|r: u32, s: u32| #[trigger]
        (roles.members)(r) == #[trigger] (roles.members)(s) implies r == s by {
        law_spelling_identifies_keys(DataKey::RoleMembers(r), DataKey::RoleMembers(s));
    }
    assert forall|r: u32, a: Account, s: u32| #[trigger]
        (roles.role)(r, a) != #[trigger] (roles.members)(s) by {
        law_spelling_identifies_keys(
            DataKey::Role(RoleKey { role: r, account: a }),
            DataKey::RoleMembers(s),
        );
    }
    assert forall|r: u32, a: Account| #[trigger] (roles.role)(r, a) != roles.count by {
        law_spelling_identifies_keys(
            DataKey::Role(RoleKey { role: r, account: a }),
            DataKey::AdminCount,
        );
    }
    assert forall|r: u32| #[trigger] (roles.members)(r) != roles.count by {
        law_spelling_identifies_keys(DataKey::RoleMembers(r), DataKey::AdminCount);
    }
}

} // verus!
