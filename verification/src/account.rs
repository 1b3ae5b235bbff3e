//! Ledger accounts as plain data.

use vstd::prelude::*;

verus! {

/// What an address designates: a Stellar account by its 32-byte Ed25519 key, or
/// a contract by its 32-byte hash.
#[derive(Clone, Copy, Debug, PartialEq, Eq)]
pub enum Account {
    /// A Stellar account.
    Key([u8; 32]),
    /// A contract.
    Contract([u8; 32]),
}

/// Whether two 32-byte identifiers are the same.
fn same_id(left: &[u8; 32], right: &[u8; 32]) -> (same: bool)
    ensures
        same == (*left == *right),
{
    let mut i: usize = 0;
    while i < 32
        invariant
            i <= 32,
            forall|j: int| 0 <= j < i ==> left@[j] == right@[j],
        decreases 32 - i,
    {
        if left[i] != right[i] {
            assert(left@[i as int] != right@[i as int]);
            return false;
        }
        i += 1;
    }
    assert(*left =~= *right);
    true
}

impl Account {
    /// Whether both designate the same account or contract.
    pub fn same(&self, other: &Account) -> (same: bool)
        ensures
            same == (*self == *other),
    {
        match (self, other) {
            (Account::Key(left), Account::Key(right)) => same_id(left, right),
            (Account::Contract(left), Account::Contract(right)) => same_id(left, right),
            _ => false,
        }
    }
}

} // verus!
