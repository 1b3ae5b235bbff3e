//! Verified core of the Drip protocol: role-based access control kept in a
//! contract's instance storage, accrual of token streams, and batch transfers.

pub mod account;
pub mod batch;
pub mod calls;
pub mod keys;
pub mod ledger;
pub mod rbac;
pub mod roles;
pub mod stream;
