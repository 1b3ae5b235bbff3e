# drip

Verified core of the Drip protocol on Soroban, in Verus.

- `src/rbac.rs`: roles, the admin counter and the membership index, kept in a
  contract's instance storage, under keys of the contract's own. `src/roles.rs` holds
  what is proved of a contract's roles over any number of grants and revocations,
  `src/keys.rs` a set of storage keys.
- `src/stream.rs`: what has accrued on a token stream and what can be withdrawn.
- `src/batch.rs`: which batches of payments are accepted and what they pay.
- `src/ledger.rs`: the calls into `soroban_sdk`, with the contracts that are taken on
  trust.
- `src/account.rs`: accounts as plain data.
- `app/`: contract entry points and adapters to `soroban_sdk`'s types.
