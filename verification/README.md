# stellarspend

Verified models of the StellarSpend Soroban contracts: fees, archive,
budget snapshots, memos, transaction metadata, transaction dependencies,
asset control, batch notifications and staking.

- `src/` is the library, verified with Verus. Each contract is a value that
  holds its storage, the ledger time it sees and the events it has published;
  every entry point states exactly which error it answers and how the state
  changes, and a refused call leaves the contract unchanged. Public proof
  functions state the laws each contract keeps.
- `app/` is the Soroban side: contract entry points that read and write host
  storage, check authorization, publish events and perform token transfers,
  calling the library for every decision.
- `tests/` runs the library on concrete values.
