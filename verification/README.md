# rust_banking

A role-based banking system whose core is verified with Verus.

- `src/` is the verified library. The bank's tables (users, accounts,
  transfers, account history, audit log) are held in `store::Bank`, whose
  well-formedness (`Bank::wf`) every operation keeps. Money is held in cents.
  - `access_control`: who may see accounts, move money, approve transfers
    and read the audit log.
  - `auth`: signing in.
  - `banking`: transfers (immediate below 1000.00, pending above), manager
    approval, and the readers; the laws on money, approval and listing.
  - `audit`: the SHA-256 hash-chained audit log.
  - `db`: the demonstration data.
  - `text`: decimal and money text, and hashes shortened for display.
  - `session`: what the application shows and answers for each action.
  - `program`: the on-chain transfer-request program; `blockchain`: the
    instruction data its client sends.
- `app/` is the desktop application: the egui window, the SQLite file
  (loading and saving the tables) and the Solana RPC client.
- `tests/` runs the library on concrete values.
