# record_contracts

Eighteen small record-keeping contracts (loyalty points, subscriptions,
warranties, lost and found, bounties, shifts, visitor passes, event RSVPs,
referrals, and nine registries that share one shape: expense splitting,
meeting minutes, equipment checkout, licence renewal, feedback, internship
logs, pledges, carpools and checklist reviews), each with its rules proved
in Verus.

## Layout

- `src/table.rs`: the verified building blocks every contract uses: an
  ordered table of records keyed by text ids (`Table`), a set of
  (record, account) flags (`FlagSet`), and the lemmas that relate their
  executable state to their mathematical views.
- `src/<contract>.rs`: one module per contract. Each holds the contract's
  state, its error enum with the numeric codes, and one method per
  operation. Every operation states exactly which error it returns and when,
  that a refused call changes nothing, and what a successful call does to
  the records, the id list, the counters and the flags. Public proof
  functions state the invariants that every reachable state keeps and the
  states that no call can leave.
- `tests/`: one test file per contract, run against the compiled library.
- `app/`: the on-chain shell built with `soroban-sdk`. It checks
  authorisation, reads the ledger time, loads and saves the contract state
  in instance storage, and turns library errors into contract errors.

Verify with Verus; the library has no trusted items.
