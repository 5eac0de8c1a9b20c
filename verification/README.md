# smaugs-treasure

A payment processing engine over client accounts: deposits, withdrawals,
disputes, resolves and chargebacks, with fixed-point amounts of four decimal
places (an `i64` scaled by 10,000).

The library in `src/` is written in Verus, and every function in it is
proved against its contract:

- `types/`: amounts (checked arithmetic, parsing and formatting of decimal
  text), accounts, transactions and their validation.
- `storage/`: the dispute state machine (none → active → resolved or charged back).
- `engine/model.rs`: the engine's state as maps and sets, and the transition
  that processing one transaction makes; `PaymentProcessor::process_transaction`
  is proved to make exactly that transition, and `finalize_to_writer` to write
  exactly the accounts report.
- `engine/laws.rs`: what processing keeps across calls (well-formedness,
  permanent locks, unique transaction IDs, the dispute state machine, held
  funds equal to the sum of active disputes, ...).
- `text.rs`: trimming, decimal digits and string building.

`app/` is the command-line program around it: argument parsing (clap), reading
CSV rows (csv, serde), logging (tracing) and error messages (thiserror).

Usage: `smaugs-treasure transactions.csv [--verbose]`; the accounts are printed
as CSV on stdout.
