# sol_tx_aggregator

Collects Solana transfers and account balances from confirmed blocks and
serves them over HTTP.

- `src/` is the verified library.
  - `application/aggregator.rs`: how a block becomes notifications (transfers,
    created accounts, balance changes), with the rules stated as spec
    functions and proved of the code.
  - `application/polling.rs`: the polling loop as a state machine, with its
    laws (the processed slot never decreases, a shutdown stops the loop, ...).
  - `application/app.rs`: the application and its queries.
  - `infrastructure/memory.rs`: the in-memory store over `dashmap`.
  - `infrastructure/solana_codec.rs`: the calls into the Solana crates and
    `bincode`, each with a contract that names or states its result.
  - `infrastructure/clock.rs`: the reading of the system clock, of which
    nothing is claimed.
  - `domain/`: the records, the block model, the errors, and UTC days.
- `app/` runs it: the RPC client, the channels and tasks, the HTTP server.
- `tests/` exercise the library on concrete values.
