# maat_sdk

The Maat SDK's logic as a verified library: delegations, anchors,
constraints, scopes, action descriptors, receipt validation and the
gateway's URLs and error answers, proved by Verus against their
contracts. The one function that reads the wall clock,
`SystemClock::now`, promises nothing of the time it reads.

## Layout

- `src/` — the library.
  - `protocol.rs`: the protocol's values (identifiers, keys, scopes, value
    claims, delegations, actions, receipts) and their models.
  - `constraints.rs`, `scope.rs`: fluent builders of constraint sets and
    scope expressions.
  - `descriptor.rs`: action descriptors; `json.rs`: the canonical JSON of a
    value claim, its decoder, and the proof that decoding undoes encoding.
  - `delegation.rs`, `anchor.rs`: delegation and anchor builders, the
    delegation store, acceptance of inbound delegations.
  - `gateway.rs`, `executor_key.rs`: endpoint URLs, percent-encoding,
    rejection errors, the executor key from the gateway's answer.
  - `replay.rs`, `validator.rs`: replay protection and the receipt
    validation pipeline, with the single-use law.
  - `error.rs`, `text.rs`, `time.rs`: errors and their messages, decimal
    numerals and UTF-8 helpers, clocks.
- `tests/` — tests of the library on concrete values.
- `app/` — HTTP calls, key pairs and signatures of the protocol library,
  JSON parsing of receipts, and error types with `std::error::Error`.
