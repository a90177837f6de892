# anchor_contracts

Verified state machines for a family of Soroban contracts:

- `token`: a SEP-41 style fungible token with a semi-fungible (per token id)
  extension, metadata URIs and batch transfers;
- `xlm_wrapper`: a wrapped-XLM token held one to one against deposits, with
  operators, AMM and lending authorisations and a pause switch;
- `kyc`: a KYC verifier that records Ed25519-signed proofs per user and
  invalidates them when the verifier key changes;
- `security_registry`: the system-wide pause switch;
- `flash_loan` and `batch`: contracts that call other contracts, written as
  step machines that take the outcome of each call and name the next one.

`src/` is the library, checked by Verus: each contract's storage is a plain
value with a mathematical model, every entry point states its result and its
new state over that model, and the `*_laws` modules (and the proof functions
at the end of `flash_loan`, `batch`, `kyc` and `security_registry`) prove what
holds across operations: supplies equal the sum of balances, refused
operations change nothing, one operation undoes another, a flash loan is
published only once repaid, and so on.

`app/` holds the Soroban contracts themselves: authorisation, storage,
events and the calls into other contracts, each entry point loading the
library state, calling the library and saving the result.

`tests/` runs the library on concrete values.
