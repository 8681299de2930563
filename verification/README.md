# stellar_identity_core

Verified core of an identity-attestation stack on Stellar/Soroban.

- `src/` — the library, verified with Verus:
  - `claims` — claims from Groth16 public signals (Standard and Rarimo layouts), age in whole years from `YYMMDD` dates.
  - `contract` — the identity registry as a state machine over an abstract `RegistryView`: app policies, approvals, app-scoped nullifiers, verification records, the attested path and the on-chain Groth16 path, pairing check included; every operation returns its result, the authorizations it demands and the event it publishes.
  - `laws` — properties across operations (burned nullifiers stay burned, records are never deleted, reads give back writes, expiry is final, recorded claims satisfy the policy, adapter and registry agree on age, ...).
  - `adapter`, `rarimo`, `text`, `bigint` — the proof adapter: snarkjs JSON values to the host's BN254 encodings, claims from public signals, Rarimo query signals.
  - `bn254` — BN254 point validity as the host decides it, the host's curve operations, and the Groth16 pairing check.
  - `store`, `types`, `model`, `hashing`, `crypto`, `error` — storage, identifiers, records, hashed byte strings, host calls and errors.
- `tests/` — tests of the library against the real outside crates.
- `app/` — the `proof-adapter` command line and the Soroban contract glue (storage, authorization, events).
