# lib_consensus

The consensus core of the ZHTP network as a Verus-verified library.

- `src/` — the verified library:
  - `step` — consensus steps, timer tokens bound to (height, round, step);
  - `config` — consensus configuration and the round timer;
  - `quorum` — the BFT supermajority threshold and quorum intersection;
  - `fees` — the 45/30/15/10 fee split;
  - `encoding` — decimal and little-endian encodings of hash inputs;
  - `work_proof` — proof of useful work: construction, hash integrity, difficulty;
  - `proof_verify` — checking a proof of useful work against network records;
  - `order` — lexicographic order of validator ids and sorting;
  - `validators` — the validator registry with key separation;
  - `engine` — the consensus engine state: registration, epoch-gated
    validator-set changes with a churn cap, validator snapshots, leader rotation,
    height synchronisation;
  - `types` — block metadata, the no-op blockchain provider, catch-up triggers;
  - `zk` — the proof-system handle and the default mock proof;
  - `external` — the trusted calls into BLAKE3, the system clock and the random source.
- `app/` — runtime glue: floating-point quality and work scores, tokio timers,
  asynchronous blockchain providers, serializable copies of the proof types,
  displayable errors.
- `tests/` — tests of the library.
