# dkg

The verified core of a threshold-ECDSA distributed key generation (DKG)
system for a Substrate chain, written in Verus.

- `src/` is the library. Verus proves each of its functions against its
  contract, except the few marked `external_body`, which call outside crates
  and whose contracts are trusted.
  - `signing`: choosing the signing set of an unsigned proposal (seed,
    candidate signers, de-duplication, ordering) and the order in which
    proposal batches are signed.
  - `block_signing`: the handling of a finalized block as a state machine
    (which chain state to read, which sets to draw, which jobs to start).
  - `work_manager`: the queue of signing jobs, at most `max_tasks` running.
  - `offline`: the decisions of the offline stage of threshold signing.
  - `bridge_registry`: the bridge registry pallet (bridges of linked anchors,
    grown from signed anchor-update proposals).
  - `proposal_votes`, `metadata`, `handlers`, `proposal`: proposal votes,
    round metadata, proposal payload decoding and layout.
  - `weights`: the weights of the pallets' calls.
  - `utils`: authority lookup, thresholds, rounds setup, digest scans.
- `tests/` runs the library on concrete values.
- `app/` is the asynchronous client around the library: the signing manager
  (which runs the `block_signing` state machine), the work manager runtime,
  the offline rounds driver and EVM signature recovery.
