# drip_raffle

A raffle for holders of compressed NFTs, with its decision logic verified by Verus.

- `src/` is the verified library: the per-entry ticket bitmap (`state::BitArray`),
  the raffle state, and what each instruction decides (`instructions::*`), with
  laws relating them in `laws.rs`. The Bubblegum asset id (a program-derived
  address) and leaf hash are computed through `solana-program` and
  `mpl-bubblegum` behind two trusted wrappers in `instructions/create_entry.rs`.
- `app/` is the Anchor program around it: account layouts and validation, the
  token transfer and leaf verification calls, the clock, and logging.
- `tests/` runs the library on concrete values.
