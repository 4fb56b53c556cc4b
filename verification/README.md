# aleo_primitives

Two small building blocks, written in Verus with their behaviour stated in contracts and
proved.

- **BLAKE2Xs / BLAKE2s parameter blocks** (`src/blake2xs.rs`, `src/bytes.rs`). The
  parameter block is computed as eight words whose little-endian layout is proved to be the
  byte layout of the BLAKE2 specification (`lemma_parameter_block_layout`). Hashing itself is
  done by the `blake2` crate, reached through one trusted wrapper whose result is named
  `blake2s_digest(block, input)`.
- **Booleans in a constraint system** (`src/field.rs`, `src/circuit.rs`, `src/boolean.rs`).
  A circuit allocates constant, public and private variables over the prime field of
  `2^64 - 2^32 + 1` elements and records constraints `a * b = c`. `Boolean::new` allocates a
  0/1 variable and, for non-constant modes, enforces `(1 - v) * v = 0`; its contract states
  how every count changes, that the new constraint is exactly `(1 - v, v, 0)` as linear
  combinations over the new variable, and that satisfaction is unchanged. The modulus is
  proved prime (`src/prime.rs`, by Proth's theorem with witness 7), so that constraint holds
  exactly when the variable is 0 or 1 (`lemma_boolean_constraint_forces_bit`).

Tests under `tests/` run the library against the `blake2` crate's own BLAKE2s.
