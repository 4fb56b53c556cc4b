//! BLAKE2Xs and BLAKE2s hashing over explicit parameter blocks, and boolean values in
//! rank-one constraint systems over a prime field.
//!
//! - `bytes`: little-endian encodings of integers as mathematical sequences.
//! - `blake2xs`: the BLAKE2s parameter block, its BLAKE2Xs form, and hashing from it.
//! - `field`: the prime field of circuit values.
//! - `prime`: the proof that the field's modulus is prime, so the field has no zero divisors.
//! - `circuit`: variables, linear combinations and a circuit of constraints `a * b = c`.
//! - `boolean`: a variable constrained to be 0 or 1.
pub mod blake2xs;
pub mod boolean;
pub mod bytes;
pub mod circuit;
pub mod field;
pub mod prime;
