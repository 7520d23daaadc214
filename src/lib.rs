//! Typed operation layer of a lattice-based fully homomorphic encryption scheme.
//!
//! Entities (plaintexts, ciphertexts, keys) hold their coefficients as integers of the discrete
//! torus `Z / 2^w Z`, with `w` the precision (32 or 64 bits). The engine validates the shape of
//! its operands before it performs an operation, and each operation is stated over the integer
//! values of those coefficients.
//!
//! - [`numeric`]: the torus arithmetic of `u32` and `u64`.
//! - [`parameters`], [`markers`], [`entities`]: plain parameters, type-level tags, and the
//!   interfaces of entities.
//! - [`encoding`], [`lwe`], [`glwe`], [`keyswitch`], [`bootstrap`]: the entities, and the
//!   arithmetic on them.
//! - [`pbs`]: bootstrapping.
//! - [`generators`]: the random sources.
//! - [`engines`]: the operation traits and the engine that implements them.
//! - [`sums`]: rearrangements of finite sums used by the proofs.
pub mod bootstrap;
pub mod encoding;
pub mod engines;
pub mod entities;
pub mod generators;
pub mod glwe;
pub mod gsw;
pub mod keyswitch;
pub mod lwe;
pub mod markers;
pub mod numeric;
pub mod parameters;
pub mod pbs;
mod seal;
pub mod sums;
