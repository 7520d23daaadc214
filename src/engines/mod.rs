//! Engines: the executors of the operations on entities.
//!
//! Each operation family is a trait with two entry points. The checked one validates the
//! invariants the operation needs, and returns a dedicated error without touching its output
//! nor the engine when one fails. The unchecked one states those invariants as a precondition.
use vstd::prelude::*;
use crate::generators::{EncryptionRandomGenerator, SecretRandomGenerator};
use crate::seal::AbstractEngineSeal;

pub mod glwe;
pub mod lwe_allocation;
pub mod lwe_bootstrap;
pub mod lwe_bootstrap_key;
pub mod lwe_encryption;
pub mod lwe_keyswitch_key_generation;
pub mod lwe_linear;
pub mod lwe_secret_key_generation;

verus! {

/// The top-level abstraction of engines: a type with its own error type, for the failures that
/// are specific to the engine rather than to an operation.
pub trait AbstractEngine: AbstractEngineSeal + Sized {
    /// The error associated to the engine.
    type EngineError;

    /// Builds an engine whose generators are seeded with `secret_seed` and `encryption_seed`.
    fn new(secret_seed: u128, encryption_seed: u128) -> Result<Self, Self::EngineError>;
}

/// The failures of the core engine itself.
#[derive(Debug, Clone, Copy, PartialEq, Eq, Structural)]
pub enum CoreError {
    /// The gaussian noise handed to an operation holds fewer error terms than the operation
    /// encrypts coefficients.
    NoiseExhausted,
}

/// The engine of this crate. It owns the generator of secret keys and the generator of
/// ciphertext masks; every key generation or encryption consumes them.
pub struct CoreEngine {
    pub(crate) secret_generator: SecretRandomGenerator,
    pub(crate) encryption_generator: EncryptionRandomGenerator,
}

impl CoreEngine {
    /// The state of the generator of secret keys.
    pub open(crate) spec fn secret_state(&self) -> SecretRandomGenerator {
        self.secret_generator
    }

    /// The state of the generator of ciphertext masks.
    pub open(crate) spec fn encryption_state(&self) -> EncryptionRandomGenerator {
        self.encryption_generator
    }
}

impl AbstractEngineSeal for CoreEngine {}

impl AbstractEngine for CoreEngine {
    type EngineError = CoreError;

    fn new(secret_seed: u128, encryption_seed: u128) -> (r: Result<CoreEngine, CoreError>)
        ensures
            r is Ok,
    {
        Ok(CoreEngine {
            secret_generator: SecretRandomGenerator::new(secret_seed),
            encryption_generator: EncryptionRandomGenerator::new(encryption_seed),
        })
    }
}

} // verus!
