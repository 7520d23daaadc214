//! Generation of lwe secret keys.
use vstd::prelude::*;
use crate::engines::{AbstractEngine, CoreEngine, CoreError};
use crate::entities::LweSecretKeyEntity;
use crate::lwe::{is_binary, LweSecretKey};
use crate::numeric::Torus;
use crate::parameters::LweDimension;

verus! {

/// The error of [`LweSecretKeyGenerationEngine`].
#[non_exhaustive]
#[derive(Debug)]
pub enum LweSecretKeyGenerationError<EngineError> {
    /// Not enough memory is left to allocate the entity.
    MemoryExhausted,
    Engine(EngineError),
}

/// Engines that generate lwe secret keys.
pub trait LweSecretKeyGenerationEngine<Output>: AbstractEngine where Output: LweSecretKeyEntity {
    /// A key of this dimension can be held in memory.
    spec fn can_generate(lwe_dimension: nat) -> bool;

    /// The key's coefficients lie in the support of its flavor's distribution.
    spec fn follows_flavor(k: &Output) -> bool;

    /// Between the two engine states, only the generator of secret keys moved.
    spec fn draws_secret_randomness_only(before: Self, after: Self) -> bool;

    /// Draws a key of dimension `lwe_dimension` from the secret generator.
    fn generate_lwe_secret_key(&mut self, lwe_dimension: LweDimension) -> (r: Result<Output, LweSecretKeyGenerationError<Self::EngineError>>)
        ensures
            r is Ok <==> Self::can_generate(lwe_dimension.0 as nat),
            r is Err ==> r == Err::<Output, LweSecretKeyGenerationError<Self::EngineError>>(LweSecretKeyGenerationError::MemoryExhausted)
                && *final(self) == *old(self),
            r matches Ok(k) ==> k.lwe_dim() == lwe_dimension.0 && Self::follows_flavor(&k),
            Self::draws_secret_randomness_only(*old(self), *final(self)),
    ;

    /// Draws a key of dimension `lwe_dimension` from the secret generator.
    fn generate_lwe_secret_key_unchecked(&mut self, lwe_dimension: LweDimension) -> (r: Output)
        requires
            Self::can_generate(lwe_dimension.0 as nat),
        ensures
            r.lwe_dim() == lwe_dimension.0,
            Self::follows_flavor(&r),
            Self::draws_secret_randomness_only(*old(self), *final(self)),
    ;
}

impl<T: Torus> LweSecretKeyGenerationEngine<LweSecretKey<T>> for CoreEngine {
    /// Every dimension can: the generation always succeeds.
    open spec fn can_generate(lwe_dimension: nat) -> bool {
        true
    }

    /// The generator of ciphertext masks is untouched.
    open spec fn draws_secret_randomness_only(before: CoreEngine, after: CoreEngine) -> bool {
        after.encryption_state() == before.encryption_state()
    }

    /// Every coefficient is 0 or 1.
    open spec fn follows_flavor(k: &LweSecretKey<T>) -> bool {
        is_binary(k.vals())
    }

    fn generate_lwe_secret_key(&mut self, lwe_dimension: LweDimension) -> (r: Result<LweSecretKey<T>, LweSecretKeyGenerationError<CoreError>>) {
        Ok(<CoreEngine as LweSecretKeyGenerationEngine<LweSecretKey<T>>>::generate_lwe_secret_key_unchecked(self, lwe_dimension))
    }

    fn generate_lwe_secret_key_unchecked(&mut self, lwe_dimension: LweDimension) -> (r: LweSecretKey<T>) {
        LweSecretKey::generate(lwe_dimension.0, &mut self.secret_generator)
    }
}

} // verus!
