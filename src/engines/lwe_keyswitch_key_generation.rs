//! Generation of lwe keyswitch keys.
use vstd::prelude::*;
use crate::engines::{AbstractEngine, CoreEngine, CoreError};
use crate::entities::{LweKeyswitchKeyEntity, LweSecretKeyEntity};
use crate::generators::Noise;
use crate::keyswitch::LweKeyswitchKey;
use crate::lwe::LweSecretKey;
use crate::markers::BinaryKeyFlavor;
use crate::numeric::Torus;
use crate::parameters::{variance_is_zero, DecompositionBaseLog, DecompositionLevelCount};

verus! {

/// The error of [`LweKeyswitchKeyGenerationEngine`].
#[non_exhaustive]
#[derive(Debug)]
pub enum LweKeyswitchKeyGenerationError<EngineError> {
    /// Not enough memory is left to allocate the entity.
    MemoryExhausted,
    /// The noise variance is zero.
    NoiseTooSmall,
    /// The decomposition has one level or none.
    DecompositionTooSmall,
    /// The logarithm of the decomposition base is zero.
    ZeroDecompositionBase,
    Engine(EngineError),
}

/// The decomposition parameters and the noise are admissible for key generation: a non-zero
/// base logarithm, more than one level, and a non-zero variance.
pub open spec fn admissible(base_log: nat, level_count: nat, noise: Noise) -> bool {
    base_log != 0 && level_count > 1 && !variance_is_zero(noise.variance)
}

/// Engines that generate lwe keyswitch keys.
pub trait LweKeyswitchKeyGenerationEngine<KeyswitchKey, SecretKey>: AbstractEngine where
    KeyswitchKey: LweKeyswitchKeyEntity<KeyFlavor = BinaryKeyFlavor>,
    SecretKey: LweSecretKeyEntity<KeyFlavor = BinaryKeyFlavor, Representation = KeyswitchKey::Representation>,
 {
    /// Between the two engine states, only the generator of ciphertext masks moved.
    spec fn draws_encryption_randomness_only(before: Self, after: Self) -> bool;

    /// The engine has the memory and the noise to generate such a key.
    spec fn can_generate(input_key: SecretKey, level_count: nat, noise: Noise) -> bool;

    /// `ksk` is the key the engine generates from these keys, parameters and noise.
    spec fn is_keyswitch_key(ksk: KeyswitchKey, input_key: SecretKey, output_key: SecretKey, level_count: nat, base_log: nat, noise: Noise) -> bool;

    /// Generates a key that switches ciphertexts from `input_key` to `output_key`. The
    /// parameters are checked before any randomness is drawn.
    fn generate_lwe_keyswitch_key(
        &mut self,
        input_key: &SecretKey,
        output_key: &SecretKey,
        decomposition_level_count: DecompositionLevelCount,
        decomposition_base_log: DecompositionBaseLog,
        noise: Noise,
    ) -> (r: Result<KeyswitchKey, LweKeyswitchKeyGenerationError<Self::EngineError>>)
        ensures
            decomposition_base_log.0 == 0
                ==> r == Err::<KeyswitchKey, LweKeyswitchKeyGenerationError<Self::EngineError>>(LweKeyswitchKeyGenerationError::ZeroDecompositionBase),
            decomposition_base_log.0 != 0 && decomposition_level_count.0 <= 1
                ==> r == Err::<KeyswitchKey, LweKeyswitchKeyGenerationError<Self::EngineError>>(LweKeyswitchKeyGenerationError::DecompositionTooSmall),
            decomposition_base_log.0 != 0 && decomposition_level_count.0 > 1 && variance_is_zero(noise.variance)
                ==> r == Err::<KeyswitchKey, LweKeyswitchKeyGenerationError<Self::EngineError>>(LweKeyswitchKeyGenerationError::NoiseTooSmall),
            r is Ok <==> admissible(decomposition_base_log.0 as nat, decomposition_level_count.0 as nat, noise)
                && Self::can_generate(*input_key, decomposition_level_count.0 as nat, noise),
            r is Err ==> *final(self) == *old(self),
            Self::draws_encryption_randomness_only(*old(self), *final(self)),
            r matches Ok(k) ==> Self::is_keyswitch_key(k, *input_key, *output_key, decomposition_level_count.0 as nat, decomposition_base_log.0 as nat, noise),
            r matches Ok(k) ==> k.input_lwe_dim() == input_key.lwe_dim() && k.output_lwe_dim() == output_key.lwe_dim()
                && k.level_count() == decomposition_level_count.0 && k.base_log() == decomposition_base_log.0,
    ;

    /// Generates a key that switches ciphertexts from `input_key` to `output_key`.
    fn generate_lwe_keyswitch_key_unchecked(
        &mut self,
        input_key: &SecretKey,
        output_key: &SecretKey,
        decomposition_level_count: DecompositionLevelCount,
        decomposition_base_log: DecompositionBaseLog,
        noise: Noise,
    ) -> (r: KeyswitchKey)
        requires
            admissible(decomposition_base_log.0 as nat, decomposition_level_count.0 as nat, noise),
            Self::can_generate(*input_key, decomposition_level_count.0 as nat, noise),
        ensures
            Self::draws_encryption_randomness_only(*old(self), *final(self)),
            Self::is_keyswitch_key(r, *input_key, *output_key, decomposition_level_count.0 as nat, decomposition_base_log.0 as nat, noise),
            r.input_lwe_dim() == input_key.lwe_dim(),
            r.output_lwe_dim() == output_key.lwe_dim(),
            r.level_count() == decomposition_level_count.0,
            r.base_log() == decomposition_base_log.0,
    ;
}

impl<T: Torus> LweKeyswitchKeyGenerationEngine<LweKeyswitchKey<T>, LweSecretKey<T>> for CoreEngine {
    /// The generator of secret keys is untouched.
    open spec fn draws_encryption_randomness_only(before: CoreEngine, after: CoreEngine) -> bool {
        after.secret_state() == before.secret_state()
    }

    /// One error term per ciphertext of the key.
    open spec fn can_generate(input_key: LweSecretKey<T>, level_count: nat, noise: Noise) -> bool {
        input_key.lwe_dim() * level_count <= noise.errors@.len()
    }

    open spec fn is_keyswitch_key(ksk: LweKeyswitchKey<T>, input_key: LweSecretKey<T>, output_key: LweSecretKey<T>, level_count: nat, base_log: nat, noise: Noise) -> bool {
        ksk.switches(input_key, output_key, level_count, base_log, noise.errors@)
    }

    fn generate_lwe_keyswitch_key(
        &mut self,
        input_key: &LweSecretKey<T>,
        output_key: &LweSecretKey<T>,
        decomposition_level_count: DecompositionLevelCount,
        decomposition_base_log: DecompositionBaseLog,
        noise: Noise,
    ) -> (r: Result<LweKeyswitchKey<T>, LweKeyswitchKeyGenerationError<CoreError>>) {
        if decomposition_base_log.0 == 0 {
            return Err(LweKeyswitchKeyGenerationError::ZeroDecompositionBase);
        }
        if decomposition_level_count.0 <= 1 {
            return Err(LweKeyswitchKeyGenerationError::DecompositionTooSmall);
        }
        if noise.variance.is_zero() {
            return Err(LweKeyswitchKeyGenerationError::NoiseTooSmall);
        }
        let available = noise.errors.len();
        let needed = input_key.lwe_dimension().0.checked_mul(decomposition_level_count.0);
        match needed {
            None => {
                Err(LweKeyswitchKeyGenerationError::Engine(CoreError::NoiseExhausted))
            },
            Some(count) => {
                if available < count {
                    return Err(LweKeyswitchKeyGenerationError::Engine(CoreError::NoiseExhausted));
                }
                Ok(<CoreEngine as LweKeyswitchKeyGenerationEngine<LweKeyswitchKey<T>, LweSecretKey<T>>>::generate_lwe_keyswitch_key_unchecked(
                    self,
                    input_key,
                    output_key,
                    decomposition_level_count,
                    decomposition_base_log,
                    noise,
                ))
            },
        }
    }

    fn generate_lwe_keyswitch_key_unchecked(
        &mut self,
        input_key: &LweSecretKey<T>,
        output_key: &LweSecretKey<T>,
        decomposition_level_count: DecompositionLevelCount,
        decomposition_base_log: DecompositionBaseLog,
        noise: Noise,
    ) -> (r: LweKeyswitchKey<T>) {
        LweKeyswitchKey::generate(
            input_key,
            output_key,
            decomposition_level_count.0,
            decomposition_base_log.0,
            &noise.errors,
            &mut self.encryption_generator,
        )
    }
}

} // verus!
