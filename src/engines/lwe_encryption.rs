//! Encryption of plaintexts into lwe ciphertexts, one at a time or in vectors.
use vstd::prelude::*;
use crate::encoding::{Plaintext, PlaintextVector};
use crate::engines::{AbstractEngine, CoreEngine, CoreError};
use crate::entities::{
    LweCiphertextEntity, LweCiphertextVectorEntity, LweSecretKeyEntity, PlaintextEntity,
    PlaintextVectorEntity,
};
use crate::generators::Noise;
use crate::lwe::{LweCiphertext, LweCiphertextVector, LweSecretKey};
use crate::numeric::Torus;

verus! {

/// The error of [`LweEncryptionEngine`].
#[non_exhaustive]
#[derive(Debug)]
pub enum LweEncryptionError<EngineError> {
    /// The dimension of the key differs from the dimension of the output ciphertext.
    LweDimensionMismatch,
    Engine(EngineError),
}

/// Engines that encrypt plaintexts into lwe ciphertexts.
pub trait LweEncryptionEngine<Key, Input, Output>: AbstractEngine where
    Key: LweSecretKeyEntity,
    Input: PlaintextEntity<Representation = Key::Representation>,
    Output: LweCiphertextEntity<Representation = Key::Representation, KeyFlavor = Key::KeyFlavor>,
 {
    /// Encrypts `input` under `key` into `output`, with a fresh mask and the first error term
    /// of `noise`.
    fn encrypt_lwe(&mut self, key: &Key, output: &mut Output, input: &Input, noise: Noise) -> (r: Result<(), LweEncryptionError<Self::EngineError>>)
        ensures
            key.lwe_dim() != old(output).lwe_dim() ==> r == Err::<(), LweEncryptionError<Self::EngineError>>(LweEncryptionError::LweDimensionMismatch),
            r is Err ==> *final(output) == *old(output) && *final(self) == *old(self),
            final(output).lwe_dim() == old(output).lwe_dim(),
    ;

    /// Encrypts `input` under `key` into `output`, with a fresh mask and the first error term
    /// of `noise`.
    fn encrypt_lwe_unchecked(&mut self, key: &Key, output: &mut Output, input: &Input, noise: Noise)
        requires
            key.lwe_dim() == old(output).lwe_dim(),
            noise.errors@.len() >= 1,
        ensures
            final(output).lwe_dim() == old(output).lwe_dim(),
    ;
}

impl<T: Torus> LweEncryptionEngine<LweSecretKey<T>, Plaintext<T>, LweCiphertext<T>> for CoreEngine {
    fn encrypt_lwe(&mut self, key: &LweSecretKey<T>, output: &mut LweCiphertext<T>, input: &Plaintext<T>, noise: Noise) -> (r: Result<(), LweEncryptionError<CoreError>>)
        ensures
            final(self).secret_state() == old(self).secret_state(),
            r is Ok <==> key.lwe_dim() == old(output).lwe_dim() && noise.errors@.len() >= 1,
            key.lwe_dim() == old(output).lwe_dim() && noise.errors@.len() < 1 ==> r == Err::<(), LweEncryptionError<CoreError>>(LweEncryptionError::Engine(CoreError::NoiseExhausted)),
            r is Ok ==> final(output).encrypts(key, input.val(), noise.errors@[0] as int),
    {
        if key.data.len() != output.mask.len() {
            return Err(LweEncryptionError::LweDimensionMismatch);
        }
        if noise.errors.len() < 1 {
            return Err(LweEncryptionError::Engine(CoreError::NoiseExhausted));
        }
        self.encrypt_lwe_unchecked(key, output, input, noise);
        Ok(())
    }

    fn encrypt_lwe_unchecked(&mut self, key: &LweSecretKey<T>, output: &mut LweCiphertext<T>, input: &Plaintext<T>, noise: Noise)
        ensures
            final(self).secret_state() == old(self).secret_state(),
            final(output).encrypts(key, input.val(), noise.errors@[0] as int),
    {
        output.encrypt(key, input.value, noise.errors[0], &mut self.encryption_generator);
    }
}

/// The error of [`LweVectorEncryptionEngine`].
#[non_exhaustive]
#[derive(Debug)]
pub enum LweVectorEncryptionError<EngineError> {
    /// The dimension of the key differs from the dimension of the output ciphertexts.
    LweDimensionMismatch,
    /// The number of plaintexts differs from the number of ciphertexts.
    CountMismatch,
    Engine(EngineError),
}

/// Engines that encrypt plaintext vectors into lwe ciphertext vectors, element by element.
pub trait LweVectorEncryptionEngine<Key, Input, Output>: AbstractEngine where
    Key: LweSecretKeyEntity,
    Input: PlaintextVectorEntity<Representation = Key::Representation>,
    Output: LweCiphertextVectorEntity<Representation = Key::Representation, KeyFlavor = Key::KeyFlavor>,
 {
    /// Encrypts the `i`-th plaintext of `input` under `key` into the `i`-th ciphertext of
    /// `output`, with a fresh mask and the `i`-th error term of `noise`.
    fn encrypt_lwe_vector(&mut self, key: &Key, output: &mut Output, input: &Input, noise: Noise) -> (r: Result<(), LweVectorEncryptionError<Self::EngineError>>)
        ensures
            key.lwe_dim() != old(output).lwe_dim() ==> r == Err::<(), LweVectorEncryptionError<Self::EngineError>>(LweVectorEncryptionError::LweDimensionMismatch),
            key.lwe_dim() == old(output).lwe_dim() && input.count() != old(output).count() ==> r == Err::<(), LweVectorEncryptionError<Self::EngineError>>(LweVectorEncryptionError::CountMismatch),
            r is Err ==> *final(output) == *old(output) && *final(self) == *old(self),
            final(output).lwe_dim() == old(output).lwe_dim(),
            final(output).count() == old(output).count(),
    ;

    /// Encrypts the `i`-th plaintext of `input` under `key` into the `i`-th ciphertext of
    /// `output`, with a fresh mask and the `i`-th error term of `noise`.
    fn encrypt_lwe_vector_unchecked(&mut self, key: &Key, output: &mut Output, input: &Input, noise: Noise)
        requires
            key.lwe_dim() == old(output).lwe_dim(),
            input.count() == old(output).count(),
            noise.errors@.len() >= input.count(),
        ensures
            final(output).lwe_dim() == old(output).lwe_dim(),
            final(output).count() == old(output).count(),
    ;
}

impl<T: Torus> LweVectorEncryptionEngine<LweSecretKey<T>, PlaintextVector<T>, LweCiphertextVector<T>> for CoreEngine {
    fn encrypt_lwe_vector(&mut self, key: &LweSecretKey<T>, output: &mut LweCiphertextVector<T>, input: &PlaintextVector<T>, noise: Noise) -> (r: Result<(), LweVectorEncryptionError<CoreError>>)
        ensures
            final(self).secret_state() == old(self).secret_state(),
            r is Ok <==> key.lwe_dim() == old(output).lwe_dim() && input.count() == old(output).count() && noise.errors@.len() >= input.count(),
            key.lwe_dim() == old(output).lwe_dim() && input.count() == old(output).count() && noise.errors@.len() < input.count()
                ==> r == Err::<(), LweVectorEncryptionError<CoreError>>(LweVectorEncryptionError::Engine(CoreError::NoiseExhausted)),
            r is Ok ==> forall|i: int| 0 <= i < input.count() ==> #[trigger] final(output).items()[i].encrypts(key, input.vals()[i], noise.errors@[i] as int),
    {
        if key.lwe_dimension().0 != output.lwe_dimension().0 {
            return Err(LweVectorEncryptionError::LweDimensionMismatch);
        }
        if input.plaintext_count().0 != output.lwe_ciphertext_count().0 {
            return Err(LweVectorEncryptionError::CountMismatch);
        }
        if noise.errors.len() < input.values.len() {
            return Err(LweVectorEncryptionError::Engine(CoreError::NoiseExhausted));
        }
        self.encrypt_lwe_vector_unchecked(key, output, input, noise);
        Ok(())
    }

    fn encrypt_lwe_vector_unchecked(&mut self, key: &LweSecretKey<T>, output: &mut LweCiphertextVector<T>, input: &PlaintextVector<T>, noise: Noise)
        ensures
            final(self).secret_state() == old(self).secret_state(),
            forall|i: int| 0 <= i < input.count() ==> #[trigger] final(output).items()[i].encrypts(key, input.vals()[i], noise.errors@[i] as int),
    {
        output.encrypt(key, &input.values, &noise.errors, &mut self.encryption_generator);
    }
}

} // verus!
