//! Allocation, key generation, encryption and sample extraction of glwe ciphertexts.
use vstd::prelude::*;
use crate::encoding::PlaintextVector;
use crate::engines::{AbstractEngine, CoreEngine, CoreError};
use crate::entities::{
    GlweCiphertextEntity, GlweCiphertextVectorEntity, GlweSecretKeyEntity, LweCiphertextEntity,
    PlaintextVectorEntity,
};
use crate::generators::Noise;
use crate::glwe::{ints, GlweCiphertext, GlweCiphertextVector, GlweSecretKey};
use crate::lwe::{is_binary, LweCiphertext};
use crate::numeric::{vals, Torus};
use crate::parameters::{GlweDimension, MonomialDegree, PolynomialSize};

verus! {

/// `(glwe_dimension + 1) * polynomial_size` coefficients fit in memory.
pub open spec fn glwe_fits(glwe_dimension: nat, polynomial_size: nat) -> bool {
    (glwe_dimension + 1) * polynomial_size <= usize::MAX
}

/// For `n > 0`: `d` is `n * k` exactly when `n` divides `d` with quotient `k`.
proof fn lemma_divides_exactly(d: int, n: int, k: int)
    requires
        d >= 0,
        n >= 0,
        k >= 0,
    ensures
        n > 0 ==> ((d % n == 0 && d / n == k) <==> d == n * k),
{
    if n > 0 {
        vstd::arithmetic::div_mod::lemma_fundamental_div_mod(d, n);
        vstd::arithmetic::div_mod::lemma_div_multiples_vanish(k, n);
        vstd::arithmetic::div_mod::lemma_mod_multiples_basic(k, n);
        assert(n * k == k * n) by (nonlinear_arith);
    }
}

fn check_glwe_fits(glwe_dimension: usize, polynomial_size: usize) -> (r: bool)
    ensures
        r == glwe_fits(glwe_dimension as nat, polynomial_size as nat),
{
    if glwe_dimension == usize::MAX {
        proof {
            assert(polynomial_size > 0 ==> (glwe_dimension + 1) * polynomial_size > usize::MAX) by (nonlinear_arith)
                requires
                    glwe_dimension == usize::MAX,
            ;
            assert(polynomial_size == 0 ==> (glwe_dimension + 1) * polynomial_size == 0) by (nonlinear_arith);
        }
        return polynomial_size == 0;
    }
    (glwe_dimension + 1).checked_mul(polynomial_size).is_some()
}

/// The error of [`GlweAllocationEngine`].
#[non_exhaustive]
#[derive(Debug)]
pub enum GlweAllocationError<EngineError> {
    /// Not enough memory is left to allocate the entity.
    MemoryExhausted,
    Engine(EngineError),
}

/// Engines that allocate glwe ciphertexts.
pub trait GlweAllocationEngine<Output>: AbstractEngine where Output: GlweCiphertextEntity {
    /// A ciphertext of this shape can be held in memory.
    spec fn can_allocate(glwe_dimension: nat, polynomial_size: nat) -> bool;

    /// The ciphertext holds the engine's initial value.
    spec fn is_initial(c: &Output) -> bool;

    /// Allocates a ciphertext of `glwe_dimension` mask polynomials of `polynomial_size`
    /// coefficients.
    fn allocate_glwe(&mut self, glwe_dimension: GlweDimension, polynomial_size: PolynomialSize) -> (r: Result<Output, GlweAllocationError<Self::EngineError>>)
        ensures
            r is Ok <==> Self::can_allocate(glwe_dimension.0 as nat, polynomial_size.0 as nat),
            r matches Ok(c) ==> c.glwe_dim() == glwe_dimension.0 && c.poly_size() == polynomial_size.0 && Self::is_initial(&c),
            r is Err ==> r == Err::<Output, GlweAllocationError<Self::EngineError>>(GlweAllocationError::MemoryExhausted),
            *final(self) == *old(self),
    ;

    /// Allocates a ciphertext of `glwe_dimension` mask polynomials of `polynomial_size`
    /// coefficients.
    fn allocate_glwe_unchecked(&mut self, glwe_dimension: GlweDimension, polynomial_size: PolynomialSize) -> (r: Output)
        requires
            Self::can_allocate(glwe_dimension.0 as nat, polynomial_size.0 as nat),
        ensures
            r.glwe_dim() == glwe_dimension.0,
            r.poly_size() == polynomial_size.0,
            Self::is_initial(&r),
            *final(self) == *old(self),
    ;
}

impl<T: Torus> GlweAllocationEngine<GlweCiphertext<T>> for CoreEngine {
    open spec fn can_allocate(glwe_dimension: nat, polynomial_size: nat) -> bool {
        glwe_fits(glwe_dimension, polynomial_size)
    }

    /// Every coefficient is zero.
    open spec fn is_initial(c: &GlweCiphertext<T>) -> bool {
        &&& forall|f: int| 0 <= f < c.mask_vals().len() ==> #[trigger] c.mask_vals()[f] == 0
        &&& forall|i: int| 0 <= i < c.n() ==> #[trigger] c.body_vals()[i] == 0
    }

    fn allocate_glwe(&mut self, glwe_dimension: GlweDimension, polynomial_size: PolynomialSize) -> (r: Result<GlweCiphertext<T>, GlweAllocationError<CoreError>>) {
        if !check_glwe_fits(glwe_dimension.0, polynomial_size.0) {
            return Err(GlweAllocationError::MemoryExhausted);
        }
        Ok(<CoreEngine as GlweAllocationEngine<GlweCiphertext<T>>>::allocate_glwe_unchecked(self, glwe_dimension, polynomial_size))
    }

    fn allocate_glwe_unchecked(&mut self, glwe_dimension: GlweDimension, polynomial_size: PolynomialSize) -> (r: GlweCiphertext<T>) {
        GlweCiphertext::zero(glwe_dimension.0, polynomial_size.0)
    }
}

/// The error of [`GlweSecretKeyGenerationEngine`].
#[non_exhaustive]
#[derive(Debug)]
pub enum GlweSecretKeyGenerationError<EngineError> {
    /// Not enough memory is left to allocate the entity.
    MemoryExhausted,
    Engine(EngineError),
}

/// Engines that generate glwe secret keys.
pub trait GlweSecretKeyGenerationEngine<Output>: AbstractEngine where Output: GlweSecretKeyEntity {
    /// A key of this shape can be held in memory.
    spec fn can_allocate(glwe_dimension: nat, polynomial_size: nat) -> bool;

    /// The key's coefficients lie in the support of its flavor's distribution.
    spec fn follows_flavor(k: &Output) -> bool;

    /// Between the two engine states, only the generator of secret keys moved.
    spec fn draws_secret_randomness_only(before: Self, after: Self) -> bool;

    /// Draws a key of `glwe_dimension` polynomials of `polynomial_size` coefficients from the
    /// secret generator.
    fn generate_glwe_secret_key(&mut self, glwe_dimension: GlweDimension, polynomial_size: PolynomialSize) -> (r: Result<Output, GlweSecretKeyGenerationError<Self::EngineError>>)
        ensures
            r is Ok <==> Self::can_allocate(glwe_dimension.0 as nat, polynomial_size.0 as nat),
            r matches Ok(k) ==> k.glwe_dim() == glwe_dimension.0 && k.poly_size() == polynomial_size.0 && Self::follows_flavor(&k),
            r is Err ==> r == Err::<Output, GlweSecretKeyGenerationError<Self::EngineError>>(GlweSecretKeyGenerationError::MemoryExhausted) && *final(self) == *old(self),
            Self::draws_secret_randomness_only(*old(self), *final(self)),
    ;

    /// Draws a key of `glwe_dimension` polynomials of `polynomial_size` coefficients from the
    /// secret generator.
    fn generate_glwe_secret_key_unchecked(&mut self, glwe_dimension: GlweDimension, polynomial_size: PolynomialSize) -> (r: Output)
        requires
            Self::can_allocate(glwe_dimension.0 as nat, polynomial_size.0 as nat),
        ensures
            r.glwe_dim() == glwe_dimension.0,
            r.poly_size() == polynomial_size.0,
            Self::follows_flavor(&r),
            Self::draws_secret_randomness_only(*old(self), *final(self)),
    ;
}

impl<T: Torus> GlweSecretKeyGenerationEngine<GlweSecretKey<T>> for CoreEngine {
    open spec fn can_allocate(glwe_dimension: nat, polynomial_size: nat) -> bool {
        glwe_fits(glwe_dimension, polynomial_size)
    }

    /// Every coefficient is 0 or 1.
    open spec fn follows_flavor(k: &GlweSecretKey<T>) -> bool {
        is_binary(k.vals())
    }

    /// The generator of ciphertext masks is untouched.
    open spec fn draws_secret_randomness_only(before: CoreEngine, after: CoreEngine) -> bool {
        after.encryption_state() == before.encryption_state()
    }

    fn generate_glwe_secret_key(&mut self, glwe_dimension: GlweDimension, polynomial_size: PolynomialSize) -> (r: Result<GlweSecretKey<T>, GlweSecretKeyGenerationError<CoreError>>) {
        if !check_glwe_fits(glwe_dimension.0, polynomial_size.0) {
            return Err(GlweSecretKeyGenerationError::MemoryExhausted);
        }
        Ok(<CoreEngine as GlweSecretKeyGenerationEngine<GlweSecretKey<T>>>::generate_glwe_secret_key_unchecked(self, glwe_dimension, polynomial_size))
    }

    fn generate_glwe_secret_key_unchecked(&mut self, glwe_dimension: GlweDimension, polynomial_size: PolynomialSize) -> (r: GlweSecretKey<T>) {
        proof {
            assert(glwe_dimension.0 * polynomial_size.0 <= (glwe_dimension.0 + 1) * polynomial_size.0) by (nonlinear_arith);
        }
        GlweSecretKey::generate(glwe_dimension.0, polynomial_size.0, &mut self.secret_generator)
    }
}

/// The error of [`GlweEncryptionEngine`].
#[non_exhaustive]
#[derive(Debug)]
pub enum GlweEncryptionError<EngineError> {
    /// The glwe dimension of the key differs from the one of the output ciphertext.
    GlweDimensionMismatch,
    /// The polynomial size of the key differs from the one of the output ciphertext.
    PolynomialSizeMismatch,
    /// The number of plaintexts differs from the polynomial size.
    CountMismatch,
    Engine(EngineError),
}

/// Engines that encrypt a polynomial of plaintexts into a glwe ciphertext.
pub trait GlweEncryptionEngine<Key, Input, Output>: AbstractEngine where
    Key: GlweSecretKeyEntity,
    Input: PlaintextVectorEntity<Representation = Key::Representation>,
    Output: GlweCiphertextEntity<Representation = Key::Representation, KeyFlavor = Key::KeyFlavor>,
 {
    /// Encrypts the polynomial whose coefficients are the plaintexts of `input` under `key`
    /// into `output`, with fresh mask polynomials and the first `N` error terms of `noise`.
    /// The shapes are compared in a fixed order: polynomial size, glwe dimension, number of
    /// plaintexts.
    fn encrypt_glwe(&mut self, key: &Key, output: &mut Output, input: &Input, noise: Noise) -> (r: Result<(), GlweEncryptionError<Self::EngineError>>)
        ensures
            key.poly_size() != old(output).poly_size()
                ==> r == Err::<(), GlweEncryptionError<Self::EngineError>>(GlweEncryptionError::PolynomialSizeMismatch),
            key.poly_size() == old(output).poly_size() && key.glwe_dim() != old(output).glwe_dim()
                ==> r == Err::<(), GlweEncryptionError<Self::EngineError>>(GlweEncryptionError::GlweDimensionMismatch),
            key.poly_size() == old(output).poly_size() && key.glwe_dim() == old(output).glwe_dim() && input.count() != old(output).poly_size()
                ==> r == Err::<(), GlweEncryptionError<Self::EngineError>>(GlweEncryptionError::CountMismatch),
            r is Err ==> *final(output) == *old(output) && *final(self) == *old(self),
            final(output).glwe_dim() == old(output).glwe_dim(),
            final(output).poly_size() == old(output).poly_size(),
    ;

    /// Encrypts the polynomial whose coefficients are the plaintexts of `input` under `key`
    /// into `output`, with fresh mask polynomials and the first `N` error terms of `noise`.
    fn encrypt_glwe_unchecked(&mut self, key: &Key, output: &mut Output, input: &Input, noise: Noise)
        requires
            key.poly_size() == old(output).poly_size(),
            input.count() == old(output).poly_size(),
            key.glwe_dim() == old(output).glwe_dim(),
            noise.errors@.len() >= old(output).poly_size(),
        ensures
            final(output).glwe_dim() == old(output).glwe_dim(),
            final(output).poly_size() == old(output).poly_size(),
    ;
}

impl<T: Torus> GlweEncryptionEngine<GlweSecretKey<T>, PlaintextVector<T>, GlweCiphertext<T>> for CoreEngine {
    fn encrypt_glwe(&mut self, key: &GlweSecretKey<T>, output: &mut GlweCiphertext<T>, input: &PlaintextVector<T>, noise: Noise) -> (r: Result<(), GlweEncryptionError<CoreError>>)
        ensures
            final(self).secret_state() == old(self).secret_state(),
            r is Ok <==> key.poly_size() == old(output).poly_size() && input.count() == old(output).poly_size() && key.glwe_dim() == old(output).glwe_dim()
                && noise.errors@.len() >= old(output).poly_size(),
            r is Err && key.poly_size() == old(output).poly_size() && input.count() == old(output).poly_size() && key.glwe_dim() == old(output).glwe_dim()
                ==> r == Err::<(), GlweEncryptionError<CoreError>>(GlweEncryptionError::Engine(CoreError::NoiseExhausted)),
            r is Ok ==> final(output).encrypts(key, input.vals(), ints(noise.errors@.subrange(0, old(output).poly_size() as int))),
    {
        let n = output.polynomial_size().0;
        if key.polynomial_size().0 != n {
            return Err(GlweEncryptionError::PolynomialSizeMismatch);
        }
        if key.glwe_dimension().0 != output.glwe_dimension().0 {
            return Err(GlweEncryptionError::GlweDimensionMismatch);
        }
        if input.plaintext_count().0 != n {
            return Err(GlweEncryptionError::CountMismatch);
        }
        if noise.errors.len() < n {
            return Err(GlweEncryptionError::Engine(CoreError::NoiseExhausted));
        }
        self.encrypt_glwe_unchecked(key, output, input, noise);
        Ok(())
    }

    fn encrypt_glwe_unchecked(&mut self, key: &GlweSecretKey<T>, output: &mut GlweCiphertext<T>, input: &PlaintextVector<T>, noise: Noise)
        ensures
            final(self).secret_state() == old(self).secret_state(),
            final(output).encrypts(key, input.vals(), ints(noise.errors@.subrange(0, old(output).poly_size() as int))),
    {
        output.encrypt(key, input.values(), &noise.errors, 0, &mut self.encryption_generator);
    }
}

/// The error of [`GlweVectorEncryptionEngine`].
#[non_exhaustive]
#[derive(Debug)]
pub enum GlweVectorEncryptionError<EngineError> {
    /// The glwe dimension of the key differs from the one of the output ciphertexts.
    GlweDimensionMismatch,
    /// The polynomial size of the key differs from the one of the output ciphertexts.
    PolynomialSizeMismatch,
    /// The number of plaintexts differs from the number of ciphertexts times the polynomial
    /// size.
    CountMismatch,
    Engine(EngineError),
}

/// Engines that encrypt a vector of plaintexts into a vector of glwe ciphertexts, one
/// polynomial of `N` plaintexts per ciphertext.
pub trait GlweVectorEncryptionEngine<Key, Input, Output>: AbstractEngine where
    Key: GlweSecretKeyEntity,
    Input: PlaintextVectorEntity<Representation = Key::Representation>,
    Output: GlweCiphertextVectorEntity<Representation = Key::Representation, KeyFlavor = Key::KeyFlavor>,
 {
    /// Encrypts the `i`-th block of `N` plaintexts of `input` under `key` into the `i`-th
    /// ciphertext of `output`, with the `i`-th block of `N` error terms of `noise`.
    fn encrypt_glwe_vector(&mut self, key: &Key, output: &mut Output, input: &Input, noise: Noise) -> (r: Result<(), GlweVectorEncryptionError<Self::EngineError>>)
        ensures
            key.glwe_dim() != old(output).glwe_dim()
                ==> r == Err::<(), GlweVectorEncryptionError<Self::EngineError>>(GlweVectorEncryptionError::GlweDimensionMismatch),
            key.glwe_dim() == old(output).glwe_dim() && key.poly_size() != old(output).poly_size()
                ==> r == Err::<(), GlweVectorEncryptionError<Self::EngineError>>(GlweVectorEncryptionError::PolynomialSizeMismatch),
            key.glwe_dim() == old(output).glwe_dim() && key.poly_size() == old(output).poly_size() && input.count() != old(output).count() * old(output).poly_size()
                ==> r == Err::<(), GlweVectorEncryptionError<Self::EngineError>>(GlweVectorEncryptionError::CountMismatch),
            r is Err ==> *final(output) == *old(output) && *final(self) == *old(self),
            final(output).glwe_dim() == old(output).glwe_dim(),
            final(output).poly_size() == old(output).poly_size(),
            final(output).count() == old(output).count(),
    ;

    /// Encrypts the `i`-th block of `N` plaintexts of `input` under `key` into the `i`-th
    /// ciphertext of `output`, with the `i`-th block of `N` error terms of `noise`.
    fn encrypt_glwe_vector_unchecked(&mut self, key: &Key, output: &mut Output, input: &Input, noise: Noise)
        requires
            key.glwe_dim() == old(output).glwe_dim(),
            key.poly_size() == old(output).poly_size(),
            input.count() == old(output).count() * old(output).poly_size(),
            noise.errors@.len() >= input.count(),
        ensures
            final(output).glwe_dim() == old(output).glwe_dim(),
            final(output).poly_size() == old(output).poly_size(),
            final(output).count() == old(output).count(),
    ;
}

impl<T: Torus> GlweVectorEncryptionEngine<GlweSecretKey<T>, PlaintextVector<T>, GlweCiphertextVector<T>> for CoreEngine {
    fn encrypt_glwe_vector(&mut self, key: &GlweSecretKey<T>, output: &mut GlweCiphertextVector<T>, input: &PlaintextVector<T>, noise: Noise) -> (r: Result<(), GlweVectorEncryptionError<CoreError>>)
        ensures
            final(self).secret_state() == old(self).secret_state(),
            r is Ok <==> key.glwe_dim() == old(output).glwe_dim() && key.poly_size() == old(output).poly_size()
                && input.count() == old(output).count() * old(output).poly_size() && noise.errors@.len() >= input.count(),
            r is Ok ==> forall|i: int| 0 <= i < old(output).count() ==> #[trigger] final(output).items()[i].encrypts(
                key,
                input.vals().subrange(i * old(output).n(), (i + 1) * old(output).n()),
                ints(noise.errors@.subrange(i * old(output).n(), (i + 1) * old(output).n())),
            ),
    {
        if key.glwe_dimension().0 != output.glwe_dimension().0 {
            return Err(GlweVectorEncryptionError::GlweDimensionMismatch);
        }
        let n = output.polynomial_size().0;
        if key.polynomial_size().0 != n {
            return Err(GlweVectorEncryptionError::PolynomialSizeMismatch);
        }
        let count = output.glwe_ciphertext_count().0;
        let plaintexts = input.plaintext_count().0;
        let fits = if n == 0 {
            plaintexts == 0
        } else {
            plaintexts % n == 0 && plaintexts / n == count
        };
        proof {
            lemma_divides_exactly(plaintexts as int, n as int, count as int);
            assert(n * count == count * n) by (nonlinear_arith);
        }
        if !fits {
            return Err(GlweVectorEncryptionError::CountMismatch);
        }
        if noise.errors.len() < plaintexts {
            return Err(GlweVectorEncryptionError::Engine(CoreError::NoiseExhausted));
        }
        self.encrypt_glwe_vector_unchecked(key, output, input, noise);
        Ok(())
    }

    fn encrypt_glwe_vector_unchecked(&mut self, key: &GlweSecretKey<T>, output: &mut GlweCiphertextVector<T>, input: &PlaintextVector<T>, noise: Noise)
        ensures
            final(self).secret_state() == old(self).secret_state(),
            forall|i: int| 0 <= i < old(output).count() ==> #[trigger] final(output).items()[i].encrypts(
                key,
                input.vals().subrange(i * old(output).n(), (i + 1) * old(output).n()),
                ints(noise.errors@.subrange(i * old(output).n(), (i + 1) * old(output).n())),
            ),
    {
        output.encrypt(key, input.values(), &noise.errors, &mut self.encryption_generator);
    }
}

/// The error of [`GlweSampleExtractionEngine`].
#[non_exhaustive]
#[derive(Debug)]
pub enum GlweSampleExtractionError<EngineError> {
    /// The dimension of the output lwe ciphertext differs from the glwe dimension times the
    /// polynomial size of the input.
    SizeMismatch,
    /// The coefficient to extract is not below the polynomial size.
    MonomialDegreeTooLarge,
    Engine(EngineError),
}

/// Engines that extract one coefficient of a glwe ciphertext as an lwe ciphertext.
pub trait GlweSampleExtractionEngine<Input, Output>: AbstractEngine where
    Input: GlweCiphertextEntity,
    Output: LweCiphertextEntity<KeyFlavor = Input::KeyFlavor, Representation = Input::Representation>,
 {
    /// Writes into `output` the lwe ciphertext of coefficient `nth` of the message of `input`,
    /// under the key made of the coefficients of the glwe key polynomials.
    fn glwe_sample_extract(&mut self, output: &mut Output, input: &Input, nth: MonomialDegree) -> (r: Result<(), GlweSampleExtractionError<Self::EngineError>>)
        ensures
            old(output).lwe_dim() != input.poly_size() * input.glwe_dim()
                ==> r == Err::<(), GlweSampleExtractionError<Self::EngineError>>(GlweSampleExtractionError::SizeMismatch),
            old(output).lwe_dim() == input.poly_size() * input.glwe_dim() && nth.0 >= input.poly_size()
                ==> r == Err::<(), GlweSampleExtractionError<Self::EngineError>>(GlweSampleExtractionError::MonomialDegreeTooLarge),
            r is Ok <==> old(output).lwe_dim() == input.poly_size() * input.glwe_dim() && nth.0 < input.poly_size(),
            r is Err ==> *final(output) == *old(output),
            final(output).lwe_dim() == old(output).lwe_dim(),
            *final(self) == *old(self),
    ;

    /// Writes into `output` the lwe ciphertext of coefficient `nth` of the message of `input`,
    /// under the key made of the coefficients of the glwe key polynomials.
    fn glwe_sample_extract_unchecked(&mut self, output: &mut Output, input: &Input, nth: MonomialDegree)
        requires
            old(output).lwe_dim() == input.poly_size() * input.glwe_dim(),
            nth.0 < input.poly_size(),
        ensures
            final(output).lwe_dim() == old(output).lwe_dim(),
            *final(self) == *old(self),
    ;
}

impl<T: Torus> GlweSampleExtractionEngine<GlweCiphertext<T>, LweCiphertext<T>> for CoreEngine {
    fn glwe_sample_extract(&mut self, output: &mut LweCiphertext<T>, input: &GlweCiphertext<T>, nth: MonomialDegree) -> (r: Result<(), GlweSampleExtractionError<CoreError>>)
        ensures
            r is Ok ==> final(output).is_sample_of(*input, nth.0 as int),
    {
        let n = input.polynomial_size().0;
        let k = input.glwe_dimension().0;
        let d = output.lwe_dimension().0;
        let matches = if n == 0 {
            d == 0
        } else {
            d % n == 0 && d / n == k
        };
        proof {
            lemma_divides_exactly(d as int, n as int, k as int);
        }
        if !matches {
            return Err(GlweSampleExtractionError::SizeMismatch);
        }
        if nth.0 >= n {
            return Err(GlweSampleExtractionError::MonomialDegreeTooLarge);
        }
        self.glwe_sample_extract_unchecked(output, input, nth);
        Ok(())
    }

    fn glwe_sample_extract_unchecked(&mut self, output: &mut LweCiphertext<T>, input: &GlweCiphertext<T>, nth: MonomialDegree)
        ensures
            final(output).is_sample_of(*input, nth.0 as int),
    {
        proof {
            assert(input.n() * input.k() == input.k() * input.n()) by (nonlinear_arith);
        }
        input.extract_sample(output, nth.0);
    }
}

} // verus!
