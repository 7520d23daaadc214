//! Generation of lwe bootstrap keys, and their conversion to the form bootstrapping uses.
use vstd::prelude::*;
use crate::bootstrap::{check_shape_fits, row_count, shape_fits, BootstrapKeyShape, FourierLweBootstrapKey, GgswRows, LweBootstrapKey};
use crate::engines::{AbstractEngine, CoreEngine, CoreError};
use crate::engines::lwe_keyswitch_key_generation::admissible;
use crate::entities::{AbstractEntity, GlweSecretKeyEntity, LweBootstrapKeyEntity, LweSecretKeyEntity};
use crate::generators::Noise;
use crate::glwe::GlweSecretKey;
use crate::lwe::LweSecretKey;
use crate::markers::LweBootstrapKeyKind;
use crate::numeric::Torus;
use crate::parameters::{variance_is_zero, DecompositionBaseLog, DecompositionLevelCount};

verus! {

/// The error of [`LweBootstrapKeyGenerationEngine`].
#[non_exhaustive]
#[derive(Debug)]
pub enum LweBootstrapKeyGenerationError<EngineError> {
    /// Not enough memory is left to allocate the entity.
    MemoryExhausted,
    /// The noise variance is zero.
    NoiseTooSmall,
    /// The decomposition has one level or none.
    DecompositionTooSmall,
    /// The logarithm of the decomposition base is zero.
    ZeroDecompositionBase,
    Engine(EngineError),
}

/// Engines that generate lwe bootstrap keys.
pub trait LweBootstrapKeyGenerationEngine<Bsk, Lwesk, Glwesk>: AbstractEngine where
    Bsk: LweBootstrapKeyEntity,
    Lwesk: LweSecretKeyEntity<KeyFlavor = Bsk::InputKeyFlavor, Representation = Bsk::Representation>,
    Glwesk: GlweSecretKeyEntity<KeyFlavor = Bsk::OutputKeyFlavor, Representation = Bsk::Representation>,
 {
    /// Between the two engine states, only the generator of ciphertext masks moved.
    spec fn draws_encryption_randomness_only(before: Self, after: Self) -> bool;

    /// The engine has the memory and the noise to generate such a key.
    spec fn can_generate(input_key: Lwesk, output_key: Glwesk, level_count: nat, noise: Noise) -> bool;

    /// `bsk` is the key the engine generates from these keys, parameters and noise.
    spec fn is_bootstrap_key(bsk: Bsk, input_key: Lwesk, output_key: Glwesk, level_count: nat, base_log: nat, noise: Noise) -> bool;

    /// Generates a key that bootstraps ciphertexts under `input_key` into ciphertexts under
    /// the flattened `output_key`. The parameters are checked before any randomness is drawn.
    fn generate_lwe_bootstrap_key(
        &mut self,
        input_key: &Lwesk,
        output_key: &Glwesk,
        decomposition_base_log: DecompositionBaseLog,
        decomposition_level_count: DecompositionLevelCount,
        noise: Noise,
    ) -> (r: Result<Bsk, LweBootstrapKeyGenerationError<Self::EngineError>>)
        ensures
            decomposition_base_log.0 == 0
                ==> r == Err::<Bsk, LweBootstrapKeyGenerationError<Self::EngineError>>(LweBootstrapKeyGenerationError::ZeroDecompositionBase),
            decomposition_base_log.0 != 0 && decomposition_level_count.0 <= 1
                ==> r == Err::<Bsk, LweBootstrapKeyGenerationError<Self::EngineError>>(LweBootstrapKeyGenerationError::DecompositionTooSmall),
            decomposition_base_log.0 != 0 && decomposition_level_count.0 > 1 && variance_is_zero(noise.variance)
                ==> r == Err::<Bsk, LweBootstrapKeyGenerationError<Self::EngineError>>(LweBootstrapKeyGenerationError::NoiseTooSmall),
            r is Ok <==> admissible(decomposition_base_log.0 as nat, decomposition_level_count.0 as nat, noise)
                && Self::can_generate(*input_key, *output_key, decomposition_level_count.0 as nat, noise),
            r is Err ==> *final(self) == *old(self),
            Self::draws_encryption_randomness_only(*old(self), *final(self)),
            r matches Ok(k) ==> Self::is_bootstrap_key(k, *input_key, *output_key, decomposition_level_count.0 as nat, decomposition_base_log.0 as nat, noise),
            r matches Ok(k) ==> k.input_lwe_dim() == input_key.lwe_dim() && k.glwe_dim() == output_key.glwe_dim()
                && k.poly_size() == output_key.poly_size() && k.level_count() == decomposition_level_count.0
                && k.base_log() == decomposition_base_log.0,
    ;

    /// Generates a key that bootstraps ciphertexts under `input_key` into ciphertexts under
    /// the flattened `output_key`.
    fn generate_lwe_bootstrap_key_unchecked(
        &mut self,
        input_key: &Lwesk,
        output_key: &Glwesk,
        decomposition_base_log: DecompositionBaseLog,
        decomposition_level_count: DecompositionLevelCount,
        noise: Noise,
    ) -> (r: Bsk)
        requires
            admissible(decomposition_base_log.0 as nat, decomposition_level_count.0 as nat, noise),
            Self::can_generate(*input_key, *output_key, decomposition_level_count.0 as nat, noise),
        ensures
            Self::draws_encryption_randomness_only(*old(self), *final(self)),
            Self::is_bootstrap_key(r, *input_key, *output_key, decomposition_level_count.0 as nat, decomposition_base_log.0 as nat, noise),
            r.input_lwe_dim() == input_key.lwe_dim(),
            r.glwe_dim() == output_key.glwe_dim(),
            r.poly_size() == output_key.poly_size(),
            r.level_count() == decomposition_level_count.0,
            r.base_log() == decomposition_base_log.0,
    ;
}

/// The shape of the bootstrap key made from these keys and parameters.
pub open spec fn key_shape<T: Torus>(input_key: LweSecretKey<T>, output_key: GlweSecretKey<T>, level_count: nat, base_log: nat) -> BootstrapKeyShape {
    BootstrapKeyShape {
        input_lwe_dimension: input_key.lwe_dim() as usize,
        glwe_dimension: output_key.k() as usize,
        polynomial_size: output_key.n() as usize,
        level_count: level_count as usize,
        base_log: base_log as usize,
    }
}

impl<T: Torus> LweBootstrapKeyGenerationEngine<LweBootstrapKey<T>, LweSecretKey<T>, GlweSecretKey<T>> for CoreEngine {
    /// The generator of secret keys is untouched.
    open spec fn draws_encryption_randomness_only(before: CoreEngine, after: CoreEngine) -> bool {
        after.secret_state() == before.secret_state()
    }

    /// The key fits in memory, and there are `N` error terms for each of its glwe ciphertexts.
    open spec fn can_generate(input_key: LweSecretKey<T>, output_key: GlweSecretKey<T>, level_count: nat, noise: Noise) -> bool {
        let shape = key_shape(input_key, output_key, level_count, 0);
        &&& level_count <= usize::MAX
        &&& shape_fits(shape)
        &&& row_count(shape) * output_key.n() <= noise.errors@.len()
    }

    open spec fn is_bootstrap_key(bsk: LweBootstrapKey<T>, input_key: LweSecretKey<T>, output_key: GlweSecretKey<T>, level_count: nat, base_log: nat, noise: Noise) -> bool {
        &&& bsk.input_lwe_dim() == input_key.lwe_dim()
        &&& bsk.glwe_dim() == output_key.glwe_dim()
        &&& bsk.poly_size() == output_key.poly_size()
        &&& bsk.level_count() == level_count
        &&& bsk.base_log() == base_log
        &&& bsk.rows().encrypt_key(input_key, output_key, noise.errors@)
    }

    fn generate_lwe_bootstrap_key(
        &mut self,
        input_key: &LweSecretKey<T>,
        output_key: &GlweSecretKey<T>,
        decomposition_base_log: DecompositionBaseLog,
        decomposition_level_count: DecompositionLevelCount,
        noise: Noise,
    ) -> (r: Result<LweBootstrapKey<T>, LweBootstrapKeyGenerationError<CoreError>>) {
        if decomposition_base_log.0 == 0 {
            return Err(LweBootstrapKeyGenerationError::ZeroDecompositionBase);
        }
        if decomposition_level_count.0 <= 1 {
            return Err(LweBootstrapKeyGenerationError::DecompositionTooSmall);
        }
        if noise.variance.is_zero() {
            return Err(LweBootstrapKeyGenerationError::NoiseTooSmall);
        }
        let shape = BootstrapKeyShape {
            input_lwe_dimension: input_key.lwe_dimension().0,
            glwe_dimension: output_key.glwe_dimension().0,
            polynomial_size: output_key.polynomial_size().0,
            level_count: decomposition_level_count.0,
            base_log: 0,
        };
        if !check_shape_fits(&shape) {
            return Err(LweBootstrapKeyGenerationError::MemoryExhausted);
        }
        let k = shape.glwe_dimension;
        let n = shape.polynomial_size;
        proof {
            assert(k + 1 <= (k + 1) * shape.level_count) by (nonlinear_arith)
                requires
                    shape.level_count > 0,
            ;
        }
        let needed = shape.input_lwe_dimension * ((k + 1) * shape.level_count) * n;
        if noise.errors.len() < needed {
            return Err(LweBootstrapKeyGenerationError::Engine(CoreError::NoiseExhausted));
        }
        Ok(<CoreEngine as LweBootstrapKeyGenerationEngine<LweBootstrapKey<T>, LweSecretKey<T>, GlweSecretKey<T>>>::generate_lwe_bootstrap_key_unchecked(
            self,
            input_key,
            output_key,
            decomposition_base_log,
            decomposition_level_count,
            noise,
        ))
    }

    fn generate_lwe_bootstrap_key_unchecked(
        &mut self,
        input_key: &LweSecretKey<T>,
        output_key: &GlweSecretKey<T>,
        decomposition_base_log: DecompositionBaseLog,
        decomposition_level_count: DecompositionLevelCount,
        noise: Noise,
    ) -> (r: LweBootstrapKey<T>) {
        let rows = GgswRows::generate(
            input_key,
            output_key,
            decomposition_level_count.0,
            decomposition_base_log.0,
            &noise.errors,
            &mut self.encryption_generator,
        );
        LweBootstrapKey { rows }
    }
}

/// The error of [`LweBootstrapKeyConversionEngine`].
#[non_exhaustive]
#[derive(Debug)]
pub enum LweBootstrapKeyConversionError<EngineError> {
    /// The two keys have different input lwe dimensions.
    DifferingLweDimension,
    /// The two keys have different glwe dimensions.
    DifferingGlweDimension,
    /// The two keys have different polynomial sizes.
    DifferingPolynomialSize,
    /// The two keys have different decomposition base logarithms.
    DifferingDecompositionBaseLog,
    /// The two keys have different decomposition level counts.
    DifferingDecompositionLevelCount,
    Engine(EngineError),
}

/// The two bootstrap keys have the same shape.
pub open spec fn same_shape<A: LweBootstrapKeyEntity, B: LweBootstrapKeyEntity>(a: A, b: B) -> bool {
    &&& a.level_count() == b.level_count()
    &&& a.base_log() == b.base_log()
    &&& a.poly_size() == b.poly_size()
    &&& a.input_lwe_dim() == b.input_lwe_dim()
    &&& a.glwe_dim() == b.glwe_dim()
}

/// Engines that convert a bootstrap key from one representation to another.
pub trait LweBootstrapKeyConversionEngine<Input, Output>: AbstractEngine where
    Input: LweBootstrapKeyEntity,
    Output: LweBootstrapKeyEntity<InputKeyFlavor = Input::InputKeyFlavor, OutputKeyFlavor = Input::OutputKeyFlavor>,
 {
    /// `output` holds the content of `input`, in its own representation.
    spec fn converts(output: Output, input: Input) -> bool;

    /// Converts `input` into `output`. The shapes are compared in a fixed order: level count,
    /// base logarithm, polynomial size, lwe dimension, glwe dimension.
    fn convert_lwe_bootstrap_key(&mut self, output: &mut Output, input: &Input) -> (r: Result<(), LweBootstrapKeyConversionError<Self::EngineError>>)
        ensures
            old(output).level_count() != input.level_count()
                ==> r == Err::<(), LweBootstrapKeyConversionError<Self::EngineError>>(LweBootstrapKeyConversionError::DifferingDecompositionLevelCount),
            old(output).level_count() == input.level_count() && old(output).base_log() != input.base_log()
                ==> r == Err::<(), LweBootstrapKeyConversionError<Self::EngineError>>(LweBootstrapKeyConversionError::DifferingDecompositionBaseLog),
            old(output).level_count() == input.level_count() && old(output).base_log() == input.base_log()
                && old(output).poly_size() != input.poly_size()
                ==> r == Err::<(), LweBootstrapKeyConversionError<Self::EngineError>>(LweBootstrapKeyConversionError::DifferingPolynomialSize),
            old(output).level_count() == input.level_count() && old(output).base_log() == input.base_log()
                && old(output).poly_size() == input.poly_size() && old(output).input_lwe_dim() != input.input_lwe_dim()
                ==> r == Err::<(), LweBootstrapKeyConversionError<Self::EngineError>>(LweBootstrapKeyConversionError::DifferingLweDimension),
            old(output).level_count() == input.level_count() && old(output).base_log() == input.base_log()
                && old(output).poly_size() == input.poly_size() && old(output).input_lwe_dim() == input.input_lwe_dim()
                && old(output).glwe_dim() != input.glwe_dim()
                ==> r == Err::<(), LweBootstrapKeyConversionError<Self::EngineError>>(LweBootstrapKeyConversionError::DifferingGlweDimension),
            r is Ok <==> same_shape(*old(output), *input),
            r is Err ==> *final(output) == *old(output),
            r is Ok ==> Self::converts(*final(output), *input) && same_shape(*final(output), *input),
            *final(self) == *old(self),
    ;

    /// Converts `input` into `output`.
    fn convert_lwe_bootstrap_key_unchecked(&mut self, output: &mut Output, input: &Input)
        requires
            same_shape(*old(output), *input),
        ensures
            Self::converts(*final(output), *input),
            same_shape(*final(output), *input),
            *final(self) == *old(self),
    ;
}

impl<T: Torus> LweBootstrapKeyConversionEngine<LweBootstrapKey<T>, FourierLweBootstrapKey<T>> for CoreEngine {
    /// The coefficients are the same.
    open spec fn converts(output: FourierLweBootstrapKey<T>, input: LweBootstrapKey<T>) -> bool {
        output.rows().same_content(input.rows())
    }

    fn convert_lwe_bootstrap_key(&mut self, output: &mut FourierLweBootstrapKey<T>, input: &LweBootstrapKey<T>) -> (r: Result<(), LweBootstrapKeyConversionError<CoreError>>) {
        if output.decomposition_level_count().0 != input.decomposition_level_count().0 {
            return Err(LweBootstrapKeyConversionError::DifferingDecompositionLevelCount);
        }
        if output.decomposition_base_log().0 != input.decomposition_base_log().0 {
            return Err(LweBootstrapKeyConversionError::DifferingDecompositionBaseLog);
        }
        if output.polynomial_size().0 != input.polynomial_size().0 {
            return Err(LweBootstrapKeyConversionError::DifferingPolynomialSize);
        }
        if output.input_lwe_dimension().0 != input.input_lwe_dimension().0 {
            return Err(LweBootstrapKeyConversionError::DifferingLweDimension);
        }
        if output.glwe_dimension().0 != input.glwe_dimension().0 {
            return Err(LweBootstrapKeyConversionError::DifferingGlweDimension);
        }
        self.convert_lwe_bootstrap_key_unchecked(output, input);
        Ok(())
    }

    fn convert_lwe_bootstrap_key_unchecked(&mut self, output: &mut FourierLweBootstrapKey<T>, input: &LweBootstrapKey<T>) {
        output.fill_with(input);
    }
}

/// The error of [`ConversionEngine`].
#[non_exhaustive]
#[derive(Debug)]
pub enum ConversionError<EngineError> {
    /// The two entities have incompatible sizes.
    SizeMismatch,
    Engine(EngineError),
}

/// Engines that change the representation of an entity, keeping its kind.
pub trait ConversionEngine<Kind, Input, Output, InputRepresentation, OutputRepresentation>: AbstractEngine where
    Input: AbstractEntity<Kind = Kind, Representation = InputRepresentation>,
    Output: AbstractEntity<Kind = Kind, Representation = OutputRepresentation>,
 {
    /// The two entities have compatible sizes.
    spec fn compatible(output: Output, input: Input) -> bool;

    /// `output` holds the content of `input`, in its own representation.
    spec fn converts(output: Output, input: Input) -> bool;

    /// Converts `input` into `output`.
    fn convert(&mut self, output: &mut Output, input: &Input) -> (r: Result<(), ConversionError<Self::EngineError>>)
        ensures
            !Self::compatible(*old(output), *input) ==> r == Err::<(), ConversionError<Self::EngineError>>(ConversionError::SizeMismatch),
            r is Ok <==> Self::compatible(*old(output), *input),
            r is Err ==> *final(output) == *old(output),
            r is Ok ==> Self::converts(*final(output), *input),
            *final(self) == *old(self),
    ;

    /// Converts `input` into `output`.
    fn convert_unchecked(&mut self, output: &mut Output, input: &Input)
        requires
            Self::compatible(*old(output), *input),
        ensures
            Self::converts(*final(output), *input),
            *final(self) == *old(self),
    ;
}

impl<T: Torus> ConversionEngine<LweBootstrapKeyKind, LweBootstrapKey<T>, FourierLweBootstrapKey<T>, T::Standard, T::Fourier> for CoreEngine {
    /// The two keys have the same shape.
    open spec fn compatible(output: FourierLweBootstrapKey<T>, input: LweBootstrapKey<T>) -> bool {
        same_shape(output, input)
    }

    /// The coefficients are the same.
    open spec fn converts(output: FourierLweBootstrapKey<T>, input: LweBootstrapKey<T>) -> bool {
        output.rows().same_content(input.rows())
    }

    fn convert(&mut self, output: &mut FourierLweBootstrapKey<T>, input: &LweBootstrapKey<T>) -> (r: Result<(), ConversionError<CoreError>>) {
        let r = self.convert_lwe_bootstrap_key(output, input);
        match r {
            Ok(()) => Ok(()),
            Err(_) => Err(ConversionError::SizeMismatch),
        }
    }

    fn convert_unchecked(&mut self, output: &mut FourierLweBootstrapKey<T>, input: &LweBootstrapKey<T>) {
        self.convert_lwe_bootstrap_key_unchecked(output, input);
    }
}

} // verus!
