//! Bootstrapping of lwe ciphertexts.
use vstd::prelude::*;
use crate::bootstrap::{row_count, FourierLweBootstrapKey, LweBootstrapKey};
use crate::engines::lwe_bootstrap_key::LweBootstrapKeyConversionEngine;
use crate::pbs::lemma_same_content_same_bootstrap;
use crate::engines::{AbstractEngine, CoreEngine, CoreError};
use crate::entities::{GlweCiphertextEntity, LweBootstrapKeyEntity, LweCiphertextEntity};
use crate::glwe::GlweCiphertext;
use crate::lwe::LweCiphertext;
use crate::markers::BinaryKeyFlavor;
use crate::numeric::Torus;
use crate::pbs::bootstrap;

verus! {

/// The error of [`LweBootstrapEngine`].
#[non_exhaustive]
#[derive(Debug)]
pub enum LweBootstrapError<EngineError> {
    /// The input ciphertext and the key have different input lwe dimensions.
    InputDimensionMismatch,
    /// The accumulator and the key have different polynomial sizes.
    PolynomialSizeMismatch,
    /// The accumulator and the key have different glwe dimensions.
    AccumulatorDimensionMismatch,
    /// The output ciphertext and the key have different output lwe dimensions.
    OutputDimensionMismatch,
    Engine(EngineError),
}

/// Engines that bootstrap lwe ciphertexts: refresh their noise while evaluating the function
/// encoded in an accumulator.
pub trait LweBootstrapEngine<BootstrapKey, Ciphertext, Accumulator>: AbstractEngine where
    Ciphertext: LweCiphertextEntity,
    Accumulator: GlweCiphertextEntity<KeyFlavor = Ciphertext::KeyFlavor, Representation = Ciphertext::Representation>,
    BootstrapKey: LweBootstrapKeyEntity<InputKeyFlavor = BinaryKeyFlavor, OutputKeyFlavor = BinaryKeyFlavor>,
 {
    /// Bootstraps `input` with `bsk`, rotating the accumulator `acc`, into `output`. The
    /// shapes are compared in a fixed order: input dimension, polynomial size, glwe dimension,
    /// output dimension. No randomness is drawn.
    fn lwe_bootstrap(&mut self, output: &mut Ciphertext, input: &Ciphertext, acc: &Accumulator, bsk: &BootstrapKey) -> (r: Result<(), LweBootstrapError<Self::EngineError>>)
        ensures
            input.lwe_dim() != bsk.input_lwe_dim()
                ==> r == Err::<(), LweBootstrapError<Self::EngineError>>(LweBootstrapError::InputDimensionMismatch),
            input.lwe_dim() == bsk.input_lwe_dim() && acc.poly_size() != bsk.poly_size()
                ==> r == Err::<(), LweBootstrapError<Self::EngineError>>(LweBootstrapError::PolynomialSizeMismatch),
            input.lwe_dim() == bsk.input_lwe_dim() && acc.poly_size() == bsk.poly_size() && acc.glwe_dim() != bsk.glwe_dim()
                ==> r == Err::<(), LweBootstrapError<Self::EngineError>>(LweBootstrapError::AccumulatorDimensionMismatch),
            input.lwe_dim() == bsk.input_lwe_dim() && acc.poly_size() == bsk.poly_size() && acc.glwe_dim() == bsk.glwe_dim()
                && old(output).lwe_dim() != bsk.glwe_dim() * bsk.poly_size()
                ==> r == Err::<(), LweBootstrapError<Self::EngineError>>(LweBootstrapError::OutputDimensionMismatch),
            r is Ok <==> input.lwe_dim() == bsk.input_lwe_dim() && acc.poly_size() == bsk.poly_size() && acc.glwe_dim() == bsk.glwe_dim()
                && old(output).lwe_dim() == bsk.glwe_dim() * bsk.poly_size(),
            r is Err ==> *final(output) == *old(output),
            final(output).lwe_dim() == old(output).lwe_dim(),
            *final(self) == *old(self),
    ;

    /// Bootstraps `input` with `bsk`, rotating the accumulator `acc`, into `output`.
    fn lwe_bootstrap_unchecked(&mut self, output: &mut Ciphertext, input: &Ciphertext, acc: &Accumulator, bsk: &BootstrapKey)
        requires
            input.lwe_dim() == bsk.input_lwe_dim(),
            acc.poly_size() == bsk.poly_size(),
            acc.glwe_dim() == bsk.glwe_dim(),
            old(output).lwe_dim() == bsk.glwe_dim() * bsk.poly_size(),
        ensures
            final(output).lwe_dim() == old(output).lwe_dim(),
            *final(self) == *old(self),
    ;
}

impl<T: Torus> LweBootstrapEngine<FourierLweBootstrapKey<T>, LweCiphertext<T>, GlweCiphertext<T>> for CoreEngine {
    fn lwe_bootstrap(&mut self, output: &mut LweCiphertext<T>, input: &LweCiphertext<T>, acc: &GlweCiphertext<T>, bsk: &FourierLweBootstrapKey<T>) -> (r: Result<(), LweBootstrapError<CoreError>>)
        ensures
            r is Ok ==> final(output).is_bootstrap_of(*input, *acc, bsk.rows()),
    {
        if input.lwe_dimension().0 != bsk.input_lwe_dimension().0 {
            return Err(LweBootstrapError::InputDimensionMismatch);
        }
        if acc.polynomial_size().0 != bsk.polynomial_size().0 {
            return Err(LweBootstrapError::PolynomialSizeMismatch);
        }
        if acc.glwe_dimension().0 != bsk.glwe_dimension().0 {
            return Err(LweBootstrapError::AccumulatorDimensionMismatch);
        }
        if output.lwe_dimension().0 != bsk.output_lwe_dimension().0 {
            return Err(LweBootstrapError::OutputDimensionMismatch);
        }
        self.lwe_bootstrap_unchecked(output, input, acc, bsk);
        Ok(())
    }

    fn lwe_bootstrap_unchecked(&mut self, output: &mut LweCiphertext<T>, input: &LweCiphertext<T>, acc: &GlweCiphertext<T>, bsk: &FourierLweBootstrapKey<T>)
        ensures
            final(output).is_bootstrap_of(*input, *acc, bsk.rows()),
    {
        let _ = bsk.rows.get_shape();
        bootstrap(&bsk.rows, output, input, acc);
    }
}

impl<T: Torus> LweBootstrapEngine<LweBootstrapKey<T>, LweCiphertext<T>, GlweCiphertext<T>> for CoreEngine {
    fn lwe_bootstrap(&mut self, output: &mut LweCiphertext<T>, input: &LweCiphertext<T>, acc: &GlweCiphertext<T>, bsk: &LweBootstrapKey<T>) -> (r: Result<(), LweBootstrapError<CoreError>>)
        ensures
            r is Ok ==> final(output).is_bootstrap_of(*input, *acc, bsk.rows()),
    {
        if input.lwe_dimension().0 != bsk.input_lwe_dimension().0 {
            return Err(LweBootstrapError::InputDimensionMismatch);
        }
        if acc.polynomial_size().0 != bsk.polynomial_size().0 {
            return Err(LweBootstrapError::PolynomialSizeMismatch);
        }
        if acc.glwe_dimension().0 != bsk.glwe_dimension().0 {
            return Err(LweBootstrapError::AccumulatorDimensionMismatch);
        }
        if output.lwe_dimension().0 != bsk.output_lwe_dimension().0 {
            return Err(LweBootstrapError::OutputDimensionMismatch);
        }
        self.lwe_bootstrap_unchecked(output, input, acc, bsk);
        Ok(())
    }

    fn lwe_bootstrap_unchecked(&mut self, output: &mut LweCiphertext<T>, input: &LweCiphertext<T>, acc: &GlweCiphertext<T>, bsk: &LweBootstrapKey<T>)
        ensures
            final(output).is_bootstrap_of(*input, *acc, bsk.rows()),
    {
        let _ = bsk.rows.get_shape();
        bootstrap(&bsk.rows, output, input, acc);
    }
}

/// Converting a bootstrap key changes its representation, not what bootstrapping computes: the
/// converted key bootstraps every ciphertext to what the standard key bootstraps it to. The
/// row count it requires is given by `input_lwe_dimension()` on the standard key.
pub proof fn lemma_conversion_fidelity<T: Torus>(
    standard: LweBootstrapKey<T>,
    fourier: FourierLweBootstrapKey<T>,
    input: LweCiphertext<T>,
    acc: GlweCiphertext<T>,
    output: LweCiphertext<T>,
)
    requires
        <CoreEngine as LweBootstrapKeyConversionEngine<LweBootstrapKey<T>, FourierLweBootstrapKey<T>>>::converts(fourier, standard),
        standard.rows().items().len() == row_count(standard.shape()),
        input.lwe_dim() == standard.input_lwe_dim(),
    ensures
        output.is_bootstrap_of(input, acc, fourier.rows()) == output.is_bootstrap_of(input, acc, standard.rows()),
{
    lemma_same_content_same_bootstrap(output, input, acc, fourier.rows(), standard.rows());
}

} // verus!
