//! Homomorphic linear algebra on lwe ciphertexts: addition, negation, multiplication by a
//! cleartext, addition of a plaintext, and weighted sums.
use vstd::prelude::*;
use crate::encoding::{Cleartext, CleartextVector, Plaintext};
use crate::engines::{AbstractEngine, CoreEngine, CoreError};
use crate::entities::{
    CleartextEntity, CleartextVectorEntity, LweCiphertextEntity, LweCiphertextVectorEntity,
    PlaintextEntity,
};
use crate::lwe::{LweCiphertext, LweCiphertextVector};
use crate::numeric::Torus;

verus! {

/// The error of [`LweAdditionEngine`].
#[non_exhaustive]
#[derive(Debug)]
pub enum LweAdditionError<EngineError> {
    /// The output and the inputs have different lwe dimensions.
    LweDimensionMismatch,
    Engine(EngineError),
}

/// Engines that add two lwe ciphertexts into a third.
pub trait LweAdditionEngine<Ciphertext>: AbstractEngine where Ciphertext: LweCiphertextEntity {
    /// Writes `input_1 + input_2` into `output`.
    fn lwe_add(&mut self, output: &mut Ciphertext, input_1: &Ciphertext, input_2: &Ciphertext) -> (r: Result<(), LweAdditionError<Self::EngineError>>)
        ensures
            r is Ok <==> old(output).lwe_dim() == input_1.lwe_dim() && old(output).lwe_dim() == input_2.lwe_dim(),
            r is Err ==> r == Err::<(), LweAdditionError<Self::EngineError>>(LweAdditionError::LweDimensionMismatch),
            r is Err ==> *final(output) == *old(output),
            *final(self) == *old(self),
    ;

    /// Writes `input_1 + input_2` into `output`.
    fn lwe_add_unchecked(&mut self, output: &mut Ciphertext, input_1: &Ciphertext, input_2: &Ciphertext)
        requires
            old(output).lwe_dim() == input_1.lwe_dim(),
            old(output).lwe_dim() == input_2.lwe_dim(),
        ensures
            *final(self) == *old(self),
    ;
}

impl<T: Torus> LweAdditionEngine<LweCiphertext<T>> for CoreEngine {
    fn lwe_add(&mut self, output: &mut LweCiphertext<T>, input_1: &LweCiphertext<T>, input_2: &LweCiphertext<T>) -> (r: Result<(), LweAdditionError<CoreError>>)
        ensures
            r is Ok ==> final(output).is_combination(*input_1, *input_2, 1, 1),
    {
        if output.mask.len() != input_1.mask.len() || output.mask.len() != input_2.mask.len() {
            return Err(LweAdditionError::LweDimensionMismatch);
        }
        self.lwe_add_unchecked(output, input_1, input_2);
        Ok(())
    }

    fn lwe_add_unchecked(&mut self, output: &mut LweCiphertext<T>, input_1: &LweCiphertext<T>, input_2: &LweCiphertext<T>)
        ensures
            final(output).is_combination(*input_1, *input_2, 1, 1),
    {
        let mut sum = input_1.duplicate();
        sum.add_assign(input_2);
        *output = sum;
    }
}

/// The error of [`LweAdditionInplaceEngine`].
#[non_exhaustive]
#[derive(Debug)]
pub enum LweInplaceAdditionError<EngineError> {
    /// The input and the output have different lwe dimensions.
    LweDimensionMismatch,
    Engine(EngineError),
}

/// Engines that add an lwe ciphertext to another, in place.
pub trait LweAdditionInplaceEngine<Ciphertext>: AbstractEngine where Ciphertext: LweCiphertextEntity {
    /// Adds `input` to `output`.
    fn lwe_add_inplace(&mut self, output: &mut Ciphertext, input: &Ciphertext) -> (r: Result<(), LweInplaceAdditionError<Self::EngineError>>)
        ensures
            r is Ok <==> old(output).lwe_dim() == input.lwe_dim(),
            r is Err ==> r == Err::<(), LweInplaceAdditionError<Self::EngineError>>(LweInplaceAdditionError::LweDimensionMismatch),
            r is Err ==> *final(output) == *old(output),
            *final(self) == *old(self),
    ;

    /// Adds `input` to `output`.
    fn lwe_add_inplace_unchecked(&mut self, output: &mut Ciphertext, input: &Ciphertext)
        requires
            old(output).lwe_dim() == input.lwe_dim(),
        ensures
            *final(self) == *old(self),
    ;
}

impl<T: Torus> LweAdditionInplaceEngine<LweCiphertext<T>> for CoreEngine {
    fn lwe_add_inplace(&mut self, output: &mut LweCiphertext<T>, input: &LweCiphertext<T>) -> (r: Result<(), LweInplaceAdditionError<CoreError>>)
        ensures
            r is Ok ==> final(output).is_combination(*old(output), *input, 1, 1),
    {
        if output.mask.len() != input.mask.len() {
            return Err(LweInplaceAdditionError::LweDimensionMismatch);
        }
        self.lwe_add_inplace_unchecked(output, input);
        Ok(())
    }

    fn lwe_add_inplace_unchecked(&mut self, output: &mut LweCiphertext<T>, input: &LweCiphertext<T>)
        ensures
            final(output).is_combination(*old(output), *input, 1, 1),
    {
        output.add_assign(input);
    }
}

/// The error of [`LweNegationEngine`].
#[non_exhaustive]
#[derive(Debug)]
pub enum LweNegationError<EngineError> {
    /// The input and the output have different lwe dimensions.
    LweDimensionMismatch,
    Engine(EngineError),
}

/// Engines that write the negation of an lwe ciphertext into another.
pub trait LweNegationEngine<Ciphertext>: AbstractEngine where Ciphertext: LweCiphertextEntity {
    /// Writes `-input` into `output`.
    fn lwe_neg(&mut self, output: &mut Ciphertext, input: &Ciphertext) -> (r: Result<(), LweNegationError<Self::EngineError>>)
        ensures
            r is Ok <==> old(output).lwe_dim() == input.lwe_dim(),
            r is Err ==> r == Err::<(), LweNegationError<Self::EngineError>>(LweNegationError::LweDimensionMismatch),
            r is Err ==> *final(output) == *old(output),
            *final(self) == *old(self),
    ;

    /// Writes `-input` into `output`.
    fn lwe_neg_unchecked(&mut self, output: &mut Ciphertext, input: &Ciphertext)
        requires
            old(output).lwe_dim() == input.lwe_dim(),
        ensures
            *final(self) == *old(self),
    ;
}

impl<T: Torus> LweNegationEngine<LweCiphertext<T>> for CoreEngine {
    fn lwe_neg(&mut self, output: &mut LweCiphertext<T>, input: &LweCiphertext<T>) -> (r: Result<(), LweNegationError<CoreError>>)
        ensures
            r is Ok ==> final(output).is_combination(*input, *input, -1, 0),
    {
        if output.mask.len() != input.mask.len() {
            return Err(LweNegationError::LweDimensionMismatch);
        }
        self.lwe_neg_unchecked(output, input);
        Ok(())
    }

    fn lwe_neg_unchecked(&mut self, output: &mut LweCiphertext<T>, input: &LweCiphertext<T>)
        ensures
            final(output).is_combination(*input, *input, -1, 0),
    {
        let mut neg = input.duplicate();
        neg.neg_assign();
        *output = neg;
    }
}

/// The error of [`LweNegationInplaceEngine`].
#[non_exhaustive]
#[derive(Debug)]
pub enum LweNegationInplaceError<EngineError> {
    Engine(EngineError),
}

/// Engines that negate an lwe ciphertext in place.
pub trait LweNegationInplaceEngine<Ciphertext>: AbstractEngine where Ciphertext: LweCiphertextEntity {
    /// Negates `input`.
    fn lwe_neg_inplace(&mut self, input: &mut Ciphertext) -> (r: Result<(), LweNegationInplaceError<Self::EngineError>>)
        ensures
            final(input).lwe_dim() == old(input).lwe_dim(),
            *final(self) == *old(self),
    ;

    /// Negates `input`.
    fn lwe_neg_inplace_unchecked(&mut self, input: &mut Ciphertext)
        ensures
            final(input).lwe_dim() == old(input).lwe_dim(),
            *final(self) == *old(self),
    ;
}

impl<T: Torus> LweNegationInplaceEngine<LweCiphertext<T>> for CoreEngine {
    fn lwe_neg_inplace(&mut self, input: &mut LweCiphertext<T>) -> (r: Result<(), LweNegationInplaceError<CoreError>>)
        ensures
            r is Ok,
            final(input).is_combination(*old(input), *old(input), -1, 0),
    {
        self.lwe_neg_inplace_unchecked(input);
        Ok(())
    }

    fn lwe_neg_inplace_unchecked(&mut self, input: &mut LweCiphertext<T>)
        ensures
            final(input).is_combination(*old(input), *old(input), -1, 0),
    {
        input.neg_assign();
    }
}

/// The error of [`LweCleartextMultiplicationEngine`].
#[non_exhaustive]
#[derive(Debug)]
pub enum LweCleartextMultiplicationError<EngineError> {
    Engine(EngineError),
}

/// Engines that multiply an lwe ciphertext by a cleartext into another ciphertext.
pub trait LweCleartextMultiplicationEngine<Ciphertext, Cleartext>: AbstractEngine where
    Cleartext: CleartextEntity,
    Ciphertext: LweCiphertextEntity<Representation = Cleartext::Representation>,
 {
    /// Writes `input_2 * input_1` into `output`, which takes the dimension of `input_1`.
    fn lwe_cleartext_mul(&mut self, output: &mut Ciphertext, input_1: &Ciphertext, input_2: &Cleartext) -> (r: Result<(), LweCleartextMultiplicationError<Self::EngineError>>)
        ensures
            final(output).lwe_dim() == input_1.lwe_dim(),
            *final(self) == *old(self),
    ;

    /// Writes `input_2 * input_1` into `output`, which takes the dimension of `input_1`.
    fn lwe_cleartext_mul_unchecked(&mut self, output: &mut Ciphertext, input_1: &Ciphertext, input_2: &Cleartext)
        ensures
            final(output).lwe_dim() == input_1.lwe_dim(),
            *final(self) == *old(self),
    ;
}

impl<T: Torus> LweCleartextMultiplicationEngine<LweCiphertext<T>, Cleartext<T>> for CoreEngine {
    fn lwe_cleartext_mul(&mut self, output: &mut LweCiphertext<T>, input_1: &LweCiphertext<T>, input_2: &Cleartext<T>) -> (r: Result<(), LweCleartextMultiplicationError<CoreError>>)
        ensures
            r is Ok,
            final(output).is_combination(*input_1, *input_1, input_2.val(), 0),
    {
        self.lwe_cleartext_mul_unchecked(output, input_1, input_2);
        Ok(())
    }

    fn lwe_cleartext_mul_unchecked(&mut self, output: &mut LweCiphertext<T>, input_1: &LweCiphertext<T>, input_2: &Cleartext<T>)
        ensures
            final(output).is_combination(*input_1, *input_1, input_2.val(), 0),
    {
        let mut product = input_1.duplicate();
        product.scalar_mul_assign(input_2.value);
        *output = product;
    }
}

/// The error of [`LweCleartextMultiplicationInplaceEngine`].
#[non_exhaustive]
#[derive(Debug)]
pub enum LweCleartextMultiplicationInplaceError<EngineError> {
    Engine(EngineError),
}

/// Engines that multiply an lwe ciphertext by a cleartext in place.
pub trait LweCleartextMultiplicationInplaceEngine<Ciphertext, Cleartext>: AbstractEngine where
    Cleartext: CleartextEntity,
    Ciphertext: LweCiphertextEntity<Representation = Cleartext::Representation>,
 {
    /// Multiplies `output` by `input`.
    fn lwe_cleartext_mul_inplace(&mut self, output: &mut Ciphertext, input: &Cleartext) -> (r: Result<(), LweCleartextMultiplicationInplaceError<Self::EngineError>>)
        ensures
            final(output).lwe_dim() == old(output).lwe_dim(),
            *final(self) == *old(self),
    ;

    /// Multiplies `output` by `input`.
    fn lwe_cleartext_mul_inplace_unchecked(&mut self, output: &mut Ciphertext, input: &Cleartext)
        ensures
            final(output).lwe_dim() == old(output).lwe_dim(),
            *final(self) == *old(self),
    ;
}

impl<T: Torus> LweCleartextMultiplicationInplaceEngine<LweCiphertext<T>, Cleartext<T>> for CoreEngine {
    fn lwe_cleartext_mul_inplace(&mut self, output: &mut LweCiphertext<T>, input: &Cleartext<T>) -> (r: Result<(), LweCleartextMultiplicationInplaceError<CoreError>>)
        ensures
            r is Ok,
            final(output).is_combination(*old(output), *old(output), input.val(), 0),
    {
        self.lwe_cleartext_mul_inplace_unchecked(output, input);
        Ok(())
    }

    fn lwe_cleartext_mul_inplace_unchecked(&mut self, output: &mut LweCiphertext<T>, input: &Cleartext<T>)
        ensures
            final(output).is_combination(*old(output), *old(output), input.val(), 0),
    {
        output.scalar_mul_assign(input.value);
    }
}

/// The error of [`LwePlaintextAdditionEngine`].
#[non_exhaustive]
#[derive(Debug)]
pub enum LwePlaintextAdditionError<EngineError> {
    Engine(EngineError),
}

/// Engines that add a plaintext to an lwe ciphertext into another ciphertext.
pub trait LwePlaintextAdditionEngine<Ciphertext, Plaintext>: AbstractEngine where
    Plaintext: PlaintextEntity,
    Ciphertext: LweCiphertextEntity<Representation = Plaintext::Representation>,
 {
    /// Writes `input_1 + input_2` into `output`, which takes the dimension of `input_1`.
    fn lwe_plaintext_add(&mut self, output: &mut Ciphertext, input_1: &Ciphertext, input_2: &Plaintext) -> (r: Result<(), LwePlaintextAdditionError<Self::EngineError>>)
        ensures
            final(output).lwe_dim() == input_1.lwe_dim(),
            *final(self) == *old(self),
    ;

    /// Writes `input_1 + input_2` into `output`, which takes the dimension of `input_1`.
    fn lwe_plaintext_add_unchecked(&mut self, output: &mut Ciphertext, input_1: &Ciphertext, input_2: &Plaintext)
        ensures
            final(output).lwe_dim() == input_1.lwe_dim(),
            *final(self) == *old(self),
    ;
}

impl<T: Torus> LwePlaintextAdditionEngine<LweCiphertext<T>, Plaintext<T>> for CoreEngine {
    fn lwe_plaintext_add(&mut self, output: &mut LweCiphertext<T>, input_1: &LweCiphertext<T>, input_2: &Plaintext<T>) -> (r: Result<(), LwePlaintextAdditionError<CoreError>>)
        ensures
            r is Ok,
            final(output).is_shifted(*input_1, input_2.val()),
    {
        self.lwe_plaintext_add_unchecked(output, input_1, input_2);
        Ok(())
    }

    fn lwe_plaintext_add_unchecked(&mut self, output: &mut LweCiphertext<T>, input_1: &LweCiphertext<T>, input_2: &Plaintext<T>)
        ensures
            final(output).is_shifted(*input_1, input_2.val()),
    {
        let mut shifted = input_1.duplicate();
        shifted.add_to_body(input_2.value);
        *output = shifted;
    }
}

/// The error of [`LwePlaintextAdditionInplaceEngine`].
#[non_exhaustive]
#[derive(Debug)]
pub enum LwePlaintextAdditionInplaceError<EngineError> {
    Engine(EngineError),
}

/// Engines that add a plaintext to an lwe ciphertext in place.
pub trait LwePlaintextAdditionInplaceEngine<Ciphertext, Plaintext>: AbstractEngine where
    Plaintext: PlaintextEntity,
    Ciphertext: LweCiphertextEntity<Representation = Plaintext::Representation>,
 {
    /// Adds `input` to `output`.
    fn lwe_plaintext_add_inplace(&mut self, output: &mut Ciphertext, input: &Plaintext) -> (r: Result<(), LwePlaintextAdditionInplaceError<Self::EngineError>>)
        ensures
            final(output).lwe_dim() == old(output).lwe_dim(),
            *final(self) == *old(self),
    ;

    /// Adds `input` to `output`.
    fn lwe_plaintext_add_inplace_unchecked(&mut self, output: &mut Ciphertext, input: &Plaintext)
        ensures
            final(output).lwe_dim() == old(output).lwe_dim(),
            *final(self) == *old(self),
    ;
}

impl<T: Torus> LwePlaintextAdditionInplaceEngine<LweCiphertext<T>, Plaintext<T>> for CoreEngine {
    fn lwe_plaintext_add_inplace(&mut self, output: &mut LweCiphertext<T>, input: &Plaintext<T>) -> (r: Result<(), LwePlaintextAdditionInplaceError<CoreError>>)
        ensures
            r is Ok,
            final(output).is_shifted(*old(output), input.val()),
    {
        self.lwe_plaintext_add_inplace_unchecked(output, input);
        Ok(())
    }

    fn lwe_plaintext_add_inplace_unchecked(&mut self, output: &mut LweCiphertext<T>, input: &Plaintext<T>)
        ensures
            final(output).is_shifted(*old(output), input.val()),
    {
        output.add_to_body(input.value);
    }
}

/// The error of [`LweMultisumEngine`].
#[non_exhaustive]
#[derive(Debug)]
pub enum LweMultisumError<EngineError> {
    /// The output and the inputs have different lwe dimensions.
    LweDimensionMismatch,
    /// The number of weights differs from the number of inputs.
    VectorCountMismatch,
    Engine(EngineError),
}

/// Engines that compute a weighted sum of lwe ciphertexts, plus a bias.
pub trait LweMultisumEngine<Output, Inputs, Weights, Bias>: AbstractEngine where
    Output: LweCiphertextEntity,
    Inputs: LweCiphertextVectorEntity<Representation = Output::Representation, KeyFlavor = Output::KeyFlavor>,
    Weights: CleartextVectorEntity<Representation = Output::Representation>,
    Bias: PlaintextEntity<Representation = Output::Representation>,
 {
    /// Writes `bias + weights[0] * inputs[0] + ... + weights[n - 1] * inputs[n - 1]` into
    /// `output`.
    fn lwe_multisum(&mut self, output: &mut Output, inputs: &Inputs, weights: &Weights, bias: &Bias) -> (r: Result<(), LweMultisumError<Self::EngineError>>)
        ensures
            r is Ok <==> old(output).lwe_dim() == inputs.lwe_dim() && inputs.count() == weights.count(),
            old(output).lwe_dim() != inputs.lwe_dim() ==> r == Err::<(), LweMultisumError<Self::EngineError>>(LweMultisumError::LweDimensionMismatch),
            old(output).lwe_dim() == inputs.lwe_dim() && inputs.count() != weights.count() ==> r == Err::<(), LweMultisumError<Self::EngineError>>(LweMultisumError::VectorCountMismatch),
            r is Err ==> *final(output) == *old(output),
            final(output).lwe_dim() == old(output).lwe_dim(),
            *final(self) == *old(self),
    ;

    /// Writes `bias + weights[0] * inputs[0] + ... + weights[n - 1] * inputs[n - 1]` into
    /// `output`.
    fn lwe_multisum_unchecked(&mut self, output: &mut Output, inputs: &Inputs, weights: &Weights, bias: &Bias)
        requires
            old(output).lwe_dim() == inputs.lwe_dim(),
            inputs.count() == weights.count(),
        ensures
            final(output).lwe_dim() == old(output).lwe_dim(),
            *final(self) == *old(self),
    ;
}

impl<T: Torus> LweMultisumEngine<LweCiphertext<T>, LweCiphertextVector<T>, CleartextVector<T>, Plaintext<T>> for CoreEngine {
    fn lwe_multisum(&mut self, output: &mut LweCiphertext<T>, inputs: &LweCiphertextVector<T>, weights: &CleartextVector<T>, bias: &Plaintext<T>) -> (r: Result<(), LweMultisumError<CoreError>>)
        ensures
            r is Ok ==> final(output).is_multisum(inputs.items(), weights.vals(), bias.val()),
    {
        if output.lwe_dimension().0 != inputs.lwe_dimension().0 {
            return Err(LweMultisumError::LweDimensionMismatch);
        }
        if inputs.lwe_ciphertext_count().0 != weights.cleartext_count().0 {
            return Err(LweMultisumError::VectorCountMismatch);
        }
        self.lwe_multisum_unchecked(output, inputs, weights, bias);
        Ok(())
    }

    fn lwe_multisum_unchecked(&mut self, output: &mut LweCiphertext<T>, inputs: &LweCiphertextVector<T>, weights: &CleartextVector<T>, bias: &Plaintext<T>)
        ensures
            final(output).is_multisum(inputs.items(), weights.vals(), bias.val()),
    {
        output.fill_with_multisum(inputs, weights, bias);
    }
}

} // verus!
