//! Plain value parameters: dimensions, sizes, counts, decomposition parameters and noise.
use vstd::prelude::*;

verus! {

/// The number of coefficients in the mask of an lwe ciphertext (the size of an lwe key).
#[derive(Clone, Copy, Debug, PartialEq, Eq, Structural)]
pub struct LweDimension(pub usize);

/// The number of mask polynomials of a glwe ciphertext (the size of a glwe key).
#[derive(Clone, Copy, Debug, PartialEq, Eq, Structural)]
pub struct GlweDimension(pub usize);

/// The number of coefficients of the polynomials of a glwe ciphertext.
#[derive(Clone, Copy, Debug, PartialEq, Eq, Structural)]
pub struct PolynomialSize(pub usize);

/// The logarithm of the base of a gadget decomposition.
#[derive(Clone, Copy, Debug, PartialEq, Eq, Structural)]
pub struct DecompositionBaseLog(pub usize);

/// The number of levels of a gadget decomposition.
#[derive(Clone, Copy, Debug, PartialEq, Eq, Structural)]
pub struct DecompositionLevelCount(pub usize);

/// The number of ciphertexts in an lwe ciphertext vector.
#[derive(Clone, Copy, Debug, PartialEq, Eq, Structural)]
pub struct LweCiphertextCount(pub usize);

/// The number of ciphertexts in a glwe ciphertext vector.
#[derive(Clone, Copy, Debug, PartialEq, Eq, Structural)]
pub struct GlweCiphertextCount(pub usize);

/// The number of ciphertexts in a gsw ciphertext vector.
#[derive(Clone, Copy, Debug, PartialEq, Eq, Structural)]
pub struct GswCiphertextCount(pub usize);

/// The number of ciphertexts in a ggsw ciphertext vector.
#[derive(Clone, Copy, Debug, PartialEq, Eq, Structural)]
pub struct GgswCiphertextCount(pub usize);

/// The number of plaintexts in a plaintext vector.
#[derive(Clone, Copy, Debug, PartialEq, Eq, Structural)]
pub struct PlaintextCount(pub usize);

/// The number of cleartexts in a cleartext vector.
#[derive(Clone, Copy, Debug, PartialEq, Eq, Structural)]
pub struct CleartextCount(pub usize);

/// The index of a coefficient of a polynomial.
#[derive(Clone, Copy, Debug, PartialEq, Eq, Structural)]
pub struct MonomialDegree(pub usize);

/// The variance of a centred gaussian distribution over the torus, held as the bit pattern of
/// its IEEE-754 binary64 encoding.
#[derive(Clone, Copy, Debug, PartialEq, Eq, Structural)]
pub struct Variance(pub u64);

/// The bit pattern encodes zero (`+0.0` or `-0.0`).
pub open spec fn variance_is_zero(v: Variance) -> bool {
    v.0 == 0 || v.0 == 0x8000_0000_0000_0000
}

impl Variance {
    /// Whether the variance is zero.
    pub fn is_zero(&self) -> (r: bool)
        ensures
            r == variance_is_zero(*self),
    {
        self.0 == 0 || self.0 == 0x8000_0000_0000_0000
    }
}

} // verus!
