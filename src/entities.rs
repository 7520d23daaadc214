//! The interfaces every entity type implements: its kind and representation, and read-only
//! accessors to its shape.
use vstd::prelude::*;
use crate::markers::{
    CleartextKind, CleartextVectorKind, EntityKindMarker, EntityRepresentationMarker,
    GgswCiphertextKind, GgswCiphertextVectorKind, GswCiphertextKind, GswCiphertextVectorKind, GlweCiphertextKind, GlweCiphertextVectorKind, GlweSecretKeyKind,
    KeyFlavorMarker, LweBootstrapKeyKind, LweCiphertextKind, LweCiphertextVectorKind,
    LweKeyswitchKeyKind, LweSecretKeyKind, PlaintextKind, PlaintextVectorKind,
};
use crate::parameters::{
    CleartextCount, DecompositionBaseLog, DecompositionLevelCount, GgswCiphertextCount,
    GlweCiphertextCount, GswCiphertextCount,
    GlweDimension, LweCiphertextCount, LweDimension, PlaintextCount, PolynomialSize,
};

verus! {

/// An entity of the scheme: a type tagged with one kind and one representation, so that
/// operands of an operation are checked for compatibility at compile time.
pub trait AbstractEntity {
    /// The kind of the entity.
    type Kind: EntityKindMarker;

    /// The representation the entity embodies.
    type Representation: EntityRepresentationMarker;
}

/// A plaintext.
pub trait PlaintextEntity: AbstractEntity<Kind = PlaintextKind> {}

/// A vector of plaintexts.
pub trait PlaintextVectorEntity: AbstractEntity<Kind = PlaintextVectorKind> {
    spec fn count(&self) -> nat;

    /// The number of plaintexts in the vector.
    fn plaintext_count(&self) -> (r: PlaintextCount)
        ensures
            r.0 == self.count(),
    ;
}

/// A cleartext.
pub trait CleartextEntity: AbstractEntity<Kind = CleartextKind> {}

/// A vector of cleartexts.
pub trait CleartextVectorEntity: AbstractEntity<Kind = CleartextVectorKind> {
    spec fn count(&self) -> nat;

    /// The number of cleartexts in the vector.
    fn cleartext_count(&self) -> (r: CleartextCount)
        ensures
            r.0 == self.count(),
    ;
}

/// An lwe ciphertext.
pub trait LweCiphertextEntity: AbstractEntity<Kind = LweCiphertextKind> {
    /// The flavor of key the ciphertext is encrypted with.
    type KeyFlavor: KeyFlavorMarker;

    spec fn lwe_dim(&self) -> nat;

    /// The lwe dimension of the ciphertext.
    fn lwe_dimension(&self) -> (r: LweDimension)
        ensures
            r.0 == self.lwe_dim(),
    ;
}

/// A vector of lwe ciphertexts of one dimension.
pub trait LweCiphertextVectorEntity: AbstractEntity<Kind = LweCiphertextVectorKind> {
    /// The flavor of key the ciphertexts are encrypted with.
    type KeyFlavor: KeyFlavorMarker;

    spec fn lwe_dim(&self) -> nat;

    spec fn count(&self) -> nat;

    /// The lwe dimension of the ciphertexts.
    fn lwe_dimension(&self) -> (r: LweDimension)
        ensures
            r.0 == self.lwe_dim(),
    ;

    /// The number of ciphertexts in the vector.
    fn lwe_ciphertext_count(&self) -> (r: LweCiphertextCount)
        ensures
            r.0 == self.count(),
    ;
}

/// A glwe ciphertext.
pub trait GlweCiphertextEntity: AbstractEntity<Kind = GlweCiphertextKind> {
    /// The flavor of key the ciphertext is encrypted with.
    type KeyFlavor: KeyFlavorMarker;

    spec fn glwe_dim(&self) -> nat;

    spec fn poly_size(&self) -> nat;

    /// The glwe dimension of the ciphertext.
    fn glwe_dimension(&self) -> (r: GlweDimension)
        ensures
            r.0 == self.glwe_dim(),
    ;

    /// The polynomial size of the ciphertext.
    fn polynomial_size(&self) -> (r: PolynomialSize)
        ensures
            r.0 == self.poly_size(),
    ;
}

/// A vector of glwe ciphertexts of one shape.
pub trait GlweCiphertextVectorEntity: AbstractEntity<Kind = GlweCiphertextVectorKind> {
    /// The flavor of key the ciphertexts are encrypted with.
    type KeyFlavor: KeyFlavorMarker;

    spec fn glwe_dim(&self) -> nat;

    spec fn poly_size(&self) -> nat;

    spec fn count(&self) -> nat;

    /// The glwe dimension of the ciphertexts.
    fn glwe_dimension(&self) -> (r: GlweDimension)
        ensures
            r.0 == self.glwe_dim(),
    ;

    /// The polynomial size of the ciphertexts.
    fn polynomial_size(&self) -> (r: PolynomialSize)
        ensures
            r.0 == self.poly_size(),
    ;

    /// The number of ciphertexts in the vector.
    fn glwe_ciphertext_count(&self) -> (r: GlweCiphertextCount)
        ensures
            r.0 == self.count(),
    ;
}

/// A gsw ciphertext.
pub trait GswCiphertextEntity: AbstractEntity<Kind = GswCiphertextKind> {
    /// The flavor of key the ciphertext is encrypted with.
    type KeyFlavor: KeyFlavorMarker;

    spec fn lwe_dim(&self) -> nat;

    spec fn level_count(&self) -> nat;

    spec fn base_log(&self) -> nat;

    /// The lwe dimension of the ciphertext.
    fn lwe_dimension(&self) -> (r: LweDimension)
        ensures
            r.0 == self.lwe_dim(),
    ;

    /// The number of decomposition levels of the ciphertext.
    fn decomposition_level_count(&self) -> (r: DecompositionLevelCount)
        ensures
            r.0 == self.level_count(),
    ;

    /// The logarithm of the decomposition base of the ciphertext.
    fn decomposition_base_log(&self) -> (r: DecompositionBaseLog)
        ensures
            r.0 == self.base_log(),
    ;
}

/// A vector of gsw ciphertexts of one shape.
pub trait GswCiphertextVectorEntity: AbstractEntity<Kind = GswCiphertextVectorKind> {
    /// The flavor of key the ciphertexts are encrypted with.
    type KeyFlavor: KeyFlavorMarker;

    spec fn lwe_dim(&self) -> nat;

    spec fn level_count(&self) -> nat;

    spec fn base_log(&self) -> nat;

    spec fn count(&self) -> nat;

    /// The lwe dimension of the ciphertexts.
    fn lwe_dimension(&self) -> (r: LweDimension)
        ensures
            r.0 == self.lwe_dim(),
    ;

    /// The number of decomposition levels of the ciphertexts.
    fn decomposition_level_count(&self) -> (r: DecompositionLevelCount)
        ensures
            r.0 == self.level_count(),
    ;

    /// The logarithm of the decomposition base of the ciphertexts.
    fn decomposition_base_log(&self) -> (r: DecompositionBaseLog)
        ensures
            r.0 == self.base_log(),
    ;

    /// The number of ciphertexts in the vector.
    fn gsw_ciphertext_count(&self) -> (r: GswCiphertextCount)
        ensures
            r.0 == self.count(),
    ;
}

/// A vector of ggsw ciphertexts of one shape.
pub trait GgswCiphertextVectorEntity: AbstractEntity<Kind = GgswCiphertextVectorKind> {
    /// The flavor of key the ciphertexts are encrypted with.
    type KeyFlavor: KeyFlavorMarker;

    spec fn glwe_dim(&self) -> nat;

    spec fn poly_size(&self) -> nat;

    spec fn level_count(&self) -> nat;

    spec fn base_log(&self) -> nat;

    spec fn count(&self) -> nat;

    /// The glwe dimension of the ciphertexts.
    fn glwe_dimension(&self) -> (r: GlweDimension)
        ensures
            r.0 == self.glwe_dim(),
    ;

    /// The polynomial size of the ciphertexts.
    fn polynomial_size(&self) -> (r: PolynomialSize)
        ensures
            r.0 == self.poly_size(),
    ;

    /// The number of decomposition levels of the ciphertexts.
    fn decomposition_level_count(&self) -> (r: DecompositionLevelCount)
        ensures
            r.0 == self.level_count(),
    ;

    /// The logarithm of the decomposition base of the ciphertexts.
    fn decomposition_base_log(&self) -> (r: DecompositionBaseLog)
        ensures
            r.0 == self.base_log(),
    ;

    /// The number of ciphertexts in the vector.
    fn ggsw_ciphertext_count(&self) -> (r: GgswCiphertextCount)
        ensures
            r.0 == self.count(),
    ;
}

/// A ggsw ciphertext.
pub trait GgswCiphertextEntity: AbstractEntity<Kind = GgswCiphertextKind> {
    /// The flavor of key the ciphertext is encrypted with.
    type KeyFlavor: KeyFlavorMarker;

    spec fn glwe_dim(&self) -> nat;

    spec fn poly_size(&self) -> nat;

    spec fn level_count(&self) -> nat;

    spec fn base_log(&self) -> nat;

    /// The glwe dimension of the ciphertext.
    fn glwe_dimension(&self) -> (r: GlweDimension)
        ensures
            r.0 == self.glwe_dim(),
    ;

    /// The polynomial size of the ciphertext.
    fn polynomial_size(&self) -> (r: PolynomialSize)
        ensures
            r.0 == self.poly_size(),
    ;

    /// The number of decomposition levels of the ciphertext.
    fn decomposition_level_count(&self) -> (r: DecompositionLevelCount)
        ensures
            r.0 == self.level_count(),
    ;

    /// The logarithm of the decomposition base of the ciphertext.
    fn decomposition_base_log(&self) -> (r: DecompositionBaseLog)
        ensures
            r.0 == self.base_log(),
    ;
}

/// An lwe secret key.
pub trait LweSecretKeyEntity: AbstractEntity<Kind = LweSecretKeyKind> {
    /// The flavor of this key.
    type KeyFlavor: KeyFlavorMarker;

    spec fn lwe_dim(&self) -> nat;

    /// The lwe dimension of the key.
    fn lwe_dimension(&self) -> (r: LweDimension)
        ensures
            r.0 == self.lwe_dim(),
    ;
}

/// A glwe secret key.
pub trait GlweSecretKeyEntity: AbstractEntity<Kind = GlweSecretKeyKind> {
    /// The flavor of this key.
    type KeyFlavor: KeyFlavorMarker;

    spec fn glwe_dim(&self) -> nat;

    spec fn poly_size(&self) -> nat;

    /// The glwe dimension of the key.
    fn glwe_dimension(&self) -> (r: GlweDimension)
        ensures
            r.0 == self.glwe_dim(),
    ;

    /// The polynomial size of the key.
    fn polynomial_size(&self) -> (r: PolynomialSize)
        ensures
            r.0 == self.poly_size(),
    ;
}

/// An lwe keyswitch key.
pub trait LweKeyswitchKeyEntity: AbstractEntity<Kind = LweKeyswitchKeyKind> {
    /// The flavor of the keys.
    type KeyFlavor: KeyFlavorMarker;

    spec fn input_lwe_dim(&self) -> nat;

    spec fn output_lwe_dim(&self) -> nat;

    spec fn level_count(&self) -> nat;

    spec fn base_log(&self) -> nat;

    /// The input lwe dimension of the key.
    fn input_lwe_dimension(&self) -> (r: LweDimension)
        ensures
            r.0 == self.input_lwe_dim(),
    ;

    /// The output lwe dimension of the key.
    fn output_lwe_dimension(&self) -> (r: LweDimension)
        ensures
            r.0 == self.output_lwe_dim(),
    ;

    /// The number of decomposition levels of the key.
    fn decomposition_level_count(&self) -> (r: DecompositionLevelCount)
        ensures
            r.0 == self.level_count(),
    ;

    /// The logarithm of the decomposition base of the key.
    fn decomposition_base_log(&self) -> (r: DecompositionBaseLog)
        ensures
            r.0 == self.base_log(),
    ;
}

/// An lwe bootstrap key.
pub trait LweBootstrapKeyEntity: AbstractEntity<Kind = LweBootstrapKeyKind> {
    /// The flavor of the key the input ciphertext is encrypted with.
    type InputKeyFlavor: KeyFlavorMarker;

    /// The flavor of the key the output ciphertext is encrypted with.
    type OutputKeyFlavor: KeyFlavorMarker;

    spec fn glwe_dim(&self) -> nat;

    spec fn poly_size(&self) -> nat;

    spec fn input_lwe_dim(&self) -> nat;

    spec fn level_count(&self) -> nat;

    spec fn base_log(&self) -> nat;

    /// The glwe dimension of the key.
    fn glwe_dimension(&self) -> (r: GlweDimension)
        ensures
            r.0 == self.glwe_dim(),
    ;

    /// The polynomial size of the key.
    fn polynomial_size(&self) -> (r: PolynomialSize)
        ensures
            r.0 == self.poly_size(),
    ;

    /// The input lwe dimension of the key.
    fn input_lwe_dimension(&self) -> (r: LweDimension)
        ensures
            r.0 == self.input_lwe_dim(),
    ;

    /// The lwe dimension of the ciphertexts the key outputs: the glwe dimension times the
    /// polynomial size.
    fn output_lwe_dimension(&self) -> (r: LweDimension)
        ensures
            r.0 == self.glwe_dim() * self.poly_size(),
    ;

    /// The logarithm of the decomposition base of the key.
    fn decomposition_base_log(&self) -> (r: DecompositionBaseLog)
        ensures
            r.0 == self.base_log(),
    ;

    /// The number of decomposition levels of the key.
    fn decomposition_level_count(&self) -> (r: DecompositionLevelCount)
        ensures
            r.0 == self.level_count(),
    ;
}

} // verus!
