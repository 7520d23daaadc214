//! Type-level tags for the kind, the representation and the key flavor of entities.
//!
//! The three axes are orthogonal, and closed: the marker traits are sealed.
use vstd::prelude::*;
use crate::seal::{EntityKindMarkerSealed, EntityRepresentationMarkerSealed, KeyFlavorMarkerSealed};

verus! {

/// Implemented by the types that encode the kind of an entity (plaintext, lwe ciphertext, ...).
pub trait EntityKindMarker: EntityKindMarkerSealed {}

/// Implemented by the types that encode the representation of an entity: its location, its
/// domain and its precision.
pub trait EntityRepresentationMarker: EntityRepresentationMarkerSealed {}

/// Implemented by the types that encode the distribution a secret key is drawn from.
pub trait KeyFlavorMarker: KeyFlavorMarkerSealed {}

/// Encodes the plaintext kind.
#[derive(Clone, Copy, Debug)]
pub struct PlaintextKind {}

impl EntityKindMarkerSealed for PlaintextKind {}

impl EntityKindMarker for PlaintextKind {}

/// Encodes the plaintext vector kind.
#[derive(Clone, Copy, Debug)]
pub struct PlaintextVectorKind {}

impl EntityKindMarkerSealed for PlaintextVectorKind {}

impl EntityKindMarker for PlaintextVectorKind {}

/// Encodes the cleartext kind.
#[derive(Clone, Copy, Debug)]
pub struct CleartextKind {}

impl EntityKindMarkerSealed for CleartextKind {}

impl EntityKindMarker for CleartextKind {}

/// Encodes the cleartext vector kind.
#[derive(Clone, Copy, Debug)]
pub struct CleartextVectorKind {}

impl EntityKindMarkerSealed for CleartextVectorKind {}

impl EntityKindMarker for CleartextVectorKind {}

/// Encodes the lwe ciphertext kind.
#[derive(Clone, Copy, Debug)]
pub struct LweCiphertextKind {}

impl EntityKindMarkerSealed for LweCiphertextKind {}

impl EntityKindMarker for LweCiphertextKind {}

/// Encodes the lwe ciphertext vector kind.
#[derive(Clone, Copy, Debug)]
pub struct LweCiphertextVectorKind {}

impl EntityKindMarkerSealed for LweCiphertextVectorKind {}

impl EntityKindMarker for LweCiphertextVectorKind {}

/// Encodes the glwe ciphertext kind.
#[derive(Clone, Copy, Debug)]
pub struct GlweCiphertextKind {}

impl EntityKindMarkerSealed for GlweCiphertextKind {}

impl EntityKindMarker for GlweCiphertextKind {}

/// Encodes the glwe ciphertext vector kind.
#[derive(Clone, Copy, Debug)]
pub struct GlweCiphertextVectorKind {}

impl EntityKindMarkerSealed for GlweCiphertextVectorKind {}

impl EntityKindMarker for GlweCiphertextVectorKind {}

/// Encodes the ggsw ciphertext kind.
#[derive(Clone, Copy, Debug)]
pub struct GgswCiphertextKind {}

impl EntityKindMarkerSealed for GgswCiphertextKind {}

impl EntityKindMarker for GgswCiphertextKind {}

/// Encodes the ggsw ciphertext vector kind.
#[derive(Clone, Copy, Debug)]
pub struct GgswCiphertextVectorKind {}

impl EntityKindMarkerSealed for GgswCiphertextVectorKind {}

impl EntityKindMarker for GgswCiphertextVectorKind {}

/// Encodes the gsw ciphertext kind.
#[derive(Clone, Copy, Debug)]
pub struct GswCiphertextKind {}

impl EntityKindMarkerSealed for GswCiphertextKind {}

impl EntityKindMarker for GswCiphertextKind {}

/// Encodes the gsw ciphertext vector kind.
#[derive(Clone, Copy, Debug)]
pub struct GswCiphertextVectorKind {}

impl EntityKindMarkerSealed for GswCiphertextVectorKind {}

impl EntityKindMarker for GswCiphertextVectorKind {}

/// Encodes the lwe secret key kind.
#[derive(Clone, Copy, Debug)]
pub struct LweSecretKeyKind {}

impl EntityKindMarkerSealed for LweSecretKeyKind {}

impl EntityKindMarker for LweSecretKeyKind {}

/// Encodes the glwe secret key kind.
#[derive(Clone, Copy, Debug)]
pub struct GlweSecretKeyKind {}

impl EntityKindMarkerSealed for GlweSecretKeyKind {}

impl EntityKindMarker for GlweSecretKeyKind {}

/// Encodes the lwe keyswitch key kind.
#[derive(Clone, Copy, Debug)]
pub struct LweKeyswitchKeyKind {}

impl EntityKindMarkerSealed for LweKeyswitchKeyKind {}

impl EntityKindMarker for LweKeyswitchKeyKind {}

/// Encodes the lwe bootstrap key kind.
#[derive(Clone, Copy, Debug)]
pub struct LweBootstrapKeyKind {}

impl EntityKindMarkerSealed for LweBootstrapKeyKind {}

impl EntityKindMarker for LweBootstrapKeyKind {}

/// Encodes the binary key flavor.
#[derive(Clone, Copy, Debug)]
pub struct BinaryKeyFlavor {}

impl KeyFlavorMarkerSealed for BinaryKeyFlavor {}

impl KeyFlavorMarker for BinaryKeyFlavor {}

/// Encodes the ternary key flavor.
#[derive(Clone, Copy, Debug)]
pub struct TernaryKeyFlavor {}

impl KeyFlavorMarkerSealed for TernaryKeyFlavor {}

impl KeyFlavorMarker for TernaryKeyFlavor {}

/// Encodes the gaussian key flavor.
#[derive(Clone, Copy, Debug)]
pub struct GaussianKeyFlavor {}

impl KeyFlavorMarkerSealed for GaussianKeyFlavor {}

impl KeyFlavorMarker for GaussianKeyFlavor {}

/// Entities in the cpu memory, in the standard domain, in 32 bits.
#[derive(Clone, Copy, Debug)]
pub struct CpuStandard32 {}

impl EntityRepresentationMarkerSealed for CpuStandard32 {}

impl EntityRepresentationMarker for CpuStandard32 {}

/// Entities in the cpu memory, in the standard domain, in 64 bits.
#[derive(Clone, Copy, Debug)]
pub struct CpuStandard64 {}

impl EntityRepresentationMarkerSealed for CpuStandard64 {}

impl EntityRepresentationMarker for CpuStandard64 {}

/// Entities in the cpu memory, in the multiplication-ready domain, for 32 bits keys.
#[derive(Clone, Copy, Debug)]
pub struct CpuFourier32 {}

impl EntityRepresentationMarkerSealed for CpuFourier32 {}

impl EntityRepresentationMarker for CpuFourier32 {}

/// Entities in the cpu memory, in the multiplication-ready domain, for 64 bits keys.
#[derive(Clone, Copy, Debug)]
pub struct CpuFourier64 {}

impl EntityRepresentationMarkerSealed for CpuFourier64 {}

impl EntityRepresentationMarker for CpuFourier64 {}

} // verus!
