//! Traits that only this crate can implement; they close the marker and engine hierarchies.
use vstd::prelude::*;

verus! {

/// Seals [`crate::markers::EntityRepresentationMarker`].
pub trait EntityRepresentationMarkerSealed {}

/// Seals [`crate::markers::EntityKindMarker`].
pub trait EntityKindMarkerSealed {}

/// Seals [`crate::markers::KeyFlavorMarker`].
pub trait KeyFlavorMarkerSealed {}

/// Seals [`crate::engines::AbstractEngine`].
pub trait AbstractEngineSeal {}

} // verus!
