//! Allocation of lwe ciphertexts.
use vstd::prelude::*;
use crate::engines::{AbstractEngine, CoreEngine, CoreError};
use crate::entities::LweCiphertextEntity;
use crate::lwe::LweCiphertext;
use crate::numeric::Torus;
use crate::parameters::LweDimension;

verus! {

/// The error of [`LweAllocationEngine`].
#[non_exhaustive]
#[derive(Debug)]
pub enum LweAllocationError<EngineError> {
    /// Not enough memory is left to allocate the entity.
    MemoryExhausted,
    Engine(EngineError),
}

/// Engines that allocate lwe ciphertexts.
pub trait LweAllocationEngine<Output>: AbstractEngine where Output: LweCiphertextEntity {
    /// A ciphertext of this dimension can be held in memory.
    spec fn can_allocate(lwe_dimension: nat) -> bool;

    /// The ciphertext holds the engine's initial value.
    spec fn is_initial(c: &Output) -> bool;

    /// Allocates a ciphertext of dimension `lwe_dimension`.
    fn allocate_lwe(&mut self, lwe_dimension: LweDimension) -> (r: Result<Output, LweAllocationError<Self::EngineError>>)
        ensures
            r is Ok <==> Self::can_allocate(lwe_dimension.0 as nat),
            r is Err ==> r == Err::<Output, LweAllocationError<Self::EngineError>>(LweAllocationError::MemoryExhausted),
            r matches Ok(c) ==> c.lwe_dim() == lwe_dimension.0 && Self::is_initial(&c),
            *final(self) == *old(self),
    ;

    /// Allocates a ciphertext of dimension `lwe_dimension`.
    fn allocate_lwe_unchecked(&mut self, lwe_dimension: LweDimension) -> (r: Output)
        requires
            Self::can_allocate(lwe_dimension.0 as nat),
        ensures
            r.lwe_dim() == lwe_dimension.0,
            Self::is_initial(&r),
            *final(self) == *old(self),
    ;
}

impl<T: Torus> LweAllocationEngine<LweCiphertext<T>> for CoreEngine {
    /// Every dimension can: the allocation always succeeds.
    open spec fn can_allocate(lwe_dimension: nat) -> bool {
        true
    }

    /// Every coefficient is zero.
    open spec fn is_initial(c: &LweCiphertext<T>) -> bool {
        &&& forall|i: int| 0 <= i < c.lwe_dim() ==> #[trigger] c.mask_vals()[i] == 0
        &&& c.body_val() == 0
    }

    fn allocate_lwe(&mut self, lwe_dimension: LweDimension) -> (r: Result<LweCiphertext<T>, LweAllocationError<CoreError>>) {
        Ok(<CoreEngine as LweAllocationEngine<LweCiphertext<T>>>::allocate_lwe_unchecked(self, lwe_dimension))
    }

    fn allocate_lwe_unchecked(&mut self, lwe_dimension: LweDimension) -> (r: LweCiphertext<T>) {
        LweCiphertext::zero(lwe_dimension.0)
    }
}

} // verus!
