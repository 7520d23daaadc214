//! Plaintexts (encoded messages) and cleartexts (plain weights), single and in vectors.
use vstd::prelude::*;
use crate::entities::{
    AbstractEntity, CleartextEntity, CleartextVectorEntity, PlaintextEntity,
    PlaintextVectorEntity,
};
use crate::markers::{CleartextKind, CleartextVectorKind, PlaintextKind, PlaintextVectorKind};
use crate::numeric::{vals, Torus};
use crate::parameters::{CleartextCount, PlaintextCount};

verus! {

/// An encoded message, a torus element.
pub struct Plaintext<T> {
    pub(crate) value: T,
}

/// A plaintext in 32 bits of precision.
pub type Plaintext32 = Plaintext<u32>;

/// A plaintext in 64 bits of precision.
pub type Plaintext64 = Plaintext<u64>;

impl<T: Torus> Plaintext<T> {
    pub open(crate) spec fn val(&self) -> int {
        self.value.val()
    }

    pub fn new(value: T) -> (r: Plaintext<T>)
        ensures
            r.val() == value.val(),
    {
        Plaintext { value }
    }

    pub fn value(&self) -> (r: T)
        ensures
            r.val() == self.val(),
    {
        self.value
    }
}

impl<T: Torus> AbstractEntity for Plaintext<T> {
    type Kind = PlaintextKind;
    type Representation = T::Standard;
}

impl<T: Torus> PlaintextEntity for Plaintext<T> {}

/// A vector of encoded messages.
pub struct PlaintextVector<T> {
    pub(crate) values: Vec<T>,
}

/// A plaintext vector in 32 bits of precision.
pub type PlaintextVector32 = PlaintextVector<u32>;

/// A plaintext vector in 64 bits of precision.
pub type PlaintextVector64 = PlaintextVector<u64>;

impl<T: Torus> PlaintextVector<T> {
    pub open(crate) spec fn vals(&self) -> Seq<int> {
        vals(self.values@)
    }

    pub fn new(values: Vec<T>) -> (r: PlaintextVector<T>)
        ensures
            r.vals() == vals(values@),
    {
        PlaintextVector { values }
    }

    pub fn values(&self) -> (r: &Vec<T>)
        ensures
            vals(r@) == self.vals(),
    {
        &self.values
    }
}

impl<T: Torus> AbstractEntity for PlaintextVector<T> {
    type Kind = PlaintextVectorKind;
    type Representation = T::Standard;
}

impl<T: Torus> PlaintextVectorEntity for PlaintextVector<T> {
    open spec fn count(&self) -> nat {
        self.vals().len()
    }

    fn plaintext_count(&self) -> (r: PlaintextCount) {
        PlaintextCount(self.values.len())
    }
}

/// A plain, unencrypted scalar.
pub struct Cleartext<T> {
    pub(crate) value: T,
}

/// A cleartext in 32 bits of precision.
pub type Cleartext32 = Cleartext<u32>;

/// A cleartext in 64 bits of precision.
pub type Cleartext64 = Cleartext<u64>;

impl<T: Torus> Cleartext<T> {
    pub open(crate) spec fn val(&self) -> int {
        self.value.val()
    }

    pub fn new(value: T) -> (r: Cleartext<T>)
        ensures
            r.val() == value.val(),
    {
        Cleartext { value }
    }

    pub fn value(&self) -> (r: T)
        ensures
            r.val() == self.val(),
    {
        self.value
    }
}

impl<T: Torus> AbstractEntity for Cleartext<T> {
    type Kind = CleartextKind;
    type Representation = T::Standard;
}

impl<T: Torus> CleartextEntity for Cleartext<T> {}

/// A vector of plain scalars.
pub struct CleartextVector<T> {
    pub(crate) values: Vec<T>,
}

/// A cleartext vector in 32 bits of precision.
pub type CleartextVector32 = CleartextVector<u32>;

/// A cleartext vector in 64 bits of precision.
pub type CleartextVector64 = CleartextVector<u64>;

impl<T: Torus> CleartextVector<T> {
    pub open(crate) spec fn vals(&self) -> Seq<int> {
        vals(self.values@)
    }

    pub fn new(values: Vec<T>) -> (r: CleartextVector<T>)
        ensures
            r.vals() == vals(values@),
    {
        CleartextVector { values }
    }

    pub fn values(&self) -> (r: &Vec<T>)
        ensures
            vals(r@) == self.vals(),
    {
        &self.values
    }
}

impl<T: Torus> AbstractEntity for CleartextVector<T> {
    type Kind = CleartextVectorKind;
    type Representation = T::Standard;
}

impl<T: Torus> CleartextVectorEntity for CleartextVector<T> {
    open spec fn count(&self) -> nat {
        self.vals().len()
    }

    fn cleartext_count(&self) -> (r: CleartextCount) {
        CleartextCount(self.values.len())
    }
}

} // verus!
