//! Gsw ciphertexts: `(n + 1) * levels` lwe ciphertexts of dimension `n`, one per mask or body
//! coordinate and decomposition level.
use vstd::prelude::*;
use crate::entities::{AbstractEntity, GswCiphertextEntity, GswCiphertextVectorEntity, LweCiphertextEntity};
use crate::lwe::LweCiphertext;
use crate::markers::{BinaryKeyFlavor, GswCiphertextKind, GswCiphertextVectorKind};
use crate::numeric::Torus;
use crate::parameters::{DecompositionBaseLog, DecompositionLevelCount, GswCiphertextCount, LweDimension};

verus! {

/// A gsw ciphertext; row `c * levels + l` belongs to coordinate `c` and level `l + 1`.
pub struct GswCiphertext<T: Torus> {
    lwe_dimension: usize,
    level_count: usize,
    base_log: usize,
    rows: Vec<LweCiphertext<T>>,
}

/// A gsw ciphertext in 32 bits of precision.
pub type GswCiphertext32 = GswCiphertext<u32>;

/// A gsw ciphertext in 64 bits of precision.
pub type GswCiphertext64 = GswCiphertext<u64>;

impl<T: Torus> GswCiphertext<T> {
    #[verifier::type_invariant]
    spec fn shape(&self) -> bool {
        &&& self.rows@.len() == (self.lwe_dimension + 1) * self.level_count
        &&& forall|e: int| 0 <= e < self.rows@.len() ==> #[trigger] self.rows@[e].lwe_dim() == self.lwe_dimension
    }

    /// The lwe ciphertexts of the gsw ciphertext.
    pub closed spec fn items(&self) -> Seq<LweCiphertext<T>> {
        self.rows@
    }

    pub closed spec fn params(&self) -> (nat, nat, nat) {
        (self.lwe_dimension as nat, self.level_count as nat, self.base_log as nat)
    }

    /// The gsw ciphertext of this shape whose coefficients are all zero; `None` when its
    /// `(n + 1) * levels` rows cannot be counted in a `usize`.
    pub fn zero(lwe_dimension: LweDimension, level_count: DecompositionLevelCount, base_log: DecompositionBaseLog) -> (r: Option<GswCiphertext<T>>)
        ensures
            r is Some <==> (lwe_dimension.0 + 1) * level_count.0 <= usize::MAX,
            r matches Some(c) ==> c.params() == (lwe_dimension.0 as nat, level_count.0 as nat, base_log.0 as nat)
                && c.items().len() == (lwe_dimension.0 + 1) * level_count.0
                && forall|e: int| 0 <= e < c.items().len() ==> (#[trigger] c.items()[e]).lwe_dim() == lwe_dimension.0
                    && c.items()[e].body_val() == 0
                    && forall|j: int| 0 <= j < lwe_dimension.0 ==> #[trigger] c.items()[e].mask_vals()[j] == 0,
    {
        let n = lwe_dimension.0;
        let levels = level_count.0;
        let count = match n.checked_add(1) {
            None => {
                proof {
                    assert(levels > 0 ==> (n + 1) * levels > usize::MAX) by (nonlinear_arith)
                        requires
                            n + 1 > usize::MAX,
                    ;
                    assert(levels == 0 ==> (n + 1) * levels == 0) by (nonlinear_arith);
                }
                if levels != 0 {
                    return None;
                }
                0
            },
            Some(n1) => match n1.checked_mul(levels) {
                None => {
                    return None;
                },
                Some(c) => c,
            },
        };
        let mut rows: Vec<LweCiphertext<T>> = Vec::new();
        let mut e: usize = 0;
        while e < count
            invariant
                count == (n + 1) * levels,
                e <= count,
                rows@.len() == e,
                forall|g: int| 0 <= g < e ==> (#[trigger] rows@[g]).lwe_dim() == n
                    && rows@[g].body_val() == 0
                    && forall|j: int| 0 <= j < n ==> #[trigger] rows@[g].mask_vals()[j] == 0,
            decreases count - e,
        {
            rows.push(LweCiphertext::zero(n));
            e = e + 1;
        }
        Some(GswCiphertext { lwe_dimension: n, level_count: levels, base_log: base_log.0, rows })
    }

    /// Row `e` of the ciphertext.
    pub fn row(&self, e: usize) -> (r: &LweCiphertext<T>)
        requires
            e < self.items().len(),
        ensures
            *r == self.items()[e as int],
            r.lwe_dim() == self.params().0,
    {
        proof {
            use_type_invariant(self);
        }
        &self.rows[e]
    }
}

impl<T: Torus> AbstractEntity for GswCiphertext<T> {
    type Kind = GswCiphertextKind;
    type Representation = T::Standard;
}

impl<T: Torus> GswCiphertextEntity for GswCiphertext<T> {
    type KeyFlavor = BinaryKeyFlavor;

    open spec fn lwe_dim(&self) -> nat {
        self.params().0
    }

    open spec fn level_count(&self) -> nat {
        self.params().1
    }

    open spec fn base_log(&self) -> nat {
        self.params().2
    }

    fn lwe_dimension(&self) -> (r: LweDimension) {
        LweDimension(self.lwe_dimension)
    }

    fn decomposition_level_count(&self) -> (r: DecompositionLevelCount) {
        DecompositionLevelCount(self.level_count)
    }

    fn decomposition_base_log(&self) -> (r: DecompositionBaseLog) {
        DecompositionBaseLog(self.base_log)
    }
}

/// A vector of gsw ciphertexts of one shape.
pub struct GswCiphertextVector<T: Torus> {
    lwe_dimension: usize,
    level_count: usize,
    base_log: usize,
    ciphertexts: Vec<GswCiphertext<T>>,
}

/// A gsw ciphertext vector in 32 bits of precision.
pub type GswCiphertextVector32 = GswCiphertextVector<u32>;

/// A gsw ciphertext vector in 64 bits of precision.
pub type GswCiphertextVector64 = GswCiphertextVector<u64>;

impl<T: Torus> GswCiphertextVector<T> {
    #[verifier::type_invariant]
    spec fn same_shape(&self) -> bool {
        forall|i: int| 0 <= i < self.ciphertexts@.len() ==> (#[trigger] self.ciphertexts@[i]).params() == (self.lwe_dimension as nat, self.level_count as nat, self.base_log as nat)
    }

    /// The ciphertexts of the vector.
    pub closed spec fn items(&self) -> Seq<GswCiphertext<T>> {
        self.ciphertexts@
    }

    pub closed spec fn params(&self) -> (nat, nat, nat) {
        (self.lwe_dimension as nat, self.level_count as nat, self.base_log as nat)
    }

    /// The vector holding `ciphertexts`, which must all have the given shape.
    pub fn from_ciphertexts(
        lwe_dimension: LweDimension,
        level_count: DecompositionLevelCount,
        base_log: DecompositionBaseLog,
        ciphertexts: Vec<GswCiphertext<T>>,
    ) -> (r: Option<GswCiphertextVector<T>>)
        ensures
            r is Some <==> forall|i: int| 0 <= i < ciphertexts@.len() ==> (#[trigger] ciphertexts@[i]).params() == (lwe_dimension.0 as nat, level_count.0 as nat, base_log.0 as nat),
            r matches Some(v) ==> v.items() == ciphertexts@ && v.params() == (lwe_dimension.0 as nat, level_count.0 as nat, base_log.0 as nat),
    {
        let mut i: usize = 0;
        while i < ciphertexts.len()
            invariant
                i <= ciphertexts@.len(),
                forall|g: int| 0 <= g < i ==> (#[trigger] ciphertexts@[g]).params() == (lwe_dimension.0 as nat, level_count.0 as nat, base_log.0 as nat),
            decreases ciphertexts@.len() - i,
        {
            let c = &ciphertexts[i];
            if c.lwe_dimension != lwe_dimension.0 || c.level_count != level_count.0 || c.base_log != base_log.0 {
                return None;
            }
            i = i + 1;
        }
        Some(GswCiphertextVector { lwe_dimension: lwe_dimension.0, level_count: level_count.0, base_log: base_log.0, ciphertexts })
    }

    /// The `i`-th ciphertext.
    pub fn get(&self, i: usize) -> (r: &GswCiphertext<T>)
        requires
            i < self.items().len(),
        ensures
            *r == self.items()[i as int],
            r.params() == self.params(),
    {
        proof {
            use_type_invariant(self);
        }
        &self.ciphertexts[i]
    }
}

impl<T: Torus> AbstractEntity for GswCiphertextVector<T> {
    type Kind = GswCiphertextVectorKind;
    type Representation = T::Standard;
}

impl<T: Torus> GswCiphertextVectorEntity for GswCiphertextVector<T> {
    type KeyFlavor = BinaryKeyFlavor;

    open spec fn lwe_dim(&self) -> nat {
        self.params().0
    }

    open spec fn level_count(&self) -> nat {
        self.params().1
    }

    open spec fn base_log(&self) -> nat {
        self.params().2
    }

    open spec fn count(&self) -> nat {
        self.items().len()
    }

    fn lwe_dimension(&self) -> (r: LweDimension) {
        LweDimension(self.lwe_dimension)
    }

    fn decomposition_level_count(&self) -> (r: DecompositionLevelCount) {
        DecompositionLevelCount(self.level_count)
    }

    fn decomposition_base_log(&self) -> (r: DecompositionBaseLog) {
        DecompositionBaseLog(self.base_log)
    }

    fn gsw_ciphertext_count(&self) -> (r: GswCiphertextCount) {
        GswCiphertextCount(self.ciphertexts.len())
    }
}

} // verus!
