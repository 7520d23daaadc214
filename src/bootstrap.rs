//! Lwe bootstrap keys: for each coefficient `s_i` of an lwe key, a ggsw encryption of `s_i`
//! under a glwe key, made of `(k + 1) * levels` glwe ciphertexts.
use vstd::prelude::*;
use crate::entities::{AbstractEntity, GgswCiphertextEntity, GgswCiphertextVectorEntity, GlweSecretKeyEntity, LweBootstrapKeyEntity, LweSecretKeyEntity};
use crate::generators::EncryptionRandomGenerator;
use crate::glwe::{ints, GlweCiphertext, GlweSecretKey};
use crate::keyswitch::{gadget_factor, gadget_scale};
use crate::lwe::LweSecretKey;
use crate::markers::{BinaryKeyFlavor, GgswCiphertextKind, GgswCiphertextVectorKind, LweBootstrapKeyKind};
use crate::numeric::Torus;
use crate::parameters::{GgswCiphertextCount, DecompositionBaseLog, DecompositionLevelCount, GlweDimension, LweDimension, PolynomialSize};

verus! {

/// The shape of a bootstrap key.
pub struct BootstrapKeyShape {
    pub input_lwe_dimension: usize,
    pub glwe_dimension: usize,
    pub polynomial_size: usize,
    pub level_count: usize,
    pub base_log: usize,
}

/// The number of glwe ciphertexts of a bootstrap key of this shape.
pub open spec fn row_count(s: BootstrapKeyShape) -> nat {
    (s.input_lwe_dimension * ((s.glwe_dimension + 1) * s.level_count)) as nat
}

/// The shape fits in memory: its glwe ciphertexts and their rows can be counted.
pub open spec fn shape_fits(s: BootstrapKeyShape) -> bool {
    &&& (s.glwe_dimension + 1) * s.polynomial_size <= usize::MAX
    &&& (s.glwe_dimension + 1) * s.level_count <= usize::MAX
    &&& row_count(s) * s.polynomial_size <= usize::MAX
    &&& row_count(s) <= usize::MAX
}

/// For row `e` of a key of this shape: the index of the lwe key coefficient it encrypts.
pub open spec fn coefficient_of(s: BootstrapKeyShape, e: int) -> int {
    e / ((s.glwe_dimension + 1) * s.level_count) as int
}

/// For row `e`: the glwe row, in `0..=k`.
pub open spec fn row_of(s: BootstrapKeyShape, e: int) -> int {
    (e / s.level_count as int) % (s.glwe_dimension + 1) as int
}

/// For row `e`: the decomposition level, from 1.
pub open spec fn level_of(s: BootstrapKeyShape, e: int) -> int {
    e % s.level_count as int + 1
}

/// The glwe ciphertexts of a bootstrap key, and its shape. Row `e` is glwe row
/// `row_of(e)` of the ggsw encryption of lwe key coefficient `coefficient_of(e)`, for
/// decomposition level `level_of(e)`.
pub struct GgswRows<T: Torus> {
    shape: BootstrapKeyShape,
    rows: Vec<GlweCiphertext<T>>,
}

impl<T: Torus> GgswRows<T> {
    #[verifier::type_invariant]
    spec fn well_shaped(&self) -> bool {
        &&& shape_fits(self.shape)
        &&& self.rows@.len() == row_count(self.shape)
        &&& forall|e: int| 0 <= e < self.rows@.len() ==> {
            &&& #[trigger] self.rows@[e].k() == self.shape.glwe_dimension
            &&& self.rows@[e].n() == self.shape.polynomial_size
        }
    }

    pub closed spec fn shape(&self) -> BootstrapKeyShape {
        self.shape
    }

    pub closed spec fn items(&self) -> Seq<GlweCiphertext<T>> {
        self.rows@
    }

    pub fn get_shape(&self) -> (r: BootstrapKeyShape)
        ensures
            r == self.shape(),
            shape_fits(r),
            self.items().len() == row_count(r),
    {
        proof {
            use_type_invariant(self);
        }
        BootstrapKeyShape {
            input_lwe_dimension: self.shape.input_lwe_dimension,
            glwe_dimension: self.shape.glwe_dimension,
            polynomial_size: self.shape.polynomial_size,
            level_count: self.shape.level_count,
            base_log: self.shape.base_log,
        }
    }

    /// Row `e`.
    pub fn row(&self, e: usize) -> (r: &GlweCiphertext<T>)
        requires
            e < self.items().len(),
        ensures
            *r == self.items()[e as int],
            r.k() == self.shape().glwe_dimension,
            r.n() == self.shape().polynomial_size,
    {
        proof {
            use_type_invariant(self);
            assert(self.rows@[e as int].k() == self.shape.glwe_dimension);
        }
        &self.rows[e]
    }

    /// The rows encrypt, with the errors `errors`, block `e` of `N` errors for row `e`, the
    /// coefficients of `input_key` under `output_key`.
    pub open spec fn encrypt_key(&self, input_key: LweSecretKey<T>, output_key: GlweSecretKey<T>, errors: Seq<i64>) -> bool {
        let s = self.shape();
        let n = s.polynomial_size as int;
        &&& s.input_lwe_dimension == input_key.lwe_dim()
        &&& s.glwe_dimension == output_key.k()
        &&& s.polynomial_size == output_key.n()
        &&& forall|e: int| 0 <= e < self.items().len() ==> #[trigger] self.items()[e].is_ggsw_row(
            &output_key,
            row_of(s, e),
            (input_key.vals()[coefficient_of(s, e)] * gadget_scale(T::bits(), s.base_log as nat, level_of(s, e) as nat)) % T::modulus(),
            ints(errors.subrange(e * n, e * n + n)),
        )
    }

    /// Ggsw-encrypts every coefficient of `input_key` under `output_key`, consuming `N` error
    /// terms per row.
    pub(crate) fn generate(
        input_key: &LweSecretKey<T>,
        output_key: &GlweSecretKey<T>,
        level_count: usize,
        base_log: usize,
        errors: &Vec<i64>,
        generator: &mut EncryptionRandomGenerator,
    ) -> (r: GgswRows<T>)
        requires
            level_count > 0,
            shape_fits(BootstrapKeyShape {
                input_lwe_dimension: input_key.lwe_dim() as usize,
                glwe_dimension: output_key.k() as usize,
                polynomial_size: output_key.n() as usize,
                level_count,
                base_log,
            }),
            row_count(BootstrapKeyShape {
                input_lwe_dimension: input_key.lwe_dim() as usize,
                glwe_dimension: output_key.k() as usize,
                polynomial_size: output_key.n() as usize,
                level_count,
                base_log,
            }) * output_key.n() <= errors@.len(),
        ensures
            r.shape().level_count == level_count,
            r.shape().base_log == base_log,
            r.encrypt_key(*input_key, *output_key, errors@),
    {
        let k = output_key.glwe_dimension().0;
        let n = output_key.polynomial_size().0;
        let n_in = input_key.lwe_dimension().0;
        let shape = BootstrapKeyShape { input_lwe_dimension: n_in, glwe_dimension: k, polynomial_size: n, level_count, base_log };
        let total = errors.len();
        proof {
            assert((k + 1) * level_count >= 1) by (nonlinear_arith)
                requires
                    level_count > 0,
            ;
            assert(n_in * ((k + 1) * level_count) >= n_in) by (nonlinear_arith)
                requires
                    (k + 1) * level_count >= 1,
            ;
            assert(k + 1 <= (k + 1) * level_count) by (nonlinear_arith)
                requires
                    level_count > 0,
            ;
        }
        let per_coefficient = (k + 1) * level_count;
        let count = n_in * per_coefficient;
        let mut rows: Vec<GlweCiphertext<T>> = Vec::new();
        let mut e: usize = 0;
        while e < count
            invariant
                level_count > 0,
                k == output_key.k(),
                n == output_key.n(),
                n_in == input_key.lwe_dim(),
                shape == (BootstrapKeyShape { input_lwe_dimension: n_in, glwe_dimension: k, polynomial_size: n, level_count, base_log }),
                shape_fits(shape),
                per_coefficient == (k + 1) * level_count,
                k + 1 <= usize::MAX,
                count == row_count(shape),
                count * n <= errors@.len(),
                total == errors@.len(),
                e <= count,
                rows@.len() == e,
                forall|g: int| 0 <= g < e ==> {
                    &&& #[trigger] rows@[g].k() == k
                    &&& rows@[g].n() == n
                },
                forall|g: int| 0 <= g < e ==> #[trigger] rows@[g].is_ggsw_row(
                    output_key,
                    row_of(shape, g),
                    (input_key.vals()[coefficient_of(shape, g)] * gadget_scale(T::bits(), base_log as nat, level_of(shape, g) as nat)) % T::modulus(),
                    ints(errors@.subrange(g * n, g * n + n)),
                ),
            decreases count - e,
        {
            proof {
                assert(per_coefficient > 0) by (nonlinear_arith)
                    requires
                        per_coefficient == (k + 1) * level_count,
                        level_count > 0,
                ;
                vstd::arithmetic::div_mod::lemma_div_by_multiple_is_strongly_ordered(e as int, count as int, n_in as int, per_coefficient as int);
                vstd::arithmetic::div_mod::lemma_div_multiples_vanish(n_in as int, per_coefficient as int);
                assert(per_coefficient * n_in == n_in * per_coefficient) by (nonlinear_arith);
                vstd::arithmetic::div_mod::lemma_mod_pos_bound((e / level_count) as int, (k + 1) as int);
                vstd::arithmetic::div_mod::lemma_mod_pos_bound(e as int, level_count as int);
                assert(e * n + n <= count * n) by (nonlinear_arith)
                    requires
                        e < count,
                ;
                assert(e * n <= e * n + n);
            }
            let i = e / per_coefficient;
            let row = (e / level_count) % (k + 1);
            let level = e % level_count + 1;
            let factor: T = gadget_factor(base_log, level);
            let message = input_key.data[i].wrapping_mul(factor);
            let mut ct = GlweCiphertext::zero(k, n);
            ct.encrypt_ggsw_row(output_key, row, message, errors, e * n, generator);
            proof {
                assert(input_key.vals()[i as int] == input_key.data@[i as int].val());
            }
            rows.push(ct);
            e = e + 1;
        }
        GgswRows { shape, rows }
    }

    /// Rows of the given shape whose coefficients are all zero.
    pub fn zero(shape: BootstrapKeyShape) -> (r: GgswRows<T>)
        requires
            shape_fits(shape),
        ensures
            r.shape() == shape,
    {
        let k = shape.glwe_dimension;
        let n = shape.polynomial_size;
        let count: usize = if shape.level_count == 0 {
            proof {
                assert(shape.input_lwe_dimension * ((k + 1) * shape.level_count) == 0) by (nonlinear_arith)
                    requires
                        shape.level_count == 0,
                ;
            }
            0
        } else {
            proof {
                assert(k + 1 <= (k + 1) * shape.level_count) by (nonlinear_arith)
                    requires
                        shape.level_count > 0,
                ;
            }
            shape.input_lwe_dimension * ((k + 1) * shape.level_count)
        };
        let mut rows: Vec<GlweCiphertext<T>> = Vec::new();
        let mut e: usize = 0;
        while e < count
            invariant
                shape_fits(shape),
                k == shape.glwe_dimension,
                n == shape.polynomial_size,
                count == row_count(shape),
                e <= count,
                rows@.len() == e,
                forall|g: int| 0 <= g < e ==> {
                    &&& #[trigger] rows@[g].k() == k
                    &&& rows@[g].n() == n
                },
            decreases count - e,
        {
            rows.push(GlweCiphertext::zero(k, n));
            e = e + 1;
        }
        assert(rows@.len() == row_count(shape));
        assert(forall|g: int| 0 <= g < rows@.len() ==> #[trigger] rows@[g].k() == shape.glwe_dimension && rows@[g].n() == shape.polynomial_size);
        GgswRows { shape, rows }
    }

    /// A copy of the rows.
    pub(crate) fn duplicate(&self) -> (r: GgswRows<T>)
        ensures
            r.shape() == self.shape(),
            r.items().len() == self.items().len(),
            forall|e: int| 0 <= e < self.items().len() ==> {
                &&& (#[trigger] r.items()[e]).k() == self.items()[e].k()
                &&& r.items()[e].n() == self.items()[e].n()
                &&& r.items()[e].mask_vals() == self.items()[e].mask_vals()
                &&& r.items()[e].body_vals() == self.items()[e].body_vals()
            },
    {
        proof {
            use_type_invariant(self);
        }
        let mut rows: Vec<GlweCiphertext<T>> = Vec::new();
        let mut e: usize = 0;
        while e < self.rows.len()
            invariant
                self.well_shaped(),
                e <= self.rows@.len(),
                rows@.len() == e,
                forall|g: int| 0 <= g < e ==> {
                    &&& (#[trigger] rows@[g]).k() == self.rows@[g].k()
                    &&& rows@[g].n() == self.rows@[g].n()
                    &&& rows@[g].mask_vals() == self.rows@[g].mask_vals()
                    &&& rows@[g].body_vals() == self.rows@[g].body_vals()
                },
            decreases self.rows@.len() - e,
        {
            rows.push(self.rows[e].duplicate());
            e = e + 1;
        }
        let shape = self.get_shape();
        assert(rows@.len() == self.rows@.len());
        GgswRows { shape, rows }
    }
}

impl<T: Torus> GgswRows<T> {
    /// The rows hold the same coefficients as `other`, in the same shape.
    pub open spec fn same_content(&self, other: GgswRows<T>) -> bool {
        &&& self.shape() == other.shape()
        &&& self.items().len() == other.items().len()
        &&& forall|e: int| 0 <= e < self.items().len() ==> {
            &&& (#[trigger] self.items()[e]).k() == other.items()[e].k()
            &&& self.items()[e].n() == other.items()[e].n()
            &&& self.items()[e].mask_vals() == other.items()[e].mask_vals()
            &&& self.items()[e].body_vals() == other.items()[e].body_vals()
        }
    }
}

/// Checks that a bootstrap key of this shape fits in memory.
pub(crate) fn check_shape_fits(shape: &BootstrapKeyShape) -> (r: bool)
    ensures
        r == shape_fits(*shape),
{
    let k1 = shape.glwe_dimension.checked_add(1);
    match k1 {
        None => {
            proof {
                assert(shape.polynomial_size > 0 ==> (shape.glwe_dimension + 1) * shape.polynomial_size > usize::MAX) by (nonlinear_arith)
                    requires
                        shape.glwe_dimension + 1 > usize::MAX,
                ;
                assert(shape.level_count > 0 ==> (shape.glwe_dimension + 1) * shape.level_count > usize::MAX) by (nonlinear_arith)
                    requires
                        shape.glwe_dimension + 1 > usize::MAX,
                ;
                assert(shape.polynomial_size == 0 ==> (shape.glwe_dimension + 1) * shape.polynomial_size == 0) by (nonlinear_arith);
                assert(shape.level_count == 0 ==> (shape.glwe_dimension + 1) * shape.level_count == 0) by (nonlinear_arith);
                assert(shape.level_count == 0 ==> row_count(*shape) == 0) by (nonlinear_arith)
                    requires
                        shape.level_count == 0 ==> (shape.glwe_dimension + 1) * shape.level_count == 0,
                ;
                assert(shape.level_count == 0 ==> row_count(*shape) * shape.polynomial_size == 0) by (nonlinear_arith)
                    requires
                        shape.level_count == 0 ==> row_count(*shape) == 0,
                ;
            }
            // with k + 1 beyond usize, the shape fits only when it holds nothing at all
            shape.polynomial_size == 0 && shape.level_count == 0
        },
        Some(k1) => {
            let a = k1.checked_mul(shape.polynomial_size);
            let b = k1.checked_mul(shape.level_count);
            match (a, b) {
                (Some(_), Some(per)) => {
                    match shape.input_lwe_dimension.checked_mul(per) {
                        Some(rows) => rows.checked_mul(shape.polynomial_size).is_some(),
                        None => false,
                    }
                },
                _ => false,
            }
        },
    }
}

/// A ggsw ciphertext: `(k + 1) * level_count` glwe ciphertexts, row `r` of level `l + 1` at
/// index `r * level_count + l`.
pub struct GgswCiphertext<T: Torus> {
    glwe_dimension: usize,
    polynomial_size: usize,
    level_count: usize,
    base_log: usize,
    rows: Vec<GlweCiphertext<T>>,
}

/// A ggsw ciphertext in 32 bits of precision.
pub type GgswCiphertext32 = GgswCiphertext<u32>;

/// A ggsw ciphertext in 64 bits of precision.
pub type GgswCiphertext64 = GgswCiphertext<u64>;

impl<T: Torus> GgswCiphertext<T> {
    /// The glwe ciphertexts of the ggsw ciphertext.
    pub closed spec fn items(&self) -> Seq<GlweCiphertext<T>> {
        self.rows@
    }

    pub closed spec fn shape(&self) -> (nat, nat, nat, nat) {
        (self.glwe_dimension as nat, self.polynomial_size as nat, self.level_count as nat, self.base_log as nat)
    }

    /// Row `e` of the ciphertext.
    pub fn row(&self, e: usize) -> (r: &GlweCiphertext<T>)
        requires
            e < self.items().len(),
        ensures
            *r == self.items()[e as int],
    {
        &self.rows[e]
    }
}

impl<T: Torus> AbstractEntity for GgswCiphertext<T> {
    type Kind = GgswCiphertextKind;
    type Representation = T::Standard;
}

impl<T: Torus> GgswCiphertextEntity for GgswCiphertext<T> {
    type KeyFlavor = BinaryKeyFlavor;

    open spec fn glwe_dim(&self) -> nat {
        self.shape().0
    }

    open spec fn poly_size(&self) -> nat {
        self.shape().1
    }

    open spec fn level_count(&self) -> nat {
        self.shape().2
    }

    open spec fn base_log(&self) -> nat {
        self.shape().3
    }

    fn glwe_dimension(&self) -> (r: GlweDimension) {
        GlweDimension(self.glwe_dimension)
    }

    fn polynomial_size(&self) -> (r: PolynomialSize) {
        PolynomialSize(self.polynomial_size)
    }

    fn decomposition_level_count(&self) -> (r: DecompositionLevelCount) {
        DecompositionLevelCount(self.level_count)
    }

    fn decomposition_base_log(&self) -> (r: DecompositionBaseLog) {
        DecompositionBaseLog(self.base_log)
    }
}

impl<T: Torus> GgswRows<T> {
    /// The ggsw encryption of lwe key coefficient `i`: rows `i * (k + 1) * levels` onwards.
    pub fn ggsw(&self, i: usize) -> (r: GgswCiphertext<T>)
        requires
            i < self.shape().input_lwe_dimension,
        ensures
            r.shape() == (self.shape().glwe_dimension as nat, self.shape().polynomial_size as nat, self.shape().level_count as nat, self.shape().base_log as nat),
            r.items().len() == (self.shape().glwe_dimension + 1) * self.shape().level_count,
            forall|j: int| 0 <= j < r.items().len() ==> {
                &&& (#[trigger] r.items()[j]).mask_vals() == self.items()[i * r.items().len() + j].mask_vals()
                &&& r.items()[j].body_vals() == self.items()[i * r.items().len() + j].body_vals()
            },
    {
        let s = self.get_shape();
        proof {
            use_type_invariant(self);
            if s.level_count > 0 {
                assert(s.glwe_dimension + 1 <= (s.glwe_dimension + 1) * s.level_count) by (nonlinear_arith)
                    requires
                        s.level_count > 0,
                ;
            } else {
                assert((s.glwe_dimension + 1) * s.level_count == 0) by (nonlinear_arith)
                    requires
                        s.level_count == 0,
                ;
            }
        }
        let per = if s.level_count == 0 { 0 } else { (s.glwe_dimension + 1) * s.level_count };
        proof {
            assert(i * per + per <= s.input_lwe_dimension * per) by (nonlinear_arith)
                requires
                    i < s.input_lwe_dimension,
            ;
            assert(s.input_lwe_dimension * per == row_count(s));
            assert(i * per <= i * per + per);
        }
        let start = i * per;
        let total = self.rows.len();
        let mut rows: Vec<GlweCiphertext<T>> = Vec::new();
        let mut j: usize = 0;
        while j < per
            invariant
                total == self.rows@.len(),
                start + per <= self.rows@.len(),
                j <= per,
                rows@.len() == j,
                forall|g: int| 0 <= g < j ==> {
                    &&& (#[trigger] rows@[g]).mask_vals() == self.rows@[start + g].mask_vals()
                    &&& rows@[g].body_vals() == self.rows@[start + g].body_vals()
                },
            decreases per - j,
        {
            rows.push(self.rows[start + j].duplicate());
            j = j + 1;
        }
        GgswCiphertext {
            glwe_dimension: s.glwe_dimension,
            polynomial_size: s.polynomial_size,
            level_count: s.level_count,
            base_log: s.base_log,
            rows,
        }
    }
}

/// A vector of ggsw ciphertexts of one shape.
pub struct GgswCiphertextVector<T: Torus> {
    glwe_dimension: usize,
    polynomial_size: usize,
    level_count: usize,
    base_log: usize,
    ciphertexts: Vec<GgswCiphertext<T>>,
}

/// A ggsw ciphertext vector in 32 bits of precision.
pub type GgswCiphertextVector32 = GgswCiphertextVector<u32>;

/// A ggsw ciphertext vector in 64 bits of precision.
pub type GgswCiphertextVector64 = GgswCiphertextVector<u64>;

impl<T: Torus> GgswCiphertextVector<T> {
    #[verifier::type_invariant]
    spec fn same_shape(&self) -> bool {
        forall|i: int| 0 <= i < self.ciphertexts@.len() ==> (#[trigger] self.ciphertexts@[i]).shape() == self.shape()
    }

    /// The ciphertexts of the vector.
    pub closed spec fn items(&self) -> Seq<GgswCiphertext<T>> {
        self.ciphertexts@
    }

    pub closed spec fn shape(&self) -> (nat, nat, nat, nat) {
        (self.glwe_dimension as nat, self.polynomial_size as nat, self.level_count as nat, self.base_log as nat)
    }

    /// The `i`-th ciphertext.
    pub fn get(&self, i: usize) -> (r: &GgswCiphertext<T>)
        requires
            i < self.items().len(),
        ensures
            *r == self.items()[i as int],
            r.shape() == self.shape(),
    {
        proof {
            use_type_invariant(self);
        }
        &self.ciphertexts[i]
    }
}

impl<T: Torus> AbstractEntity for GgswCiphertextVector<T> {
    type Kind = GgswCiphertextVectorKind;
    type Representation = T::Standard;
}

impl<T: Torus> GgswCiphertextVectorEntity for GgswCiphertextVector<T> {
    type KeyFlavor = BinaryKeyFlavor;

    open spec fn glwe_dim(&self) -> nat {
        self.shape().0
    }

    open spec fn poly_size(&self) -> nat {
        self.shape().1
    }

    open spec fn level_count(&self) -> nat {
        self.shape().2
    }

    open spec fn base_log(&self) -> nat {
        self.shape().3
    }

    open spec fn count(&self) -> nat {
        self.items().len()
    }

    fn glwe_dimension(&self) -> (r: GlweDimension) {
        GlweDimension(self.glwe_dimension)
    }

    fn polynomial_size(&self) -> (r: PolynomialSize) {
        PolynomialSize(self.polynomial_size)
    }

    fn decomposition_level_count(&self) -> (r: DecompositionLevelCount) {
        DecompositionLevelCount(self.level_count)
    }

    fn decomposition_base_log(&self) -> (r: DecompositionBaseLog) {
        DecompositionBaseLog(self.base_log)
    }

    fn ggsw_ciphertext_count(&self) -> (r: GgswCiphertextCount) {
        GgswCiphertextCount(self.ciphertexts.len())
    }
}

/// An lwe bootstrap key in the standard domain.
pub struct LweBootstrapKey<T: Torus> {
    pub(crate) rows: GgswRows<T>,
}

/// An lwe bootstrap key in the standard domain, in 32 bits of precision.
pub type LweBootstrapKey32 = LweBootstrapKey<u32>;

/// An lwe bootstrap key in the standard domain, in 64 bits of precision.
pub type LweBootstrapKey64 = LweBootstrapKey<u64>;

/// An lwe bootstrap key in the form that bootstrapping multiplies with. Such a key is made only
/// by converting a standard key of the same shape. Polynomial products are computed exactly
/// over the integers here, so the conversion keeps the coefficients as they are.
pub struct FourierLweBootstrapKey<T: Torus> {
    pub(crate) rows: GgswRows<T>,
}

/// A multiplication-ready lwe bootstrap key, for 32 bits ciphertexts.
pub type FourierLweBootstrapKey32 = FourierLweBootstrapKey<u32>;

/// A multiplication-ready lwe bootstrap key, for 64 bits ciphertexts.
pub type FourierLweBootstrapKey64 = FourierLweBootstrapKey<u64>;

impl<T: Torus> FourierLweBootstrapKey<T> {
    /// A key of the given shape whose coefficients are all zero, to convert a standard key
    /// into.
    pub fn allocate(
        input_lwe_dimension: LweDimension,
        glwe_dimension: GlweDimension,
        polynomial_size: PolynomialSize,
        level_count: DecompositionLevelCount,
        base_log: DecompositionBaseLog,
    ) -> (r: Option<FourierLweBootstrapKey<T>>)
        ensures
            r is Some <==> shape_fits(BootstrapKeyShape {
                input_lwe_dimension: input_lwe_dimension.0,
                glwe_dimension: glwe_dimension.0,
                polynomial_size: polynomial_size.0,
                level_count: level_count.0,
                base_log: base_log.0,
            }),
            r matches Some(key) ==> key.shape() == (BootstrapKeyShape {
                input_lwe_dimension: input_lwe_dimension.0,
                glwe_dimension: glwe_dimension.0,
                polynomial_size: polynomial_size.0,
                level_count: level_count.0,
                base_log: base_log.0,
            }),
    {
        let shape = BootstrapKeyShape {
            input_lwe_dimension: input_lwe_dimension.0,
            glwe_dimension: glwe_dimension.0,
            polynomial_size: polynomial_size.0,
            level_count: level_count.0,
            base_log: base_log.0,
        };
        if !check_shape_fits(&shape) {
            return None;
        }
        Some(FourierLweBootstrapKey { rows: GgswRows::zero(shape) })
    }
}

impl<T: Torus> LweBootstrapKey<T> {
    /// The ggsw encryptions of the input key coefficients, in order.
    pub fn ggsw_ciphertexts(&self) -> (r: GgswCiphertextVector<T>)
        ensures
            r.count() == self.input_lwe_dim(),
            r.glwe_dim() == self.glwe_dim(),
            r.poly_size() == self.poly_size(),
            r.level_count() == self.level_count(),
            r.base_log() == self.base_log(),
    {
        let s = self.rows.get_shape();
        let mut ciphertexts: Vec<GgswCiphertext<T>> = Vec::new();
        let mut i: usize = 0;
        while i < s.input_lwe_dimension
            invariant
                s == self.rows.shape(),
                i <= s.input_lwe_dimension,
                ciphertexts@.len() == i,
                forall|g: int| 0 <= g < i ==> (#[trigger] ciphertexts@[g]).shape() == (s.glwe_dimension as nat, s.polynomial_size as nat, s.level_count as nat, s.base_log as nat),
            decreases s.input_lwe_dimension - i,
        {
            ciphertexts.push(self.rows.ggsw(i));
            i = i + 1;
        }
        GgswCiphertextVector {
            glwe_dimension: s.glwe_dimension,
            polynomial_size: s.polynomial_size,
            level_count: s.level_count,
            base_log: s.base_log,
            ciphertexts,
        }
    }

    /// The ggsw encryption of input key coefficient `i`.
    pub fn ggsw_ciphertext(&self, i: usize) -> (r: GgswCiphertext<T>)
        requires
            i < self.input_lwe_dim(),
        ensures
            r.glwe_dim() == self.glwe_dim(),
            r.poly_size() == self.poly_size(),
            r.level_count() == self.level_count(),
            r.base_log() == self.base_log(),
    {
        self.rows.ggsw(i)
    }

    /// The shape of the key.
    pub open(crate) spec fn shape(&self) -> BootstrapKeyShape {
        self.rows.shape()
    }

    /// The glwe ciphertexts of the key.
    pub open(crate) spec fn rows(&self) -> GgswRows<T> {
        self.rows
    }
}

impl<T: Torus> AbstractEntity for LweBootstrapKey<T> {
    type Kind = LweBootstrapKeyKind;
    type Representation = T::Standard;
}

impl<T: Torus> FourierLweBootstrapKey<T> {
    /// The shape of the key.
    pub open(crate) spec fn shape(&self) -> BootstrapKeyShape {
        self.rows.shape()
    }

    /// The glwe ciphertexts of the key.
    pub open(crate) spec fn rows(&self) -> GgswRows<T> {
        self.rows
    }

    /// Overwrites the key with the coefficients of `input`, which has the same shape.
    pub(crate) fn fill_with(&mut self, input: &LweBootstrapKey<T>)
        requires
            old(self).shape() == input.shape(),
        ensures
            final(self).rows().same_content(input.rows()),
    {
        self.rows = input.rows.duplicate();
    }
}

impl<T: Torus> AbstractEntity for FourierLweBootstrapKey<T> {
    type Kind = LweBootstrapKeyKind;
    type Representation = T::Fourier;
}

impl<T: Torus> LweBootstrapKeyEntity for LweBootstrapKey<T> {
    type InputKeyFlavor = BinaryKeyFlavor;
    type OutputKeyFlavor = BinaryKeyFlavor;

    open spec fn glwe_dim(&self) -> nat {
        self.shape().glwe_dimension as nat
    }

    open spec fn poly_size(&self) -> nat {
        self.shape().polynomial_size as nat
    }

    open spec fn input_lwe_dim(&self) -> nat {
        self.shape().input_lwe_dimension as nat
    }

    open spec fn level_count(&self) -> nat {
        self.shape().level_count as nat
    }

    open spec fn base_log(&self) -> nat {
        self.shape().base_log as nat
    }

    fn output_lwe_dimension(&self) -> (r: LweDimension) {
        let shape = self.rows.get_shape();
        proof {
            assert(shape.glwe_dimension * shape.polynomial_size <= (shape.glwe_dimension + 1) * shape.polynomial_size) by (nonlinear_arith);
        }
        LweDimension(shape.glwe_dimension * shape.polynomial_size)
    }

    fn glwe_dimension(&self) -> (r: GlweDimension) {
        GlweDimension(self.rows.get_shape().glwe_dimension)
    }

    fn polynomial_size(&self) -> (r: PolynomialSize) {
        PolynomialSize(self.rows.get_shape().polynomial_size)
    }

    fn input_lwe_dimension(&self) -> (r: LweDimension)
        ensures
            self.rows().items().len() == row_count(self.shape()),
    {
        LweDimension(self.rows.get_shape().input_lwe_dimension)
    }

    fn decomposition_base_log(&self) -> (r: DecompositionBaseLog) {
        DecompositionBaseLog(self.rows.get_shape().base_log)
    }

    fn decomposition_level_count(&self) -> (r: DecompositionLevelCount) {
        DecompositionLevelCount(self.rows.get_shape().level_count)
    }
}

impl<T: Torus> LweBootstrapKeyEntity for FourierLweBootstrapKey<T> {
    type InputKeyFlavor = BinaryKeyFlavor;
    type OutputKeyFlavor = BinaryKeyFlavor;

    open spec fn glwe_dim(&self) -> nat {
        self.shape().glwe_dimension as nat
    }

    open spec fn poly_size(&self) -> nat {
        self.shape().polynomial_size as nat
    }

    open spec fn input_lwe_dim(&self) -> nat {
        self.shape().input_lwe_dimension as nat
    }

    open spec fn level_count(&self) -> nat {
        self.shape().level_count as nat
    }

    open spec fn base_log(&self) -> nat {
        self.shape().base_log as nat
    }

    fn output_lwe_dimension(&self) -> (r: LweDimension) {
        let shape = self.rows.get_shape();
        proof {
            assert(shape.glwe_dimension * shape.polynomial_size <= (shape.glwe_dimension + 1) * shape.polynomial_size) by (nonlinear_arith);
        }
        LweDimension(shape.glwe_dimension * shape.polynomial_size)
    }

    fn glwe_dimension(&self) -> (r: GlweDimension) {
        GlweDimension(self.rows.get_shape().glwe_dimension)
    }

    fn polynomial_size(&self) -> (r: PolynomialSize) {
        PolynomialSize(self.rows.get_shape().polynomial_size)
    }

    fn input_lwe_dimension(&self) -> (r: LweDimension)
        ensures
            self.rows().items().len() == row_count(self.shape()),
    {
        LweDimension(self.rows.get_shape().input_lwe_dimension)
    }

    fn decomposition_base_log(&self) -> (r: DecompositionBaseLog) {
        DecompositionBaseLog(self.rows.get_shape().base_log)
    }

    fn decomposition_level_count(&self) -> (r: DecompositionLevelCount) {
        DecompositionLevelCount(self.rows.get_shape().level_count)
    }
}

} // verus!
