//! Glwe secret keys and ciphertexts over the ring `Z_{2^w}[X] / (X^N + 1)`.
//!
//! A key is `k` polynomials `S_0, ..., S_{k-1}` and a ciphertext is `k` mask polynomials
//! `A_0, ..., A_{k-1}` and a body `B`, all stored flat, polynomial after polynomial. The phase
//! of a ciphertext is `B - (A_0 S_0 + ... + A_{k-1} S_{k-1})`. Its coefficient `i` is the body
//! coefficient minus the inner product of the flat mask with the key rotated for `i`.
use vstd::prelude::*;
use vstd::arithmetic::div_mod::{lemma_add_mod_noop, lemma_fundamental_div_mod, lemma_sub_mod_noop};
use crate::encoding::PlaintextVector;
use crate::entities::{AbstractEntity, GlweCiphertextEntity, GlweCiphertextVectorEntity, GlweSecretKeyEntity, LweCiphertextEntity};
use crate::generators::{EncryptionRandomGenerator, SecretRandomGenerator};
use crate::lwe::{encode_error, is_binary, lwe_phase, LweCiphertext, LweSecretKey};
use crate::sums::{lemma_dot_is_sum, lemma_sum_congruent, lemma_sum_reverse, lemma_sum_split, sum_to};
use crate::markers::{BinaryKeyFlavor, GlweCiphertextKind, GlweCiphertextVectorKind, GlweSecretKeyKind};
use crate::numeric::{copy_of, dot, dot_mod, lemma_dot_combination, lemma_mod_add_left, lemma_vals_push, vals, Torus};
use crate::parameters::{GlweCiphertextCount, GlweDimension, PolynomialSize};

verus! {

/// Signed integers as mathematical integers.
pub open spec fn ints(s: Seq<i64>) -> Seq<int> {
    s.map_values(|e: i64| e as int)
}

/// Coefficient `f` of the flat key rotated for output coefficient `i`: with `f = j * n + t`,
/// the coefficient of `S_j` that multiplies `X^t` of `A_j` to reach `X^i`, negated when the
/// product wraps around `X^n = -1`.
pub open spec fn rot(key: Seq<int>, n: int, f: int, i: int) -> int {
    let j = f / n;
    let t = f % n;
    if t <= i {
        key[j * n + i - t]
    } else {
        -key[j * n + n + i - t]
    }
}

/// The flat key rotated for output coefficient `i`.
pub open spec fn rotated(key: Seq<int>, n: int, i: int) -> Seq<int> {
    Seq::new(key.len(), |f: int| rot(key, n, f, i))
}

/// Coefficient `i` of `A_0 S_0 + ... + A_{k-1} S_{k-1}`, over the integers.
pub open spec fn mask_key_product(key: Seq<int>, mask: Seq<int>, n: int, i: int) -> int {
    dot(rotated(key, n, i), mask, key.len())
}

proof fn lemma_flat_index(f: int, n: int, k: int)
    requires
        n > 0,
        0 <= f < k * n,
    ensures
        f == (f / n) * n + f % n,
        0 <= f % n < n,
        0 <= f / n < k,
        (f / n) * n + n <= k * n,
{
    lemma_fundamental_div_mod(f, n);
    assert(n * (f / n) == (f / n) * n) by (nonlinear_arith);
    vstd::arithmetic::div_mod::lemma_mod_pos_bound(f, n);
    vstd::arithmetic::div_mod::lemma_div_pos_is_pos(f, n);
    vstd::arithmetic::div_mod::lemma_div_by_multiple_is_strongly_ordered(f, k * n, k, n);
    vstd::arithmetic::div_mod::lemma_div_multiples_vanish(k, n);
    assert(n * k == k * n) by (nonlinear_arith);
    assert((f / n) * n + n <= k * n) by (nonlinear_arith)
        requires
            f / n < k,
            n > 0,
    ;
}

/// The flat key rotated for coefficient `i`, reduced modulo `2^w`.
fn rotated_key<T: Torus>(key: &Vec<T>, n: usize, k: Ghost<int>, i: usize) -> (r: Vec<T>)
    requires
        n > 0,
        i < n,
        key@.len() == k@ * n,
    ensures
        r@.len() == key@.len(),
        forall|f: int| 0 <= f < r@.len() ==> #[trigger] vals(r@)[f] == rot(vals(key@), n as int, f, i as int) % T::modulus(),
{
    let mut r: Vec<T> = Vec::new();
    let mut f: usize = 0;
    proof {
        T::lemma_modulus();
    }
    while f < key.len()
        invariant
            n > 0,
            i < n,
            key@.len() == k@ * n,
            f <= key@.len(),
            r@.len() == f,
            T::modulus() > 1,
            forall|g: int| 0 <= g < f ==> #[trigger] vals(r@)[g] == rot(vals(key@), n as int, g, i as int) % T::modulus(),
        decreases key@.len() - f,
    {
        let j = f / n;
        let t = f % n;
        proof {
            lemma_flat_index(f as int, n as int, k@);
        }
        let base = j * n;
        let v = if t <= i {
            let c = key[base + i - t];
            proof {
                c.lemma_range();
                vstd::arithmetic::div_mod::lemma_small_mod(c.val() as nat, T::modulus() as nat);
            }
            c
        } else {
            key[base + (n - (t - i))].wrapping_neg()
        };
        proof {
            lemma_vals_push(r@, v);
        }
        r.push(v);
        f = f + 1;
    }
    r
}

/// Coefficient `i` of `A_0 S_0 + ... + A_{k-1} S_{k-1}`, modulo `2^w`.
fn mask_key_product_mod<T: Torus>(key: &Vec<T>, mask: &Vec<T>, n: usize, k: Ghost<int>, i: usize) -> (r: T)
    requires
        n > 0,
        i < n,
        key@.len() == k@ * n,
        mask@.len() == key@.len(),
    ensures
        r.val() == mask_key_product(vals(key@), vals(mask@), n as int, i as int) % T::modulus(),
{
    let rk = rotated_key(key, n, k, i);
    let r = dot_mod(&rk, mask);
    proof {
        T::lemma_modulus();
        let rot_seq = rotated(vals(key@), n as int, i as int);
        lemma_dot_combination(rot_seq, rot_seq, vals(rk@), vals(mask@), key@.len(), 1, 0, T::modulus());
        assert(vals(rk@).len() == key@.len());
    }
    r
}

/// A glwe secret key with binary coefficients.
pub struct GlweSecretKey<T: Torus> {
    glwe_dimension: usize,
    polynomial_size: usize,
    data: Vec<T>,
}

/// A glwe secret key in 32 bits of precision.
pub type GlweSecretKey32 = GlweSecretKey<u32>;

/// A glwe secret key in 64 bits of precision.
pub type GlweSecretKey64 = GlweSecretKey<u64>;

impl<T: Torus> GlweSecretKey<T> {
    #[verifier::type_invariant]
    spec fn shape(&self) -> bool {
        self.data@.len() == self.glwe_dimension * self.polynomial_size
    }

    /// The flat coefficients of the key polynomials.
    pub closed spec fn vals(&self) -> Seq<int> {
        vals(self.data@)
    }

    pub closed spec fn k(&self) -> nat {
        self.glwe_dimension as nat
    }

    pub closed spec fn n(&self) -> nat {
        self.polynomial_size as nat
    }

    /// Draws a binary key of `glwe_dimension` polynomials of `polynomial_size` coefficients.
    pub(crate) fn generate(glwe_dimension: usize, polynomial_size: usize, generator: &mut SecretRandomGenerator) -> (r: GlweSecretKey<T>)
        requires
            glwe_dimension * polynomial_size <= usize::MAX,
        ensures
            r.k() == glwe_dimension,
            r.n() == polynomial_size,
            is_binary(r.vals()),
    {
        let len = glwe_dimension * polynomial_size;
        let flat: LweSecretKey<T> = LweSecretKey::generate(len, generator);
        GlweSecretKey { glwe_dimension, polynomial_size, data: flat.data }
    }

    /// The lwe key made of the coefficients of the key polynomials, one after the other: the
    /// key that decrypts the lwe ciphertexts extracted from ciphertexts under this key.
    pub fn flattened(&self) -> (r: LweSecretKey<T>)
        ensures
            r.vals() == self.vals(),
    {
        let mut data: Vec<T> = Vec::new();
        let mut i: usize = 0;
        while i < self.data.len()
            invariant
                i <= self.data@.len(),
                data@ == self.data@.subrange(0, i as int),
            decreases self.data@.len() - i,
        {
            data.push(self.data[i]);
            i = i + 1;
        }
        assert(data@ == self.data@);
        LweSecretKey { data }
    }
}

impl<T: Torus> AbstractEntity for GlweSecretKey<T> {
    type Kind = GlweSecretKeyKind;
    type Representation = T::Standard;
}

impl<T: Torus> GlweSecretKeyEntity for GlweSecretKey<T> {
    type KeyFlavor = BinaryKeyFlavor;

    open spec fn glwe_dim(&self) -> nat {
        self.k()
    }

    open spec fn poly_size(&self) -> nat {
        self.n()
    }

    fn glwe_dimension(&self) -> (r: GlweDimension)
        ensures
            self.vals().len() == self.k() * self.n(),
    {
        proof {
            use_type_invariant(self);
        }
        GlweDimension(self.glwe_dimension)
    }

    fn polynomial_size(&self) -> (r: PolynomialSize) {
        PolynomialSize(self.polynomial_size)
    }
}

/// A glwe ciphertext: `k` mask polynomials and a body polynomial, of `N` coefficients each.
pub struct GlweCiphertext<T: Torus> {
    glwe_dimension: usize,
    polynomial_size: usize,
    mask: Vec<T>,
    body: Vec<T>,
}

/// A glwe ciphertext in the cpu memory, in the standard domain, in 32 bits of precision.
pub type GlweCiphertext32 = GlweCiphertext<u32>;

/// A glwe ciphertext in the cpu memory, in the standard domain, in 64 bits of precision.
pub type GlweCiphertext64 = GlweCiphertext<u64>;

/// Another name of [`GlweCiphertext32`].
pub type GlweCiphextext32 = GlweCiphertext<u32>;

/// Another name of [`GlweCiphertext64`].
pub type GlweCiphextext64 = GlweCiphertext<u64>;

impl<T: Torus> GlweCiphertext<T> {
    #[verifier::type_invariant]
    spec fn shape(&self) -> bool {
        &&& self.body@.len() == self.polynomial_size
        &&& self.mask@.len() == self.glwe_dimension * self.polynomial_size
        &&& (self.glwe_dimension + 1) * self.polynomial_size <= usize::MAX
    }

    /// The flat coefficients of the mask polynomials.
    pub closed spec fn mask_vals(&self) -> Seq<int> {
        vals(self.mask@)
    }

    /// The coefficients of the body polynomial.
    pub closed spec fn body_vals(&self) -> Seq<int> {
        vals(self.body@)
    }

    pub closed spec fn k(&self) -> nat {
        self.glwe_dimension as nat
    }

    pub closed spec fn n(&self) -> nat {
        self.polynomial_size as nat
    }

    /// Coefficient `i` of the phase of the ciphertext under `key`.
    pub open spec fn phase(&self, key: &GlweSecretKey<T>, i: int) -> int {
        (self.body_vals()[i] - mask_key_product(key.vals(), self.mask_vals(), self.n() as int, i)) % T::modulus()
    }

    /// The ciphertext encrypts the message polynomial `m` with error polynomial `e` under
    /// `key`: each body coefficient is the matching coefficient of `A.S + m + e`.
    pub open spec fn encrypts(&self, key: &GlweSecretKey<T>, m: Seq<int>, e: Seq<int>) -> bool {
        &&& self.k() == key.k()
        &&& self.n() == key.n()
        &&& forall|i: int| 0 <= i < self.n() ==> #[trigger] self.body_vals()[i] == (mask_key_product(key.vals(), self.mask_vals(), self.n() as int, i) + m[i] + e[i]) % T::modulus()
    }

    /// The ciphertext of `glwe_dimension` mask polynomials of `polynomial_size` coefficients,
    /// all zero.
    pub fn zero(glwe_dimension: usize, polynomial_size: usize) -> (r: GlweCiphertext<T>)
        requires
            (glwe_dimension + 1) * polynomial_size <= usize::MAX,
        ensures
            r.k() == glwe_dimension,
            r.n() == polynomial_size,
            forall|f: int| 0 <= f < r.mask_vals().len() ==> #[trigger] r.mask_vals()[f] == 0,
            forall|i: int| 0 <= i < r.n() ==> #[trigger] r.body_vals()[i] == 0,
    {
        proof {
            assert(glwe_dimension * polynomial_size <= (glwe_dimension + 1) * polynomial_size) by (nonlinear_arith);
        }
        let mask_ct: LweCiphertext<T> = LweCiphertext::zero(glwe_dimension * polynomial_size);
        let body_ct: LweCiphertext<T> = LweCiphertext::zero(polynomial_size);
        GlweCiphertext { glwe_dimension, polynomial_size, mask: mask_ct.mask, body: body_ct.mask }
    }

    /// Polynomial `r` of the ciphertext: mask polynomial `r` for `r < k`, the body for `r == k`.
    pub open spec fn poly_vals(&self, r: int) -> Seq<int> {
        if r == self.k() {
            self.body_vals()
        } else {
            self.mask_vals().subrange(r * self.n(), r * self.n() + self.n())
        }
    }

    /// A copy of polynomial `r`: mask polynomial `r` for `r < k`, the body for `r == k`.
    pub(crate) fn polynomial(&self, r: usize) -> (p: Vec<T>)
        requires
            r <= self.k(),
        ensures
            p@.len() == self.n(),
            vals(p@) == self.poly_vals(r as int),
    {
        proof {
            use_type_invariant(self);
        }
        let n = self.polynomial_size;
        if r == self.glwe_dimension {
            return copy_of(&self.body);
        }
        proof {
            assert(r * n + n <= self.k() * n) by (nonlinear_arith)
                requires
                    r < self.k(),
            ;
        }
        let mask_len = self.mask.len();
        let start = r * n;
        let mut p: Vec<T> = Vec::new();
        let mut t: usize = 0;
        while t < n
            invariant
                mask_len == self.mask@.len(),
                start + n <= self.mask@.len(),
                t <= n,
                p@ == self.mask@.subrange(start as int, start + t),
            decreases n - t,
        {
            p.push(self.mask[start + t]);
            t = t + 1;
        }
        proof {
            assert(vals(p@) =~= vals(self.mask@).subrange(start as int, start + n));
        }
        p
    }

    /// The ciphertext whose polynomials are `polys`: `k` mask polynomials then the body.
    pub(crate) fn from_polynomials(polys: Vec<Vec<T>>, n: usize) -> (r: GlweCiphertext<T>)
        requires
            polys@.len() >= 1,
            polys@.len() * n <= usize::MAX,
            forall|r: int| 0 <= r < polys@.len() ==> #[trigger] polys@[r]@.len() == n,
        ensures
            r.k() == polys@.len() - 1,
            r.n() == n,
            forall|j: int| 0 <= j < polys@.len() ==> #[trigger] r.poly_vals(j) == vals(polys@[j]@),
    {
        let k = polys.len() - 1;
        let mut mask: Vec<T> = Vec::new();
        let mut r: usize = 0;
        while r < k
            invariant
                k == polys@.len() - 1,
                polys@.len() * n <= usize::MAX,
                forall|j: int| 0 <= j < polys@.len() ==> #[trigger] polys@[j]@.len() == n,
                r <= k,
                mask@.len() == r * n,
                forall|j: int| 0 <= j < r ==> #[trigger] vals(mask@).subrange(j * n, j * n + n) == vals(polys@[j]@),
            decreases k - r,
        {
            let mut t: usize = 0;
            proof {
                assert((r + 1) * n <= polys@.len() * n) by (nonlinear_arith)
                    requires
                        r < k,
                        k == polys@.len() - 1,
                ;
                assert(r * n + n == (r + 1) * n) by (nonlinear_arith);
            }
            while t < n
                invariant
                    0 <= r < polys@.len(),
                    polys@[r as int]@.len() == n,
                    (r + 1) * n <= usize::MAX,
                    r * n + n == (r + 1) * n,
                    t <= n,
                    mask@.len() == r * n + t,
                    forall|j: int| 0 <= j < r ==> #[trigger] vals(mask@).subrange(j * n, j * n + n) == vals(polys@[j]@),
                    vals(mask@).subrange(r * n, r * n + t) == vals(polys@[r as int]@).subrange(0, t as int),
                decreases n - t,
            {
                let ghost before = mask@;
                let x = polys[r][t];
                mask.push(x);
                proof {
                    lemma_vals_push(before, x);
                    assert forall|j: int| 0 <= j < r implies #[trigger] vals(mask@).subrange(j * n, j * n + n) == vals(polys@[j]@) by {
                        assert(j * n + n <= r * n) by (nonlinear_arith)
                            requires
                                j < r,
                        ;
                        assert(vals(mask@).subrange(j * n, j * n + n) =~= vals(before).subrange(j * n, j * n + n));
                    }
                    assert(vals(mask@).subrange(r * n, r * n + t + 1) =~= vals(polys@[r as int]@).subrange(0, t + 1));
                }
                t = t + 1;
            }
            proof {
                assert(vals(polys@[r as int]@).subrange(0, n as int) =~= vals(polys@[r as int]@));
            }
            r = r + 1;
        }
        let body = copy_of(&polys[k]);
        proof {
            assert((k + 1) * n == polys@.len() * n);
        }
        let r = GlweCiphertext { glwe_dimension: k, polynomial_size: n, mask, body };
        proof {
            assert forall|j: int| 0 <= j < polys@.len() implies #[trigger] r.poly_vals(j) == vals(polys@[j]@) by {
                if j < k {
                    assert(r.mask_vals() == vals(mask@));
                }
            }
        }
        r
    }

    /// A copy of the ciphertext.
    pub fn duplicate(&self) -> (r: GlweCiphertext<T>)
        ensures
            r.k() == self.k(),
            r.n() == self.n(),
            r.mask_vals() == self.mask_vals(),
            r.body_vals() == self.body_vals(),
    {
        proof {
            use_type_invariant(self);
        }
        let r = GlweCiphertext {
            glwe_dimension: self.glwe_dimension,
            polynomial_size: self.polynomial_size,
            mask: copy_of(&self.mask),
            body: copy_of(&self.body),
        };
        r
    }

    /// The plaintext polynomial carried by the ciphertext, noise included: its phase under
    /// `key`, coefficient by coefficient.
    pub fn decrypt(&self, key: &GlweSecretKey<T>) -> (r: PlaintextVector<T>)
        requires
            key.k() == self.k(),
            key.n() == self.n(),
        ensures
            r.vals().len() == self.n(),
            forall|i: int| 0 <= i < self.n() ==> #[trigger] r.vals()[i] == self.phase(key, i),
    {
        proof {
            use_type_invariant(self);
            use_type_invariant(key);
            T::lemma_modulus();
        }
        let n = self.polynomial_size;
        let mut out: Vec<T> = Vec::new();
        let mut i: usize = 0;
        while i < n
            invariant
                n == self.n() == key.n(),
                self.body@.len() == n,
                self.mask@.len() == key.data@.len() == self.k() * n,
                T::modulus() > 1,
                i <= n,
                out@.len() == i,
                forall|j: int| 0 <= j < i ==> #[trigger] vals(out@)[j] == self.phase(key, j),
            decreases n - i,
        {
            let d = mask_key_product_mod(&key.data, &self.mask, n, Ghost(self.k() as int), i);
            let v = self.body[i].wrapping_sub(d);
            proof {
                let b = self.body@[i as int].val();
                let p = mask_key_product(key.vals(), self.mask_vals(), n as int, i as int);
                self.body@[i as int].lemma_range();
                vstd::arithmetic::div_mod::lemma_small_mod(b as nat, T::modulus() as nat);
                vstd::arithmetic::div_mod::lemma_mod_twice(p, T::modulus());
                lemma_sub_mod_noop(b, p, T::modulus());
                assert(self.body_vals()[i as int] == b);
                lemma_vals_push(out@, v);
            }
            out.push(v);
            i = i + 1;
        }
        PlaintextVector::new(out)
    }

    /// Overwrites the ciphertext with an encryption of the polynomial `messages` under `key`:
    /// fresh mask polynomials drawn from the encryption generator, and the body
    /// `A.S + messages + errors`.
    pub(crate) fn encrypt(&mut self, key: &GlweSecretKey<T>, messages: &Vec<T>, errors: &Vec<i64>, offset: usize, generator: &mut EncryptionRandomGenerator)
        requires
            key.k() == old(self).k(),
            key.n() == old(self).n(),
            messages@.len() == old(self).n(),
            offset + old(self).n() <= errors@.len(),
        ensures
            final(self).k() == old(self).k(),
            final(self).n() == old(self).n(),
            final(self).encrypts(key, vals(messages@), ints(errors@.subrange(offset as int, offset + old(self).n()))),
    {
        proof {
            use_type_invariant(&*self);
            use_type_invariant(key);
            T::lemma_modulus();
        }
        let n = self.polynomial_size;
        let len = self.mask.len();
        let mut mask: Vec<T> = Vec::new();
        let mut f: usize = 0;
        while f < len
            invariant
                f <= len,
                mask@.len() == f,
            decreases len - f,
        {
            let a: T = generator.random_uniform();
            mask.push(a);
            f = f + 1;
        }
        let ghost es = ints(errors@.subrange(offset as int, offset + n));
        let total = errors.len();
        let mut body: Vec<T> = Vec::new();
        let mut i: usize = 0;
        while i < n
            invariant
                n == key.n(),
                mask@.len() == key.data@.len() == key.k() * n,
                messages@.len() == n,
                offset + n <= errors@.len(),
                total == errors@.len(),
                es == ints(errors@.subrange(offset as int, offset + n)),
                T::modulus() > 1,
                i <= n,
                body@.len() == i,
                forall|j: int| 0 <= j < i ==> #[trigger] vals(body@)[j] == (mask_key_product(key.vals(), vals(mask@), n as int, j) + vals(messages@)[j] + es[j]) % T::modulus(),
            decreases n - i,
        {
            let d = mask_key_product_mod(&key.data, &mask, n, Ghost(key.k() as int), i);
            let m = messages[i];
            let e = errors[offset + i];
            let err: T = encode_error(e);
            let v = d.wrapping_add(m).wrapping_add(err);
            proof {
                let q = T::modulus();
                let p = mask_key_product(key.vals(), vals(mask@), n as int, i as int);
                m.lemma_range();
                vstd::arithmetic::div_mod::lemma_small_mod(m.val() as nat, q as nat);
                lemma_mod_add_left(p, m.val(), q);
                lemma_add_mod_noop(p + m.val(), e as int, q);
                vstd::arithmetic::div_mod::lemma_mod_twice(p + m.val(), q);
                vstd::arithmetic::div_mod::lemma_mod_twice(e as int, q);
                assert(es[i as int] == e as int);
                assert(vals(messages@)[i as int] == m.val());
                lemma_vals_push(body@, v);
            }
            body.push(v);
            i = i + 1;
        }
        *self = GlweCiphertext { glwe_dimension: self.glwe_dimension, polynomial_size: n, mask, body };
    }

    /// Overwrites `output` with the lwe ciphertext that encrypts coefficient `nth` of the
    /// message, under the flattened key.
    pub(crate) fn extract_sample(&self, output: &mut LweCiphertext<T>, nth: usize)
        requires
            nth < self.n(),
            old(output).lwe_dim() == self.k() * self.n(),
        ensures
            final(output).lwe_dim() == self.k() * self.n(),
            final(output).is_sample_of(*self, nth as int),
    {
        proof {
            use_type_invariant(self);
            T::lemma_modulus();
        }
        let n = self.polynomial_size;
        let len = self.mask.len();
        let mut mask: Vec<T> = Vec::new();
        let mut f: usize = 0;
        while f < len
            invariant
                n == self.n(),
                nth < n,
                len == self.mask@.len() == self.k() * n,
                f <= len,
                mask@.len() == f,
                T::modulus() > 1,
                forall|g: int| 0 <= g < f ==> #[trigger] vals(mask@)[g] == extracted_coefficient(self.mask_vals(), n as int, nth as int, g) % T::modulus(),
            decreases len - f,
        {
            let j = f / n;
            let u = f % n;
            proof {
                lemma_flat_index(f as int, n as int, self.k() as int);
            }
            let base = j * n;
            let v = if u <= nth {
                let c = self.mask[base + nth - u];
                proof {
                    c.lemma_range();
                    vstd::arithmetic::div_mod::lemma_small_mod(c.val() as nat, T::modulus() as nat);
                }
                c
            } else {
                self.mask[base + (n - (u - nth))].wrapping_neg()
            };
            proof {
                lemma_vals_push(mask@, v);
            }
            mask.push(v);
            f = f + 1;
        }
        proof {
            self.body@[nth as int].lemma_range();
        }
        *output = LweCiphertext { mask, body: self.body[nth] };
    }
}

/// The polynomial `msg`: `msg` as constant coefficient, zero elsewhere, of `n` coefficients.
pub open spec fn constant_polynomial(n: nat, msg: int) -> Seq<int> {
    Seq::new(n, |i: int| if i == 0 { msg } else { 0 })
}

impl<T: Torus> GlweCiphertext<T> {
    /// The ciphertext is row `row` of a ggsw encryption of `msg` under `key`, with errors
    /// `e`: for the body row (`row == k`), an encryption of the constant polynomial `msg`; for
    /// a mask row, an encryption of zero whose mask polynomial `row` then got `msg` added to
    /// its constant coefficient.
    pub open spec fn is_ggsw_row(&self, key: &GlweSecretKey<T>, row: int, msg: int, e: Seq<int>) -> bool {
        if row == self.k() {
            self.encrypts(key, constant_polynomial(self.n(), msg), e)
        } else {
            let n = self.n() as int;
            let unshifted = self.mask_vals().update(row * n, (self.mask_vals()[row * n] - msg) % T::modulus());
            &&& self.k() == key.k()
            &&& self.n() == key.n()
            &&& forall|i: int| 0 <= i < n ==> #[trigger] self.body_vals()[i] == (mask_key_product(key.vals(), unshifted, n, i) + e[i]) % T::modulus()
        }
    }

    /// Overwrites the ciphertext with row `row` of a ggsw encryption of `msg` under `key`.
    pub(crate) fn encrypt_ggsw_row(&mut self, key: &GlweSecretKey<T>, row: usize, msg: T, errors: &Vec<i64>, offset: usize, generator: &mut EncryptionRandomGenerator)
        requires
            key.k() == old(self).k(),
            key.n() == old(self).n(),
            row <= old(self).k(),
            offset + old(self).n() <= errors@.len(),
        ensures
            final(self).k() == old(self).k(),
            final(self).n() == old(self).n(),
            final(self).is_ggsw_row(key, row as int, msg.val(), ints(errors@.subrange(offset as int, offset + old(self).n()))),
    {
        proof {
            use_type_invariant(&*self);
            T::lemma_modulus();
        }
        let n = self.polynomial_size;
        let k = self.glwe_dimension;
        let zero_ct: LweCiphertext<T> = LweCiphertext::zero(n);
        let zeros = zero_ct.mask;
        self.encrypt(key, &zeros, errors, offset, generator);
        let ghost es = ints(errors@.subrange(offset as int, offset + n));
        let ghost before = *self;
        proof {
            use_type_invariant(&*self);
        }
        if n == 0 {
            proof {
                assert(constant_polynomial(0, msg.val()) =~= vals(zeros@));
            }
            return;
        }
        let q = Ghost(T::modulus());
        if row == k {
            let mut body = copy_of(&self.body);
            let v = body[0].wrapping_add(msg);
            proof {
                crate::numeric::lemma_vals_update(body@, 0, v);
                assert(body@ == self.body@);
                let p = mask_key_product(key.vals(), self.mask_vals(), n as int, 0);
                assert(vals(zeros@)[0] == 0);
                lemma_mod_add_left(p + es[0], msg.val(), q@);
                msg.lemma_range();
                assert(p + 0 + es[0] + msg.val() == p + msg.val() + es[0]);
            }
            body.set(0, v);
            *self = GlweCiphertext { glwe_dimension: k, polynomial_size: n, mask: copy_of(&self.mask), body };
            proof {
                assert(self.mask_vals() == before.mask_vals());
                assert(self.body_vals() == before.body_vals().update(0, v.val()));
                assert forall|i: int| 0 <= i < n implies #[trigger] self.body_vals()[i] == (mask_key_product(key.vals(), self.mask_vals(), n as int, i) + constant_polynomial(n as nat, msg.val())[i] + es[i]) % q@ by {
                    assert(before.body_vals()[i] == (mask_key_product(key.vals(), before.mask_vals(), n as int, i) + vals(zeros@)[i] + es[i]) % q@);
                    assert(vals(zeros@)[i] == 0);
                    if i == 0 {
                        assert(before.body_vals()[0] == before.body@[0].val());
                    }
                }
            }
        } else {
            let mask_len = self.mask.len();
            proof {
                assert(row * n + n <= k * n) by (nonlinear_arith)
                    requires
                        row < k,
                ;
            }
            let at = row * n;
            let mut mask = copy_of(&self.mask);
            let old_value = mask[at];
            let v = old_value.wrapping_add(msg);
            proof {
                crate::numeric::lemma_vals_update(mask@, at as int, v);
                assert(mask@ == self.mask@);
                old_value.lemma_range();
                msg.lemma_range();
                // ((a + m) % q - m) % q == a
                lemma_mod_add_left(old_value.val() + msg.val(), -msg.val(), q@);
                vstd::arithmetic::div_mod::lemma_small_mod(old_value.val() as nat, q@ as nat);
                let new_mask = vals(mask@).update(at as int, v.val());
                assert(new_mask.update(at as int, (new_mask[at as int] - msg.val()) % q@) =~= vals(mask@));
                assert forall|i: int| 0 <= i < n implies #[trigger] self.body_vals()[i] == (mask_key_product(key.vals(), vals(mask@), n as int, i) + es[i]) % q@ by {
                    assert(vals(zeros@)[i] == 0);
                }
            }
            mask.set(at, v);
            let ghost shifted = vals(mask@);
            *self = GlweCiphertext { glwe_dimension: k, polynomial_size: n, mask, body: copy_of(&self.body) };
            proof {
                assert(self.body_vals() == before.body_vals());
                assert(self.mask_vals() == shifted);
                assert(shifted[at as int] == v.val());
                assert(self.mask_vals().update(row * n, (self.mask_vals()[row * n] - msg.val()) % q@) =~= before.mask_vals());
                assert forall|i: int| 0 <= i < n implies #[trigger] self.body_vals()[i] == (mask_key_product(key.vals(), before.mask_vals(), n as int, i) + es[i]) % q@ by {
                    assert(before.body_vals()[i] == (mask_key_product(key.vals(), before.mask_vals(), n as int, i) + vals(zeros@)[i] + es[i]) % q@);
                    assert(vals(zeros@)[i] == 0);
                }
            }
        }
    }
}

/// A vector of glwe ciphertexts that all have the same shape.
pub struct GlweCiphertextVector<T: Torus> {
    glwe_dimension: usize,
    polynomial_size: usize,
    ciphertexts: Vec<GlweCiphertext<T>>,
}

/// A glwe ciphertext vector in the cpu memory, in the standard domain, in 32 bits of precision.
pub type GlweCiphertextVector32 = GlweCiphertextVector<u32>;

/// A glwe ciphertext vector in the cpu memory, in the standard domain, in 64 bits of precision.
pub type GlweCiphertextVector64 = GlweCiphertextVector<u64>;

impl<T: Torus> GlweCiphertextVector<T> {
    #[verifier::type_invariant]
    spec fn same_shape(&self) -> bool {
        &&& (self.glwe_dimension + 1) * self.polynomial_size <= usize::MAX
        &&& forall|i: int| 0 <= i < self.ciphertexts@.len() ==> {
            &&& #[trigger] self.ciphertexts@[i].k() == self.glwe_dimension
            &&& self.ciphertexts@[i].n() == self.polynomial_size
        }
    }

    /// The ciphertexts of the vector.
    pub closed spec fn items(&self) -> Seq<GlweCiphertext<T>> {
        self.ciphertexts@
    }

    pub closed spec fn k(&self) -> nat {
        self.glwe_dimension as nat
    }

    pub closed spec fn n(&self) -> nat {
        self.polynomial_size as nat
    }

    /// `count` ciphertexts of `glwe_dimension` mask polynomials of `polynomial_size`
    /// coefficients, all zero.
    pub fn zero(glwe_dimension: usize, polynomial_size: usize, count: usize) -> (r: GlweCiphertextVector<T>)
        requires
            (glwe_dimension + 1) * polynomial_size <= usize::MAX,
        ensures
            r.k() == glwe_dimension,
            r.n() == polynomial_size,
            r.items().len() == count,
    {
        let mut ciphertexts: Vec<GlweCiphertext<T>> = Vec::new();
        let mut i: usize = 0;
        while i < count
            invariant
                i <= count,
                (glwe_dimension + 1) * polynomial_size <= usize::MAX,
                ciphertexts@.len() == i,
                forall|j: int| 0 <= j < i ==> {
                    &&& #[trigger] ciphertexts@[j].k() == glwe_dimension
                    &&& ciphertexts@[j].n() == polynomial_size
                },
            decreases count - i,
        {
            ciphertexts.push(GlweCiphertext::zero(glwe_dimension, polynomial_size));
            i = i + 1;
        }
        GlweCiphertextVector { glwe_dimension, polynomial_size, ciphertexts }
    }

    /// The `i`-th ciphertext.
    pub fn get(&self, i: usize) -> (r: &GlweCiphertext<T>)
        requires
            i < self.items().len(),
        ensures
            *r == self.items()[i as int],
            r.k() == self.k(),
            r.n() == self.n(),
    {
        proof {
            use_type_invariant(self);
        }
        &self.ciphertexts[i]
    }

    /// Overwrites the `i`-th ciphertext with an encryption under `key` of the `i`-th block of
    /// `n` messages, with the `i`-th block of `n` errors.
    pub(crate) fn encrypt(&mut self, key: &GlweSecretKey<T>, messages: &Vec<T>, errors: &Vec<i64>, generator: &mut EncryptionRandomGenerator)
        requires
            key.k() == old(self).k(),
            key.n() == old(self).n(),
            messages@.len() == old(self).items().len() * old(self).n(),
            errors@.len() >= messages@.len(),
        ensures
            final(self).k() == old(self).k(),
            final(self).n() == old(self).n(),
            final(self).items().len() == old(self).items().len(),
            forall|i: int| 0 <= i < old(self).items().len() ==> #[trigger] final(self).items()[i].encrypts(
                key,
                vals(messages@).subrange(i * old(self).n(), (i + 1) * old(self).n()),
                ints(errors@.subrange(i * old(self).n(), (i + 1) * old(self).n())),
            ),
    {
        proof {
            use_type_invariant(&*self);
        }
        let k = self.glwe_dimension;
        let n = self.polynomial_size;
        let count = self.ciphertexts.len();
        let total = messages.len();
        let mut ciphertexts: Vec<GlweCiphertext<T>> = Vec::new();
        let mut i: usize = 0;
        while i < count
            invariant
                total == messages@.len(),
                k == key.k(),
                n == key.n(),
                (k + 1) * n <= usize::MAX,
                messages@.len() == count * n,
                errors@.len() >= messages@.len(),
                i <= count,
                ciphertexts@.len() == i,
                forall|j: int| 0 <= j < i ==> {
                    &&& #[trigger] ciphertexts@[j].k() == k
                    &&& ciphertexts@[j].n() == n
                },
                forall|j: int| 0 <= j < i ==> #[trigger] ciphertexts@[j].encrypts(
                    key,
                    vals(messages@).subrange(j * n, (j + 1) * n),
                    ints(errors@.subrange(j * n, (j + 1) * n)),
                ),
            decreases count - i,
        {
            proof {
                assert((i + 1) * n <= count * n) by (nonlinear_arith)
                    requires
                        i < count,
                ;
                assert(i * n + n == (i + 1) * n) by (nonlinear_arith);
                assert(i * n <= (i + 1) * n) by (nonlinear_arith);
            }
            let start = i * n;
            let mut block: Vec<T> = Vec::new();
            let mut t: usize = 0;
            while t < n
                invariant
                    start + n <= messages@.len(),
                    total == messages@.len(),
                    t <= n,
                    block@ == messages@.subrange(start as int, start + t),
                decreases n - t,
            {
                block.push(messages[start + t]);
                t = t + 1;
            }
            let mut ct = GlweCiphertext::zero(k, n);
            ct.encrypt(key, &block, errors, start, generator);
            proof {
                assert(vals(block@) =~= vals(messages@).subrange(i * n, (i + 1) * n));
            }
            ciphertexts.push(ct);
            i = i + 1;
        }
        *self = GlweCiphertextVector { glwe_dimension: k, polynomial_size: n, ciphertexts };
    }
}

impl<T: Torus> AbstractEntity for GlweCiphertextVector<T> {
    type Kind = GlweCiphertextVectorKind;
    type Representation = T::Standard;
}

impl<T: Torus> GlweCiphertextVectorEntity for GlweCiphertextVector<T> {
    type KeyFlavor = BinaryKeyFlavor;

    open spec fn glwe_dim(&self) -> nat {
        self.k()
    }

    open spec fn poly_size(&self) -> nat {
        self.n()
    }

    open spec fn count(&self) -> nat {
        self.items().len()
    }

    fn glwe_dimension(&self) -> (r: GlweDimension) {
        GlweDimension(self.glwe_dimension)
    }

    fn polynomial_size(&self) -> (r: PolynomialSize) {
        PolynomialSize(self.polynomial_size)
    }

    fn glwe_ciphertext_count(&self) -> (r: GlweCiphertextCount) {
        GlweCiphertextCount(self.ciphertexts.len())
    }
}

/// Decrypting a glwe encryption of `m` with error `e` gives back `m + e`, coefficient by
/// coefficient.
pub proof fn lemma_glwe_round_trip<T: Torus>(key: GlweSecretKey<T>, ct: GlweCiphertext<T>, m: Seq<int>, e: Seq<int>, i: int)
    requires
        ct.encrypts(&key, m, e),
        0 <= i < ct.n(),
    ensures
        ct.phase(&key, i) == (m[i] + e[i]) % T::modulus(),
{
    let q = T::modulus();
    T::lemma_modulus();
    let d = mask_key_product(key.vals(), ct.mask_vals(), ct.n() as int, i);
    lemma_sub_mod_noop(d + m[i] + e[i], d, q);
    vstd::arithmetic::div_mod::lemma_mod_twice(d + m[i] + e[i], q);
    lemma_sub_mod_noop(ct.body_vals()[i], d, q);
    vstd::arithmetic::div_mod::lemma_mod_twice(d, q);
    assert(d + m[i] + e[i] - d == m[i] + e[i]);
}

/// Coefficient `f = j * n + u` of the mask of the lwe sample extracted at coefficient `nth`:
/// coefficient `nth - u` of `A_j`, or minus coefficient `n + nth - u` when `u > nth`.
pub open spec fn extracted_coefficient(mask: Seq<int>, n: int, nth: int, f: int) -> int {
    let j = f / n;
    let u = f % n;
    if u <= nth {
        mask[j * n + nth - u]
    } else {
        -mask[j * n + n + nth - u]
    }
}

impl<T: Torus> LweCiphertext<T> {
    /// The lwe ciphertext is the sample of `glwe` at coefficient `nth`.
    pub open spec fn is_sample_of(&self, glwe: GlweCiphertext<T>, nth: int) -> bool {
        &&& self.lwe_dim() == glwe.mask_vals().len()
        &&& forall|f: int| 0 <= f < self.lwe_dim() ==> #[trigger] self.mask_vals()[f] == extracted_coefficient(glwe.mask_vals(), glwe.n() as int, nth, f) % T::modulus()
        &&& self.body_val() == glwe.body_vals()[nth]
    }
}

impl<T: Torus> AbstractEntity for GlweCiphertext<T> {
    type Kind = GlweCiphertextKind;
    type Representation = T::Standard;
}

impl<T: Torus> GlweCiphertextEntity for GlweCiphertext<T> {
    type KeyFlavor = BinaryKeyFlavor;

    open spec fn glwe_dim(&self) -> nat {
        self.k()
    }

    open spec fn poly_size(&self) -> nat {
        self.n()
    }

    fn glwe_dimension(&self) -> (r: GlweDimension)
        ensures
            self.mask_vals().len() == self.k() * self.n(),
            self.body_vals().len() == self.n(),
    {
        proof {
            use_type_invariant(self);
        }
        GlweDimension(self.glwe_dimension)
    }

    fn polynomial_size(&self) -> (r: PolynomialSize) {
        PolynomialSize(self.polynomial_size)
    }
}

/// Inside block `j`, the extracted mask against the key and the rotated key against the mask
/// have the same sum: both are coefficient `m` of `A_j S_j`.
proof fn lemma_block_sums(mask: Seq<int>, key: Seq<int>, n: int, m: int, j: int)
    requires
        0 <= m < n,
        0 <= j,
        (j + 1) * n <= mask.len(),
        (j + 1) * n <= key.len(),
    ensures
        sum_to(|u: int| extracted_coefficient(mask, n, m, j * n + u) * key[j * n + u], n as nat)
            == sum_to(|u: int| rot(key, n, j * n + u, m) * mask[j * n + u], n as nat),
{
    let b = j * n;
    let ec = |u: int| if u <= m { mask[b + m - u] } else { -mask[b + n + m - u] };
    let rc = |t: int| if t <= m { key[b + m - t] } else { -key[b + n + m - t] };
    let fb = |u: int| ec(u) * key[b + u];
    let gb = |t: int| rc(t) * mask[b + t];
    assert forall|u: int| 0 <= u < n implies #[trigger] extracted_coefficient(mask, n, m, b + u) == ec(u) by {
        vstd::arithmetic::div_mod::lemma_fundamental_div_mod_converse(b + u, n, j, u);
    }
    assert forall|u: int| 0 <= u < n implies #[trigger] rot(key, n, b + u, m) == rc(u) by {
        vstd::arithmetic::div_mod::lemma_fundamental_div_mod_converse(b + u, n, j, u);
    }
    lemma_sum_congruent(|u: int| extracted_coefficient(mask, n, m, j * n + u) * key[j * n + u], fb, n as nat);
    lemma_sum_congruent(|u: int| rot(key, n, j * n + u, m) * mask[j * n + u], gb, n as nat);
    let low = (m + 1) as nat;
    let high = (n - m - 1) as nat;
    assert(low + high == n as nat);
    lemma_sum_split(fb, low, high);
    lemma_sum_split(gb, low, high);
    // the low parts are each other's reversal
    lemma_sum_reverse(fb, low);
    assert forall|i: int| 0 <= i < low implies #[trigger] fb(low - 1 - i) == gb(i) by {
        assert(ec(m - i) == mask[b + i]);
        assert(rc(i) == key[b + m - i]);
        assert(mask[b + i] * key[b + (m - i)] == key[b + m - i] * mask[b + i]) by (nonlinear_arith);
    }
    lemma_sum_congruent(|i: int| fb(low - 1 - i), gb, low);
    // so are the high parts
    let fh = |u: int| fb(low + u);
    let gh = |u: int| gb(low + u);
    lemma_sum_reverse(fh, high);
    assert forall|i: int| 0 <= i < high implies #[trigger] fh(high - 1 - i) == gh(i) by {
        let u = low + (high - 1 - i);
        let t = low + i;
        assert(u == n - 1 - i);
        assert(ec(u) == -mask[b + m + 1 + i]);
        assert(rc(t) == -key[b + n - 1 - i]);
        let x = mask[b + m + 1 + i];
        let y = key[b + n - 1 - i];
        assert((-x) * y == (-y) * x) by (nonlinear_arith);
    }
    lemma_sum_congruent(|i: int| fh(high - 1 - i), gh, high);
    lemma_sum_congruent(|u: int| fb(low + u), fh, high);
    lemma_sum_congruent(|u: int| gb(low + u), gh, high);
}

/// Over the first `j` blocks, the extracted mask against the key and the rotated key against
/// the mask have the same sum.
proof fn lemma_blocks_sums(mask: Seq<int>, key: Seq<int>, n: int, m: int, j: nat)
    requires
        0 <= m < n,
        j * n <= mask.len(),
        j * n <= key.len(),
    ensures
        sum_to(|f: int| extracted_coefficient(mask, n, m, f) * key[f], (j * n) as nat)
            == sum_to(|f: int| rot(key, n, f, m) * mask[f], (j * n) as nat),
    decreases j,
{
    let fe = |f: int| extracted_coefficient(mask, n, m, f) * key[f];
    let fr = |f: int| rot(key, n, f, m) * mask[f];
    if j > 0 {
        let p = (j - 1) as nat;
        assert(p * n + n == j * n) by (nonlinear_arith)
            requires
                p == j - 1,
        ;
        assert(p * n <= j * n) by (nonlinear_arith)
            requires
                p == j - 1,
                n > 0,
        ;
        lemma_blocks_sums(mask, key, n, m, p);
        lemma_sum_split(fe, (p * n) as nat, n as nat);
        lemma_sum_split(fr, (p * n) as nat, n as nat);
        lemma_block_sums(mask, key, n, m, p as int);
        lemma_sum_congruent(|u: int| fe(p * n + u), |u: int| extracted_coefficient(mask, n, m, p * n + u) * key[p * n + u], n as nat);
        lemma_sum_congruent(|u: int| fr(p * n + u), |u: int| rot(key, n, p * n + u, m) * mask[p * n + u], n as nat);
    } else {
        assert(j * n == 0);
    }
}

/// The lwe sample extracted at coefficient `nth` decrypts, under the flattened key, to
/// coefficient `nth` of the phase of the glwe ciphertext. The shape facts it requires are
/// given by `glwe_dimension()` on the ciphertext and on the key.
pub proof fn lemma_sample_extraction_phase<T: Torus>(glwe: GlweCiphertext<T>, key: GlweSecretKey<T>, lwe: LweCiphertext<T>, nth: int)
    requires
        key.k() == glwe.k(),
        key.n() == glwe.n(),
        glwe.mask_vals().len() == glwe.k() * glwe.n(),
        key.vals().len() == key.k() * key.n(),
        0 <= nth < glwe.n(),
        lwe.is_sample_of(glwe, nth),
    ensures
        lwe_phase(lwe.mask_vals(), lwe.body_val(), key.vals(), T::modulus()) == glwe.phase(&key, nth),
{
    let q = T::modulus();
    T::lemma_modulus();
    let n = glwe.n() as int;
    let len = glwe.mask_vals().len();
    let mask = glwe.mask_vals();
    let k = key.vals();
    let ext = Seq::new(len, |f: int| extracted_coefficient(mask, n, nth, f));
    lemma_dot_combination(ext, ext, lwe.mask_vals(), k, len, 1, 0, q);
    lemma_dot_is_sum(ext, k, len);
    lemma_sum_congruent(|i: int| ext[i] * k[i], |f: int| extracted_coefficient(mask, n, nth, f) * k[f], len);
    let rk = rotated(k, n, nth);
    lemma_dot_is_sum(rk, mask, len);
    lemma_sum_congruent(|i: int| rk[i] * mask[i], |f: int| rot(k, n, f, nth) * mask[f], len);
    lemma_blocks_sums(mask, k, n, nth, glwe.k());
    let x = dot(lwe.mask_vals(), k, len);
    let y = dot(rk, mask, len);
    assert(x % q == y % q);
    lemma_sub_mod_noop(lwe.body_val(), x, q);
    lemma_sub_mod_noop(lwe.body_val(), y, q);
}

} // verus!
