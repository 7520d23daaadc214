//! Lwe secret keys and ciphertexts: a ciphertext is a mask `a` and a body `b`, and its phase
//! under a key `s` is `b - <a, s>` modulo `2^w`.
use vstd::prelude::*;
use vstd::arithmetic::div_mod::{
    lemma_add_mod_noop, lemma_mul_mod_noop_right, lemma_sub_mod_noop,
};
use crate::encoding::{CleartextVector, Plaintext};
use crate::entities::{AbstractEntity, LweCiphertextEntity, LweCiphertextVectorEntity, LweSecretKeyEntity};
use crate::generators::{EncryptionRandomGenerator, SecretRandomGenerator};
use crate::markers::{BinaryKeyFlavor, LweCiphertextKind, LweCiphertextVectorKind, LweSecretKeyKind};
use crate::numeric::{dot, dot_mod, lemma_dot_combination, lemma_mod_add_left, vals, Torus};
use crate::parameters::{LweCiphertextCount, LweDimension};

verus! {

/// The phase `b - <a, s>` modulo `q` of an lwe ciphertext with mask `a` and body `b`.
pub open spec fn lwe_phase(mask: Seq<int>, body: int, key: Seq<int>, q: int) -> int {
    (body - dot(mask, key, mask.len())) % q
}

/// An error term, a signed integer, as a torus element.
pub(crate) fn encode_error<T: Torus>(error: i64) -> (r: T)
    ensures
        r.val() == (error as int) % T::modulus(),
{
    T::from_i64(error)
}

/// Every coefficient is 0 or 1.
pub open spec fn is_binary(s: Seq<int>) -> bool {
    forall|i: int| 0 <= i < s.len() ==> #[trigger] s[i] == 0 || s[i] == 1
}

/// An lwe secret key with binary coefficients.
pub struct LweSecretKey<T> {
    pub(crate) data: Vec<T>,
}

/// An lwe secret key in 32 bits of precision.
pub type LweSecretKey32 = LweSecretKey<u32>;

/// An lwe secret key in 64 bits of precision.
pub type LweSecretKey64 = LweSecretKey<u64>;

impl<T: Torus> LweSecretKey<T> {
    pub open(crate) spec fn vals(&self) -> Seq<int> {
        vals(self.data@)
    }

    /// The coefficients of the key.
    pub fn coefficients(&self) -> (r: &Vec<T>)
        ensures
            vals(r@) == self.vals(),
    {
        &self.data
    }

    /// Draws a binary key of `dimension` coefficients from the secret generator.
    pub(crate) fn generate(dimension: usize, generator: &mut SecretRandomGenerator) -> (r: LweSecretKey<T>)
        ensures
            r.vals().len() == dimension,
            is_binary(r.vals()),
    {
        let mut data: Vec<T> = Vec::new();
        let mut i: usize = 0;
        while i < dimension
            invariant
                i <= dimension,
                data@.len() == i,
                is_binary(vals(data@)),
            decreases dimension - i,
        {
            let bit: T = generator.random_bit();
            proof {
                crate::numeric::lemma_vals_push(data@, bit);
            }
            data.push(bit);
            i = i + 1;
        }
        LweSecretKey { data }
    }
}

impl<T: Torus> AbstractEntity for LweSecretKey<T> {
    type Kind = LweSecretKeyKind;
    type Representation = T::Standard;
}

impl<T: Torus> LweSecretKeyEntity for LweSecretKey<T> {
    type KeyFlavor = BinaryKeyFlavor;

    open spec fn lwe_dim(&self) -> nat {
        self.vals().len()
    }

    fn lwe_dimension(&self) -> (r: LweDimension) {
        LweDimension(self.data.len())
    }
}

/// An lwe ciphertext: a mask of `n` torus elements and a body.
pub struct LweCiphertext<T> {
    pub(crate) mask: Vec<T>,
    pub(crate) body: T,
}

/// An lwe ciphertext in the cpu memory, in the standard domain, in 32 bits of precision.
pub type LweCiphertext32 = LweCiphertext<u32>;

/// An lwe ciphertext in the cpu memory, in the standard domain, in 64 bits of precision.
pub type LweCiphertext64 = LweCiphertext<u64>;

impl<T: Torus> LweCiphertext<T> {
    pub open(crate) spec fn mask_vals(&self) -> Seq<int> {
        vals(self.mask@)
    }

    pub open(crate) spec fn body_val(&self) -> int {
        self.body.val()
    }

    /// The phase of the ciphertext under `key`.
    pub open spec fn phase(&self, key: &LweSecretKey<T>) -> int {
        lwe_phase(self.mask_vals(), self.body_val(), key.vals(), T::modulus())
    }

    /// The ciphertext encrypts `m` with error `e` under `key`: its body is `<a, s> + m + e`
    /// modulo `2^w`, whatever its mask.
    pub open spec fn encrypts(&self, key: &LweSecretKey<T>, m: int, e: int) -> bool {
        &&& self.lwe_dim() == key.lwe_dim()
        &&& self.body_val() == (dot(self.mask_vals(), key.vals(), key.lwe_dim()) + m + e) % T::modulus()
    }

    /// The ciphertext is `x * a + y * b`, coefficient by coefficient modulo `2^w`.
    pub open spec fn is_combination(&self, a: LweCiphertext<T>, b: LweCiphertext<T>, x: int, y: int) -> bool {
        &&& self.lwe_dim() == a.lwe_dim()
        &&& a.lwe_dim() == b.lwe_dim()
        &&& forall|j: int| 0 <= j < self.lwe_dim() ==> #[trigger] self.mask_vals()[j] == (x * a.mask_vals()[j] + y * b.mask_vals()[j]) % T::modulus()
        &&& self.body_val() == (x * a.body_val() + y * b.body_val()) % T::modulus()
    }

    /// The ciphertext is `a` with `p` added to its body.
    pub open spec fn is_shifted(&self, a: LweCiphertext<T>, p: int) -> bool {
        &&& self.mask_vals() == a.mask_vals()
        &&& self.body_val() == (a.body_val() + p) % T::modulus()
    }

    /// The ciphertext of dimension `dimension` whose coefficients are all zero.
    pub fn zero(dimension: usize) -> (r: LweCiphertext<T>)
        ensures
            r.mask_vals().len() == dimension,
            forall|i: int| 0 <= i < dimension ==> #[trigger] r.mask_vals()[i] == 0,
            r.body_val() == 0,
    {
        let mut mask: Vec<T> = Vec::new();
        let mut i: usize = 0;
        while i < dimension
            invariant
                i <= dimension,
                mask@.len() == i,
                forall|j: int| 0 <= j < i ==> #[trigger] vals(mask@)[j] == 0,
            decreases dimension - i,
        {
            let z = T::zero();
            proof {
                crate::numeric::lemma_vals_push(mask@, z);
            }
            mask.push(z);
            i = i + 1;
        }
        LweCiphertext { mask, body: T::zero() }
    }

    /// The mask of the ciphertext.
    pub fn mask(&self) -> (r: &Vec<T>)
        ensures
            vals(r@) == self.mask_vals(),
    {
        &self.mask
    }

    /// The body of the ciphertext.
    pub fn body(&self) -> (r: T)
        ensures
            r.val() == self.body_val(),
    {
        self.body
    }

    /// The plaintext carried by the ciphertext, noise included: its phase under `key`.
    pub fn decrypt(&self, key: &LweSecretKey<T>) -> (r: Plaintext<T>)
        requires
            key.lwe_dim() == self.lwe_dim(),
        ensures
            r.val() == self.phase(key),
    {
        let d = dot_mod(&self.mask, &key.data);
        proof {
            T::lemma_modulus();
            self.body.lemma_range();
            vstd::arithmetic::div_mod::lemma_small_mod(self.body_val() as nat, T::modulus() as nat);
            vstd::arithmetic::div_mod::lemma_mod_twice(dot(self.mask_vals(), key.vals(), self.mask_vals().len()), T::modulus());
            lemma_sub_mod_noop(self.body_val(), dot(self.mask_vals(), key.vals(), self.mask_vals().len()), T::modulus());
        }
        Plaintext::new(self.body.wrapping_sub(d))
    }

    /// Overwrites the ciphertext with an encryption of `message` under `key`: a fresh mask
    /// drawn from the encryption generator, and the body `<a, s> + message + error`.
    pub(crate) fn encrypt(&mut self, key: &LweSecretKey<T>, message: T, error: i64, generator: &mut EncryptionRandomGenerator)
        requires
            key.lwe_dim() == old(self).lwe_dim(),
        ensures
            final(self).encrypts(key, message.val(), error as int),
    {
        let error_term = encode_error::<T>(error);
        let n = self.mask.len();
        let mut mask: Vec<T> = Vec::new();
        let mut i: usize = 0;
        while i < n
            invariant
                i <= n,
                mask@.len() == i,
            decreases n - i,
        {
            let a: T = generator.random_uniform();
            mask.push(a);
            i = i + 1;
        }
        let d = dot_mod(&mask, &key.data);
        let body = d.wrapping_add(message).wrapping_add(error_term);
        proof {
            let q = T::modulus();
            T::lemma_modulus();
            let dd = dot(vals(mask@), key.vals(), n as nat);
            message.lemma_range();
            error_term.lemma_range();
            vstd::arithmetic::div_mod::lemma_small_mod(message.val() as nat, q as nat);
            vstd::arithmetic::div_mod::lemma_mod_twice(dd, q);
            lemma_add_mod_noop(dd, message.val(), q);
            vstd::arithmetic::div_mod::lemma_mod_twice(dd + message.val(), q);
            vstd::arithmetic::div_mod::lemma_mod_twice(error as int, q);
            lemma_add_mod_noop(dd + message.val(), error as int, q);
            assert(vals(mask@).len() == n);
        }
        self.mask = mask;
        self.body = body;
    }

    /// Adds `other` to the ciphertext, coefficient by coefficient.
    pub(crate) fn add_assign(&mut self, other: &LweCiphertext<T>)
        requires
            old(self).lwe_dim() == other.lwe_dim(),
        ensures
            final(self).is_combination(*old(self), *other, 1, 1),
    {
        let n = self.mask.len();
        let mut i: usize = 0;
        proof {
            T::lemma_modulus();
        }
        while i < n
            invariant
                i <= n == self.mask@.len() == other.mask@.len(),
                T::modulus() > 1,
                self.body == old(self).body,
                forall|j: int| 0 <= j < i ==> #[trigger] vals(self.mask@)[j] == (old(self).mask_vals()[j] + other.mask_vals()[j]) % T::modulus(),
                forall|j: int| i <= j < n ==> #[trigger] vals(self.mask@)[j] == old(self).mask_vals()[j],
            decreases n - i,
        {
            let v = self.mask[i].wrapping_add(other.mask[i]);
            proof {
                assert(vals(other.mask@)[i as int] == other.mask@[i as int].val());
                assert(vals(self.mask@)[i as int] == self.mask@[i as int].val());
                crate::numeric::lemma_vals_update(self.mask@, i as int, v);
            }
            self.mask.set(i, v);
            i = i + 1;
        }
        self.body = self.body.wrapping_add(other.body);
    }

    /// Negates every coefficient.
    pub(crate) fn neg_assign(&mut self)
        ensures
            final(self).is_combination(*old(self), *old(self), -1, 0),
    {
        let n = self.mask.len();
        let mut i: usize = 0;
        proof {
            T::lemma_modulus();
        }
        while i < n
            invariant
                i <= n == self.mask@.len(),
                T::modulus() > 1,
                self.body == old(self).body,
                forall|j: int| 0 <= j < i ==> #[trigger] vals(self.mask@)[j] == (-old(self).mask_vals()[j]) % T::modulus(),
                forall|j: int| i <= j < n ==> #[trigger] vals(self.mask@)[j] == old(self).mask_vals()[j],
            decreases n - i,
        {
            let v = self.mask[i].wrapping_neg();
            proof {
                assert(vals(self.mask@)[i as int] == self.mask@[i as int].val());
                crate::numeric::lemma_vals_update(self.mask@, i as int, v);
            }
            self.mask.set(i, v);
            i = i + 1;
        }
        self.body = self.body.wrapping_neg();
    }

    /// Multiplies every coefficient by `c`.
    pub(crate) fn scalar_mul_assign(&mut self, c: T)
        ensures
            final(self).is_combination(*old(self), *old(self), c.val(), 0),
    {
        let n = self.mask.len();
        let mut i: usize = 0;
        proof {
            T::lemma_modulus();
        }
        while i < n
            invariant
                i <= n == self.mask@.len(),
                T::modulus() > 1,
                self.body == old(self).body,
                forall|j: int| 0 <= j < i ==> #[trigger] vals(self.mask@)[j] == (c.val() * old(self).mask_vals()[j]) % T::modulus(),
                forall|j: int| i <= j < n ==> #[trigger] vals(self.mask@)[j] == old(self).mask_vals()[j],
            decreases n - i,
        {
            let v = c.wrapping_mul(self.mask[i]);
            proof {
                assert(vals(self.mask@)[i as int] == self.mask@[i as int].val());
                crate::numeric::lemma_vals_update(self.mask@, i as int, v);
            }
            self.mask.set(i, v);
            i = i + 1;
        }
        self.body = c.wrapping_mul(self.body);
    }

    /// Adds `p` to the body.
    pub(crate) fn add_to_body(&mut self, p: T)
        ensures
            final(self).is_shifted(*old(self), p.val()),
    {
        self.body = self.body.wrapping_add(p);
    }

    /// A copy of the ciphertext.
    pub fn duplicate(&self) -> (r: LweCiphertext<T>)
        ensures
            r.mask_vals() == self.mask_vals(),
            r.body_val() == self.body_val(),
    {
        let mut mask: Vec<T> = Vec::new();
        let mut i: usize = 0;
        while i < self.mask.len()
            invariant
                i <= self.mask@.len(),
                mask@ == self.mask@.subrange(0, i as int),
            decreases self.mask@.len() - i,
        {
            mask.push(self.mask[i]);
            i = i + 1;
        }
        assert(mask@ == self.mask@);
        LweCiphertext { mask, body: self.body }
    }
}

impl<T: Torus> AbstractEntity for LweCiphertext<T> {
    type Kind = LweCiphertextKind;
    type Representation = T::Standard;
}

impl<T: Torus> LweCiphertextEntity for LweCiphertext<T> {
    type KeyFlavor = BinaryKeyFlavor;

    open spec fn lwe_dim(&self) -> nat {
        self.mask_vals().len()
    }

    fn lwe_dimension(&self) -> (r: LweDimension) {
        LweDimension(self.mask.len())
    }
}

/// A vector of lwe ciphertexts that all have the same dimension.
pub struct LweCiphertextVector<T: Torus> {
    lwe_dimension: usize,
    ciphertexts: Vec<LweCiphertext<T>>,
}

/// An lwe ciphertext vector in the cpu memory, in the standard domain, in 32 bits of precision.
pub type LweCiphertextVector32 = LweCiphertextVector<u32>;

/// An lwe ciphertext vector in the cpu memory, in the standard domain, in 64 bits of precision.
pub type LweCiphertextVector64 = LweCiphertextVector<u64>;

impl<T: Torus> LweCiphertextVector<T> {
    #[verifier::type_invariant]
    spec fn same_dimension(&self) -> bool {
        forall|i: int| 0 <= i < self.ciphertexts@.len() ==> #[trigger] self.ciphertexts@[i].lwe_dim() == self.lwe_dimension
    }

    /// The ciphertexts of the vector.
    pub closed spec fn items(&self) -> Seq<LweCiphertext<T>> {
        self.ciphertexts@
    }

    pub closed spec fn dim(&self) -> nat {
        self.lwe_dimension as nat
    }

    /// `count` ciphertexts of dimension `dimension` whose coefficients are all zero.
    pub fn zero(dimension: usize, count: usize) -> (r: LweCiphertextVector<T>)
        ensures
            r.dim() == dimension,
            r.items().len() == count,
            forall|i: int, j: int| 0 <= i < count && 0 <= j < dimension ==> #[trigger] r.items()[i].mask_vals()[j] == 0,
            forall|i: int| 0 <= i < count ==> #[trigger] r.items()[i].body_val() == 0,
    {
        let mut ciphertexts: Vec<LweCiphertext<T>> = Vec::new();
        let mut i: usize = 0;
        while i < count
            invariant
                i <= count,
                ciphertexts@.len() == i,
                forall|k: int| 0 <= k < i ==> #[trigger] ciphertexts@[k].lwe_dim() == dimension,
                forall|k: int, j: int| 0 <= k < i && 0 <= j < dimension ==> #[trigger] ciphertexts@[k].mask_vals()[j] == 0,
                forall|k: int| 0 <= k < i ==> #[trigger] ciphertexts@[k].body_val() == 0,
            decreases count - i,
        {
            ciphertexts.push(LweCiphertext::zero(dimension));
            i = i + 1;
        }
        LweCiphertextVector { lwe_dimension: dimension, ciphertexts }
    }

    /// The vector holding `ciphertexts`, which must all have the dimension `dimension`.
    pub fn from_ciphertexts(dimension: LweDimension, ciphertexts: Vec<LweCiphertext<T>>) -> (r: Option<LweCiphertextVector<T>>)
        ensures
            r is Some <==> forall|i: int| 0 <= i < ciphertexts@.len() ==> #[trigger] ciphertexts@[i].lwe_dim() == dimension.0,
            r matches Some(v) ==> v.dim() == dimension.0 && v.items() == ciphertexts@,
    {
        let mut i: usize = 0;
        while i < ciphertexts.len()
            invariant
                i <= ciphertexts@.len(),
                forall|k: int| 0 <= k < i ==> #[trigger] ciphertexts@[k].lwe_dim() == dimension.0,
            decreases ciphertexts@.len() - i,
        {
            if ciphertexts[i].mask.len() != dimension.0 {
                assert(ciphertexts@[i as int].lwe_dim() != dimension.0);
                return None;
            }
            i = i + 1;
        }
        Some(LweCiphertextVector { lwe_dimension: dimension.0, ciphertexts })
    }

    /// The `i`-th ciphertext.
    pub fn get(&self, i: usize) -> (r: &LweCiphertext<T>)
        requires
            i < self.items().len(),
        ensures
            *r == self.items()[i as int],
            r.lwe_dim() == self.dim(),
    {
        proof {
            use_type_invariant(self);
        }
        &self.ciphertexts[i]
    }

    /// Overwrites the `i`-th ciphertext with an encryption of the `i`-th message under `key`,
    /// with the `i`-th error.
    pub(crate) fn encrypt(&mut self, key: &LweSecretKey<T>, messages: &Vec<T>, errors: &Vec<i64>, generator: &mut EncryptionRandomGenerator)
        requires
            key.lwe_dim() == old(self).dim(),
            messages@.len() == old(self).items().len(),
            errors@.len() >= messages@.len(),
        ensures
            final(self).dim() == old(self).dim(),
            final(self).items().len() == old(self).items().len(),
            forall|i: int| 0 <= i < messages@.len() ==> #[trigger] final(self).items()[i].encrypts(key, messages@[i].val(), errors@[i] as int),
    {
        let n = self.lwe_dimension;
        let count = self.ciphertexts.len();
        let mut ciphertexts: Vec<LweCiphertext<T>> = Vec::new();
        let mut i: usize = 0;
        while i < count
            invariant
                i <= count == messages@.len(),
                errors@.len() >= count,
                key.lwe_dim() == n,
                ciphertexts@.len() == i,
                forall|k: int| 0 <= k < i ==> #[trigger] ciphertexts@[k].lwe_dim() == n,
                forall|k: int| 0 <= k < i ==> #[trigger] ciphertexts@[k].encrypts(key, messages@[k].val(), errors@[k] as int),
            decreases count - i,
        {
            let mut ct = LweCiphertext::zero(n);
            ct.encrypt(key, messages[i], errors[i], generator);
            ciphertexts.push(ct);
            i = i + 1;
        }
        self.replace(ciphertexts);
    }

    /// Replaces the ciphertexts by ones of the same dimension.
    pub(crate) fn replace(&mut self, ciphertexts: Vec<LweCiphertext<T>>)
        requires
            ciphertexts@.len() == old(self).items().len(),
            forall|i: int| 0 <= i < ciphertexts@.len() ==> #[trigger] ciphertexts@[i].lwe_dim() == old(self).dim(),
        ensures
            final(self).dim() == old(self).dim(),
            final(self).items() == ciphertexts@,
    {
        *self = LweCiphertextVector { lwe_dimension: self.lwe_dimension, ciphertexts };
    }
}

impl<T: Torus> AbstractEntity for LweCiphertextVector<T> {
    type Kind = LweCiphertextVectorKind;
    type Representation = T::Standard;
}

impl<T: Torus> LweCiphertextVectorEntity for LweCiphertextVector<T> {
    type KeyFlavor = BinaryKeyFlavor;

    open spec fn lwe_dim(&self) -> nat {
        self.dim()
    }

    open spec fn count(&self) -> nat {
        self.items().len()
    }

    fn lwe_dimension(&self) -> (r: LweDimension) {
        LweDimension(self.lwe_dimension)
    }

    fn lwe_ciphertext_count(&self) -> (r: LweCiphertextCount) {
        LweCiphertextCount(self.ciphertexts.len())
    }
}

/// `w[0] * items[0].mask[j] + ... + w[k - 1] * items[k - 1].mask[j]`, over the integers.
pub open spec fn weighted_mask_sum<T: Torus>(items: Seq<LweCiphertext<T>>, w: Seq<int>, k: nat, j: int) -> int
    decreases k,
{
    if k == 0 {
        0
    } else {
        weighted_mask_sum(items, w, (k - 1) as nat, j) + w[k - 1] * items[k - 1].mask_vals()[j]
    }
}

/// `w[0] * items[0].body + ... + w[k - 1] * items[k - 1].body`, over the integers.
pub open spec fn weighted_body_sum<T: Torus>(items: Seq<LweCiphertext<T>>, w: Seq<int>, k: nat) -> int
    decreases k,
{
    if k == 0 {
        0
    } else {
        weighted_body_sum(items, w, (k - 1) as nat) + w[k - 1] * items[k - 1].body_val()
    }
}

/// `w[0] * phase(items[0]) + ... + w[k - 1] * phase(items[k - 1])`, over the integers.
pub open spec fn weighted_phase_sum<T: Torus>(items: Seq<LweCiphertext<T>>, w: Seq<int>, key: LweSecretKey<T>, k: nat) -> int
    decreases k,
{
    if k == 0 {
        0
    } else {
        weighted_phase_sum(items, w, key, (k - 1) as nat) + w[k - 1] * items[k - 1].phase(&key)
    }
}

impl<T: Torus> LweCiphertext<T> {
    /// The ciphertext holds `bias + w[0] * items[0] + ... + w[k - 1] * items[k - 1]`,
    /// coefficient by coefficient modulo `2^w`.
    pub open spec fn is_multisum(&self, items: Seq<LweCiphertext<T>>, w: Seq<int>, bias: int) -> bool {
        &&& forall|j: int| 0 <= j < self.lwe_dim() ==> #[trigger] self.mask_vals()[j] == weighted_mask_sum(items, w, items.len(), j) % T::modulus()
        &&& self.body_val() == (bias + weighted_body_sum(items, w, items.len())) % T::modulus()
    }

    /// Overwrites the ciphertext with `bias + sum_i weights[i] * inputs[i]`.
    pub(crate) fn fill_with_multisum(&mut self, inputs: &LweCiphertextVector<T>, weights: &CleartextVector<T>, bias: &Plaintext<T>)
        requires
            old(self).lwe_dim() == inputs.dim(),
            weights.vals().len() == inputs.items().len(),
        ensures
            final(self).lwe_dim() == old(self).lwe_dim(),
            final(self).is_multisum(inputs.items(), weights.vals(), bias.val()),
    {
        let n = self.mask.len();
        let count = weights.values.len();
        let ghost items = inputs.items();
        let ghost w = weights.vals();
        let mut acc = LweCiphertext::zero(n);
        acc.body = bias.value;
        let ghost q = T::modulus();
        proof {
            T::lemma_modulus();
            bias.value.lemma_range();
            vstd::arithmetic::div_mod::lemma_small_mod(bias.val() as nat, q as nat);
            assert forall|j: int| 0 <= j < n implies #[trigger] acc.mask_vals()[j] == weighted_mask_sum(items, w, 0, j) % q by {
                vstd::arithmetic::div_mod::lemma_small_mod(0, q as nat);
            }
        }
        let mut i: usize = 0;
        while i < count
            invariant
                i <= count == w.len() == items.len(),
                q == T::modulus(),
                q > 1,
                w == weights.vals(),
                items == inputs.items(),
                inputs.dim() == n,
                acc.lwe_dim() == n,
                forall|j: int| 0 <= j < n ==> #[trigger] acc.mask_vals()[j] == weighted_mask_sum(items, w, i as nat, j) % q,
                acc.body_val() == (bias.val() + weighted_body_sum(items, w, i as nat)) % q,
            decreases count - i,
        {
            let mut term = inputs.get(i).duplicate();
            let wi = weights.values[i];
            term.scalar_mul_assign(wi);
            acc.add_assign(&term);
            proof {
                assert(w[i as int] == wi.val());
                assert forall|j: int| 0 <= j < n implies #[trigger] acc.mask_vals()[j] == weighted_mask_sum(items, w, (i + 1) as nat, j) % q by {
                    let s = weighted_mask_sum(items, w, i as nat, j);
                    let m = wi.val() * items[i as int].mask_vals()[j];
                    lemma_add_mod_noop(s, m, q);
                    vstd::arithmetic::div_mod::lemma_mod_twice(s, q);
                    vstd::arithmetic::div_mod::lemma_mod_twice(m, q);
                }
                let sb = bias.val() + weighted_body_sum(items, w, i as nat);
                let mb = wi.val() * items[i as int].body_val();
                lemma_add_mod_noop(sb, mb, q);
                vstd::arithmetic::div_mod::lemma_mod_twice(sb, q);
                vstd::arithmetic::div_mod::lemma_mod_twice(mb, q);
                assert(sb + mb == bias.val() + weighted_body_sum(items, w, (i + 1) as nat));
            }
            i = i + 1;
        }
        *self = acc;
    }
}

/// The phase of `bias + sum_i w[i] * items[i]` is `bias + sum_i w[i] * phase(items[i])`
/// modulo `2^w`: a multisum decrypts to the same weighted sum of what its inputs decrypt to.
pub proof fn lemma_multisum_phase<T: Torus>(out: LweCiphertext<T>, items: Seq<LweCiphertext<T>>, w: Seq<int>, bias: int, key: LweSecretKey<T>)
    requires
        w.len() == items.len(),
        out.lwe_dim() == key.lwe_dim(),
        forall|i: int| 0 <= i < items.len() ==> #[trigger] items[i].lwe_dim() == key.lwe_dim(),
        out.is_multisum(items, w, bias),
    ensures
        out.phase(&key) == (bias + weighted_phase_sum(items, w, key, items.len())) % T::modulus(),
{
    T::lemma_modulus();
    lemma_multisum_phase_prefix(items, w, bias, key, items.len());
    let k = items.len();
    let n = key.lwe_dim();
    let q = T::modulus();
    assert(out.mask_vals() =~= Seq::new(n, |j: int| weighted_mask_sum(items, w, k, j) % q));
}

proof fn lemma_multisum_phase_prefix<T: Torus>(items: Seq<LweCiphertext<T>>, w: Seq<int>, bias: int, key: LweSecretKey<T>, k: nat)
    requires
        k <= w.len() == items.len(),
        forall|i: int| 0 <= i < items.len() ==> #[trigger] items[i].lwe_dim() == key.lwe_dim(),
    ensures
        lwe_phase(
            Seq::new(key.lwe_dim(), |j: int| weighted_mask_sum(items, w, k, j) % T::modulus()),
            (bias + weighted_body_sum(items, w, k)) % T::modulus(),
            key.vals(),
            T::modulus(),
        ) == (bias + weighted_phase_sum(items, w, key, k)) % T::modulus(),
    decreases k,
{
    let q = T::modulus();
    let n = key.lwe_dim();
    T::lemma_modulus();
    if k == 0 {
        let zero_mask = Seq::new(n, |j: int| weighted_mask_sum(items, w, 0, j) % q);
        assert forall|j: int| 0 <= j < n implies #[trigger] zero_mask[j] == 0 by {
            vstd::arithmetic::div_mod::lemma_small_mod(0, q as nat);
        }
        lemma_zero_dot(zero_mask, key.vals(), n);
        vstd::arithmetic::div_mod::lemma_mod_twice(bias, q);
    } else {
        let p = (k - 1) as nat;
        lemma_multisum_phase_prefix(items, w, bias, key, p);
        let a_mask = Seq::new(n, |j: int| weighted_mask_sum(items, w, p, j) % q);
        let a_body = (bias + weighted_body_sum(items, w, p)) % q;
        let it = items[p as int];
        assert(items[p as int].lwe_dim() == n);
        let c_mask = Seq::new(n, |j: int| weighted_mask_sum(items, w, k, j) % q);
        let c_body = (bias + weighted_body_sum(items, w, k)) % q;
        let x = w[p as int];
        assert forall|j: int| 0 <= j < c_mask.len() implies #[trigger] c_mask[j] == (1 * a_mask[j] + x * it.mask_vals()[j]) % q by {
            let s = weighted_mask_sum(items, w, p, j);
            lemma_mod_add_left(s, x * it.mask_vals()[j], q);
            assert(a_mask[j] == s % q);
            assert(1 * a_mask[j] == a_mask[j]);
        }
        let sb = bias + weighted_body_sum(items, w, p);
        lemma_mod_add_left(sb, x * it.body_val(), q);
        assert(sb + x * it.body_val() == bias + weighted_body_sum(items, w, k));
        assert(1 * a_body == a_body);
        assert(c_body == (1 * a_body + x * it.body_val()) % q);
        lemma_phase_combination(a_mask, a_body, it.mask_vals(), it.body_val(), c_mask, c_body, key.vals(), 1, x, q);
        let pa = (bias + weighted_phase_sum(items, w, key, p)) % q;
        let ph = it.phase(&key);
        // phase(c) == (pa + x * ph) % q == (bias + sum_{<k}) % q
        lemma_mod_add_left(bias + weighted_phase_sum(items, w, key, p), x * ph, q);
        assert(1 * pa == pa);
        assert(bias + weighted_phase_sum(items, w, key, p) + x * ph == bias + weighted_phase_sum(items, w, key, k));
    }
}

proof fn lemma_zero_dot(a: Seq<int>, s: Seq<int>, n: nat)
    requires
        n <= a.len(),
        forall|j: int| 0 <= j < n ==> #[trigger] a[j] == 0,
    ensures
        dot(a, s, n) == 0,
    decreases n,
{
    if n > 0 {
        lemma_zero_dot(a, s, (n - 1) as nat);
    }
}

/// Decrypting an encryption of `m` with error `e` gives back `m + e`: the phase of the
/// ciphertext under the key it was encrypted with.
pub proof fn lemma_lwe_round_trip<T: Torus>(key: LweSecretKey<T>, ct: LweCiphertext<T>, m: int, e: int)
    requires
        ct.encrypts(&key, m, e),
    ensures
        ct.phase(&key) == (m + e) % T::modulus(),
{
    let q = T::modulus();
    T::lemma_modulus();
    let d = dot(ct.mask_vals(), key.vals(), key.lwe_dim());
    lemma_sub_mod_noop(d + m + e, d, q);
    vstd::arithmetic::div_mod::lemma_mod_twice(d + m + e, q);
    lemma_sub_mod_noop(ct.body_val(), d, q);
    assert(d + m + e - d == m + e);
}

/// The phase of `x * a + y * b` under a key is `x * phase(a) + y * phase(b)`.
pub proof fn lemma_combination_phase<T: Torus>(c: LweCiphertext<T>, a: LweCiphertext<T>, b: LweCiphertext<T>, x: int, y: int, key: LweSecretKey<T>)
    requires
        c.is_combination(a, b, x, y),
        key.lwe_dim() == c.lwe_dim(),
    ensures
        c.phase(&key) == (x * a.phase(&key) + y * b.phase(&key)) % T::modulus(),
{
    T::lemma_modulus();
    lemma_phase_combination(a.mask_vals(), a.body_val(), b.mask_vals(), b.body_val(), c.mask_vals(), c.body_val(), key.vals(), x, y, T::modulus());
}

/// Adding two ciphertexts encrypted under one key gives an encryption of the sum of their
/// messages, whose error is the sum of their errors.
pub proof fn lemma_addition_round_trip<T: Torus>(key: LweSecretKey<T>, c1: LweCiphertext<T>, m1: int, e1: int, c2: LweCiphertext<T>, m2: int, e2: int, sum: LweCiphertext<T>)
    requires
        c1.encrypts(&key, m1, e1),
        c2.encrypts(&key, m2, e2),
        sum.is_combination(c1, c2, 1, 1),
    ensures
        sum.phase(&key) == (m1 + m2 + (e1 + e2)) % T::modulus(),
{
    let q = T::modulus();
    T::lemma_modulus();
    lemma_lwe_round_trip(key, c1, m1, e1);
    lemma_lwe_round_trip(key, c2, m2, e2);
    lemma_combination_phase(sum, c1, c2, 1, 1, key);
    lemma_add_mod_noop(m1 + e1, m2 + e2, q);
}

/// If `c = x * a + y * b` coefficient by coefficient modulo `q`, then the phase of `c` under
/// any key is `x * phase(a) + y * phase(b)` modulo `q`.
pub proof fn lemma_phase_combination(
    a_mask: Seq<int>,
    a_body: int,
    b_mask: Seq<int>,
    b_body: int,
    c_mask: Seq<int>,
    c_body: int,
    key: Seq<int>,
    x: int,
    y: int,
    q: int,
)
    requires
        q > 0,
        a_mask.len() == b_mask.len() == c_mask.len() == key.len(),
        forall|i: int| 0 <= i < c_mask.len() ==> #[trigger] c_mask[i] == (x * a_mask[i] + y * b_mask[i]) % q,
        c_body == (x * a_body + y * b_body) % q,
    ensures
        lwe_phase(c_mask, c_body, key, q) == (x * lwe_phase(a_mask, a_body, key, q) + y * lwe_phase(b_mask, b_body, key, q)) % q,
{
    let n = key.len();
    lemma_dot_combination(a_mask, b_mask, c_mask, key, n, x, y, q);
    let da = dot(a_mask, key, n);
    let db = dot(b_mask, key, n);
    let dc = dot(c_mask, key, n);
    let u = x * a_body + y * b_body;
    let v = x * da + y * db;
    // (c_body - dc) % q == (u - v) % q
    lemma_sub_mod_noop(c_body, dc, q);
    lemma_sub_mod_noop(u, v, q);
    vstd::arithmetic::div_mod::lemma_mod_twice(u, q);
    assert(c_body % q == u % q);
    assert((c_body - dc) % q == (u - v) % q);
    assert(u - v == x * (a_body - da) + y * (b_body - db)) by (nonlinear_arith)
        requires
            u == x * a_body + y * b_body,
            v == x * da + y * db,
    ;
    let pa = (a_body - da) % q;
    let pb = (b_body - db) % q;
    lemma_mul_mod_noop_right(x, a_body - da, q);
    lemma_mul_mod_noop_right(y, b_body - db, q);
    lemma_add_mod_noop(x * (a_body - da), y * (b_body - db), q);
    lemma_add_mod_noop(x * pa, y * pb, q);
    assert((x * pa + y * pb) % q == (u - v) % q);
}

} // verus!
