//! Unsigned integers seen as elements of the discrete torus `Z / 2^w Z`.
use vstd::prelude::*;
use vstd::arithmetic::power2::{lemma2_to64, lemma2_to64_rest, pow2};
use vstd::arithmetic::div_mod::{lemma_add_mod_noop, lemma_mul_mod_noop_left};
use crate::markers::{CpuFourier32, CpuFourier64, CpuStandard32, CpuStandard64, EntityRepresentationMarker};

verus! {

/// An unsigned integer type whose arithmetic wraps modulo `2^w`.
pub trait Torus: Copy + Sized {
    /// The representation of entities of this precision in the standard domain.
    type Standard: EntityRepresentationMarker;

    /// The representation of bootstrap keys of this precision, ready for multiplication.
    type Fourier: EntityRepresentationMarker;

    /// The modulus `2^w`.
    spec fn modulus() -> int;

    /// The precision `w`, in bits.
    spec fn bits() -> nat;

    /// The value of the integer, in `[0, 2^w)`.
    spec fn val(self) -> int;

    proof fn lemma_range(self)
        ensures
            0 <= self.val() < Self::modulus(),
    ;

    proof fn lemma_modulus()
        ensures
            Self::modulus() == pow2(Self::bits()) as int,
            Self::bits() == 32 || Self::bits() == 64,
            Self::modulus() >= 0x1_0000_0000,
    ;

    fn bit_count() -> (r: u32)
        ensures
            r == Self::bits(),
    ;

    fn zero() -> (r: Self)
        ensures
            r.val() == 0,
    ;

    fn wrapping_add(self, o: Self) -> (r: Self)
        ensures
            r.val() == (self.val() + o.val()) % Self::modulus(),
    ;

    fn wrapping_sub(self, o: Self) -> (r: Self)
        ensures
            r.val() == (self.val() - o.val()) % Self::modulus(),
    ;

    fn wrapping_mul(self, o: Self) -> (r: Self)
        ensures
            r.val() == (self.val() * o.val()) % Self::modulus(),
    ;

    fn wrapping_neg(self) -> (r: Self)
        ensures
            r.val() == (-self.val()) % Self::modulus(),
    ;

    fn from_u8(b: u8) -> (r: Self)
        ensures
            r.val() == b as int,
    ;

    /// A signed integer reduced modulo `2^w`.
    fn from_i64(x: i64) -> (r: Self)
        ensures
            r.val() == (x as int) % Self::modulus(),
    ;

    fn to_u128(self) -> (r: u128)
        ensures
            r as int == self.val(),
    ;

    /// An unsigned integer reduced modulo `2^w`.
    fn from_u128(x: u128) -> (r: Self)
        ensures
            r.val() == (x as int) % Self::modulus(),
    ;

    /// `2^e`, for an exponent below the precision.
    fn power_of_two(e: u32) -> (r: Self)
        requires
            e < Self::bits(),
        ensures
            r.val() == pow2(e as nat) as int,
    ;
}

impl Torus for u32 {
    type Standard = CpuStandard32;

    type Fourier = CpuFourier32;

    open spec fn modulus() -> int {
        0x1_0000_0000
    }

    open spec fn bits() -> nat {
        32
    }

    open spec fn val(self) -> int {
        self as int
    }

    proof fn lemma_range(self) {
    }

    proof fn lemma_modulus() {
        lemma_pow2_32();
    }

    fn bit_count() -> (r: u32) {
        32
    }

    fn zero() -> (r: u32) {
        0
    }

    fn wrapping_add(self, o: u32) -> (r: u32) {
        u32::wrapping_add(self, o)
    }

    fn wrapping_sub(self, o: u32) -> (r: u32) {
        u32::wrapping_sub(self, o)
    }

    fn wrapping_mul(self, o: u32) -> (r: u32) {
        u32::wrapping_mul(self, o)
    }

    fn wrapping_neg(self) -> (r: u32) {
        u32::wrapping_sub(0, self)
    }

    fn from_u8(b: u8) -> (r: u32) {
        b as u32
    }

    fn from_i64(x: i64) -> (r: u32) {
        let u = x as u64;
        proof {
            assert(u as int == (x as int) % 0x1_0000_0000_0000_0000int) by (bit_vector)
                requires
                    u == x as u64,
            ;
        }
        let r = u as u32;
        proof {
            assert(r as int == (u as int) % 0x1_0000_0000int) by (bit_vector)
                requires
                    r == u as u32,
            ;
            // (x mod 2^64) mod 2^32 == x mod 2^32
            vstd::arithmetic::div_mod::lemma_mod_mod(x as int, 0x1_0000_0000int, 0x1_0000_0000int);
        }
        r
    }

    fn to_u128(self) -> (r: u128) {
        self as u128
    }

    fn from_u128(x: u128) -> (r: u32) {
        let r = x as u32;
        proof {
            assert(r as int == (x as int) % 0x1_0000_0000int) by (bit_vector)
                requires
                    r == x as u32,
            ;
        }
        r
    }

    fn power_of_two(e: u32) -> (r: u32) {
        proof {
            lemma_pow2_shift32(e);
        }
        1u32 << e
    }
}

impl Torus for u64 {
    type Standard = CpuStandard64;

    type Fourier = CpuFourier64;

    open spec fn modulus() -> int {
        0x1_0000_0000_0000_0000
    }

    open spec fn bits() -> nat {
        64
    }

    open spec fn val(self) -> int {
        self as int
    }

    proof fn lemma_range(self) {
    }

    proof fn lemma_modulus() {
        lemma_pow2_64();
    }

    fn bit_count() -> (r: u32) {
        64
    }

    fn zero() -> (r: u64) {
        0
    }

    fn wrapping_add(self, o: u64) -> (r: u64) {
        u64::wrapping_add(self, o)
    }

    fn wrapping_sub(self, o: u64) -> (r: u64) {
        u64::wrapping_sub(self, o)
    }

    fn wrapping_mul(self, o: u64) -> (r: u64) {
        u64::wrapping_mul(self, o)
    }

    fn wrapping_neg(self) -> (r: u64) {
        u64::wrapping_sub(0, self)
    }

    fn from_u8(b: u8) -> (r: u64) {
        b as u64
    }

    fn from_i64(x: i64) -> (r: u64) {
        let u = x as u64;
        proof {
            assert(u as int == (x as int) % 0x1_0000_0000_0000_0000int) by (bit_vector)
                requires
                    u == x as u64,
            ;
        }
        u
    }

    fn to_u128(self) -> (r: u128) {
        self as u128
    }

    fn from_u128(x: u128) -> (r: u64) {
        let r = x as u64;
        proof {
            assert(r as int == (x as int) % 0x1_0000_0000_0000_0000int) by (bit_vector)
                requires
                    r == x as u64,
            ;
        }
        r
    }

    fn power_of_two(e: u32) -> (r: u64) {
        proof {
            lemma_pow2_shift64(e);
        }
        1u64 << e
    }
}

proof fn lemma_pow2_32()
    ensures
        pow2(32) == 0x1_0000_0000,
{
    lemma2_to64();
}

proof fn lemma_pow2_64()
    ensures
        pow2(64) == 0x1_0000_0000_0000_0000,
{
    lemma2_to64_rest();
}

proof fn lemma_pow2_shift32(e: u32)
    requires
        e < 32,
    ensures
        (1u32 << e) as int == pow2(e as nat),
{
    vstd::bits::lemma_u32_pow2_no_overflow(e as nat);
    vstd::bits::lemma_u32_shl_is_mul(1u32, e);
}

proof fn lemma_pow2_shift64(e: u32)
    requires
        e < 64,
    ensures
        (1u64 << e) as int == pow2(e as nat),
{
    vstd::bits::lemma_u64_pow2_no_overflow(e as nat);
    vstd::bits::lemma_u64_shl_is_mul(1u64, e as u64);
}

} // verus!

verus! {

/// The integer values of a sequence of torus elements.
pub open spec fn vals<T: Torus>(s: Seq<T>) -> Seq<int> {
    s.map_values(|x: T| x.val())
}

/// `a[0] * b[0] + ... + a[n - 1] * b[n - 1]`, over the integers.
pub open spec fn dot(a: Seq<int>, b: Seq<int>, n: nat) -> int
    decreases n,
{
    if n == 0 {
        0
    } else {
        dot(a, b, (n - 1) as nat) + a[n - 1] * b[n - 1]
    }
}

pub proof fn lemma_vals_push<T: Torus>(s: Seq<T>, x: T)
    ensures
        vals(s.push(x)) == vals(s).push(x.val()),
{
    assert(vals(s.push(x)) =~= vals(s).push(x.val()));
}

pub proof fn lemma_vals_update<T: Torus>(s: Seq<T>, i: int, x: T)
    requires
        0 <= i < s.len(),
    ensures
        vals(s.update(i, x)) == vals(s).update(i, x.val()),
{
    assert(vals(s.update(i, x)) =~= vals(s).update(i, x.val()));
}

/// A copy of a vector of plain values.
pub fn copy_of<T: Copy>(v: &Vec<T>) -> (r: Vec<T>)
    ensures
        r@ == v@,
{
    let mut r: Vec<T> = Vec::new();
    let mut i: usize = 0;
    while i < v.len()
        invariant
            i <= v@.len(),
            r@ == v@.subrange(0, i as int),
        decreases v@.len() - i,
    {
        r.push(v[i]);
        i = i + 1;
    }
    assert(r@ == v@);
    r
}

/// The inner product modulo `2^w` of two equally long torus vectors.
pub fn dot_mod<T: Torus>(a: &Vec<T>, b: &Vec<T>) -> (r: T)
    requires
        a@.len() == b@.len(),
    ensures
        r.val() == dot(vals(a@), vals(b@), a@.len()) % T::modulus(),
{
    let mut acc = T::zero();
    let mut i: usize = 0;
    proof {
        T::lemma_modulus();
        vstd::arithmetic::div_mod::lemma_small_mod(0, T::modulus() as nat);
    }
    while i < a.len()
        invariant
            i <= a@.len() == b@.len(),
            acc.val() == dot(vals(a@), vals(b@), i as nat) % T::modulus(),
            T::modulus() > 1,
        decreases a@.len() - i,
    {
        let p = a[i].wrapping_mul(b[i]);
        let next = acc.wrapping_add(p);
        proof {
            let q = T::modulus();
            let d = dot(vals(a@), vals(b@), i as nat);
            let m = a@[i as int].val() * b@[i as int].val();
            lemma_add_mod_noop(d, m, q);
            assert(dot(vals(a@), vals(b@), (i + 1) as nat) == d + vals(a@)[i as int] * vals(b@)[i as int]);
        }
        acc = next;
        i = i + 1;
    }
    acc
}

/// Reducing the left operand of a sum does not change the sum modulo `q`.
pub proof fn lemma_mod_add_left(a: int, b: int, q: int)
    requires
        q > 0,
    ensures
        ((a % q) + b) % q == (a + b) % q,
{
    lemma_add_mod_noop(a, b, q);
    lemma_add_mod_noop(a % q, b, q);
    vstd::arithmetic::div_mod::lemma_mod_twice(a, q);
}

/// A combination `c = x * a + y * b` taken coefficient-wise modulo `q` keeps its inner product
/// with any `s` equal, modulo `q`, to the same combination of the inner products.
pub proof fn lemma_dot_combination(a: Seq<int>, b: Seq<int>, c: Seq<int>, s: Seq<int>, n: nat, x: int, y: int, q: int)
    requires
        q > 0,
        n <= a.len(),
        n <= b.len(),
        n <= c.len(),
        n <= s.len(),
        forall|i: int| 0 <= i < n ==> #[trigger] c[i] == (x * a[i] + y * b[i]) % q,
    ensures
        dot(c, s, n) % q == (x * dot(a, s, n) + y * dot(b, s, n)) % q,
    decreases n,
{
    if n > 0 {
        let k = (n - 1) as nat;
        lemma_dot_combination(a, b, c, s, k, x, y, q);
        let dc = dot(c, s, k);
        let da = dot(a, s, k);
        let db = dot(b, s, k);
        let j = n - 1;
        // dot(c, s, n) = dc + c[j] * s[j], with c[j] = (x a[j] + y b[j]) % q
        lemma_mul_mod_noop_left(x * a[j] + y * b[j], s[j], q);
        lemma_add_mod_noop(dc, c[j] * s[j], q);
        lemma_add_mod_noop(x * da + y * db, (x * a[j] + y * b[j]) * s[j], q);
        assert((x * da + y * db) + (x * a[j] + y * b[j]) * s[j] == x * (da + a[j] * s[j]) + y * (db + b[j] * s[j])) by (nonlinear_arith);
    }
}

} // verus!
