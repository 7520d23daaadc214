//! Programmable bootstrapping: the blind rotation of an accumulator by the secret phase of an
//! lwe ciphertext, driven by a bootstrap key, followed by a sample extraction.
//!
//! Polynomials live in `Z_{2^w}[X] / (X^N + 1)`; their products are computed exactly, over the
//! integers modulo `2^w`.
use vstd::prelude::*;
use crate::bootstrap::{row_count, shape_fits, BootstrapKeyShape, GgswRows};
use crate::glwe::GlweCiphertext;
use crate::lwe::LweCiphertext;
use crate::entities::LweCiphertextEntity;
use crate::numeric::{copy_of, lemma_vals_push, lemma_vals_update, vals, Torus};
use crate::sums::sum_to;
use vstd::arithmetic::power2::pow2;
use vstd::arithmetic::div_mod::{lemma_add_mod_noop, lemma_mod_twice, lemma_small_mod, lemma_sub_mod_noop};

verus! {

/// `x`, or `-x` reduced modulo `q`.
pub open spec fn signed(negate: bool, x: int, q: int) -> int {
    if negate {
        (-x) % q
    } else {
        x
    }
}

/// Coefficient `t` of `X^(negate * N + r) * p` in `Z_q[X] / (X^N + 1)`.
pub open spec fn monomial_coefficient(p: Seq<int>, negate: bool, r: int, t: int, q: int) -> int {
    if t >= r {
        signed(negate, p[t - r], q)
    } else {
        signed(!negate, p[t + p.len() - r], q)
    }
}

/// The term `a_s X^s * b` contributes to coefficient `t` of `a * b` in `Z[X] / (X^N + 1)`.
pub open spec fn negacyclic_term(a: Seq<int>, b: Seq<int>, s: int, t: int) -> int {
    if t >= s {
        a[s] * b[t - s]
    } else {
        -(a[s] * b[t + b.len() - s])
    }
}

/// Coefficient `t` of `a * b` in `Z[X] / (X^N + 1)`.
pub open spec fn negacyclic_coefficient(a: Seq<int>, b: Seq<int>, t: int) -> int {
    sum_to(|s: int| negacyclic_term(a, b, s, t), a.len())
}

/// `X^(negate * N + r) * p`, for `r < N`.
fn monomial_mul<T: Torus>(p: &Vec<T>, negate: bool, r: usize) -> (o: Vec<T>)
    requires
        r < p@.len(),
    ensures
        o@.len() == p@.len(),
        forall|t: int| 0 <= t < p@.len() ==> #[trigger] vals(o@)[t] == monomial_coefficient(vals(p@), negate, r as int, t, T::modulus()),
{
    let n = p.len();
    let mut o: Vec<T> = Vec::new();
    let mut t: usize = 0;
    while t < n
        invariant
            n == p@.len(),
            r < n,
            t <= n,
            o@.len() == t,
            forall|g: int| 0 <= g < t ==> #[trigger] vals(o@)[g] == monomial_coefficient(vals(p@), negate, r as int, g, T::modulus()),
        decreases n - t,
    {
        let v = if t >= r {
            let c = p[t - r];
            if negate { c.wrapping_neg() } else { c }
        } else {
            let c = p[t + (n - r)];
            if negate { c } else { c.wrapping_neg() }
        };
        proof {
            lemma_vals_push(o@, v);
        }
        o.push(v);
        t = t + 1;
    }
    o
}

/// `acc + a * b` in `Z_{2^w}[X] / (X^N + 1)`.
fn mul_add<T: Torus>(acc: &mut Vec<T>, a: &Vec<T>, b: &Vec<T>)
    requires
        old(acc)@.len() == a@.len(),
        a@.len() == b@.len(),
    ensures
        final(acc)@.len() == old(acc)@.len(),
        forall|t: int| 0 <= t < a@.len() ==> #[trigger] vals(final(acc)@)[t] == (vals(old(acc)@)[t] + negacyclic_coefficient(vals(a@), vals(b@), t)) % T::modulus(),
{
    let n = a.len();
    let ghost q = T::modulus();
    let ghost av = vals(a@);
    let ghost bv = vals(b@);
    let ghost start = vals(acc@);
    proof {
        T::lemma_modulus();
        assert forall|t: int| 0 <= t < n implies #[trigger] vals(acc@)[t] == (start[t] + sum_to(|s: int| negacyclic_term(av, bv, s, t), 0)) % q by {
            acc@[t].lemma_range();
            lemma_small_mod(start[t] as nat, q as nat);
        }
    }
    let mut s: usize = 0;
    while s < n
        invariant
            n == a@.len() == b@.len() == acc@.len(),
            q == T::modulus(),
            q > 1,
            av == vals(a@),
            bv == vals(b@),
            start.len() == n,
            s <= n,
            forall|t: int| 0 <= t < n ==> #[trigger] vals(acc@)[t] == (start[t] + sum_to(|g: int| negacyclic_term(av, bv, g, t), s as nat)) % q,
        decreases n - s,
    {
        let mut t: usize = 0;
        while t < n
            invariant
                n == a@.len() == b@.len() == acc@.len(),
                q == T::modulus(),
                q > 1,
                av == vals(a@),
                bv == vals(b@),
                start.len() == n,
                s < n,
                t <= n,
                forall|g: int| 0 <= g < t ==> #[trigger] vals(acc@)[g] == (start[g] + sum_to(|h: int| negacyclic_term(av, bv, h, g), (s + 1) as nat)) % q,
                forall|g: int| t <= g < n ==> #[trigger] vals(acc@)[g] == (start[g] + sum_to(|h: int| negacyclic_term(av, bv, h, g), s as nat)) % q,
            decreases n - t,
        {
            let ghost prev = sum_to(|h: int| negacyclic_term(av, bv, h, t as int), s as nat);
            let ghost term = negacyclic_term(av, bv, s as int, t as int);
            assert(sum_to(|h: int| negacyclic_term(av, bv, h, t as int), (s + 1) as nat) == prev + term);
            assert(vals(acc@)[t as int] == acc@[t as int].val());
            if t >= s {
                let product = a[s].wrapping_mul(b[t - s]);
                let v = acc[t].wrapping_add(product);
                proof {
                    assert(av[s as int] == a@[s as int].val());
                    assert(bv[t - s] == b@[t - s].val());
                    lemma_add_mod_noop(start[t as int] + prev, term, q);
                    lemma_mod_twice(start[t as int] + prev, q);
                    lemma_mod_twice(term, q);
                    lemma_vals_update(acc@, t as int, v);
                }
                acc.set(t, v);
            } else {
                let product = a[s].wrapping_mul(b[t + (n - s)]);
                let v = acc[t].wrapping_sub(product);
                proof {
                    assert(av[s as int] == a@[s as int].val());
                    assert(bv[t + (n - s)] == b@[t + (n - s)].val());
                    let pr = av[s as int] * bv[t + (n - s)];
                    lemma_sub_mod_noop(start[t as int] + prev, pr, q);
                    lemma_mod_twice(start[t as int] + prev, q);
                    lemma_mod_twice(pr, q);
                    assert(start[t as int] + prev - pr == start[t as int] + prev + term);
                    lemma_vals_update(acc@, t as int, v);
                }
                acc.set(t, v);
            }
            t = t + 1;
        }
        s = s + 1;
    }
}

/// `a + b`, or `a - b`, coefficient by coefficient.
fn add_sub<T: Torus>(a: &Vec<T>, b: &Vec<T>, subtract: bool) -> (o: Vec<T>)
    requires
        a@.len() == b@.len(),
    ensures
        o@.len() == a@.len(),
        forall|t: int| 0 <= t < a@.len() ==> #[trigger] vals(o@)[t] == (if subtract { vals(a@)[t] - vals(b@)[t] } else { vals(a@)[t] + vals(b@)[t] }) % T::modulus(),
{
    let mut o: Vec<T> = Vec::new();
    let mut t: usize = 0;
    while t < a.len()
        invariant
            a@.len() == b@.len(),
            t <= a@.len(),
            o@.len() == t,
            forall|g: int| 0 <= g < t ==> #[trigger] vals(o@)[g] == (if subtract { vals(a@)[g] - vals(b@)[g] } else { vals(a@)[g] + vals(b@)[g] }) % T::modulus(),
        decreases a@.len() - t,
    {
        let v = if subtract { a[t].wrapping_sub(b[t]) } else { a[t].wrapping_add(b[t]) };
        proof {
            lemma_vals_push(o@, v);
        }
        o.push(v);
        t = t + 1;
    }
    o
}

/// The signed digits of `v` in base `base`, least significant first, over `count` digits:
/// each digit is `v % base`, taken minus `base` when it reaches `base / 2`, in which case one
/// carries into the next digit.
pub open spec fn signed_digits(v: int, base: int, count: nat) -> Seq<int>
    decreases count,
{
    if count == 0 {
        seq![]
    } else if v % base >= base / 2 {
        seq![v % base - base] + signed_digits(v / base + 1, base, (count - 1) as nat)
    } else {
        seq![v % base] + signed_digits(v / base, base, (count - 1) as nat)
    }
}

proof fn lemma_signed_digits_len(v: int, base: int, count: nat)
    ensures
        signed_digits(v, base, count).len() == count,
    decreases count,
{
    if count > 0 {
        if v % base >= base / 2 {
            lemma_signed_digits_len(v / base + 1, base, (count - 1) as nat);
        } else {
            lemma_signed_digits_len(v / base, base, (count - 1) as nat);
        }
    }
}

/// The number of levels a decomposition of base `2^base_log` can use in `bits` bits.
pub open spec fn used_levels(bits: nat, base_log: nat, levels: nat) -> nat {
    if levels < bits / base_log {
        levels
    } else {
        bits / base_log
    }
}

/// `c` rounded to a multiple of `2^shift`, divided by `2^shift`.
pub open spec fn rounded(c: int, shift: nat) -> int {
    if shift > 0 {
        (c + pow2((shift - 1) as nat) as int) / pow2(shift) as int
    } else {
        c
    }
}

/// The signed gadget decomposition of `c` in base `2^base_log` over `levels` levels, in a
/// torus of `bits` bits: entry `l` is the digit of level `l + 1`, whose factor is
/// `2^(bits - (l + 1) * base_log)`. `c` is first rounded to the precision of the levels that
/// fit in `bits`; the levels past it get zero digits.
pub open spec fn decomposition(c: int, bits: nat, base_log: nat, levels: nat) -> Seq<int> {
    if base_log == 0 || base_log > bits {
        Seq::new(levels, |l: int| 0)
    } else {
        let used = used_levels(bits, base_log, levels);
        let digits = signed_digits(rounded(c, (bits - used * base_log) as nat), pow2(base_log) as int, used);
        Seq::new(levels, |l: int| if l < used { digits[used - 1 - l] } else { 0 })
    }
}

/// `2^e` as a 128 bits integer, for `e <= 64`.
fn power_of_two_wide(e: usize) -> (r: u128)
    requires
        e <= 64,
    ensures
        r == pow2(e as nat),
        r <= 0x1_0000_0000_0000_0000u128,
{
    let mut r: u128 = 1;
    let mut i: usize = 0;
    proof {
        vstd::arithmetic::power2::lemma2_to64();
    }
    while i < e
        invariant
            i <= e <= 64,
            r == pow2(i as nat),
        decreases e - i,
    {
        proof {
            vstd::arithmetic::power2::lemma_pow2_unfold((i + 1) as nat);
            vstd::arithmetic::power2::lemma_pow2_strictly_increases(i as nat, 64);
            vstd::arithmetic::power2::lemma2_to64_rest();
        }
        r = r * 2;
        i = i + 1;
    }
    proof {
        if e < 64 {
            vstd::arithmetic::power2::lemma_pow2_strictly_increases(e as nat, 64);
        }
        vstd::arithmetic::power2::lemma2_to64_rest();
    }
    r
}

/// The signed gadget decomposition of `c` in base `2^base_log` over `levels` levels: digit
/// `l` belongs to level `l + 1`, and lies in `[-2^base_log / 2, 2^base_log / 2)`.
fn decompose<T: Torus>(c: T, base_log: usize, levels: usize) -> (d: Vec<T>)
    ensures
        d@.len() == levels,
        forall|l: int| 0 <= l < levels ==> #[trigger] vals(d@)[l] == decomposition(c.val(), T::bits(), base_log as nat, levels as nat)[l] % T::modulus(),
{
    let ghost q = T::modulus();
    let mut d: Vec<T> = Vec::new();
    let mut l: usize = 0;
    proof {
        T::lemma_modulus();
        lemma_small_mod(0, q as nat);
    }
    while l < levels
        invariant
            l <= levels,
            d@.len() == l,
            q == T::modulus(),
            q > 1,
            forall|g: int| 0 <= g < l ==> #[trigger] vals(d@)[g] == 0,
        decreases levels - l,
    {
        let z = T::zero();
        proof {
            lemma_vals_push(d@, z);
        }
        d.push(z);
        l = l + 1;
    }
    let bits = T::bit_count() as usize;
    if base_log == 0 || base_log > bits {
        return d;
    }
    let max_levels = bits / base_log;
    let used = if levels < max_levels { levels } else { max_levels };
    proof {
        vstd::arithmetic::div_mod::lemma_div_pos_is_pos(bits as int, base_log as int);
        vstd::arithmetic::div_mod::lemma_fundamental_div_mod(bits as int, base_log as int);
        vstd::arithmetic::div_mod::lemma_mod_pos_bound(bits as int, base_log as int);
        assert(used * base_log <= max_levels * base_log) by (nonlinear_arith)
            requires
                used <= max_levels,
        ;
        assert(max_levels * base_log <= bits) by (nonlinear_arith)
            requires
                bits == base_log * max_levels + bits % base_log,
                bits % base_log >= 0,
        ;
        assert(used == used_levels(T::bits(), base_log as nat, levels as nat));
    }
    let total = used * base_log;
    let shift = bits - total;
    let x: u128 = c.to_u128();
    proof {
        c.lemma_range();
        assert(T::modulus() <= 0x1_0000_0000_0000_0000) by {
            if T::bits() == 32 {
                vstd::arithmetic::power2::lemma2_to64();
            } else {
                vstd::arithmetic::power2::lemma2_to64_rest();
            }
        }
    }
    let mut v: u128 = if shift > 0 {
        let half = power_of_two_wide(shift - 1);
        let div = power_of_two_wide(shift);
        proof {
            vstd::arithmetic::power2::lemma_pow2_pos(shift as nat);
            vstd::arithmetic::power2::lemma_pow2_strictly_increases((shift - 1) as nat, 64);
            vstd::arithmetic::power2::lemma2_to64_rest();
            vstd::arithmetic::div_mod::lemma_div_is_ordered_by_denominator((x + half) as int, 1, div as int);
            assert(half == pow2((shift - 1) as nat));
            assert(div == pow2(shift as nat));
        }
        let rounded_value = (x + half) / div;
        proof {
            assert(rounded_value as int == (c.val() + pow2((shift - 1) as nat) as int) / pow2(shift as nat) as int);
            assert(rounded_value as int == rounded(c.val(), shift as nat));
        }
        rounded_value
    } else {
        proof {
            assert(x as int == rounded(c.val(), shift as nat));
        }
        x
    };
    proof {
        assert(v as int == rounded(c.val(), shift as nat));
    }
    let base = power_of_two_wide(base_log);
    proof {
        vstd::arithmetic::power2::lemma_pow2_strictly_increases(0, base_log as nat);
        vstd::arithmetic::power2::lemma2_to64();
    }
    let ghost v0 = v as int;
    let ghost digits = signed_digits(v0, base as int, used as nat);
    proof {
        lemma_signed_digits_len(v0, base as int, used as nat);
        assert(digits.subrange(0, used as int) =~= digits);
    }
    let mut level = used;
    while level > 0
        invariant
            level <= used <= levels,
            d@.len() == levels,
            q == T::modulus(),
            q > 1,
            v <= 0x1_8000_0000_0000_0000u128,
            2 <= base <= 0x1_0000_0000_0000_0000u128,
            digits == signed_digits(v0, base as int, used as nat),
            digits.len() == used,
            signed_digits(v as int, base as int, level as nat) == digits.subrange((used - level) as int, used as int),
            forall|g: int| 0 <= g < levels ==> #[trigger] vals(d@)[g] == if level <= g < used { digits[used - 1 - g] % q } else { 0 },
        decreases level,
    {
        let digit = v % base;
        let next = v / base;
        proof {
            vstd::arithmetic::div_mod::lemma_div_is_ordered_by_denominator(v as int, 2, base as int);
            vstd::arithmetic::div_mod::lemma_mod_pos_bound(v as int, base as int);
            let rest = signed_digits(v as int, base as int, level as nat);
            lemma_signed_digits_len(v as int, base as int, level as nat);
            assert(rest[0] == digits[(used - level) as int]);
            assert(rest.subrange(1, level as int) =~= digits.subrange((used - level + 1) as int, used as int));
        }
        let value = if digit >= base / 2 {
            let value = T::from_u128(digit).wrapping_sub(T::from_u128(base));
            proof {
                lemma_sub_mod_noop(digit as int, base as int, q);
            }
            v = next + 1;
            value
        } else {
            v = next;
            T::from_u128(digit)
        };
        proof {
            lemma_vals_update(d@, (level - 1) as int, value);
        }
        d.set(level - 1, value);
        level = level - 1;
    }
    proof {
        assert forall|l: int| 0 <= l < levels implies #[trigger] vals(d@)[l] == decomposition(c.val(), T::bits(), base_log as nat, levels as nat)[l] % q by {
            if l >= used {
                lemma_small_mod(0, q as nat);
            }
        }
    }
    d
}

/// The index of the row of `rows` for lwe coefficient `i`, glwe row `r` and level `l + 1`.
fn row_index<T: Torus>(rows: &GgswRows<T>, i: usize, r: usize, l: usize) -> (e: usize)
    requires
        i < rows.shape().input_lwe_dimension,
        r <= rows.shape().glwe_dimension,
        l < rows.shape().level_count,
        shape_fits(rows.shape()),
    ensures
        e < row_count(rows.shape()),
        e == row_of_index(rows.shape(), i as int, r as int, l as int),
{
    let s = rows.get_shape();
    proof {
        assert(s.glwe_dimension + 1 <= (s.glwe_dimension + 1) * s.level_count) by (nonlinear_arith)
            requires
                s.level_count >= 1,
        ;
    }
    let k1 = s.glwe_dimension + 1;
    let levels = s.level_count;
    proof {
        assert(i * k1 + r < s.input_lwe_dimension * k1) by (nonlinear_arith)
            requires
                0 <= i < s.input_lwe_dimension,
                0 <= r < k1,
        ;
        assert((i * k1 + r) * levels + l < s.input_lwe_dimension * k1 * levels) by (nonlinear_arith)
            requires
                i * k1 + r < s.input_lwe_dimension * k1,
                0 <= l < levels,
                i * k1 + r >= 0,
        ;
        assert(s.input_lwe_dimension * k1 * levels == s.input_lwe_dimension * (k1 * levels)) by (nonlinear_arith);
        assert(i * k1 + r <= (i * k1 + r) * levels) by (nonlinear_arith)
            requires
                levels >= 1,
        ;
        assert(i * k1 <= i * k1 + r);
    }
    (i * k1 + r) * levels + l
}

/// The row of a bootstrap key of shape `s` for lwe coefficient `i`, glwe row `r` and level
/// `l + 1`.
pub open spec fn row_of_index(s: BootstrapKeyShape, i: int, r: int, l: int) -> int {
    (i * (s.glwe_dimension + 1) + r) * s.level_count + l
}

/// The integer values of a list of polynomials.
pub open spec fn polys_vals<T: Torus>(c: Seq<Vec<T>>) -> Seq<Seq<int>> {
    Seq::new(c.len(), |j: int| vals(c[j]@))
}

/// The digits of level `l + 1` of the coefficients of `c`, as a polynomial modulo `2^w`.
pub open spec fn digit_polynomial<T: Torus>(c: Seq<int>, base_log: nat, levels: nat, l: int) -> Seq<int> {
    Seq::new(c.len(), |t: int| decomposition(c[t], T::bits(), base_log, levels)[l] % T::modulus())
}

/// Polynomial `j` of the external product of the ggsw encryption of lwe coefficient `i` in
/// `rows` with the polynomials `c`, summed over its first `idx` (glwe row, level) pairs, glwe
/// row major: the digits of level `l + 1` of polynomial `r` times polynomial `j` of row
/// `(r, l)`.
pub open spec fn external_product_partial<T: Torus>(rows: GgswRows<T>, i: int, c: Seq<Seq<int>>, idx: nat, j: int) -> Seq<int>
    decreases idx,
{
    let s = rows.shape();
    let n = s.polynomial_size as nat;
    let levels = s.level_count as int;
    if idx == 0 || levels == 0 {
        Seq::new(n, |t: int| 0int)
    } else {
        let p = (idx - 1) as nat;
        let r = (p as int) / levels;
        let l = (p as int) % levels;
        let prev = external_product_partial(rows, i, c, p, j);
        let d = digit_polynomial::<T>(c[r], s.base_log as nat, s.level_count as nat, l);
        let row = rows.items()[row_of_index(s, i, r, l)].poly_vals(j);
        Seq::new(n, |t: int| (prev[t] + negacyclic_coefficient(d, row, t)) % T::modulus())
    }
}

/// Polynomial `j` of the external product of the ggsw encryption of lwe coefficient `i` in
/// `rows` with the glwe ciphertext whose polynomials are `c`.
pub open spec fn external_product_poly<T: Torus>(rows: GgswRows<T>, i: int, c: Seq<Seq<int>>, j: int) -> Seq<int> {
    external_product_partial(rows, i, c, ((rows.shape().glwe_dimension + 1) * rows.shape().level_count) as nat, j)
}

/// `k + 1` zero polynomials of `n` coefficients.
fn zero_polynomials<T: Torus>(k1: usize, n: usize) -> (o: Vec<Vec<T>>)
    ensures
        o@.len() == k1,
        forall|j: int| 0 <= j < k1 ==> #[trigger] o@[j]@.len() == n,
        forall|j: int| 0 <= j < k1 ==> #[trigger] vals(o@[j]@) == Seq::new(n as nat, |t: int| 0int),
{
    let mut o: Vec<Vec<T>> = Vec::new();
    let mut j: usize = 0;
    while j < k1
        invariant
            j <= k1,
            o@.len() == j,
            forall|g: int| 0 <= g < j ==> #[trigger] o@[g]@.len() == n,
            forall|g: int| 0 <= g < j ==> #[trigger] vals(o@[g]@) == Seq::new(n as nat, |t: int| 0int),
        decreases k1 - j,
    {
        let zero: LweCiphertext<T> = LweCiphertext::zero(n);
        proof {
            assert(vals(zero.mask@) =~= Seq::new(n as nat, |t: int| 0int));
        }
        o.push(zero.mask);
        j = j + 1;
    }
    o
}

/// The external product of the ggsw encryption of lwe key coefficient `i` held in `rows` with
/// the glwe ciphertext whose polynomials are `c`.
fn external_product<T: Torus>(rows: &GgswRows<T>, i: usize, c: &Vec<Vec<T>>) -> (o: Vec<Vec<T>>)
    requires
        shape_fits(rows.shape()),
        i < rows.shape().input_lwe_dimension,
        c@.len() == rows.shape().glwe_dimension + 1,
        forall|j: int| 0 <= j < c@.len() ==> #[trigger] c@[j]@.len() == rows.shape().polynomial_size,
    ensures
        o@.len() == c@.len(),
        forall|j: int| 0 <= j < o@.len() ==> #[trigger] o@[j]@.len() == rows.shape().polynomial_size,
        forall|j: int| 0 <= j < o@.len() ==> #[trigger] vals(o@[j]@) == external_product_poly(*rows, i as int, polys_vals(c@), j),
{
    let s = rows.get_shape();
    let k1 = c.len();
    let n = s.polynomial_size;
    let levels = s.level_count;
    let ghost cv = polys_vals(c@);
    let ghost q = T::modulus();
    proof {
        T::lemma_modulus();
    }
    let mut o = zero_polynomials(k1, n);
    if levels == 0 {
        proof {
            assert(k1 * levels == 0) by (nonlinear_arith)
                requires
                    levels == 0,
            ;
        }
        return o;
    }
    let mut r: usize = 0;
    while r < k1
        invariant
            s == rows.shape(),
            shape_fits(s),
            rows.items().len() == row_count(s),
            i < s.input_lwe_dimension,
            k1 == c@.len() == s.glwe_dimension + 1,
            n == s.polynomial_size,
            levels == s.level_count,
            levels > 0,
            cv == polys_vals(c@),
            q == T::modulus(),
            q > 1,
            forall|j: int| 0 <= j < k1 ==> #[trigger] c@[j]@.len() == n,
            o@.len() == k1,
            forall|j: int| 0 <= j < k1 ==> #[trigger] o@[j]@.len() == n,
            forall|j: int| 0 <= j < k1 ==> #[trigger] vals(o@[j]@) == external_product_partial(*rows, i as int, cv, (r * levels) as nat, j),
            r <= k1,
        decreases k1 - r,
    {
        // digits[l][t]: digit of level l + 1 of coefficient t of polynomial r
        let mut digits: Vec<Vec<T>> = zero_polynomials(levels, n);
        let mut t: usize = 0;
        while t < n
            invariant
                r < k1 == c@.len(),
                n == c@[r as int]@.len(),
                cv == polys_vals(c@),
                q == T::modulus(),
                digits@.len() == levels,
                forall|l: int| 0 <= l < levels ==> #[trigger] digits@[l]@.len() == n,
                forall|l: int, g: int| 0 <= l < levels && 0 <= g < t ==> #[trigger] vals(digits@[l]@)[g] == decomposition(cv[r as int][g], T::bits(), s.base_log as nat, levels as nat)[l] % q,
                t <= n,
            decreases n - t,
        {
            let d = decompose(c[r][t], s.base_log, levels);
            proof {
                assert(cv[r as int][t as int] == c@[r as int]@[t as int].val());
            }
            let mut l: usize = 0;
            while l < levels
                invariant
                    d@.len() == levels,
                    forall|g: int| 0 <= g < levels ==> #[trigger] vals(d@)[g] == decomposition(cv[r as int][t as int], T::bits(), s.base_log as nat, levels as nat)[g] % q,
                    digits@.len() == levels,
                    forall|g: int| 0 <= g < levels ==> #[trigger] digits@[g]@.len() == n,
                    forall|g: int, h: int| 0 <= g < levels && 0 <= h < t ==> #[trigger] vals(digits@[g]@)[h] == decomposition(cv[r as int][h], T::bits(), s.base_log as nat, levels as nat)[g] % q,
                    forall|g: int| 0 <= g < l ==> #[trigger] vals(digits@[g]@)[t as int] == decomposition(cv[r as int][t as int], T::bits(), s.base_log as nat, levels as nat)[g] % q,
                    t < n,
                    l <= levels,
                decreases levels - l,
            {
                let mut poly = copy_of(&digits[l]);
                let ghost before = poly@;
                poly.set(t, d[l]);
                proof {
                    lemma_vals_update(before, t as int, d@[l as int]);
                    assert(vals(d@)[l as int] == d@[l as int].val());
                }
                let ghost old_digits = digits@;
                digits.set(l, poly);
                proof {
                    assert(digits@[l as int]@ == before.update(t as int, d@[l as int]));
                    assert forall|g: int| 0 <= g < l + 1 implies #[trigger] vals(digits@[g]@)[t as int] == decomposition(cv[r as int][t as int], T::bits(), s.base_log as nat, levels as nat)[g] % q by {
                        if g < l {
                            assert(digits@[g] == old_digits[g]);
                        }
                    }
                    assert forall|g: int, h: int| 0 <= g < levels && 0 <= h < t implies #[trigger] vals(digits@[g]@)[h] == decomposition(cv[r as int][h], T::bits(), s.base_log as nat, levels as nat)[g] % q by {
                        if g != l {
                            assert(digits@[g] == old_digits[g]);
                        } else {
                            assert(vals(old_digits[g]@)[h] == vals(before)[h]);
                        }
                    }
                }
                l = l + 1;
            }
            t = t + 1;
        }
        proof {
            assert forall|l: int| 0 <= l < levels implies #[trigger] vals(digits@[l]@) == digit_polynomial::<T>(cv[r as int], s.base_log as nat, levels as nat, l) by {
                assert(vals(digits@[l]@) =~= digit_polynomial::<T>(cv[r as int], s.base_log as nat, levels as nat, l));
            }
        }
        let mut l: usize = 0;
        while l < levels
            invariant
                s == rows.shape(),
                shape_fits(s),
                rows.items().len() == row_count(s),
                i < s.input_lwe_dimension,
                r < k1 == s.glwe_dimension + 1,
                k1 == c@.len(),
                n == s.polynomial_size,
                levels == s.level_count,
                levels > 0,
                cv == polys_vals(c@),
                q == T::modulus(),
                digits@.len() == levels,
                forall|g: int| 0 <= g < levels ==> #[trigger] digits@[g]@.len() == n,
                forall|g: int| 0 <= g < levels ==> #[trigger] vals(digits@[g]@) == digit_polynomial::<T>(cv[r as int], s.base_log as nat, levels as nat, g),
                o@.len() == k1,
                forall|j: int| 0 <= j < k1 ==> #[trigger] o@[j]@.len() == n,
                forall|j: int| 0 <= j < k1 ==> #[trigger] vals(o@[j]@) == external_product_partial(*rows, i as int, cv, (r * levels + l) as nat, j),
                l <= levels,
            decreases levels - l,
        {
            let e = row_index(rows, i, r, l);
            let row = rows.row(e);
            let ghost idx = (r * levels + l) as nat;
            proof {
                vstd::arithmetic::div_mod::lemma_fundamental_div_mod_converse(idx as int, levels as int, r as int, l as int);
            }
            let mut j: usize = 0;
            while j < k1
                invariant
                    row.k() + 1 == k1,
                    row.n() == n,
                    *row == rows.items()[row_of_index(s, i as int, r as int, l as int)],
                    s == rows.shape(),
                    levels == s.level_count,
                    levels > 0,
                    n == s.polynomial_size,
                    idx == r * levels + l,
                    (idx as int) / (levels as int) == r,
                    (idx as int) % (levels as int) == l,
                    l < levels,
                    q == T::modulus(),
                    digits@.len() == levels,
                    forall|g: int| 0 <= g < levels ==> #[trigger] digits@[g]@.len() == n,
                    forall|g: int| 0 <= g < levels ==> #[trigger] vals(digits@[g]@) == digit_polynomial::<T>(cv[r as int], s.base_log as nat, levels as nat, g),
                    o@.len() == k1,
                    forall|g: int| 0 <= g < k1 ==> #[trigger] o@[g]@.len() == n,
                    forall|g: int| 0 <= g < j ==> #[trigger] vals(o@[g]@) == external_product_partial(*rows, i as int, cv, idx + 1, g),
                    forall|g: int| j <= g < k1 ==> #[trigger] vals(o@[g]@) == external_product_partial(*rows, i as int, cv, idx, g),
                    j <= k1,
                decreases k1 - j,
            {
                let p = row.polynomial(j);
                let mut acc = copy_of(&o[j]);
                mul_add(&mut acc, &digits[l], &p);
                proof {
                    let expected = external_product_partial(*rows, i as int, cv, idx + 1, j as int);
                    assert(vals(acc@) =~= expected);
                }
                o.set(j, acc);
                j = j + 1;
            }
            l = l + 1;
        }
        proof {
            assert((r + 1) * levels == r * levels + levels) by (nonlinear_arith);
        }
        r = r + 1;
    }
    o
}

/// The rotation `round(a * 2N / 2^bits)` modulo `2N` that a torus element stands for, once
/// switched to the modulus `2N`.
pub open spec fn switched_rotation(a: int, n: int, bits: nat) -> int {
    ((a * n + pow2((bits - 2) as nat) as int) / pow2((bits - 1) as nat) as int) % (2 * n)
}

/// The rotation `X^-rho` as a rotation `X^rho'`, with `rho'` in `[0, 2N)`.
pub open spec fn inverse_rotation(rho: int, n: int) -> int {
    (2 * n - rho) % (2 * n)
}

/// `X^rho * p` for `rho` in `[0, 2N)`, as polynomial coefficients modulo `q`.
pub open spec fn rotate(p: Seq<int>, rho: int, q: int) -> Seq<int> {
    let n = p.len() as int;
    Seq::new(p.len(), |t: int| monomial_coefficient(p, rho >= n, if rho >= n { rho - n } else { rho }, t, q))
}

/// The accumulator polynomials rotated by `X^-b~`, where `b~` is the switched body.
pub open spec fn initial_accumulator<T: Torus>(acc: GlweCiphertext<T>, body: int) -> Seq<Seq<int>> {
    let n = acc.n() as int;
    let rho = inverse_rotation(switched_rotation(body, n, T::bits()), n);
    Seq::new(acc.k() + 1, |j: int| rotate(acc.poly_vals(j), rho, T::modulus()))
}

/// The accumulator after the first `i` steps of the blind rotation: step `i` adds to it the
/// external product of the ggsw encryption of key coefficient `i` with
/// `X^a~_i * ACC - ACC`, where `a~_i` is the switched mask coefficient `i`.
pub open spec fn blind_rotation<T: Torus>(rows: GgswRows<T>, mask: Seq<int>, start: Seq<Seq<int>>, i: nat) -> Seq<Seq<int>>
    decreases i,
{
    if i == 0 {
        start
    } else {
        let p = (i - 1) as nat;
        let prev = blind_rotation(rows, mask, start, p);
        let n = rows.shape().polynomial_size as int;
        let q = T::modulus();
        let rho = switched_rotation(mask[p as int], n, T::bits());
        let diff = Seq::new(prev.len(), |j: int| Seq::new(n as nat, |t: int| (rotate(prev[j], rho, q)[t] - prev[j][t]) % q));
        Seq::new(prev.len(), |j: int| Seq::new(n as nat, |t: int| (prev[j][t] + external_product_poly(rows, p as int, diff, j)[t]) % q))
    }
}

proof fn lemma_blind_rotation_len<T: Torus>(rows: GgswRows<T>, mask: Seq<int>, start: Seq<Seq<int>>, i: nat)
    ensures
        blind_rotation(rows, mask, start, i).len() == start.len(),
    decreases i,
{
    if i > 0 {
        lemma_blind_rotation_len(rows, mask, start, (i - 1) as nat);
    }
}

impl<T: Torus> LweCiphertext<T> {
    /// The ciphertext is the bootstrap of `input` with the key rows `rows` and the accumulator
    /// `acc`: the sample at coefficient 0 of the blind rotation of `acc` by the switched
    /// phase of `input`.
    pub open spec fn is_bootstrap_of(&self, input: LweCiphertext<T>, acc: GlweCiphertext<T>, rows: GgswRows<T>) -> bool {
        let polys = blind_rotation(rows, input.mask_vals(), initial_accumulator(acc, input.body_val()), input.lwe_dim());
        acc.n() == 0 || exists|g: GlweCiphertext<T>| {
            &&& g.k() == acc.k()
            &&& g.n() == acc.n()
            &&& forall|j: int| 0 <= j <= acc.k() ==> #[trigger] g.poly_vals(j) == polys[j]
            &&& #[trigger] self.is_sample_of(g, 0)
        }
    }
}

proof fn lemma_external_product_same_rows<T: Torus>(a: GgswRows<T>, b: GgswRows<T>, i: int, c: Seq<Seq<int>>, idx: nat, j: int)
    requires
        a.same_content(b),
        a.items().len() == row_count(a.shape()),
        0 <= i < a.shape().input_lwe_dimension,
        idx <= (a.shape().glwe_dimension + 1) * a.shape().level_count,
    ensures
        external_product_partial(a, i, c, idx, j) == external_product_partial(b, i, c, idx, j),
    decreases idx,
{
    let s = a.shape();
    let levels = s.level_count as int;
    if idx > 0 && levels > 0 {
        let p = (idx - 1) as nat;
        lemma_external_product_same_rows(a, b, i, c, p, j);
        let r = (p as int) / levels;
        let l = (p as int) % levels;
        let k1 = s.glwe_dimension + 1;
        vstd::arithmetic::div_mod::lemma_fundamental_div_mod(p as int, levels);
        vstd::arithmetic::div_mod::lemma_mod_pos_bound(p as int, levels);
        vstd::arithmetic::div_mod::lemma_div_pos_is_pos(p as int, levels);
        assert(r < k1) by (nonlinear_arith)
            requires
                p < k1 * levels,
                p == levels * r + l,
                0 <= l < levels,
                levels > 0,
        ;
        assert(i * k1 + r >= 0) by (nonlinear_arith)
            requires
                i >= 0,
                r >= 0,
                k1 >= 1,
        ;
        assert(i * k1 + r < s.input_lwe_dimension * k1) by (nonlinear_arith)
            requires
                0 <= i < s.input_lwe_dimension,
                0 <= r < k1,
        ;
        assert((i * k1 + r) * levels + l < s.input_lwe_dimension * k1 * levels) by (nonlinear_arith)
            requires
                i * k1 + r < s.input_lwe_dimension * k1,
                0 <= l < levels,
                i * k1 + r >= 0,
        ;
        assert(s.input_lwe_dimension * k1 * levels == s.input_lwe_dimension * (k1 * levels)) by (nonlinear_arith);
        assert(0 <= (i * k1 + r) * levels + l) by (nonlinear_arith)
            requires
                i * k1 + r >= 0,
                l >= 0,
                levels > 0,
        ;
        let e = row_of_index(s, i, r, l);
        assert(a.items()[e].poly_vals(j) == b.items()[e].poly_vals(j));
        assert(external_product_partial(a, i, c, idx, j) =~= external_product_partial(b, i, c, idx, j));
    }
}

proof fn lemma_blind_rotation_same_rows<T: Torus>(a: GgswRows<T>, b: GgswRows<T>, mask: Seq<int>, start: Seq<Seq<int>>, i: nat)
    requires
        a.same_content(b),
        a.items().len() == row_count(a.shape()),
        i <= a.shape().input_lwe_dimension,
    ensures
        blind_rotation(a, mask, start, i) == blind_rotation(b, mask, start, i),
    decreases i,
{
    if i > 0 {
        let p = (i - 1) as nat;
        lemma_blind_rotation_same_rows(a, b, mask, start, p);
        let prev = blind_rotation(a, mask, start, p);
        let n = a.shape().polynomial_size as int;
        let q = T::modulus();
        let rho = switched_rotation(mask[p as int], n, T::bits());
        let diff = Seq::new(prev.len(), |j: int| Seq::new(n as nat, |t: int| (rotate(prev[j], rho, q)[t] - prev[j][t]) % q));
        let full = ((a.shape().glwe_dimension + 1) * a.shape().level_count) as nat;
        assert forall|j: int| 0 <= j < prev.len() implies #[trigger] external_product_poly(a, p as int, diff, j) == external_product_poly(b, p as int, diff, j) by {
            lemma_external_product_same_rows(a, b, p as int, diff, full, j);
        }
        let ra = blind_rotation(a, mask, start, i);
        let rb = blind_rotation(b, mask, start, i);
        assert forall|j: int| 0 <= j < ra.len() implies #[trigger] ra[j] == rb[j] by {
            assert(ra[j] =~= rb[j]);
        }
        assert(ra =~= rb);
    }
}

/// Bootstrapping depends on the coefficients of the key alone: two keys with the same
/// coefficients, such as a standard key and its converted form, bootstrap every ciphertext to
/// the same result.
pub proof fn lemma_same_content_same_bootstrap<T: Torus>(out: LweCiphertext<T>, input: LweCiphertext<T>, acc: GlweCiphertext<T>, a: GgswRows<T>, b: GgswRows<T>)
    requires
        a.same_content(b),
        a.items().len() == row_count(a.shape()),
        input.lwe_dim() <= a.shape().input_lwe_dimension,
    ensures
        out.is_bootstrap_of(input, acc, a) == out.is_bootstrap_of(input, acc, b),
{
    lemma_blind_rotation_same_rows(a, b, input.mask_vals(), initial_accumulator(acc, input.body_val()), input.lwe_dim());
}

/// The rotation `round(a * 2N / 2^w)` modulo `2N`, as `X^(negate * N + r)` with `r < N`.
fn switch_modulus<T: Torus>(a: T, n: usize) -> (r: (bool, usize))
    requires
        n > 0,
    ensures
        r.1 < n,
        (if r.0 { n as int } else { 0 }) + r.1 == switched_rotation(a.val(), n as int, T::bits()),
{
    let bits = T::bit_count() as usize;
    proof {
        T::lemma_modulus();
        a.lemma_range();
        assert(T::modulus() <= 0x1_0000_0000_0000_0000) by {
            if T::bits() == 32 {
                vstd::arithmetic::power2::lemma2_to64();
            } else {
                vstd::arithmetic::power2::lemma2_to64_rest();
            }
        }
    }
    let x = a.to_u128();
    let m = n as u128;
    proof {
        assert(x * m <= 0xFFFF_FFFF_FFFF_FFFFu128 * 0xFFFF_FFFF_FFFF_FFFFu128) by (nonlinear_arith)
            requires
                x <= 0xFFFF_FFFF_FFFF_FFFFu128,
                m <= 0xFFFF_FFFF_FFFF_FFFFu128,
        ;
    }
    let quarter = power_of_two_wide(bits - 2);
    let half = power_of_two_wide(bits - 1);
    proof {
        vstd::arithmetic::power2::lemma_pow2_pos((bits - 1) as nat);
        vstd::arithmetic::power2::lemma_pow2_strictly_increases((bits - 2) as nat, 63);
        vstd::arithmetic::power2::lemma2_to64_rest();
    }
    let v = (x * m + quarter) / half;
    let two_n = 2 * m;
    let w = v % two_n;
    proof {
        vstd::arithmetic::div_mod::lemma_mod_pos_bound(v as int, two_n as int);
    }
    if w >= m {
        (true, (w - m) as usize)
    } else {
        (false, w as usize)
    }
}

/// Bootstraps `input` with the key rows `rows` and the accumulator `acc` into `output`.
pub(crate) fn bootstrap<T: Torus>(rows: &GgswRows<T>, output: &mut LweCiphertext<T>, input: &LweCiphertext<T>, acc: &GlweCiphertext<T>)
    requires
        shape_fits(rows.shape()),
        input.lwe_dim() == rows.shape().input_lwe_dimension,
        acc.k() == rows.shape().glwe_dimension,
        acc.n() == rows.shape().polynomial_size,
        old(output).lwe_dim() == acc.k() * acc.n(),
    ensures
        final(output).lwe_dim() == old(output).lwe_dim(),
        final(output).is_bootstrap_of(*input, *acc, *rows),
{
    let s = rows.get_shape();
    let n = s.polynomial_size;
    if n == 0 {
        return;
    }
    proof {
        assert(s.glwe_dimension + 1 <= (s.glwe_dimension + 1) * n) by (nonlinear_arith)
            requires
                n >= 1,
        ;
    }
    let k1 = s.glwe_dimension + 1;
    let ghost q = T::modulus();
    proof {
        T::lemma_modulus();
    }
    let (neg_b, r_b) = switch_modulus(input.body, n);
    // X^(-b~): the inverse rotation
    let (neg, r) = if r_b == 0 { (neg_b, 0) } else { (!neg_b, n - r_b) };
    let ghost rho = inverse_rotation(switched_rotation(input.body_val(), n as int, T::bits()), n as int);
    proof {
        let b = switched_rotation(input.body_val(), n as int, T::bits());
        if r_b == 0 {
            if neg_b {
                vstd::arithmetic::div_mod::lemma_small_mod(n as nat, (2 * n) as nat);
            } else {
                vstd::arithmetic::div_mod::lemma_mod_self_0((2 * n) as int);
            }
        } else {
            vstd::arithmetic::div_mod::lemma_small_mod((2 * n - b) as nat, (2 * n) as nat);
        }
        assert((if neg { n as int } else { 0 }) + r == rho);
    }
    let ghost start = initial_accumulator(*acc, input.body_val());
    let mut polys: Vec<Vec<T>> = Vec::new();
    let mut j: usize = 0;
    while j < k1
        invariant
            k1 == acc.k() + 1,
            n == acc.n(),
            n > 0,
            r < n,
            (if neg { n as int } else { 0 }) + r == rho,
            rho == inverse_rotation(switched_rotation(input.body_val(), n as int, T::bits()), n as int),
            start == initial_accumulator(*acc, input.body_val()),
            q == T::modulus(),
            j <= k1,
            polys@.len() == j,
            forall|g: int| 0 <= g < j ==> #[trigger] polys@[g]@.len() == n,
            forall|g: int| 0 <= g < j ==> #[trigger] vals(polys@[g]@) == start[g],
        decreases k1 - j,
    {
        let p = acc.polynomial(j);
        let rotated = monomial_mul(&p, neg, r);
        proof {
            assert(vals(rotated@) =~= rotate(acc.poly_vals(j as int), rho, q));
        }
        polys.push(rotated);
        j = j + 1;
    }
    let count = input.mask.len();
    let ghost mask = input.mask_vals();
    let mut i: usize = 0;
    while i < count
        invariant
            s == rows.shape(),
            shape_fits(s),
            count == input.mask@.len() == s.input_lwe_dimension,
            mask == input.mask_vals(),
            k1 == s.glwe_dimension + 1,
            n == s.polynomial_size,
            n > 0,
            q == T::modulus(),
            start.len() == k1,
            polys@.len() == k1,
            forall|g: int| 0 <= g < k1 ==> #[trigger] polys@[g]@.len() == n,
            forall|g: int| 0 <= g < k1 ==> #[trigger] vals(polys@[g]@) == blind_rotation(*rows, mask, start, i as nat)[g],
            i <= count,
        decreases count - i,
    {
        let ghost prev = blind_rotation(*rows, mask, start, i as nat);
        let ghost rho_a = switched_rotation(mask[i as int], n as int, T::bits());
        proof {
            lemma_blind_rotation_len(*rows, mask, start, i as nat);
        }
        let (neg_a, r_a) = switch_modulus(input.mask[i], n);
        proof {
            assert(mask[i as int] == input.mask@[i as int].val());
        }
        let mut diff: Vec<Vec<T>> = Vec::new();
        let mut j: usize = 0;
        while j < k1
            invariant
                polys@.len() == k1,
                forall|g: int| 0 <= g < k1 ==> #[trigger] polys@[g]@.len() == n,
                forall|g: int| 0 <= g < k1 ==> #[trigger] vals(polys@[g]@) == prev[g],
                prev.len() == k1,
                r_a < n,
                (if neg_a { n as int } else { 0 }) + r_a == rho_a,
                q == T::modulus(),
                j <= k1,
                diff@.len() == j,
                forall|g: int| 0 <= g < j ==> #[trigger] diff@[g]@.len() == n,
                forall|g: int| 0 <= g < j ==> #[trigger] vals(diff@[g]@) == Seq::new(n as nat, |t: int| (rotate(prev[g], rho_a, q)[t] - prev[g][t]) % q),
            decreases k1 - j,
        {
            let rotated = monomial_mul(&polys[j], neg_a, r_a);
            let d = add_sub(&rotated, &polys[j], true);
            proof {
                assert(vals(polys@[j as int]@) == prev[j as int]);
                assert(prev[j as int].len() == n);
                assert(vals(rotated@) =~= rotate(prev[j as int], rho_a, q));
                assert(vals(d@) =~= Seq::new(n as nat, |t: int| (rotate(prev[j as int], rho_a, q)[t] - prev[j as int][t]) % q));
            }
            diff.push(d);
            j = j + 1;
        }
        let ghost diff_spec = Seq::new(prev.len(), |g: int| Seq::new(n as nat, |t: int| (rotate(prev[g], rho_a, q)[t] - prev[g][t]) % q));
        proof {
            assert(prev.len() == k1);
            assert(polys_vals(diff@) =~= diff_spec);
        }
        let product = external_product(rows, i, &diff);
        let mut next: Vec<Vec<T>> = Vec::new();
        let mut j: usize = 0;
        while j < k1
            invariant
                polys@.len() == k1,
                product@.len() == k1,
                forall|g: int| 0 <= g < k1 ==> #[trigger] polys@[g]@.len() == n,
                forall|g: int| 0 <= g < k1 ==> #[trigger] vals(polys@[g]@) == prev[g],
                prev.len() == k1,
                forall|g: int| 0 <= g < k1 ==> #[trigger] product@[g]@.len() == n,
                forall|g: int| 0 <= g < k1 ==> #[trigger] vals(product@[g]@) == external_product_poly(*rows, i as int, diff_spec, g),
                q == T::modulus(),
                j <= k1,
                next@.len() == j,
                forall|g: int| 0 <= g < j ==> #[trigger] next@[g]@.len() == n,
                forall|g: int| 0 <= g < j ==> #[trigger] vals(next@[g]@) == Seq::new(n as nat, |t: int| (prev[g][t] + external_product_poly(*rows, i as int, diff_spec, g)[t]) % q),
            decreases k1 - j,
        {
            let sum = add_sub(&polys[j], &product[j], false);
            proof {
                assert(vals(sum@) =~= Seq::new(n as nat, |t: int| (prev[j as int][t] + external_product_poly(*rows, i as int, diff_spec, j as int)[t]) % q));
            }
            next.push(sum);
            j = j + 1;
        }
        proof {
            let after = blind_rotation(*rows, mask, start, (i + 1) as nat);
            assert forall|g: int| 0 <= g < k1 implies #[trigger] vals(next@[g]@) == after[g] by {
            }
        }
        polys = next;
        i = i + 1;
    }
    let ghost final_polys = blind_rotation(*rows, mask, start, count as nat);
    proof {
        assert(k1 * n <= usize::MAX);
    }
    let rotated = GlweCiphertext::from_polynomials(polys, n);
    rotated.extract_sample(output, 0);
    proof {
        assert(rotated.k() == acc.k());
        assert(forall|j: int| 0 <= j <= acc.k() ==> #[trigger] rotated.poly_vals(j) == final_polys[j]);
        assert(output.is_sample_of(rotated, 0));
    }
}

} // verus!
