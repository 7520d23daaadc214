//! Finite sums over integer ranges, and the rearrangements the proofs about polynomials need.
use vstd::prelude::*;
use crate::numeric::dot;

verus! {

/// `f(0) + ... + f(n - 1)`.
pub open spec fn sum_to(f: spec_fn(int) -> int, n: nat) -> int
    decreases n,
{
    if n == 0 {
        0
    } else {
        sum_to(f, (n - 1) as nat) + f(n - 1)
    }
}

/// Sums of functions that agree on the range are equal.
pub proof fn lemma_sum_congruent(f: spec_fn(int) -> int, g: spec_fn(int) -> int, n: nat)
    requires
        forall|i: int| 0 <= i < n ==> #[trigger] f(i) == g(i),
    ensures
        sum_to(f, n) == sum_to(g, n),
    decreases n,
{
    if n > 0 {
        lemma_sum_congruent(f, g, (n - 1) as nat);
    }
}

/// A sum over `[0, a + b)` splits at `a`.
pub proof fn lemma_sum_split(f: spec_fn(int) -> int, a: nat, b: nat)
    ensures
        sum_to(f, a + b) == sum_to(f, a) + sum_to(|u: int| f(a + u), b),
    decreases b,
{
    if b > 0 {
        lemma_sum_split(f, a, (b - 1) as nat);
        assert((a + b - 1) as nat == (a + (b - 1)) as nat);
    }
}

/// Summing backwards gives the same sum.
pub proof fn lemma_sum_reverse(f: spec_fn(int) -> int, n: nat)
    ensures
        sum_to(f, n) == sum_to(|i: int| f(n - 1 - i), n),
    decreases n,
{
    if n > 0 {
        let m = (n - 1) as nat;
        let g = |j: int| f(j + 1);
        // sum_to(f, n) == f(0) + sum_to(g, m)
        lemma_sum_split(f, 1, m);
        lemma_sum_congruent(|u: int| f(1 + u), g, m);
        // the reversed sum ends with f(0), and its first m terms are g reversed
        lemma_sum_reverse(g, m);
        let h = |i: int| f(n - 1 - i);
        lemma_sum_congruent(|i: int| g(m - 1 - i), h, m);
        assert(h(n - 1) == f(0));
        assert(sum_to(h, n) == sum_to(h, m) + h(n - 1));
        assert(sum_to(f, 1) == sum_to(f, 0) + f(0));
    }
}

/// The inner product is the sum of the products of the coefficients.
pub proof fn lemma_dot_is_sum(a: Seq<int>, b: Seq<int>, n: nat)
    ensures
        dot(a, b, n) == sum_to(|i: int| a[i] * b[i], n),
    decreases n,
{
    if n > 0 {
        lemma_dot_is_sum(a, b, (n - 1) as nat);
    }
}

} // verus!
