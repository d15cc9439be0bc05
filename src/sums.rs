//! Finite sums over the integers, and how `u64` sums of products relate to them.
use vstd::prelude::*;
use vstd::std_specs::ops::{AddSpec, MulSpec};

use crate::vector::arithmetic::{product_step_defined, sum_products, sum_products_defined};

verus! {

/// `f(0) + f(1) + ... + f(n - 1)`.
pub open spec fn isum(f: spec_fn(int) -> int, n: int) -> int
    decreases n,
{
    if n <= 0 {
        0
    } else {
        isum(f, n - 1) + f(n - 1)
    }
}

/// Sums of functions that agree below `n` agree.
pub proof fn lemma_isum_ext(f: spec_fn(int) -> int, g: spec_fn(int) -> int, n: int)
    requires
        forall|k: int| 0 <= k < n ==> #[trigger] f(k) == g(k),
    ensures
        isum(f, n) == isum(g, n),
    decreases n,
{
    if n > 0 {
        lemma_isum_ext(f, g, n - 1);
    }
}

/// A sum of zeros is zero.
pub proof fn lemma_isum_zero(n: int)
    ensures
        isum(|k: int| 0int, n) == 0,
    decreases n,
{
    if n > 0 {
        lemma_isum_zero(n - 1);
    }
}

/// A sum of sums: the sum of `f + g` is the sum of `f` plus the sum of `g`.
pub proof fn lemma_isum_add(f: spec_fn(int) -> int, g: spec_fn(int) -> int, n: int)
    ensures
        isum(|k: int| f(k) + g(k), n) == isum(f, n) + isum(g, n),
    decreases n,
{
    if n > 0 {
        lemma_isum_add(f, g, n - 1);
    }
}

/// A factor on the left moves inside a sum: `c` times the sum of `f` is the sum of `c * f`.
pub proof fn lemma_isum_scale(c: int, f: spec_fn(int) -> int, n: int)
    ensures
        c * isum(f, n) == isum(|k: int| c * f(k), n),
    decreases n,
{
    if n > 0 {
        lemma_isum_scale(c, f, n - 1);
        let s = isum(f, n - 1);
        assert(c * (s + f(n - 1)) == c * s + c * f(n - 1)) by (nonlinear_arith);
    }
}

/// Exchange of the two sums of a double sum.
pub proof fn lemma_isum_swap(g: spec_fn(int, int) -> int, m: int, n: int)
    ensures
        isum(|i: int| isum(|j: int| g(i, j), n), m) == isum(|j: int| isum(|i: int| g(i, j), m), n),
    decreases m,
{
    if m > 0 {
        let rows = |i: int| isum(|j: int| g(i, j), n);
        let before = |j: int| isum(|i: int| g(i, j), m - 1);
        let after = |j: int| isum(|i: int| g(i, j), m);
        let last = |j: int| g(m - 1, j);
        lemma_isum_swap(g, m - 1, n);
        assert(isum(rows, m - 1) == isum(before, n));
        lemma_isum_ext(|j: int| g(m - 1, j), last, n);
        assert(rows(m - 1) == isum(last, n));
        assert(isum(rows, m) == isum(before, n) + isum(last, n));
        lemma_isum_add(before, last, n);
        assert forall|j: int| 0 <= j < n implies #[trigger] after(j) == before(j) + last(j) by {}
        lemma_isum_ext(after, |j: int| before(j) + last(j), n);
        lemma_isum_ext(rows, |i: int| isum(|j: int| g(i, j), n), m);
        lemma_isum_ext(after, |j: int| isum(|i: int| g(i, j), m), n);
    } else {
        lemma_isum_ext(|j: int| isum(|i: int| g(i, j), m), |j: int| 0int, n);
        lemma_isum_zero(n);
    }
}

/// The integer products `x[k] * y[k]`.
pub open spec fn int_products(x: Seq<u64>, y: Seq<u64>) -> spec_fn(int) -> int {
    |k: int| x[k] as int * y[k] as int
}

/// A `u64` sum of products whose every step is defined equals the integer sum.
pub proof fn lemma_u64_sum_products(x: Seq<u64>, y: Seq<u64>, n: int)
    requires
        0 <= n,
        sum_products_defined(0u64, x, y, n),
    ensures
        sum_products(0u64, x, y, n) as int == isum(int_products(x, y), n),
    decreases n,
{
    if n > 0 {
        assert(product_step_defined(0u64, x, y, n - 1));
        lemma_u64_sum_products(x, y, n - 1);
    }
}

} // verus!
