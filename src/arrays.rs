//! Spec-level construction of fixed-size arrays from index functions.
use vstd::prelude::*;
use vstd::array::axiom_spec_array_update;

verus! {

/// Position `i` of `a` holds `f(i)`, for every position.
pub open spec fn array_has<T, const N: usize>(a: [T; N], f: spec_fn(int) -> T) -> bool {
    forall|i: int| 0 <= i < N ==> #[trigger] a[i] == f(i)
}

/// `base` with positions `0..n` overwritten by `f`.
pub open spec fn filled<T, const N: usize>(base: [T; N], f: spec_fn(int) -> T, n: int) -> [T; N]
    decreases n,
{
    if n <= 0 {
        base
    } else {
        vstd::array::spec_array_update(filled(base, f, n - 1), n - 1, f(n - 1))
    }
}

proof fn lemma_filled<T, const N: usize>(base: [T; N], f: spec_fn(int) -> T, n: int)
    requires
        0 <= n <= N,
    ensures
        forall|i: int| 0 <= i < n ==> #[trigger] filled(base, f, n)[i] == f(i),
    decreases n,
{
    broadcast use axiom_spec_array_update;

    if n > 0 {
        lemma_filled(base, f, n - 1);
        let prev = filled(base, f, n - 1);
        assert(filled(base, f, n)@ == prev@.update(n - 1, f(n - 1)));
    }
}

/// Every index function of the right length is the content of some array.
pub proof fn lemma_array_exists<T, const N: usize>(f: spec_fn(int) -> T)
    ensures
        exists|a: [T; N]| array_has(a, f),
{
    let base: [T; N] = vstd::pervasive::arbitrary();
    lemma_filled(base, f, N as int);
    let a = filled(base, f, N as int);
    assert(array_has(a, f));
}

/// Arrays that agree at every position are equal.
pub proof fn lemma_array_ext<T, const N: usize>(a: [T; N], b: [T; N])
    requires
        forall|i: int| 0 <= i < N ==> #[trigger] a[i] == b[i],
    ensures
        a == b,
{
    broadcast use vstd::array::axiom_array_ext_equal;

    assert(a =~= b);
}

} // verus!
