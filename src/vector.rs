//! The vector type, its constructor and its entrywise model.
use vstd::prelude::*;

use crate::arrays::{array_has, lemma_array_exists, lemma_array_ext};

pub mod arithmetic;
pub mod geometry;
pub mod indexing;

verus! {

/// A sequence of exactly `N` scalars.
#[derive(Clone, Copy, PartialEq, Debug)]
pub struct Vector<T, const N: usize> {
    pub data: [T; N],
}

impl<T, const N: usize> Vector<T, N> {
    /// The component at position `i` is `f(i)`, for every position.
    pub open spec fn has_entries(self, f: spec_fn(int) -> T) -> bool {
        forall|i: int| 0 <= i < N ==> #[trigger] self.data[i] == f(i)
    }

    /// The vector whose component at position `i` is `f(i)`.
    pub open spec fn tabulate(f: spec_fn(int) -> T) -> Self {
        choose|v: Self| v.has_entries(f)
    }

    /// `tabulate(f)` has the components that `f` gives.
    pub broadcast proof fn lemma_tabulate(f: spec_fn(int) -> T)
        ensures
            (#[trigger] Self::tabulate(f)).has_entries(f),
    {
        lemma_array_exists::<T, N>(f);
        let data = choose|a: [T; N]| array_has(a, f);
        assert(Vector { data }.has_entries(f));
    }

    /// Vectors that agree at every position are equal.
    pub proof fn lemma_ext(a: Self, b: Self)
        requires
            forall|i: int| 0 <= i < N ==> #[trigger] a.data[i] == b.data[i],
        ensures
            a == b,
    {
        lemma_array_ext(a.data, b.data);
    }

    /// A vector with the components that `f` gives is `tabulate(f)`.
    pub proof fn lemma_tabulate_unique(v: Self, f: spec_fn(int) -> T)
        requires
            v.has_entries(f),
        ensures
            v == Self::tabulate(f),
    {
        Self::lemma_tabulate(f);
        lemma_array_ext(v.data, Self::tabulate(f).data);
    }

    /// Creates a vector from its components.
    pub fn new(data: [T; N]) -> (r: Self)
        ensures
            r.data == data,
    {
        Self { data }
    }
}

} // verus!
