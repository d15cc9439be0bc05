//! The matrix type, its constructors and its entrywise model.
use vstd::prelude::*;

use crate::arrays::{array_has, lemma_array_exists, lemma_array_ext};
use crate::scalar::{default_is_fixed, default_of, is_default};

pub mod arithmetic;
pub mod elimination;
pub mod indexing;
pub mod product;

verus! {

/// An `M` by `N` grid of scalars stored row by row.
#[derive(Clone, Copy, PartialEq, Debug)]
pub struct Matrix<T, const M: usize, const N: usize> {
    pub data: [[T; N]; M],
}

/// Row `i` of the grid that `f` describes.
pub open spec fn row_of<T>(f: spec_fn(int, int) -> T, i: int) -> spec_fn(int) -> T {
    |j: int| f(i, j)
}

/// The rows of a grid, each as a sequence.
pub open spec fn grid_rows<T, const M: usize, const N: usize>(a: [[T; N]; M]) -> Seq<Seq<T>> {
    a@.map_values(|r: [T; N]| r@)
}

impl<T, const M: usize, const N: usize> View for Matrix<T, M, N> {
    type V = Seq<Seq<T>>;

    /// The rows, each as a sequence of length `N`.
    open spec fn view(&self) -> Seq<Seq<T>> {
        grid_rows(self.data)
    }
}

impl<T, const M: usize, const N: usize> Matrix<T, M, N> {
    /// The entry at row `i`, column `j` is `f(i, j)`, for every position.
    pub open spec fn has_entries(self, f: spec_fn(int, int) -> T) -> bool {
        forall|i: int, j: int| 0 <= i < M && 0 <= j < N ==> #[trigger] self.data[i][j] == f(i, j)
    }

    /// The matrix whose entry at row `i`, column `j` is `f(i, j)`.
    pub open spec fn tabulate(f: spec_fn(int, int) -> T) -> Self {
        choose|m: Self| m.has_entries(f)
    }

    /// Column `j` as a sequence of length `M`.
    pub open spec fn col(self, j: int) -> Seq<T> {
        Seq::new(M as nat, |i: int| self.data[i][j])
    }

    /// Row `i` as a sequence of length `N`.
    pub open spec fn row(self, i: int) -> Seq<T> {
        self.data[i]@
    }

    /// Every entry function describes some matrix.
    pub proof fn lemma_exists(f: spec_fn(int, int) -> T)
        ensures
            exists|m: Self| m.has_entries(f),
    {
        let rows = |i: int| choose|r: [T; N]| array_has(r, row_of(f, i));
        assert forall|i: int| 0 <= i < M implies array_has(#[trigger] rows(i), row_of(f, i)) by {
            lemma_array_exists::<T, N>(row_of(f, i));
        }
        lemma_array_exists::<[T; N], M>(rows);
        let data = choose|a: [[T; N]; M]| array_has(a, rows);
        let m = Matrix { data };
        assert(m.has_entries(f));
    }

    /// `tabulate(f)` has the entries that `f` gives.
    pub broadcast proof fn lemma_tabulate(f: spec_fn(int, int) -> T)
        ensures
            (#[trigger] Self::tabulate(f)).has_entries(f),
    {
        Self::lemma_exists(f);
    }

    /// Matrices that agree at every position are equal.
    pub proof fn lemma_ext(a: Self, b: Self)
        requires
            forall|i: int, j: int| 0 <= i < M && 0 <= j < N ==> #[trigger] a.data[i][j] == b.data[i][j],
        ensures
            a == b,
    {
        assert forall|i: int| 0 <= i < M implies #[trigger] a.data[i] == b.data[i] by {
            lemma_array_ext(a.data[i], b.data[i]);
        }
        lemma_array_ext(a.data, b.data);
    }

    /// A matrix with the entries that `f` gives is `tabulate(f)`.
    pub proof fn lemma_tabulate_unique(m: Self, f: spec_fn(int, int) -> T)
        requires
            m.has_entries(f),
        ensures
            m == Self::tabulate(f),
    {
        Self::lemma_tabulate(f);
        Self::lemma_ext(m, Self::tabulate(f));
    }

    /// Creates a matrix from its rows.
    pub fn new(data: [[T; N]; M]) -> (r: Self)
        ensures
            r.data == data,
    {
        Self { data }
    }
}

impl<T: Default + Copy, const M: usize, const N: usize> Matrix<T, M, N> {
    /// The matrix whose every entry is `T::default()`.
    pub open spec fn spec_zeros() -> Self {
        Self::tabulate(|i: int, j: int| default_of::<T>())
    }

    /// Creates a matrix filled with the scalar default value (zero for numbers).
    pub fn zeros() -> (r: Self)
        ensures
            forall|i: int, j: int| 0 <= i < M && 0 <= j < N ==> is_default(#[trigger] r.data[i][j]),
            default_is_fixed::<T>() ==> r == Self::spec_zeros(),
    {
        let d = T::default();
        let r = Self { data: [[d; N]; M] };
        proof {
            if default_is_fixed::<T>() {
                assert(is_default(d));
                assert(d == default_of::<T>());
                Self::lemma_tabulate_unique(r, |i: int, j: int| default_of::<T>());
            }
        }
        r
    }
}

} // verus!
