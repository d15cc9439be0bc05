//! Entry access by `(row, column)`, and row access by row index.
use vstd::prelude::*;
use std::ops::{Index, IndexMut};

use super::Matrix;

verus! {

impl<T, const M: usize, const N: usize> Index<(usize, usize)> for Matrix<T, M, N> {
    type Output = T;

    /// The entry at `(row, column)`; an index out of range panics.
    fn index(&self, index: (usize, usize)) -> (r: &T)
        ensures
            *r == self.data[index.0 as int][index.1 as int],
    {
        &self.data[index.0][index.1]
    }
}

impl<T, const M: usize, const N: usize> vstd::std_specs::core::IndexSpecImpl<(usize, usize)> for Matrix<T, M, N> {
    /// Both coordinates are in range.
    open spec fn index_req(&self, index: &(usize, usize)) -> bool {
        index.0 < M && index.1 < N
    }
}

impl<T, const M: usize, const N: usize> IndexMut<(usize, usize)> for Matrix<T, M, N> {
    /// The entry at `(row, column)`, for writing; an index out of range panics.
    fn index_mut(&mut self, index: (usize, usize)) -> (r: &mut T)
        requires
            index.0 < M && index.1 < N,
        ensures
            *r == old(self).data[index.0 as int][index.1 as int],
            final(self).data[index.0 as int][index.1 as int] == *final(r),
            forall|a: int, b: int|
                0 <= a < M && 0 <= b < N && (a != index.0 || b != index.1) ==> #[trigger] final(self).data[a][b]
                    == old(self).data[a][b],
    {
        &mut self.data[index.0][index.1]
    }
}

impl<T, const M: usize, const N: usize> Index<usize> for Matrix<T, M, N> {
    type Output = [T; N];

    /// Row `row`, as an array of length `N`; an index out of range panics.
    fn index(&self, row: usize) -> (r: &[T; N])
        ensures
            *r == self.data[row as int],
    {
        &self.data[row]
    }
}

impl<T, const M: usize, const N: usize> vstd::std_specs::core::IndexSpecImpl<usize> for Matrix<T, M, N> {
    /// The row is in range.
    open spec fn index_req(&self, row: &usize) -> bool {
        *row < M
    }
}

impl<T, const M: usize, const N: usize> IndexMut<usize> for Matrix<T, M, N> {
    /// Row `row`, for writing; an index out of range panics.
    fn index_mut(&mut self, row: usize) -> (r: &mut [T; N])
        requires
            row < M,
        ensures
            *r == old(self).data[row as int],
            final(self).data[row as int] == *final(r),
            forall|a: int| 0 <= a < M && a != row ==> #[trigger] final(self).data[a] == old(self).data[a],
    {
        &mut self.data[row]
    }
}

} // verus!
