//! Transpose, and the matrix-matrix and matrix-vector products.
use vstd::prelude::*;
use std::ops::{Add, Mul};

use super::Matrix;
use crate::scalar::{ring_ops, zero};
use crate::vector::arithmetic::{sum_products, sum_products_defined};
use crate::vector::Vector;

verus! {

impl<T: Copy + Default, const M: usize, const N: usize> Matrix<T, M, N> {
    /// The `N` by `M` matrix whose entry at row `j`, column `i` is this one's at row `i`, column `j`.
    pub open spec fn spec_transpose(self) -> Matrix<T, N, M> {
        Matrix::<T, N, M>::tabulate(|j: int, i: int| self.data[i][j])
    }

    /// Entry `(j, i)` of the transpose is entry `(i, j)`.
    pub proof fn lemma_transpose_entry(self, j: int, i: int)
        requires
            0 <= j < N,
            0 <= i < M,
        ensures
            self.spec_transpose().data[j][i] == self.data[i][j],
    {
        Matrix::<T, N, M>::lemma_tabulate(|j: int, i: int| self.data[i][j]);
    }

    /// Rows become columns: entry `(j, i)` of the result is entry `(i, j)` of `self`.
    pub fn transpose(&self) -> (r: Matrix<T, N, M>)
        ensures
            r == self.spec_transpose(),
    {
        let d = T::default();
        let mut data = [[d; M]; N];
        let mut j: usize = 0;
        while j < N
            invariant
                0 <= j <= N,
                forall|b: int, a: int|
                    0 <= b < j && 0 <= a < M ==> #[trigger] data[b][a] == self.data[a][b],
            decreases N - j,
        {
            let mut row = [d; M];
            let mut i: usize = 0;
            while i < M
                invariant
                    0 <= j < N,
                    0 <= i <= M,
                    forall|a: int| 0 <= a < i ==> #[trigger] row[a] == self.data[a][j as int],
                decreases M - i,
            {
                row[i] = self.data[i][j];
                i += 1;
            }
            data[j] = row;
            j += 1;
        }
        let r = Matrix { data };
        proof {
            Matrix::<T, N, M>::lemma_tabulate_unique(r, |j: int, i: int| self.data[i][j]);
        }
        r
    }
}

impl<T: Mul<Output = T> + Add<Output = T> + Default + Copy + From<u8>, const M: usize, const K: usize> Matrix<T, M, K> {
    /// Every entry of the product with `rhs` can be computed: each product
    /// and each addition to the running sum is defined.
    pub open spec fn product_defined<const N: usize>(self, rhs: Matrix<T, K, N>) -> bool {
        &&& ring_ops::<T>()
        &&& forall|i: int, j: int|
            0 <= i < M && 0 <= j < N ==> #[trigger] sum_products_defined(
                zero::<T>(),
                self.row(i),
                rhs.col(j),
                K as int,
            )
    }

    /// The matrix product: entry `(i, j)` is row `i` of `self` times column
    /// `j` of `rhs`, summed from zero in index order.
    pub open spec fn spec_product<const N: usize>(self, rhs: Matrix<T, K, N>) -> Matrix<T, M, N> {
        Matrix::<T, M, N>::tabulate(
            |i: int, j: int| sum_products(zero::<T>(), self.row(i), rhs.col(j), K as int),
        )
    }

    /// Entry `(i, j)` of the product is row `i` times column `j`.
    pub proof fn lemma_product_entry<const N: usize>(self, rhs: Matrix<T, K, N>, i: int, j: int)
        requires
            0 <= i < M,
            0 <= j < N,
        ensures
            self.spec_product(rhs).data[i][j] == sum_products(zero::<T>(), self.row(i), rhs.col(j), K as int),
    {
        Matrix::<T, M, N>::lemma_tabulate(
            |i: int, j: int| sum_products(zero::<T>(), self.row(i), rhs.col(j), K as int),
        );
    }

    /// Every component of the product with `v` can be computed.
    pub open spec fn apply_defined(self, v: Vector<T, K>) -> bool {
        &&& ring_ops::<T>()
        &&& forall|i: int|
            0 <= i < M ==> #[trigger] sum_products_defined(
                zero::<T>(),
                self.row(i),
                v.data@,
                K as int,
            )
    }

    /// The matrix-vector product: component `i` is row `i` of `self` times `v`.
    pub open spec fn spec_apply(self, v: Vector<T, K>) -> Vector<T, M> {
        Vector::<T, M>::tabulate(|i: int| sum_products(zero::<T>(), self.row(i), v.data@, K as int))
    }
}

impl<T, const M: usize, const K: usize, const N: usize> Mul<Matrix<T, K, N>> for Matrix<T, M, K> where
    T: Mul<Output = T> + Add<Output = T> + Default + Copy + From<u8>,
 {
    type Output = Matrix<T, M, N>;

    /// The matrix product; the inner dimension `K` must agree.
    fn mul(self, rhs: Matrix<T, K, N>) -> (r: Matrix<T, M, N>) {
        let cols = rhs.transpose();
        let d = T::from(0u8);
        let mut data = [[d; N]; M];
        let mut i: usize = 0;
        while i < M
            invariant
                0 <= i <= M,
                self.product_defined(rhs),
                cols == rhs.spec_transpose(),
                forall|a: int, b: int|
                    0 <= a < i && 0 <= b < N ==> #[trigger] data[a][b] == sum_products(
                        zero::<T>(),
                        self.row(a),
                        rhs.col(b),
                        K as int,
                    ),
            decreases M - i,
        {
            let mut row = [d; N];
            let lhs = Vector::new(self.data[i]);
            let mut j: usize = 0;
            while j < N
                invariant
                    0 <= i < M,
                    0 <= j <= N,
                    self.product_defined(rhs),
                    cols == rhs.spec_transpose(),
                    lhs.data@ == self.row(i as int),
                    forall|b: int|
                        0 <= b < j ==> #[trigger] row[b] == sum_products(
                            zero::<T>(),
                            self.row(i as int),
                            rhs.col(b),
                            K as int,
                        ),
                decreases N - j,
            {
                proof {
                    Matrix::<T, N, K>::lemma_tabulate(|b: int, k: int| rhs.data[k][b]);
                    assert(cols.data[j as int]@ =~= rhs.col(j as int));
                }
                row[j] = lhs.dot(&Vector::new(cols.data[j]));
                j += 1;
            }
            data[i] = row;
            i += 1;
        }
        let r = Matrix { data };
        proof {
            Matrix::<T, M, N>::lemma_tabulate_unique(
                r,
                |i: int, j: int| sum_products(zero::<T>(), self.row(i), rhs.col(j), K as int),
            );
        }
        r
    }
}

impl<T, const M: usize, const K: usize, const N: usize> vstd::std_specs::ops::MulSpecImpl<Matrix<T, K, N>> for Matrix<T, M, K> where
    T: Mul<Output = T> + Add<Output = T> + Default + Copy + From<u8>,
 {
    open spec fn obeys_mul_spec() -> bool {
        ring_ops::<T>()
    }

    open spec fn mul_req(self, rhs: Matrix<T, K, N>) -> bool {
        self.product_defined(rhs)
    }

    open spec fn mul_spec(self, rhs: Matrix<T, K, N>) -> Matrix<T, M, N> {
        self.spec_product(rhs)
    }
}

impl<T, const M: usize, const K: usize> Mul<Vector<T, K>> for Matrix<T, M, K> where
    T: Mul<Output = T> + Add<Output = T> + Default + Copy + From<u8>,
 {
    type Output = Vector<T, M>;

    /// The matrix-vector product; the vector's length must be the column count.
    fn mul(self, rhs: Vector<T, K>) -> (r: Vector<T, M>) {
        let d = T::from(0u8);
        let mut data = [d; M];
        let mut i: usize = 0;
        while i < M
            invariant
                0 <= i <= M,
                self.apply_defined(rhs),
                forall|a: int|
                    0 <= a < i ==> #[trigger] data[a] == sum_products(
                        zero::<T>(),
                        self.row(a),
                        rhs.data@,
                        K as int,
                    ),
            decreases M - i,
        {
            let lhs = Vector::new(self.data[i]);
            assert(lhs.data@ == self.row(i as int));
            data[i] = lhs.dot(&rhs);
            i += 1;
        }
        let r = Vector { data };
        proof {
            Vector::<T, M>::lemma_tabulate_unique(
                r,
                |i: int| sum_products(zero::<T>(), self.row(i), rhs.data@, K as int),
            );
        }
        r
    }
}

impl<T, const M: usize, const K: usize> vstd::std_specs::ops::MulSpecImpl<Vector<T, K>> for Matrix<T, M, K> where
    T: Mul<Output = T> + Add<Output = T> + Default + Copy + From<u8>,
 {
    open spec fn obeys_mul_spec() -> bool {
        ring_ops::<T>()
    }

    open spec fn mul_req(self, rhs: Vector<T, K>) -> bool {
        self.apply_defined(rhs)
    }

    open spec fn mul_spec(self, rhs: Vector<T, K>) -> Vector<T, M> {
        self.spec_apply(rhs)
    }
}

} // verus!
