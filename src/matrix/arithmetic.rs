//! Entrywise matrix arithmetic: sum, difference, scaling, division by a
//! scalar and negation.
use vstd::prelude::*;
use std::ops::{Add, Div, Mul, Neg, Sub};
use vstd::std_specs::ops::{AddSpec, DivSpec, MulSpec, NegSpec, SubSpec};

use super::Matrix;

verus! {

impl<T: Add<Output = T> + Copy + Default, const M: usize, const N: usize> Add<Matrix<T, M, N>> for Matrix<T, M, N> {
    type Output = Self;

    /// Entrywise sum.
    fn add(self, rhs: Matrix<T, M, N>) -> (r: Self) {
        let mut data = self.data;
        let mut i: usize = 0;
        while i < M
            invariant
                0 <= i <= M,
                forall|a: int, b: int|
                    0 <= a < M && 0 <= b < N ==> #[trigger] self.data[a][b].add_req(rhs.data[a][b]),
                forall|a: int, b: int|
                    0 <= a < M && 0 <= b < N ==> #[trigger] data[a][b] == if a < i {
                        data[a][b]
                    } else {
                        self.data[a][b]
                    },
                forall|a: int, b: int|
                    0 <= a < i && 0 <= b < N && T::obeys_add_spec() ==> #[trigger] data[a][b]
                        == self.data[a][b].add_spec(rhs.data[a][b]),
            decreases M - i,
        {
            let mut row = data[i];
            let mut j: usize = 0;
            while j < N
                invariant
                    0 <= i < M,
                    0 <= j <= N,
                    forall|a: int, b: int|
                        0 <= a < M && 0 <= b < N ==> #[trigger] self.data[a][b].add_req(rhs.data[a][b]),
                    forall|b: int| 0 <= b < N && j <= b ==> #[trigger] row[b] == self.data[i as int][b],
                    forall|b: int|
                        0 <= b < j && T::obeys_add_spec() ==> #[trigger] row[b]
                            == self.data[i as int][b].add_spec(rhs.data[i as int][b]),
                decreases N - j,
            {
                let x = self.data[i][j];
                let y = rhs.data[i][j];
                row[j] = x + y;
                j += 1;
            }
            data[i] = row;
            i += 1;
        }
        let r = Matrix { data };
        proof {
            if T::obeys_add_spec() {
                Self::lemma_tabulate_unique(
                    r,
                    |a: int, b: int| self.data[a][b].add_spec(rhs.data[a][b]),
                );
            }
        }
        r
    }
}

impl<T: Add<Output = T> + Copy + Default, const M: usize, const N: usize> vstd::std_specs::ops::AddSpecImpl<Matrix<T, M, N>> for Matrix<T, M, N> {
    open spec fn obeys_add_spec() -> bool {
        T::obeys_add_spec()
    }

    /// Each entry's add is defined.
    open spec fn add_req(self, rhs: Matrix<T, M, N>) -> bool {
        forall|a: int, b: int|
            0 <= a < M && 0 <= b < N ==> #[trigger] self.data[a][b].add_req(rhs.data[a][b])
    }

    open spec fn add_spec(self, rhs: Matrix<T, M, N>) -> Self {
        Self::tabulate(|a: int, b: int| self.data[a][b].add_spec(rhs.data[a][b]))
    }
}

impl<T: Sub<Output = T> + Copy + Default, const M: usize, const N: usize> Sub<Matrix<T, M, N>> for Matrix<T, M, N> {
    type Output = Self;

    /// Entrywise difference.
    fn sub(self, rhs: Matrix<T, M, N>) -> (r: Self) {
        let mut data = self.data;
        let mut i: usize = 0;
        while i < M
            invariant
                0 <= i <= M,
                forall|a: int, b: int|
                    0 <= a < M && 0 <= b < N ==> #[trigger] self.data[a][b].sub_req(rhs.data[a][b]),
                forall|a: int, b: int|
                    0 <= a < M && 0 <= b < N ==> #[trigger] data[a][b] == if a < i {
                        data[a][b]
                    } else {
                        self.data[a][b]
                    },
                forall|a: int, b: int|
                    0 <= a < i && 0 <= b < N && T::obeys_sub_spec() ==> #[trigger] data[a][b]
                        == self.data[a][b].sub_spec(rhs.data[a][b]),
            decreases M - i,
        {
            let mut row = data[i];
            let mut j: usize = 0;
            while j < N
                invariant
                    0 <= i < M,
                    0 <= j <= N,
                    forall|a: int, b: int|
                        0 <= a < M && 0 <= b < N ==> #[trigger] self.data[a][b].sub_req(rhs.data[a][b]),
                    forall|b: int| 0 <= b < N && j <= b ==> #[trigger] row[b] == self.data[i as int][b],
                    forall|b: int|
                        0 <= b < j && T::obeys_sub_spec() ==> #[trigger] row[b]
                            == self.data[i as int][b].sub_spec(rhs.data[i as int][b]),
                decreases N - j,
            {
                let x = self.data[i][j];
                let y = rhs.data[i][j];
                row[j] = x - y;
                j += 1;
            }
            data[i] = row;
            i += 1;
        }
        let r = Matrix { data };
        proof {
            if T::obeys_sub_spec() {
                Self::lemma_tabulate_unique(
                    r,
                    |a: int, b: int| self.data[a][b].sub_spec(rhs.data[a][b]),
                );
            }
        }
        r
    }
}

impl<T: Sub<Output = T> + Copy + Default, const M: usize, const N: usize> vstd::std_specs::ops::SubSpecImpl<Matrix<T, M, N>> for Matrix<T, M, N> {
    open spec fn obeys_sub_spec() -> bool {
        T::obeys_sub_spec()
    }

    /// Each entry's sub is defined.
    open spec fn sub_req(self, rhs: Matrix<T, M, N>) -> bool {
        forall|a: int, b: int|
            0 <= a < M && 0 <= b < N ==> #[trigger] self.data[a][b].sub_req(rhs.data[a][b])
    }

    open spec fn sub_spec(self, rhs: Matrix<T, M, N>) -> Self {
        Self::tabulate(|a: int, b: int| self.data[a][b].sub_spec(rhs.data[a][b]))
    }
}

impl<T: Mul<Output = T> + Copy + Default, const M: usize, const N: usize> Mul<T> for Matrix<T, M, N> {
    type Output = Self;

    /// Every entry multiplied by the scalar.
    fn mul(self, rhs: T) -> (r: Self) {
        let mut data = self.data;
        let mut i: usize = 0;
        while i < M
            invariant
                0 <= i <= M,
                forall|a: int, b: int|
                    0 <= a < M && 0 <= b < N ==> #[trigger] self.data[a][b].mul_req(rhs),
                forall|a: int, b: int|
                    0 <= a < M && 0 <= b < N ==> #[trigger] data[a][b] == if a < i {
                        data[a][b]
                    } else {
                        self.data[a][b]
                    },
                forall|a: int, b: int|
                    0 <= a < i && 0 <= b < N && T::obeys_mul_spec() ==> #[trigger] data[a][b]
                        == self.data[a][b].mul_spec(rhs),
            decreases M - i,
        {
            let mut row = data[i];
            let mut j: usize = 0;
            while j < N
                invariant
                    0 <= i < M,
                    0 <= j <= N,
                    forall|a: int, b: int|
                        0 <= a < M && 0 <= b < N ==> #[trigger] self.data[a][b].mul_req(rhs),
                    forall|b: int| 0 <= b < N && j <= b ==> #[trigger] row[b] == self.data[i as int][b],
                    forall|b: int|
                        0 <= b < j && T::obeys_mul_spec() ==> #[trigger] row[b]
                            == self.data[i as int][b].mul_spec(rhs),
                decreases N - j,
            {
                let x = self.data[i][j];
                let y = rhs;
                row[j] = x * y;
                j += 1;
            }
            data[i] = row;
            i += 1;
        }
        let r = Matrix { data };
        proof {
            if T::obeys_mul_spec() {
                Self::lemma_tabulate_unique(
                    r,
                    |a: int, b: int| self.data[a][b].mul_spec(rhs),
                );
            }
        }
        r
    }
}

impl<T: Mul<Output = T> + Copy + Default, const M: usize, const N: usize> vstd::std_specs::ops::MulSpecImpl<T> for Matrix<T, M, N> {
    open spec fn obeys_mul_spec() -> bool {
        T::obeys_mul_spec()
    }

    /// Each entry's mul is defined.
    open spec fn mul_req(self, rhs: T) -> bool {
        forall|a: int, b: int|
            0 <= a < M && 0 <= b < N ==> #[trigger] self.data[a][b].mul_req(rhs)
    }

    open spec fn mul_spec(self, rhs: T) -> Self {
        Self::tabulate(|a: int, b: int| self.data[a][b].mul_spec(rhs))
    }
}

impl<T: Div<Output = T> + Copy + Default, const M: usize, const N: usize> Div<T> for Matrix<T, M, N> {
    type Output = Self;

    /// Every entry divided by the scalar, with the scalar type's own division.
    fn div(self, rhs: T) -> (r: Self) {
        let mut data = self.data;
        let mut i: usize = 0;
        while i < M
            invariant
                0 <= i <= M,
                forall|a: int, b: int|
                    0 <= a < M && 0 <= b < N ==> #[trigger] self.data[a][b].div_req(rhs),
                forall|a: int, b: int|
                    0 <= a < M && 0 <= b < N ==> #[trigger] data[a][b] == if a < i {
                        data[a][b]
                    } else {
                        self.data[a][b]
                    },
                forall|a: int, b: int|
                    0 <= a < i && 0 <= b < N && T::obeys_div_spec() ==> #[trigger] data[a][b]
                        == self.data[a][b].div_spec(rhs),
            decreases M - i,
        {
            let mut row = data[i];
            let mut j: usize = 0;
            while j < N
                invariant
                    0 <= i < M,
                    0 <= j <= N,
                    forall|a: int, b: int|
                        0 <= a < M && 0 <= b < N ==> #[trigger] self.data[a][b].div_req(rhs),
                    forall|b: int| 0 <= b < N && j <= b ==> #[trigger] row[b] == self.data[i as int][b],
                    forall|b: int|
                        0 <= b < j && T::obeys_div_spec() ==> #[trigger] row[b]
                            == self.data[i as int][b].div_spec(rhs),
                decreases N - j,
            {
                let x = self.data[i][j];
                let y = rhs;
                row[j] = x / y;
                j += 1;
            }
            data[i] = row;
            i += 1;
        }
        let r = Matrix { data };
        proof {
            if T::obeys_div_spec() {
                Self::lemma_tabulate_unique(
                    r,
                    |a: int, b: int| self.data[a][b].div_spec(rhs),
                );
            }
        }
        r
    }
}

impl<T: Div<Output = T> + Copy + Default, const M: usize, const N: usize> vstd::std_specs::ops::DivSpecImpl<T> for Matrix<T, M, N> {
    open spec fn obeys_div_spec() -> bool {
        T::obeys_div_spec()
    }

    /// Each entry's div is defined.
    open spec fn div_req(self, rhs: T) -> bool {
        forall|a: int, b: int|
            0 <= a < M && 0 <= b < N ==> #[trigger] self.data[a][b].div_req(rhs)
    }

    open spec fn div_spec(self, rhs: T) -> Self {
        Self::tabulate(|a: int, b: int| self.data[a][b].div_spec(rhs))
    }
}

impl<T: Neg<Output = T> + Copy, const M: usize, const N: usize> Neg for Matrix<T, M, N> {
    type Output = Self;

    /// Every entry with its sign flipped.
    fn neg(self) -> (r: Self) {
        let mut data = self.data;
        let mut i: usize = 0;
        while i < M
            invariant
                0 <= i <= M,
                forall|a: int, b: int|
                    0 <= a < M && 0 <= b < N ==> #[trigger] self.data[a][b].neg_req(),
                forall|a: int, b: int|
                    0 <= a < M && 0 <= b < N ==> #[trigger] data[a][b] == if a < i {
                        data[a][b]
                    } else {
                        self.data[a][b]
                    },
                forall|a: int, b: int|
                    0 <= a < i && 0 <= b < N && T::obeys_neg_spec() ==> #[trigger] data[a][b]
                        == self.data[a][b].neg_spec(),
            decreases M - i,
        {
            let mut row = data[i];
            let mut j: usize = 0;
            while j < N
                invariant
                    0 <= i < M,
                    0 <= j <= N,
                    forall|a: int, b: int|
                        0 <= a < M && 0 <= b < N ==> #[trigger] self.data[a][b].neg_req(),
                    forall|b: int| 0 <= b < N && j <= b ==> #[trigger] row[b] == self.data[i as int][b],
                    forall|b: int|
                        0 <= b < j && T::obeys_neg_spec() ==> #[trigger] row[b]
                            == self.data[i as int][b].neg_spec(),
                decreases N - j,
            {
                let x = self.data[i][j];
                row[j] = x.neg();
                j += 1;
            }
            data[i] = row;
            i += 1;
        }
        let r = Matrix { data };
        proof {
            if T::obeys_neg_spec() {
                Self::lemma_tabulate_unique(r, |a: int, b: int| self.data[a][b].neg_spec());
            }
        }
        r
    }
}

impl<T: Neg<Output = T> + Copy, const M: usize, const N: usize> vstd::std_specs::ops::NegSpecImpl for Matrix<T, M, N> {
    open spec fn obeys_neg_spec() -> bool {
        T::obeys_neg_spec()
    }

    /// Each entry's negation is defined.
    open spec fn neg_req(self) -> bool {
        forall|a: int, b: int| 0 <= a < M && 0 <= b < N ==> #[trigger] self.data[a][b].neg_req()
    }

    open spec fn neg_spec(self) -> Self {
        Self::tabulate(|a: int, b: int| self.data[a][b].neg_spec())
    }
}

} // verus!
