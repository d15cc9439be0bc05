//! Componentwise vector arithmetic and the dot product.
use vstd::prelude::*;
use std::ops::{Add, Mul, Sub};
use vstd::std_specs::ops::{AddSpec, MulSpec, SubSpec};

use super::Vector;
use crate::scalar::{ring_ops, zero};

verus! {

/// `start + x[0] * y[0] + ... + x[n - 1] * y[n - 1]`, added in index order.
pub open spec fn sum_products<T: Add<Output = T> + Mul<Output = T>>(
    start: T,
    x: Seq<T>,
    y: Seq<T>,
    n: int,
) -> T
    decreases n,
{
    if n <= 0 {
        start
    } else {
        sum_products(start, x, y, n - 1).add_spec(x[n - 1].mul_spec(y[n - 1]))
    }
}

/// Step `k` of `sum_products` is defined: the product, and its addition to the running sum.
pub open spec fn product_step_defined<T: Add<Output = T> + Mul<Output = T>>(
    start: T,
    x: Seq<T>,
    y: Seq<T>,
    k: int,
) -> bool {
    x[k].mul_req(y[k]) && sum_products(start, x, y, k).add_req(x[k].mul_spec(y[k]))
}

/// Every step of `sum_products(start, x, y, n)` is defined.
pub open spec fn sum_products_defined<T: Add<Output = T> + Mul<Output = T>>(
    start: T,
    x: Seq<T>,
    y: Seq<T>,
    n: int,
) -> bool {
    forall|k: int| 0 <= k < n ==> #[trigger] product_step_defined(start, x, y, k)
}

impl<T: Add<Output = T> + Copy, const N: usize> Add<Vector<T, N>> for Vector<T, N> {
    type Output = Self;

    /// Componentwise sum.
    fn add(self, rhs: Vector<T, N>) -> (r: Self) {
        let mut data = self.data;
        let mut j: usize = 0;
        while j < N
            invariant
                0 <= j <= N,
                forall|b: int| 0 <= b < N ==> #[trigger] self.data[b].add_req(rhs.data[b]),
                forall|b: int| 0 <= b < N && j <= b ==> #[trigger] data[b] == self.data[b],
                forall|b: int|
                    0 <= b < j && T::obeys_add_spec() ==> #[trigger] data[b] == self.data[b].add_spec(rhs.data[b]),
            decreases N - j,
        {
            let x = self.data[j];
            let y = rhs.data[j];
            data[j] = x + y;
            j += 1;
        }
        let r = Vector { data };
        proof {
            if T::obeys_add_spec() {
                Self::lemma_tabulate_unique(r, |b: int| self.data[b].add_spec(rhs.data[b]));
            }
        }
        r
    }
}

impl<T: Add<Output = T> + Copy, const N: usize> vstd::std_specs::ops::AddSpecImpl<Vector<T, N>> for Vector<T, N> {
    open spec fn obeys_add_spec() -> bool {
        T::obeys_add_spec()
    }

    /// Each component's add is defined.
    open spec fn add_req(self, rhs: Vector<T, N>) -> bool {
        forall|b: int| 0 <= b < N ==> #[trigger] self.data[b].add_req(rhs.data[b])
    }

    open spec fn add_spec(self, rhs: Vector<T, N>) -> Self {
        Self::tabulate(|b: int| self.data[b].add_spec(rhs.data[b]))
    }
}

impl<T: Sub<Output = T> + Copy, const N: usize> Sub<Vector<T, N>> for Vector<T, N> {
    type Output = Self;

    /// Componentwise difference.
    fn sub(self, rhs: Vector<T, N>) -> (r: Self) {
        let mut data = self.data;
        let mut j: usize = 0;
        while j < N
            invariant
                0 <= j <= N,
                forall|b: int| 0 <= b < N ==> #[trigger] self.data[b].sub_req(rhs.data[b]),
                forall|b: int| 0 <= b < N && j <= b ==> #[trigger] data[b] == self.data[b],
                forall|b: int|
                    0 <= b < j && T::obeys_sub_spec() ==> #[trigger] data[b] == self.data[b].sub_spec(rhs.data[b]),
            decreases N - j,
        {
            let x = self.data[j];
            let y = rhs.data[j];
            data[j] = x - y;
            j += 1;
        }
        let r = Vector { data };
        proof {
            if T::obeys_sub_spec() {
                Self::lemma_tabulate_unique(r, |b: int| self.data[b].sub_spec(rhs.data[b]));
            }
        }
        r
    }
}

impl<T: Sub<Output = T> + Copy, const N: usize> vstd::std_specs::ops::SubSpecImpl<Vector<T, N>> for Vector<T, N> {
    open spec fn obeys_sub_spec() -> bool {
        T::obeys_sub_spec()
    }

    /// Each component's sub is defined.
    open spec fn sub_req(self, rhs: Vector<T, N>) -> bool {
        forall|b: int| 0 <= b < N ==> #[trigger] self.data[b].sub_req(rhs.data[b])
    }

    open spec fn sub_spec(self, rhs: Vector<T, N>) -> Self {
        Self::tabulate(|b: int| self.data[b].sub_spec(rhs.data[b]))
    }
}

impl<T: Mul<Output = T> + Copy, const N: usize> Mul<T> for Vector<T, N> {
    type Output = Self;

    /// Every component multiplied by the scalar.
    fn mul(self, rhs: T) -> (r: Self) {
        let mut data = self.data;
        let mut j: usize = 0;
        while j < N
            invariant
                0 <= j <= N,
                forall|b: int| 0 <= b < N ==> #[trigger] self.data[b].mul_req(rhs),
                forall|b: int| 0 <= b < N && j <= b ==> #[trigger] data[b] == self.data[b],
                forall|b: int|
                    0 <= b < j && T::obeys_mul_spec() ==> #[trigger] data[b] == self.data[b].mul_spec(rhs),
            decreases N - j,
        {
            let x = self.data[j];
            let y = rhs;
            data[j] = x * y;
            j += 1;
        }
        let r = Vector { data };
        proof {
            if T::obeys_mul_spec() {
                Self::lemma_tabulate_unique(r, |b: int| self.data[b].mul_spec(rhs));
            }
        }
        r
    }
}

impl<T: Mul<Output = T> + Copy, const N: usize> vstd::std_specs::ops::MulSpecImpl<T> for Vector<T, N> {
    open spec fn obeys_mul_spec() -> bool {
        T::obeys_mul_spec()
    }

    /// Each component's mul is defined.
    open spec fn mul_req(self, rhs: T) -> bool {
        forall|b: int| 0 <= b < N ==> #[trigger] self.data[b].mul_req(rhs)
    }

    open spec fn mul_spec(self, rhs: T) -> Self {
        Self::tabulate(|b: int| self.data[b].mul_spec(rhs))
    }
}

impl<T: Mul<Output = T> + Add<Output = T> + Default + Copy + From<u8>, const N: usize> Vector<T, N> {
    /// The dot product, as a spec value.
    pub open spec fn spec_dot(self, other: Self) -> T {
        sum_products(zero::<T>(), self.data@, other.data@, N as int)
    }

    /// The dot product: the products of matching components added to
    /// `T::from(0)` in index order.
    pub fn dot(&self, other: &Self) -> (r: T)
        requires
            ring_ops::<T>(),
            sum_products_defined(zero::<T>(), self.data@, other.data@, N as int),
        ensures
            r == self.spec_dot(*other),
    {
        let mut acc = T::from(0u8);
        let ghost start = acc;
        let mut k: usize = 0;
        while k < N
            invariant
                ring_ops::<T>(),
                start == zero::<T>(),
                0 <= k <= N,
                sum_products_defined(start, self.data@, other.data@, N as int),
                acc == sum_products(start, self.data@, other.data@, k as int),
            decreases N - k,
        {
            assert(product_step_defined(start, self.data@, other.data@, k as int));
            acc = acc + self.data[k] * other.data[k];
            k += 1;
        }
        acc
    }
}

} // verus!
