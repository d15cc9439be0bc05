//! Componentwise midpoint of two vectors.
use vstd::prelude::*;
use std::ops::{Add, Div};
use vstd::std_specs::convert::FromSpec;
use vstd::std_specs::ops::{AddSpec, DivSpec};

use super::Vector;
use crate::scalar::two;

verus! {

impl<T: Copy + Add<Output = T> + Div<Output = T> + From<u8>, const N: usize> Vector<T, N> {
    /// Each component's sum, and that sum's division by two, are defined.
    pub open spec fn halfway_defined(first: Self, second: Self) -> bool {
        &&& T::obeys_add_spec()
        &&& <T as FromSpec<u8>>::obeys_from_spec()
        &&& forall|b: int|
            0 <= b < N ==> #[trigger] first.data[b].add_req(second.data[b])
                && first.data[b].add_spec(second.data[b]).div_req(two::<T>())
    }

    /// The componentwise average `(first[i] + second[i]) / 2`.
    pub open spec fn spec_halfway(first: Self, second: Self) -> Self {
        Self::tabulate(|b: int| first.data[b].add_spec(second.data[b]).div_spec(two::<T>()))
    }

    /// The point halfway between `first` and `second`: `(first[i] + second[i]) / 2`
    /// in each component, two being `T::from(2)`.
    pub fn halfway(first: &Self, second: &Self) -> (r: Self)
        requires
            Self::halfway_defined(*first, *second),
        ensures
            T::obeys_div_spec() ==> r == Self::spec_halfway(*first, *second),
    {
        let divisor = T::from(2u8);
        let mut data = first.data;
        let mut j: usize = 0;
        while j < N
            invariant
                0 <= j <= N,
                divisor == two::<T>(),
                Self::halfway_defined(*first, *second),
                forall|b: int|
                    0 <= b < j && T::obeys_div_spec() ==> #[trigger] data[b] == first.data[b].add_spec(
                        second.data[b],
                    ).div_spec(two::<T>()),
            decreases N - j,
        {
            data[j] = (first.data[j] + second.data[j]) / divisor;
            j += 1;
        }
        let r = Vector { data };
        proof {
            if T::obeys_div_spec() {
                Self::lemma_tabulate_unique(
                    r,
                    |b: int| first.data[b].add_spec(second.data[b]).div_spec(two::<T>()),
                );
            }
        }
        r
    }
}

} // verus!
