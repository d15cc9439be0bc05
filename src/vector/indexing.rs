//! Component access by position.
use vstd::prelude::*;
use std::ops::{Index, IndexMut};

use super::Vector;

verus! {

impl<T, const N: usize> Index<usize> for Vector<T, N> {
    type Output = T;

    /// The component at position `i`; an index out of range panics.
    fn index(&self, i: usize) -> (r: &T)
        ensures
            *r == self.data[i as int],
    {
        &self.data[i]
    }
}

impl<T, const N: usize> vstd::std_specs::core::IndexSpecImpl<usize> for Vector<T, N> {
    /// The position is in range.
    open spec fn index_req(&self, i: &usize) -> bool {
        *i < N
    }
}

impl<T, const N: usize> IndexMut<usize> for Vector<T, N> {
    /// The component at position `i`, for writing; an index out of range panics.
    fn index_mut(&mut self, i: usize) -> (r: &mut T)
        requires
            i < N,
        ensures
            *r == old(self).data[i as int],
            final(self).data[i as int] == *final(r),
            forall|a: int| 0 <= a < N && a != i ==> #[trigger] final(self).data[a] == old(self).data[a],
    {
        &mut self.data[i]
    }
}

} // verus!
