//! Names for scalar values and for what a scalar type's operators provide.
use vstd::prelude::*;
use std::ops::{Add, Mul};
use vstd::std_specs::convert::FromSpec;
use vstd::std_specs::ops::{AddSpec, MulSpec};

verus! {

/// Whether `x` is a value that `T::default()` returns.
pub open spec fn is_default<T: Default>(x: T) -> bool {
    call_ensures(T::default, (), x)
}

/// A value that `T::default()` returns.
pub open spec fn default_of<T: Default>() -> T {
    choose|x: T| is_default(x)
}

/// `T::default()` always returns the same value, as it does for the primitive number types.
pub open spec fn default_is_fixed<T: Default>() -> bool {
    forall|x: T| #[trigger] is_default(x) ==> x == default_of::<T>()
}

/// The scalar zero, `T::from(0u8)`.
pub open spec fn zero<T: From<u8>>() -> T {
    <T as FromSpec<u8>>::from_spec(0u8)
}

/// The scalar one, `T::from(1u8)`.
pub open spec fn one<T: From<u8>>() -> T {
    <T as FromSpec<u8>>::from_spec(1u8)
}

/// The scalar two, `T::from(2u8)`.
pub open spec fn two<T: From<u8>>() -> T {
    <T as FromSpec<u8>>::from_spec(2u8)
}

/// Scalars whose `+`, `*` and conversion from `u8` are specified (the
/// primitive unsigned integer types, for instance).
pub open spec fn ring_ops<T: Add<Output = T> + Mul<Output = T> + From<u8>>() -> bool {
    &&& T::obeys_add_spec()
    &&& T::obeys_mul_spec()
    &&& <T as FromSpec<u8>>::obeys_from_spec()
}

} // verus!
