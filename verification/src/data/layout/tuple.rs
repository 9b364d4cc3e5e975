//! Tuple layouts.
use vstd::prelude::*;

verus! {

/// A tuple that has an arbitrary number of fields.
#[derive(Clone, Copy, Debug, PartialEq, Eq, Structural)]
pub struct Tuple;

/// A tuple with `N` fields that all have the type `T`.
pub struct NTuple<T, const N: usize> {
    _marker: core::marker::PhantomData<[T; N]>,
}

} // verus!
