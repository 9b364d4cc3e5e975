//! The return type of `ccall`ed functions that return a Julia `Ref{T}`.
use vstd::prelude::*;

verus! {

/// A typed value used as the return type of a `ccall`ed function.
///
/// A function that returns this type is called from Julia with a `ccall` that returns `Ref{T}`
/// rather than `Any`. The value itself is handed through unchanged.
pub struct CCallRefRet<V>(V);

impl<V> CCallRefRet<V> {
    /// The value that will be returned.
    pub closed spec fn value(&self) -> V {
        self.0
    }

    /// Wraps a typed value so that it is returned as a `Ref`.
    pub fn new(value: V) -> (r: Self)
        ensures
            r.value() == value,
    {
        CCallRefRet(value)
    }

    /// Returns the wrapped typed value.
    pub fn into_typed_value(self) -> (r: V)
        ensures
            r == self.value(),
    {
        self.0
    }
}

} // verus!
