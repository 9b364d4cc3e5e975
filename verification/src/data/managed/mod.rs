//! Managed types: Julia data that Rust refers to.
use vstd::prelude::*;

pub mod array;
pub mod ccall_ref;
pub mod named_tuple;
pub mod parachute;
pub mod string;
pub mod symbol;
pub mod union;

verus! {

/// A reference to Julia data that is not guaranteed to be rooted, identified by the address of
/// the data, which is never null.
///
/// The garbage collector may free data that is not reachable from a root, so the data is only
/// valid as long as it is reachable.
#[derive(Clone, Copy)]
pub struct Ref<'scope, 'data> {
    ptr: usize,
    _scope: core::marker::PhantomData<&'scope ()>,
    _data: core::marker::PhantomData<&'data ()>,
}

impl<'scope, 'data> Ref<'scope, 'data> {
    /// The address of the referenced data.
    pub closed spec fn address(&self) -> usize {
        self.ptr
    }

    /// Creates a reference to the data at `ptr`, which must not be null.
    pub fn wrap(ptr: usize) -> (r: Self)
        requires
            ptr != 0,
        ensures
            r.address() == ptr,
    {
        Ref { ptr, _scope: core::marker::PhantomData, _data: core::marker::PhantomData }
    }

    /// Extends the `'scope` lifetime to `'static`, which allows this reference to Julia data to
    /// be leaked from a scope. The reference still refers to the same data.
    pub fn leak(self) -> (r: Ref<'static, 'data>)
        ensures
            r.address() == self.address(),
    {
        proof {
            use_type_invariant(&self);
        }
        Ref { ptr: self.ptr, _scope: core::marker::PhantomData, _data: core::marker::PhantomData }
    }

    /// Returns the address of the data, which is never null.
    pub fn data_ptr(self) -> (r: usize)
        ensures
            r == self.address(),
            r != 0,
    {
        proof {
            use_type_invariant(&self);
        }
        self.ptr
    }

    #[verifier::type_invariant]
    spec fn not_null(self) -> bool {
        self.ptr != 0
    }
}

} // verus!
