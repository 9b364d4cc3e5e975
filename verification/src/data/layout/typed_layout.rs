//! Fully-typed layout.
//!
//! Layouts don't necessarily use all type parameters of a Julia type, for example when a
//! parameter is a value type or is only used by fields which have a mutable type. For this
//! purpose [`TypedLayout`] and [`HasLayout`] exist. A `TypedLayout` wraps a layout and a type
//! constructor, `HasLayout` declares what layout is associated with a type constructor.
use vstd::prelude::*;

use super::{bool::Bool, char::Char, nothing::Nothing, ssa_value::SSAValue};

verus! {

/// Associate a layout with a type constructor.
pub trait HasLayout {
    /// The layout associated with this type constructor.
    type Layout;
}

impl HasLayout for Bool {
    type Layout = Bool;
}

impl HasLayout for Char {
    type Layout = Char;
}

impl HasLayout for Nothing {
    type Layout = Nothing;
}

impl HasLayout for SSAValue {
    type Layout = SSAValue;
}

impl HasLayout for bool {
    type Layout = bool;
}

impl HasLayout for i8 {
    type Layout = i8;
}

impl HasLayout for i16 {
    type Layout = i16;
}

impl HasLayout for i32 {
    type Layout = i32;
}

impl HasLayout for i64 {
    type Layout = i64;
}

impl HasLayout for isize {
    type Layout = isize;
}

impl HasLayout for u8 {
    type Layout = u8;
}

impl HasLayout for u16 {
    type Layout = u16;
}

impl HasLayout for u32 {
    type Layout = u32;
}

impl HasLayout for u64 {
    type Layout = u64;
}

impl HasLayout for usize {
    type Layout = usize;
}

/// A layout annotated with its type constructor.
pub struct TypedLayout<L, T> {
    data: L,
    _ty: core::marker::PhantomData<T>,
}

impl<L, T> TypedLayout<L, T> {
    /// The layout that is wrapped.
    pub closed spec fn layout(&self) -> L {
        self.data
    }

    /// Convert `data` to a `TypedLayout` with an arbitrary type constructor `T`; `L` must be a
    /// valid layout for `T`.
    pub fn new_relaxed(data: L) -> (r: Self)
        ensures
            r.layout() == data,
    {
        TypedLayout { data, _ty: core::marker::PhantomData }
    }

    /// Convert a typed layout to its layout.
    pub fn into_layout(self) -> (r: L)
        ensures
            r == self.layout(),
    {
        self.data
    }
}

impl<T: HasLayout> TypedLayout<T::Layout, T> {
    /// Convert `data` to a `TypedLayout`.
    pub fn new(data: T::Layout) -> (r: Self)
        ensures
            r.layout() == data,
    {
        TypedLayout { data, _ty: core::marker::PhantomData }
    }
}

impl<L: Clone, T> Clone for TypedLayout<L, T> {
    fn clone(&self) -> (r: Self)
        ensures
            cloned::<L>(self.layout(), r.layout()),
    {
        TypedLayout { data: self.data.clone(), _ty: core::marker::PhantomData }
    }
}

} // verus!
