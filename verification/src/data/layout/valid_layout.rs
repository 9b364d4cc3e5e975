//! Traits to check if a Rust type and a Julia type have matching layouts.
//!
//! Julia types are identified by the address of their type object. The answers of these checks
//! are what [`check_array_shape`] and the accessors of bits-union arrays take as the layout
//! verdict.
//!
//! [`check_array_shape`]: crate::data::managed::array::check_array_shape
use vstd::prelude::*;

verus! {

/// Checks if a Rust type and a Julia type have matching layouts.
pub trait ValidLayout {
    /// Returns whether the layout of the implementor is compatible with the layout of the Julia
    /// type `ty`.
    fn valid_layout(ty: usize) -> bool;
}

/// Checks if a Rust type is the representation of a field of a Julia type.
pub trait ValidField {
    /// Returns whether `Self` is the correct representation of Julia data of the type `ty` when
    /// it's used as a field type.
    fn valid_field(ty: usize) -> bool;
}

} // verus!
