//! Marker trait for layouts that only use `isbits` types.
//!
//! An `isbits` type is an immutable type that doesn't contain any references to Julia data.
use vstd::prelude::*;

use super::{bool::Bool, char::Char, nothing::Nothing, ssa_value::SSAValue};

verus! {

/// Indicates that this type maps to an `isbits` type.
pub trait IsBits {}

impl IsBits for bool {}

impl IsBits for i8 {}

impl IsBits for i16 {}

impl IsBits for i32 {}

impl IsBits for i64 {}

impl IsBits for isize {}

impl IsBits for u8 {}

impl IsBits for u16 {}

impl IsBits for u32 {}

impl IsBits for u64 {}

impl IsBits for usize {}

impl IsBits for Bool {}

impl IsBits for Char {}

impl IsBits for Nothing {}

impl IsBits for SSAValue {}

} // verus!
