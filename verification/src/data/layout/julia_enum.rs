//! Traits for primitive types and Julia enums.
use vstd::prelude::*;

use super::{bool::Bool, char::Char};

verus! {

/// A primitive type: its value is stored as `N_BITS` bytes.
pub trait PrimitiveType: Copy {
    /// The size of the type, in bytes.
    const N_BITS: usize;
}

/// A primitive integer type.
pub trait IntegerType: PrimitiveType {}

impl PrimitiveType for u8 {
    const N_BITS: usize = 1;
}

impl PrimitiveType for u16 {
    const N_BITS: usize = 2;
}

impl PrimitiveType for u32 {
    const N_BITS: usize = 4;
}

impl PrimitiveType for u64 {
    const N_BITS: usize = 8;
}

impl PrimitiveType for usize {
    const N_BITS: usize = usize::BITS as usize / 8;
}

impl PrimitiveType for i8 {
    const N_BITS: usize = 1;
}

impl PrimitiveType for i16 {
    const N_BITS: usize = 2;
}

impl PrimitiveType for i32 {
    const N_BITS: usize = 4;
}

impl PrimitiveType for i64 {
    const N_BITS: usize = 8;
}

impl PrimitiveType for isize {
    const N_BITS: usize = usize::BITS as usize / 8;
}

impl PrimitiveType for bool {
    const N_BITS: usize = 1;
}

impl PrimitiveType for char {
    const N_BITS: usize = 4;
}

impl PrimitiveType for Bool {
    const N_BITS: usize = 1;
}

impl PrimitiveType for Char {
    const N_BITS: usize = 4;
}

impl IntegerType for u8 {}

impl IntegerType for u16 {}

impl IntegerType for u32 {}

impl IntegerType for u64 {}

impl IntegerType for usize {}

impl IntegerType for i8 {}

impl IntegerType for i16 {}

impl IntegerType for i32 {}

impl IntegerType for i64 {}

impl IntegerType for isize {}

impl IntegerType for bool {}

impl IntegerType for char {}

impl IntegerType for Bool {}

impl IntegerType for Char {}

/// A Julia enum: a type whose values are represented by values of an integer type.
pub trait Enum {
    /// The integer type that represents the values of this enum.
    type Super: IntegerType;

    /// Returns the integer that represents `self`.
    fn as_super(&self) -> Self::Super;
}

} // verus!
