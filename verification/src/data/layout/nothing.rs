//! Layout type for `Nothing`.
use vstd::prelude::*;

verus! {

/// The layout of Julia's `nothing`, which has no fields.
#[derive(Copy, Clone, Debug, PartialEq, Eq, Structural)]
pub struct Nothing;

} // verus!
