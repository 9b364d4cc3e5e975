//! Marker trait for types that provide a matching layout for Julia data.
use vstd::prelude::*;

use super::valid_layout::ValidLayout;

verus! {

/// Marker trait implemented by every type that provides a matching layout for Julia data.
pub trait MatchingLayout: ValidLayout {}

impl<T: ValidLayout> MatchingLayout for T {}

} // verus!
