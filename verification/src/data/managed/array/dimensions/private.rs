use vstd::prelude::*;
use super::Dims;

verus! {

pub trait CompatibleIndicesPriv {}

impl<A: Dims, B: Dims> CompatibleIndicesPriv for (A, B) {}

} // verus!
