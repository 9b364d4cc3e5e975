//! Layout type for `SSAValue`.
use vstd::prelude::*;

use crate::data::text::{signed_dec_chars, signed_dec_string};

verus! {

/// A Julia `SSAValue`.
#[derive(Clone, Copy)]
pub struct SSAValue(isize);

impl View for SSAValue {
    type V = isize;

    closed spec fn view(&self) -> isize {
        self.0
    }
}

impl SSAValue {
    /// Wraps the id of an `SSAValue`, as it is found in Julia data.
    pub fn new(id: isize) -> (r: Self)
        ensures
            r@ == id,
    {
        SSAValue(id)
    }

    /// Returns the id of the `SSAValue`.
    pub fn id(self) -> (r: isize)
        ensures
            r == self@,
    {
        self.0
    }

    /// Returns the text that `Debug` shows for this `SSAValue`: `SSAValue<id>`.
    pub fn debug_string(&self) -> (r: String)
        ensures
            r@ == "SSAValue<"@ + signed_dec_chars(self@ as int) + ">"@,
    {
        let mut s = "SSAValue<".to_owned();
        let id = signed_dec_string(self.0 as i64);
        s.append(id.as_str());
        s.append(">");
        s
    }
}

} // verus!
