//! Layout type for `Bool`.
//!
//! In Rust it's unsound to create an invalid `bool`, while a `Bool` in Julia can be an arbitrary
//! `i8` in some rare cases. Rather than treating all `Bool`s as `i8` or `bool`s, this crate
//! provides a custom layout for this type, [`Bool`].
use vstd::prelude::*;

use crate::data::text::{signed_dec_chars, signed_dec_string};

verus! {

/// A Julia `Bool`.
#[derive(Clone, Copy, PartialEq, Eq, Structural, PartialOrd, Ord, Hash)]
pub struct Bool(i8);

impl View for Bool {
    type V = i8;

    closed spec fn view(&self) -> i8 {
        self.0
    }
}

impl Bool {
    /// Converts a `bool` to a `Bool`: `false` is 0, `true` is 1.
    pub fn new(val: bool) -> (r: Self)
        ensures
            r@ == (if val { 1i8 } else { 0i8 }),
    {
        Bool(if val { 1 } else { 0 })
    }

    /// Wraps an arbitrary `i8`, as it can be found in Julia data.
    pub fn from_i8(val: i8) -> (r: Self)
        ensures
            r@ == val,
    {
        Bool(val)
    }

    /// Returns the value of the `Bool` as a `i8`.
    pub fn as_i8(self) -> (r: i8)
        ensures
            r == self@,
    {
        self.0
    }

    /// Returns the value of the `Bool` as a `bool` if it's 0 or 1, `None` if it isn't.
    pub fn try_as_bool(self) -> (r: Option<bool>)
        ensures
            r == (if self@ == 0 {
                Some(false)
            } else if self@ == 1 {
                Some(true)
            } else {
                None
            }),
    {
        match self.0 {
            0 => Some(false),
            1 => Some(true),
            _ => None,
        }
    }

    /// Returns the value of the `Bool` as a `bool`: every value but 0 is `true`.
    pub fn as_bool(self) -> (r: bool)
        ensures
            r == (self@ != 0),
    {
        self.0 != 0
    }
}

/// The text that `Debug` shows for a `Bool` with value `v`.
pub open spec fn bool_debug_chars(v: i8) -> Seq<char> {
    if v == 0 {
        "false"@
    } else if v == 1 {
        "true"@
    } else {
        signed_dec_chars(v as int) + " <invalid bool>"@
    }
}

impl Bool {
    /// Returns the text that `Debug` shows for this `Bool`: `false`, `true`, or the value
    /// followed by ` <invalid bool>`.
    pub fn debug_string(&self) -> (r: String)
        ensures
            r@ == bool_debug_chars(self@),
    {
        match self.0 {
            0 => "false".to_owned(),
            1 => "true".to_owned(),
            n => {
                let mut s = signed_dec_string(n as i64);
                s.append(" <invalid bool>");
                s
            },
        }
    }
}

/// Converting a `bool` to a `Bool` and back gives the same `bool`, whichever of the two ways
/// back is taken.
pub proof fn lemma_bool_round_trip(val: bool, b: Bool)
    requires
        b@ == (if val { 1i8 } else { 0i8 }),
    ensures
        (b@ != 0) == val,
        (if b@ == 0 {
            Some(false)
        } else if b@ == 1 {
            Some(true)
        } else {
            None
        }) == Some(val),
{
}

} // verus!
