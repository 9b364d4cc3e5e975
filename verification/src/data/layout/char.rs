//! Layout type for `Char`.
//!
//! In Rust it's unsound to create an invalid `char`, while a `Char` in Julia can be an arbitrary
//! `u32` in some rare cases. Rather than treating all `Char`s as `u32` or `char`s, this crate
//! provides a custom layout for this type, [`Char`].
use vstd::prelude::*;

use crate::data::text::{char_to_string, hex_chars, hex_string_padded, zero_padded};

verus! {

/// True if `v` is a Unicode scalar value, i.e. a valid `char`: at most `0x10FFFF` and not a
/// surrogate code point (`0xD800..=0xDFFF`).
pub open spec fn is_char_value(v: u32) -> bool {
    v <= 0xD7FF || (0xE000 <= v && v <= 0x10FFFF)
}

/// `char::from_u32`: returns the `char` with value `v` if `v` is a valid `char`, `None` if it
/// isn't. Its documentation states that it returns `None` exactly for values that are not
/// Unicode scalar values, and otherwise the `char` with that value.
#[verifier::external_body]
fn char_from_u32(v: u32) -> (r: Option<char>)
    ensures
        r is Some <==> is_char_value(v),
        r matches Some(c) ==> c as u32 == v && c == v as char,
{
    char::from_u32(v)
}

/// A Julia `Char`.
#[derive(Clone, Copy, PartialEq, Eq, Structural, PartialOrd, Ord, Hash)]
pub struct Char(u32);

impl View for Char {
    type V = u32;

    closed spec fn view(&self) -> u32 {
        self.0
    }
}

impl Char {
    /// Converts a `char` to a `Char`.
    pub fn new(val: char) -> (r: Self)
        ensures
            r@ == val as u32,
    {
        Char(val as u32)
    }

    /// Wraps an arbitrary `u32`, as it can be found in Julia data.
    pub fn from_u32(val: u32) -> (r: Self)
        ensures
            r@ == val,
    {
        Char(val)
    }

    /// Returns the value of the `Char` as a `u32`.
    pub fn as_u32(self) -> (r: u32)
        ensures
            r == self@,
    {
        self.0
    }

    /// Returns the value of the `Char` as a `char` if it's valid, `None` if it isn't.
    pub fn try_as_char(self) -> (r: Option<char>)
        ensures
            r is Some <==> is_char_value(self@),
            r matches Some(c) ==> c as u32 == self@ && c == self@ as char,
    {
        char_from_u32(self.0)
    }
}

/// The text that `Debug` shows for a `Char` with value `v`: the character itself if it is
/// valid, and otherwise its value in hexadecimal followed by ` <invalid char>`.
pub open spec fn char_debug_chars(v: u32) -> Seq<char> {
    if is_char_value(v) {
        seq![v as char]
    } else {
        "0x"@ + zero_padded(hex_chars(v as nat), 8) + " <invalid char>"@
    }
}

impl Char {
    /// Returns the text that `Debug` shows for this `Char`.
    pub fn debug_string(&self) -> (r: String)
        ensures
            r@ == char_debug_chars(self@),
    {
        match char_from_u32(self.0) {
            Some(ch) => char_to_string(ch),
            None => {
                let mut s = "0x".to_owned();
                let h = hex_string_padded(self.0 as u64, 8);
                s.append(h.as_str());
                s.append(" <invalid char>");
                s
            },
        }
    }
}

/// Every `char` is a valid `Char`: converting it to a `Char` and back with
/// [`Char::try_as_char`] gives the same `char`.
pub proof fn lemma_char_round_trip(c: char, ch: Char)
    requires
        ch@ == c as u32,
    ensures
        is_char_value(ch@),
        ch@ as char == c,
{
}

} // verus!
