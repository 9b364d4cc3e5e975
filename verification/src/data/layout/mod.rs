//! Layouts of Julia data.
pub mod bool;
pub mod char;
pub mod is_bits;
pub mod julia_enum;
pub mod matching_layout;
pub mod nothing;
pub mod ssa_value;
pub mod tuple;
pub mod typed_layout;
pub mod valid_layout;
