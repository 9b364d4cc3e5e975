pub mod accessor;
pub mod bits;
pub mod copied;
