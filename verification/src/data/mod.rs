pub mod layout;
pub mod text;
pub mod managed;
