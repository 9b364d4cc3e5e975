pub mod static_symbol;
