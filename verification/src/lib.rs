//! A verified core of data layouts and n-dimensional indexing for Julia data.
pub mod data;
