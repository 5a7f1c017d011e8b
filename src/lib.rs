//! Fixed-width little-endian codec for 32-bit integers, UTF-8 text and
//! integer "shape" sequences, with the decisions behind whole-file reads.

pub mod error;
pub mod base;
pub mod persist;
