//! Schema-driven decoder from JSON-encoded dataset rows to typed,
//! column-oriented buffers, with geometry columns and a documented
//! null/failure-tolerance policy.
//!
//! Doubles are carried as IEEE 754 bit patterns and timestamps as whole
//! epoch seconds, so every decoding rule is stated and proved over plain
//! values; a host-facing layer may turn the bit patterns back into
//! floating-point numbers.

pub mod column;
pub mod json;
pub mod parse;
pub mod table;
pub mod timestamp;
