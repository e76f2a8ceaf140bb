//! The decoding side: identifier interning, the element decoder and the
//! ordering rules of the reading pipeline.

pub mod deserialize;
pub mod interner;
pub mod json;
pub mod reader;
pub mod types;
