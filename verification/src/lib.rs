//! Reading of LSIF dumps: newline-delimited JSON records are decoded into typed
//! elements, their identifiers are interned, and the results of every decoding
//! round are put back into the order of the input lines.

pub mod reader;
pub mod types;
