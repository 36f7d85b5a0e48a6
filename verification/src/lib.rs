//! Parsers for the components of the generic URI syntax.
//!
//! Each ABNF production of the URI grammar is an executable function over a
//! byte buffer together with a start position; on success it reports the
//! parsed value and the position where the unconsumed remainder begins.
//! Spans into the input are reported as index ranges, so no character data
//! is ever copied out of the caller's buffer.

pub mod authority;
pub mod chars;
pub mod digits;
pub mod laws;
pub mod parts;
pub mod paths;
pub mod pct;
pub mod scan;
pub mod types;
