//! Parsing of the header of a WZ game-asset container and recovery of the
//! XOR key that obfuscates its internal string table.
//!
//! The library is built from two pieces: a bounds-checked byte cursor over an
//! immutable buffer (`cursor`), and the header parser / key deducer that
//! drives it (`header`, `deduce`). All binary decoding goes through the
//! cursor; every read that would run past the end of the buffer reports
//! `WzError::OutOfBounds` instead of returning partial data.

pub mod codec;
pub mod cursor;
pub mod deduce;
pub mod error;
pub mod header;

pub use error::WzError;
