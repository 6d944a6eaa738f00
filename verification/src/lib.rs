//! Write path of an append-only, segment-based row store: typed rows are
//! serialized into a fixed-width, little-endian byte encoding and streamed,
//! one row at a time, into an immutable segment.
//!
//! The segment format is a raw concatenation of row encodings: no header, no
//! footer, no per-row length prefix. A reader must know each row's encoded
//! width from external schema knowledge to re-segment the byte stream.

pub mod errors;
pub mod field;
pub mod marshal;
pub mod row;
pub mod segment;
