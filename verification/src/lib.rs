//! A verified PNG chunk codec: typed chunk-type codes, length-prefixed and
//! CRC-protected chunks, and an ordered chunk container forming a whole file.
//! Parsing validates the PNG chunk grammar and checksum; serialization is the
//! exact inverse of parsing.

pub mod args;
pub mod chunk;
pub mod chunk_type;
pub mod crc32;
pub mod error;
pub mod png;
pub mod text;
