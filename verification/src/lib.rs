//! Chunk codec for a PNG-like container: four-byte chunk type codes and
//! length-prefixed, checksummed chunk records.

pub mod checksum;
pub mod chunk;
pub mod chunk_type;
pub mod error;
pub mod text;
pub mod wire;
