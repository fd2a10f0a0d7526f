//! A codec for the PNG chunk container: four-byte chunk type codes, checksummed
//! chunk records, and whole documents that can be searched, extended and
//! written back byte for byte.

pub mod checksum;
pub mod chunk;
pub mod chunk_type;
pub mod commands;
pub mod endian;
pub mod error;
pub mod png;
pub mod text;

pub use chunk::Chunk;
pub use chunk_type::ChunkType;
pub use error::Error;
pub use png::Png;
