//! A binary chunk codec: length-prefixed, type-tagged, checksum-verified
//! containers of opaque payload bytes, with parse and serialize proved
//! inverse of each other.

pub mod chunk;
pub mod chunk_type;
pub mod text;

pub use chunk::Chunk;
pub use chunk::FormatError;
pub use chunk_type::ChunkType;
pub use chunk_type::ValidationError;
