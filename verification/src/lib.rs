//! A binary wire-protocol codec for a broker-style messaging protocol:
//! typed, versioned request/response structures are turned into byte streams
//! and back, with byte-exact framing across negotiated protocol versions.

pub mod acks;
pub mod api;
pub mod api_key;
pub mod arrays;
pub mod crc;
pub mod error;
pub mod fetch;
pub mod headers;
pub mod isolation_level;
pub mod list_offsets;
pub mod metadata;
pub mod network;
pub mod primitives;
pub mod produce;
pub mod records;
pub mod status;
pub mod strings;
pub mod tagged;
pub mod utf8;
pub mod uuid;
pub mod varint;
