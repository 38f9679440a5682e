//! The OpenAI-compatible wire: per-vendor dialects and the mapping between
//! the contract and the wire.
pub mod arrival;
pub mod dialect;
pub mod dialects;
pub mod error;
pub mod map;
pub mod provider;
pub mod stream_laws;
pub mod stream_map;
pub mod wire_laws;
