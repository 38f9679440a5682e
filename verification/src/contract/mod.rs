//! The boundary contract: plain data types and the ports around them.
pub mod approval;
pub mod attrs;
pub mod capabilities;
pub mod context;
pub mod error;
pub mod error_kinds;
pub mod eval;
pub mod event;
pub mod live;
pub mod log;
pub mod message;
pub mod message_laws;
pub mod profile;
pub mod request;
pub mod state;
pub mod stream;
pub mod testing;
pub mod value_laws;
