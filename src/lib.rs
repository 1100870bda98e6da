//! Decoding of key-value store replies into market statistics records, and
//! the request-time decisions around them.

pub mod reply;
pub mod types;
pub mod decode;
pub mod hash;
pub mod world;
pub mod query;
pub mod metrics;
