//! An asynchronous DNS resolution adapter, modelled after a c-ares style
//! resolution engine.
//!
//! The crate decodes raw answer buffers into typed record sets (A, AAAA,
//! SRV), exposes host entries with address and alias iterators over
//! sentinel-terminated arrays, and keeps the bookkeeping that guarantees
//! each submitted query's completion handler fires exactly once.

pub mod channel;
pub mod error;
pub mod host;
pub mod hostent;
pub mod srv;
pub mod types;
pub mod utils;
pub mod a;
pub mod aaaa;
pub mod wire;
