//! A safe, typed bridge between an application's event loop and a
//! non-blocking DNS resolver engine.
//!
//! The engine itself is driven by the embedding program; this library holds
//! the rules around it: status classification, channel bookkeeping, name
//! validation, result construction and address conversion.

pub mod callbacks;
pub mod channel;
pub mod error;
pub mod host;
pub mod hostent;
pub mod library;
pub mod soa;
pub mod text;
pub mod types;
pub mod utils;
pub mod version;
