//! What the layers around the handlers decide.

pub mod access;
pub mod admission;
pub mod filter;
pub mod metrics;
pub mod nonce;
