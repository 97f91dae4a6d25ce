//! A name registry: unique human-readable names mapped to owners and
//! metadata, gated by exact fee payment, with ownership transfer, fund
//! forwarding, and paginated lookup.

pub mod contract;
pub mod error;
pub mod laws;
pub mod msg;
pub mod order;
pub mod state;
pub mod validate;
