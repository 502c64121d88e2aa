//! A verified token registry: unique, ownable digital assets backed by four
//! coupled indices, with byte-priced storage accounting on the purchase-mint
//! path and an explicit refund decision for unused prepayments.
//!
//! The registry itself is pure, verified code. The surrounding execution
//! environment (persistent storage, attached deposits, asynchronous value
//! transfers) is expected to drive it from outside: it hands plain values in,
//! and performs the refund transfers the registry decides on.

pub mod strmap;
pub mod types;
pub mod registry;
pub mod laws;
