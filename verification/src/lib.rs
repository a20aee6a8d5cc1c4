//! Coordination core for a transaction-aggregation protocol: independently
//! signed single-input/single-output Bitcoin transactions are validated,
//! quantized into fee-rate buckets, and accumulated in per-bucket groups
//! until a group is ready to be handed off for batching.

pub mod fee;
pub mod group;
pub mod handler;
pub mod registry;
pub mod tx;
pub mod validation;
