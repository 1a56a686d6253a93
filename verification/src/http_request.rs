//! The values that a transaction client sends and receives, and the rules
//! it applies to them. Sending and receiving is left to the caller.

pub mod broadcast_transaction;
pub mod monitor_transaction;
