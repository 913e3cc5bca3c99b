//! Wallet consolidation for a node's on-chain funds: which coins to merge,
//! how user arguments resolve to a fee rate and a minimum count, and the
//! decisions of the recurring "consolidate once fees drop" job.

pub mod select;
pub mod parse;
pub mod schedule;
