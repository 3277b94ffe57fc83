//! Reward accounting for liquidity mining: global farms fund yield farms, which pay deposits
//! by stake, time in the farm and a loyalty curve.

/// The store and its public operations.
pub mod engine;
/// Syncing, entering, claiming and leaving at the level of one farm pair.
pub mod farm;
/// Balances of assets on accounts, moved by transfers.
pub mod ledger;
/// Properties that hold across operations.
pub mod lemmas;
/// Fixed-point reward and loyalty arithmetic.
pub mod math;
/// Sums of the stakes that deposits bring to a yield farm.
pub mod tally;
/// Farm, deposit and entry records.
pub mod types;
