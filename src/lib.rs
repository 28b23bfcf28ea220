//! Blockchain validation and node orchestration: hash-linked header chains, blocks that commit to
//! their extrinsics and post-state, pluggable consensus engines, fork-choice rules, transaction
//! pools and a full client that imports and authors blocks.
pub mod hashing;
pub mod header_chain;
pub mod extrinsic_state;
pub mod pow_chain;
pub mod batched;
pub mod rich_state;
pub mod fork_choice;
pub mod consensus;
pub mod engines;
pub mod state_machine;
pub mod block;
pub mod pool;
pub mod client;
pub mod machines;
pub mod currency;
pub mod cash;
