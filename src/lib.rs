//! A commit-reveal binary oracle with staked collateral.
//!
//! Nodes join a round by escrowing a fixed collateral into the round's pool,
//! commit to a hidden vote, reveal it, and the round resolves to the majority
//! bit. Stake forfeited by slashed or silent nodes is shared among the nodes
//! that voted with the majority.
//!
//! Policies: the number of nodes is capped by `max_nodes`; `Precommit` is a
//! phase of its own; a round is used once and ends in `Complete`; a collusion
//! slash forfeits the stake the node escrowed in the pool, which is shared out
//! at resolution; a slashed node can take no further action. The clock and
//! the caller's identity are plain arguments.

pub mod error;
pub mod state;
pub mod ledger;
pub mod commitment;
pub mod instructions;
pub mod settlement;
pub mod laws;

pub use error::ErrorCode;
pub use state::{Node, NodeSlashed, Oracle, Phase, Wallet};
pub use ledger::transfer;
pub use commitment::{bytes_eq, compute_commitment, preimage};
pub use instructions::{
    apply_reveal, apply_slash, commit, initialize, join_network, reveal_vote, slash_colluding, start_request, Commit,
    Initialize, JoinNetwork, Reveal, SlashColluding, StartRequest,
};
pub use settlement::{resolve, settlement_terms, tally, Resolve, Settlement, Tally};
