//! The accounts of an oracle round: the round itself, its nodes and the
//! wallets that fund them.
use vstd::prelude::*;

verus! {

/// The phases of a round, in the only order in which they can follow each other.
#[derive(Clone, Copy, Debug, PartialEq, Eq, Structural)]
pub enum Phase {
    Precommit,
    Commit,
    Reveal,
    Complete,
}

/// The position of a phase in the sequence `Precommit, Commit, Reveal, Complete`.
pub open spec fn phase_rank(p: Phase) -> nat {
    match p {
        Phase::Precommit => 0,
        Phase::Commit => 1,
        Phase::Reveal => 2,
        Phase::Complete => 3,
    }
}

/// A round of the oracle. `lamports` is the round's pooled balance: every
/// escrowed collateral and every forfeited stake sits there until paid out.
#[derive(Clone, Copy, Debug, PartialEq, Eq)]
pub struct Oracle {
    /// The address of the round's account.
    pub key: [u8; 32],
    /// The identity allowed to start the round.
    pub authority: [u8; 32],
    /// The stake every node escrows on joining.
    pub collateral: u64,
    pub is_resolved: bool,
    /// The consensus bit; meaningful once `is_resolved` holds.
    pub resolution_bit: bool,
    pub phase: Phase,
    /// The last instant at which a reveal is accepted; set when the reveal phase opens.
    pub reveal_end_time: i64,
    /// The length of the reveal window.
    pub reveal_duration: i64,
    pub max_nodes: u64,
    pub total_nodes: u64,
    pub committed_nodes: u64,
    /// The round's pooled balance.
    pub lamports: u64,
}

impl Oracle {
    /// The counters stay in order: `committed_nodes <= total_nodes <= max_nodes`.
    pub open spec fn wf(&self) -> bool {
        self.committed_nodes <= self.total_nodes <= self.max_nodes
    }
}

/// A node of a round: one staked participant.
#[derive(Clone, Copy, Debug, PartialEq, Eq)]
pub struct Node {
    /// The address of the node's account.
    pub key: [u8; 32],
    /// The address of the round the node joined.
    pub oracle: [u8; 32],
    /// The identity allowed to act for the node.
    pub authority: [u8; 32],
    /// Whether the node's collateral was escrowed in the round's pool.
    pub stake_posted: bool,
    /// The commitment `H(vote byte ++ nonce)`, once committed.
    pub vote_hash: Option<[u8; 32]>,
    /// The vote, once revealed.
    pub vote: Option<bool>,
    /// Once set, the node receives no reward and its vote is not counted.
    pub slashed: bool,
    /// The node account's own balance; rewards are paid into it.
    pub lamports: u64,
}

impl Node {
    /// The node escrowed stake in the round whose address is `oracle`.
    pub open spec fn member_of(&self, oracle: [u8; 32]) -> bool {
        self.stake_posted && self.oracle@ == oracle@
    }
}

/// An outside identity with a balance, such as the payer of a node's stake.
#[derive(Clone, Copy, Debug, PartialEq, Eq)]
pub struct Wallet {
    pub key: [u8; 32],
    pub lamports: u64,
}

/// The notification that a slash produces: which node of which round lost its stake.
#[derive(Clone, Copy, Debug, PartialEq, Eq)]
pub struct NodeSlashed {
    pub oracle: [u8; 32],
    pub slashed_node: [u8; 32],
}

} // verus!
