use vstd::prelude::*;

verus! {

/// Every way an oracle instruction can fail. A failed instruction changes nothing.
#[derive(Clone, Copy, Debug, PartialEq, Eq, Structural)]
pub enum ErrorCode {
    /// The instruction is not allowed in the round's current phase.
    InvalidPhase,
    /// The reveal window has ended.
    RevealPhaseClosed,
    /// The revealed vote and nonce do not hash to the stored commitment.
    InvalidReveal,
    /// The collusion proof does not hash to the node's commitment.
    InvalidCollusion,
    /// The reveal window has not ended yet.
    RevealPhaseNotClosed,
    /// The node holds no commitment.
    NotCommitted,
    /// The node already holds a commitment.
    AlreadyCommitted,
    /// The node already revealed its vote.
    AlreadyRevealed,
    /// Joining is only possible before the reveal phase.
    InvalidPhaseForJoining,
    /// The round already holds its maximum number of nodes.
    MaxNodesReached,
    /// The signer is not the identity that owns the account.
    UnauthorizedAccess,
    /// The node never escrowed stake in this round.
    NodeNotJoined,
    /// A balance cannot cover the amount that has to leave it.
    InsufficientFunds,
    /// A balance, counter or timestamp would leave its integer range.
    ArithmeticOverflow,
    /// The node was slashed and can take no further part in the round.
    AlreadySlashed,
    /// The same node appears twice in the set to resolve.
    DuplicateNode,
}

} // verus!
