//! The round's instructions before settlement: creating a round, joining it,
//! starting it, committing, revealing and slashing a colluding node.
//!
//! Each instruction works on the bundle of accounts it is handed and is
//! atomic: on failure the bundle is left exactly as it was.
use vstd::prelude::*;
use crate::commitment::{bytes_eq, commitment_of, compute_commitment};
use crate::error::ErrorCode;
use crate::ledger::{transfer, transfer_spec};
use crate::state::{Node, NodeSlashed, Oracle, Phase, Wallet};

verus! {

/// The bundle after a successful instruction, or the instruction's error.
pub open spec fn settle<T>(r: Result<(), ErrorCode>, after: T) -> Result<T, ErrorCode> {
    match r {
        Ok(_) => Ok(after),
        Err(e) => Err(e),
    }
}

/// The bundle after a successful instruction together with what the
/// instruction returned, or the instruction's error.
pub open spec fn settle_with<T, U>(r: Result<U, ErrorCode>, after: T) -> Result<(T, U), ErrorCode> {
    match r {
        Ok(u) => Ok((after, u)),
        Err(e) => Err(e),
    }
}

/// The accounts that creating a round names.
#[derive(Clone, Copy, Debug)]
pub struct Initialize {
    /// The address of the new round.
    pub oracle: [u8; 32],
    /// The identity that creates, and will start, the round.
    pub authority: [u8; 32],
}

/// A fresh round: in `Precommit`, with no nodes and an empty pool.
pub open spec fn initial_oracle(
    key: [u8; 32],
    authority: [u8; 32],
    collateral: u64,
    reveal_duration: i64,
    max_nodes: u64,
) -> Oracle {
    Oracle {
        key,
        authority,
        collateral,
        is_resolved: false,
        resolution_bit: false,
        phase: Phase::Precommit,
        reveal_end_time: 0,
        reveal_duration,
        max_nodes,
        total_nodes: 0,
        committed_nodes: 0,
        lamports: 0,
    }
}

/// Creates a round owned by the signer, open for joining.
pub fn initialize(ctx: &Initialize, collateral: u64, reveal_duration: i64, max_nodes: u64) -> (r: Oracle)
    ensures
        r == initial_oracle(ctx.oracle, ctx.authority, collateral, reveal_duration, max_nodes),
        r.wf(),
{
    Oracle {
        key: ctx.oracle,
        authority: ctx.authority,
        collateral,
        is_resolved: false,
        resolution_bit: false,
        phase: Phase::Precommit,
        reveal_end_time: 0,
        reveal_duration,
        max_nodes,
        total_nodes: 0,
        committed_nodes: 0,
        lamports: 0,
    }
}

/// The accounts that joining a round names.
#[derive(Clone, Copy, Debug)]
pub struct JoinNetwork {
    pub oracle: Oracle,
    /// The address of the node to create.
    pub node: [u8; 32],
    /// The identity that owns the new node and pays its collateral.
    pub node_authority: Wallet,
}

/// What joining yields: the bundle with the collateral moved from the payer
/// to the pool and the node count raised, and the new node.
pub open spec fn join_outcome(c: JoinNetwork) -> Result<(JoinNetwork, Node), ErrorCode> {
    if !(c.oracle.phase == Phase::Precommit || c.oracle.phase == Phase::Commit) {
        Err(ErrorCode::InvalidPhaseForJoining)
    } else if c.oracle.total_nodes >= c.oracle.max_nodes {
        Err(ErrorCode::MaxNodesReached)
    } else {
        match transfer_spec(c.node_authority.lamports, c.oracle.lamports, c.oracle.collateral) {
            Err(e) => Err(e),
            Ok((w, p)) => Ok((
                JoinNetwork {
                    oracle: Oracle {
                        lamports: p,
                        total_nodes: (c.oracle.total_nodes + 1) as u64,
                        ..c.oracle
                    },
                    node_authority: Wallet { lamports: w, ..c.node_authority },
                    ..c
                },
                Node {
                    key: c.node,
                    oracle: c.oracle.key,
                    authority: c.node_authority.key,
                    stake_posted: true,
                    vote_hash: None,
                    vote: None,
                    slashed: false,
                    lamports: 0,
                },
            )),
        }
    }
}

/// Joins the round: escrows the collateral from the payer into the pool and
/// creates the node, both or neither.
pub fn join_network(ctx: &mut JoinNetwork) -> (r: Result<Node, ErrorCode>)
    ensures
        join_outcome(*old(ctx)) == settle_with(r, *final(ctx)),
        r is Err ==> *final(ctx) == *old(ctx),
        old(ctx).oracle.wf() ==> final(ctx).oracle.wf(),
{
    if !(ctx.oracle.phase == Phase::Precommit || ctx.oracle.phase == Phase::Commit) {
        return Err(ErrorCode::InvalidPhaseForJoining);
    }
    if ctx.oracle.total_nodes >= ctx.oracle.max_nodes {
        return Err(ErrorCode::MaxNodesReached);
    }
    match transfer(ctx.node_authority.lamports, ctx.oracle.lamports, ctx.oracle.collateral) {
        Err(e) => Err(e),
        Ok((w, p)) => {
            ctx.node_authority.lamports = w;
            ctx.oracle.lamports = p;
            ctx.oracle.total_nodes = ctx.oracle.total_nodes + 1;
            Ok(Node {
                key: ctx.node,
                oracle: ctx.oracle.key,
                authority: ctx.node_authority.key,
                stake_posted: true,
                vote_hash: None,
                vote: None,
                slashed: false,
                lamports: 0,
            })
        }
    }
}


/// The accounts that starting a round names.
#[derive(Clone, Copy, Debug)]
pub struct StartRequest {
    pub oracle: Oracle,
    /// The signer; it has to be the round's authority.
    pub authority: [u8; 32],
}

/// What starting yields: the round in `Commit` with no commitments counted.
pub open spec fn start_outcome(c: StartRequest) -> Result<StartRequest, ErrorCode> {
    if c.oracle.phase != Phase::Precommit {
        Err(ErrorCode::InvalidPhase)
    } else if c.authority@ != c.oracle.authority@ {
        Err(ErrorCode::UnauthorizedAccess)
    } else {
        Ok(StartRequest { oracle: Oracle { phase: Phase::Commit, committed_nodes: 0, ..c.oracle }, ..c })
    }
}

/// Opens the commit phase; only the round's authority may do so.
pub fn start_request(ctx: &mut StartRequest) -> (r: Result<(), ErrorCode>)
    ensures
        start_outcome(*old(ctx)) == settle(r, *final(ctx)),
        r is Err ==> *final(ctx) == *old(ctx),
        old(ctx).oracle.wf() ==> final(ctx).oracle.wf(),
{
    if ctx.oracle.phase != Phase::Precommit {
        return Err(ErrorCode::InvalidPhase);
    }
    if !bytes_eq(&ctx.authority, &ctx.oracle.authority) {
        return Err(ErrorCode::UnauthorizedAccess);
    }
    ctx.oracle.phase = Phase::Commit;
    ctx.oracle.committed_nodes = 0;
    Ok(())
}

/// The accounts that a commitment names.
#[derive(Clone, Copy, Debug)]
pub struct Commit {
    pub oracle: Oracle,
    pub node: Node,
    /// The signer; it has to own the node.
    pub authority: [u8; 32],
}

/// What committing `vote_hash` at time `now` yields: the node holds the
/// commitment, one more node is counted as committed, and once every node has
/// committed the reveal window opens for `reveal_duration` from `now`.
pub open spec fn commit_outcome(c: Commit, vote_hash: [u8; 32], now: i64) -> Result<Commit, ErrorCode> {
    if c.node.authority@ != c.authority@ {
        Err(ErrorCode::UnauthorizedAccess)
    } else if c.oracle.phase != Phase::Commit {
        Err(ErrorCode::InvalidPhase)
    } else if c.node.vote_hash is Some {
        Err(ErrorCode::AlreadyCommitted)
    } else if !c.node.member_of(c.oracle.key) || c.oracle.committed_nodes >= c.oracle.total_nodes {
        Err(ErrorCode::NodeNotJoined)
    } else {
        let committed = (c.oracle.committed_nodes + 1) as u64;
        let node = Node { vote_hash: Some(vote_hash), ..c.node };
        if committed < c.oracle.total_nodes {
            Ok(Commit { oracle: Oracle { committed_nodes: committed, ..c.oracle }, node, ..c })
        } else if now + c.oracle.reveal_duration > i64::MAX
            || now + c.oracle.reveal_duration < i64::MIN {
            Err(ErrorCode::ArithmeticOverflow)
        } else {
            Ok(Commit {
                oracle: Oracle {
                    committed_nodes: committed,
                    phase: Phase::Reveal,
                    reveal_end_time: (now + c.oracle.reveal_duration) as i64,
                    ..c.oracle
                },
                node,
                ..c
            })
        }
    }
}

/// Records the node's commitment; the last outstanding commitment opens the
/// reveal window.
pub fn commit(ctx: &mut Commit, vote_hash: [u8; 32], now: i64) -> (r: Result<(), ErrorCode>)
    ensures
        commit_outcome(*old(ctx), vote_hash, now) == settle(r, *final(ctx)),
        r is Err ==> *final(ctx) == *old(ctx),
        old(ctx).oracle.wf() ==> final(ctx).oracle.wf(),
{
    if !bytes_eq(&ctx.node.authority, &ctx.authority) {
        return Err(ErrorCode::UnauthorizedAccess);
    }
    if ctx.oracle.phase != Phase::Commit {
        return Err(ErrorCode::InvalidPhase);
    }
    if ctx.node.vote_hash.is_some() {
        return Err(ErrorCode::AlreadyCommitted);
    }
    if !ctx.node.stake_posted || !bytes_eq(&ctx.node.oracle, &ctx.oracle.key)
        || ctx.oracle.committed_nodes >= ctx.oracle.total_nodes {
        return Err(ErrorCode::NodeNotJoined);
    }
    let committed = ctx.oracle.committed_nodes + 1;
    if committed == ctx.oracle.total_nodes {
        match now.checked_add(ctx.oracle.reveal_duration) {
            None => {
                return Err(ErrorCode::ArithmeticOverflow);
            },
            Some(end) => {
                ctx.oracle.phase = Phase::Reveal;
                ctx.oracle.reveal_end_time = end;
            },
        }
    }
    ctx.oracle.committed_nodes = committed;
    ctx.node.vote_hash = Some(vote_hash);
    Ok(())
}

/// The accounts that a reveal names.
#[derive(Clone, Copy, Debug)]
pub struct Reveal {
    pub oracle: Oracle,
    pub node: Node,
    /// The signer; it has to own the node.
    pub authority: [u8; 32],
}

/// What revealing `vote` at time `now` yields, where `computed` is the
/// commitment recomputed from the revealed vote and nonce: the node holds the
/// vote exactly when `computed` equals its stored commitment. A slashed node
/// can no longer reveal.
pub open spec fn reveal_outcome(c: Reveal, vote: bool, computed: Seq<u8>, now: i64) -> Result<Reveal, ErrorCode> {
    if c.node.authority@ != c.authority@ {
        Err(ErrorCode::UnauthorizedAccess)
    } else if c.oracle.phase != Phase::Reveal {
        Err(ErrorCode::InvalidPhase)
    } else if now > c.oracle.reveal_end_time {
        Err(ErrorCode::RevealPhaseClosed)
    } else if c.node.vote_hash is None {
        Err(ErrorCode::NotCommitted)
    } else if c.node.slashed {
        Err(ErrorCode::AlreadySlashed)
    } else if c.node.vote is Some {
        Err(ErrorCode::AlreadyRevealed)
    } else if c.node.vote_hash.unwrap()@ != computed {
        Err(ErrorCode::InvalidReveal)
    } else {
        Ok(Reveal { node: Node { vote: Some(vote), ..c.node }, ..c })
    }
}

/// Records `vote` for the node given `computed`, the commitment recomputed
/// from the revealed vote and nonce.
pub fn apply_reveal(ctx: &mut Reveal, vote: bool, computed: &[u8; 32], now: i64) -> (r: Result<(), ErrorCode>)
    ensures
        reveal_outcome(*old(ctx), vote, computed@, now) == settle(r, *final(ctx)),
        r is Err ==> *final(ctx) == *old(ctx),
{
    if !bytes_eq(&ctx.node.authority, &ctx.authority) {
        return Err(ErrorCode::UnauthorizedAccess);
    }
    if ctx.oracle.phase != Phase::Reveal {
        return Err(ErrorCode::InvalidPhase);
    }
    if now > ctx.oracle.reveal_end_time {
        return Err(ErrorCode::RevealPhaseClosed);
    }
    match ctx.node.vote_hash {
        None => Err(ErrorCode::NotCommitted),
        Some(stored) => {
            if ctx.node.slashed {
                return Err(ErrorCode::AlreadySlashed);
            }
            if ctx.node.vote.is_some() {
                return Err(ErrorCode::AlreadyRevealed);
            }
            if !bytes_eq(&stored, computed) {
                return Err(ErrorCode::InvalidReveal);
            }
            ctx.node.vote = Some(vote);
            Ok(())
        },
    }
}

/// Reveals the node's vote: it is recorded only if `H(vote byte ++ nonce)`
/// equals the node's commitment, byte for byte, and the window is still open
/// (`now <= reveal_end_time`).
pub fn reveal_vote(ctx: &mut Reveal, vote: bool, nonce: [u8; 32], now: i64) -> (r: Result<(), ErrorCode>)
    ensures
        reveal_outcome(*old(ctx), vote, commitment_of(vote, nonce@), now) == settle(r, *final(ctx)),
        r is Err ==> *final(ctx) == *old(ctx),
{
    let computed = compute_commitment(vote, &nonce);
    apply_reveal(ctx, vote, &computed, now)
}

/// The accounts that a collusion proof names.
#[derive(Clone, Copy, Debug)]
pub struct SlashColluding {
    pub oracle: Oracle,
    pub colluding_node: Node,
    /// Whoever presents the proof.
    pub slasher: [u8; 32],
}

/// What slashing yields, where `computed` is the commitment recomputed from the
/// leaked vote and nonce: when it equals the node's commitment, the node is
/// marked slashed and the stake it escrowed in the pool on joining is
/// forfeited there. No balance changes: the stake already sits in the pool.
pub open spec fn slash_outcome(c: SlashColluding, computed: Seq<u8>) -> Result<(SlashColluding, NodeSlashed), ErrorCode> {
    if c.oracle.phase != Phase::Commit {
        Err(ErrorCode::InvalidPhase)
    } else if c.colluding_node.vote_hash is None {
        Err(ErrorCode::NotCommitted)
    } else if !c.colluding_node.member_of(c.oracle.key) {
        Err(ErrorCode::NodeNotJoined)
    } else if c.colluding_node.slashed {
        Err(ErrorCode::AlreadySlashed)
    } else if c.colluding_node.vote_hash.unwrap()@ != computed {
        Err(ErrorCode::InvalidCollusion)
    } else {
        Ok((
            SlashColluding { colluding_node: Node { slashed: true, ..c.colluding_node }, ..c },
            NodeSlashed { oracle: c.oracle.key, slashed_node: c.colluding_node.key },
        ))
    }
}

/// Slashes the node given `computed`, the commitment recomputed from the
/// leaked vote and nonce.
pub fn apply_slash(ctx: &mut SlashColluding, computed: &[u8; 32]) -> (r: Result<NodeSlashed, ErrorCode>)
    ensures
        slash_outcome(*old(ctx), computed@) == settle_with(r, *final(ctx)),
        r is Err ==> *final(ctx) == *old(ctx),
{
    if ctx.oracle.phase != Phase::Commit {
        return Err(ErrorCode::InvalidPhase);
    }
    match ctx.colluding_node.vote_hash {
        None => Err(ErrorCode::NotCommitted),
        Some(stored) => {
            if !ctx.colluding_node.stake_posted || !bytes_eq(&ctx.colluding_node.oracle, &ctx.oracle.key) {
                return Err(ErrorCode::NodeNotJoined);
            }
            if ctx.colluding_node.slashed {
                return Err(ErrorCode::AlreadySlashed);
            }
            if !bytes_eq(&stored, computed) {
                return Err(ErrorCode::InvalidCollusion);
            }
            ctx.colluding_node.slashed = true;
            Ok(NodeSlashed { oracle: ctx.oracle.key, slashed_node: ctx.colluding_node.key })
        },
    }
}

/// Punishes a node whose vote and nonce leaked before the reveal window: given
/// a pair that opens the node's commitment, its escrowed stake is forfeited to
/// the pool, to be shared out at resolution.
pub fn slash_colluding(ctx: &mut SlashColluding, vote: bool, nonce: [u8; 32]) -> (r: Result<NodeSlashed, ErrorCode>)
    ensures
        slash_outcome(*old(ctx), commitment_of(vote, nonce@)) == settle_with(r, *final(ctx)),
        r is Err ==> *final(ctx) == *old(ctx),
{
    let computed = compute_commitment(vote, &nonce);
    apply_slash(ctx, &computed)
}

} // verus!
