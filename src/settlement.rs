//! Resolution of a round: tallying the revealed votes, slashing the nodes that
//! stayed silent, and sharing the forfeited stake among the majority.
//!
//! Policies of this implementation:
//! - a tie resolves to `false`;
//! - the forfeited stake is the collateral of every node of the tallied set
//!   that is slashed, before or during resolution; it is split evenly among
//!   the nodes that revealed the consensus bit, and the remainder of the
//!   integer division stays in the pool;
//! - the stakes of all nodes stay escrowed in the pool, whichever side they
//!   voted on.
use vstd::prelude::*;
use crate::commitment::bytes_eq;
use crate::error::ErrorCode;
use crate::state::{Node, Oracle, Phase};

verus! {

/// How many nodes of `s` satisfy `p`.
pub open spec fn count(s: Seq<Node>, p: spec_fn(Node) -> bool) -> nat
    decreases s.len(),
{
    if s.len() == 0 {
        0
    } else {
        count(s.drop_last(), p) + if p(s.last()) { 1nat } else { 0nat }
    }
}

/// The node is active and revealed `v`: its vote counts for `v`.
pub open spec fn votes_for(v: bool) -> spec_fn(Node) -> bool {
    |n: Node| !n.slashed && n.vote == Some(v)
}

/// The node's stake is forfeited at resolution: it was slashed, or it never revealed.
pub open spec fn forfeits() -> spec_fn(Node) -> bool {
    |n: Node| n.slashed || n.vote is None
}

/// The consensus bit of a set of nodes: `true` only with strictly more
/// active `true` reveals than `false` ones.
pub open spec fn resolution_bit_of(s: Seq<Node>) -> bool {
    count(s, votes_for(true)) > count(s, votes_for(false))
}

/// How many active nodes revealed the consensus bit.
pub open spec fn consensus_count_of(s: Seq<Node>) -> nat {
    count(s, votes_for(resolution_bit_of(s)))
}

/// The stake forfeited by the nodes of `s`.
pub open spec fn forfeited_amount(s: Seq<Node>, collateral: u64) -> int {
    collateral * count(s, forfeits())
}

/// What each consensus node receives: the forfeited stake split evenly, or
/// nothing when no node revealed the consensus bit.
pub open spec fn reward_per_node_of(s: Seq<Node>, collateral: u64) -> int {
    if consensus_count_of(s) == 0 {
        0
    } else {
        forfeited_amount(s, collateral) / (consensus_count_of(s) as int)
    }
}

/// The result of counting a set of nodes.
#[derive(Clone, Copy, Debug, PartialEq, Eq, Structural)]
pub struct Tally {
    /// Active nodes that revealed `true`.
    pub true_votes: usize,
    /// Active nodes that revealed `false`.
    pub false_votes: usize,
    /// Nodes whose stake is forfeited: slashed ones and silent ones.
    pub forfeits: usize,
}

/// Counts the votes and the forfeits of a set of nodes. It reads nothing but
/// the nodes, so a fixed snapshot always gives the same tally.
pub fn tally(nodes: &Vec<Node>) -> (t: Tally)
    ensures
        t.true_votes == count(nodes@, votes_for(true)),
        t.false_votes == count(nodes@, votes_for(false)),
        t.forfeits == count(nodes@, forfeits()),
{
    let mut t = Tally { true_votes: 0, false_votes: 0, forfeits: 0 };
    let mut i: usize = 0;
    while i < nodes.len()
        invariant
            i <= nodes@.len(),
            t.true_votes <= i,
            t.false_votes <= i,
            t.forfeits <= i,
            t.true_votes == count(nodes@.subrange(0, i as int), votes_for(true)),
            t.false_votes == count(nodes@.subrange(0, i as int), votes_for(false)),
            t.forfeits == count(nodes@.subrange(0, i as int), forfeits()),
        decreases nodes@.len() - i,
    {
        let n = nodes[i];
        assert(nodes@.subrange(0, i + 1).drop_last() == nodes@.subrange(0, i as int));
        assert(nodes@.subrange(0, i + 1).last() == n);
        if !n.slashed {
            match n.vote {
                Some(true) => {
                    t.true_votes = t.true_votes + 1;
                },
                Some(false) => {
                    t.false_votes = t.false_votes + 1;
                },
                None => {},
            }
        }
        if n.slashed || n.vote.is_none() {
            t.forfeits = t.forfeits + 1;
        }
        i = i + 1;
    }
    assert(nodes@.subrange(0, nodes@.len() as int) == nodes@);
    t
}


/// The terms of a settlement: the consensus bit, how many nodes share the
/// reward, and what each of them receives.
#[derive(Clone, Copy, Debug, PartialEq, Eq, Structural)]
pub struct Settlement {
    pub resolution_bit: bool,
    pub consensus_count: usize,
    pub reward_per_node: u64,
}

/// Computes the settlement terms of a set of nodes for a round with the given
/// collateral. It fails only when the forfeited stake does not fit in a `u64`.
pub fn settlement_terms(nodes: &Vec<Node>, collateral: u64) -> (r: Result<Settlement, ErrorCode>)
    ensures
        r is Err <==> forfeited_amount(nodes@, collateral) > u64::MAX,
        r is Err ==> r == Err::<Settlement, ErrorCode>(ErrorCode::ArithmeticOverflow),
        r matches Ok(st) ==> {
            &&& st.resolution_bit == resolution_bit_of(nodes@)
            &&& st.consensus_count == consensus_count_of(nodes@)
            &&& st.reward_per_node == reward_per_node_of(nodes@, collateral)
        },
{
    let t = tally(nodes);
    let bit = t.true_votes > t.false_votes;
    let consensus = if bit { t.true_votes } else { t.false_votes };
    match collateral.checked_mul(t.forfeits as u64) {
        None => Err(ErrorCode::ArithmeticOverflow),
        Some(forfeited) => {
            let reward = if consensus > 0 { forfeited / (consensus as u64) } else { 0 };
            Ok(Settlement { resolution_bit: bit, consensus_count: consensus, reward_per_node: reward })
        },
    }
}

/// A node after resolution: a silent active node is slashed, an active node
/// that revealed `bit` receives `reward`, and any other node is unchanged.
pub open spec fn settled_node(n: Node, bit: bool, reward: u64) -> Node {
    if n.slashed {
        n
    } else if n.vote is None {
        Node { slashed: true, ..n }
    } else if n.vote == Some(bit) {
        Node { lamports: (n.lamports + reward) as u64, ..n }
    } else {
        n
    }
}

/// Every node of a set after resolution.
pub open spec fn settle_all(s: Seq<Node>, bit: bool, reward: u64) -> Seq<Node> {
    s.map_values(|n: Node| settled_node(n, bit, reward))
}

/// Every node of `s` escrowed stake in the round `key`.
pub open spec fn all_members(s: Seq<Node>, key: [u8; 32]) -> bool {
    forall|i: int| 0 <= i < s.len() ==> #[trigger] s[i].member_of(key)
}

/// No node appears twice in `s`.
pub open spec fn distinct_keys(s: Seq<Node>) -> bool {
    forall|i: int, j: int| #![trigger s[i], s[j]] 0 <= i < j < s.len() ==> s[i].key@ != s[j].key@
}

/// Some node that is owed `reward` could not hold it.
pub open spec fn payout_overflows(s: Seq<Node>, bit: bool, reward: u64) -> bool {
    exists|i: int| 0 <= i < s.len() && votes_for(bit)(#[trigger] s[i]) && s[i].lamports + reward > u64::MAX
}

/// The sum of the balances of a set of nodes.
pub open spec fn total_lamports(s: Seq<Node>) -> int
    decreases s.len(),
{
    if s.len() == 0 {
        0
    } else {
        total_lamports(s.drop_last()) + s.last().lamports
    }
}

/// The accounts that resolution names: the round and the nodes to tally.
#[derive(Debug)]
pub struct Resolve {
    pub oracle: Oracle,
    pub nodes: Vec<Node>,
}

/// What resolving at time `now` yields: the round `Complete` with its
/// consensus bit, every consensus node paid its reward from the pool, every
/// silent node slashed.
pub open spec fn resolve_outcome(o: Oracle, s: Seq<Node>, now: i64) -> Result<(Oracle, Seq<Node>), ErrorCode> {
    if o.phase != Phase::Reveal {
        Err(ErrorCode::InvalidPhase)
    } else if now <= o.reveal_end_time {
        Err(ErrorCode::RevealPhaseNotClosed)
    } else if !all_members(s, o.key) {
        Err(ErrorCode::NodeNotJoined)
    } else if !distinct_keys(s) {
        Err(ErrorCode::DuplicateNode)
    } else if forfeited_amount(s, o.collateral) > u64::MAX {
        Err(ErrorCode::ArithmeticOverflow)
    } else {
        let bit = resolution_bit_of(s);
        let reward = reward_per_node_of(s, o.collateral);
        let payout = reward * consensus_count_of(s);
        if payout > o.lamports {
            Err(ErrorCode::InsufficientFunds)
        } else if payout_overflows(s, bit, reward as u64) {
            Err(ErrorCode::ArithmeticOverflow)
        } else {
            Ok((
                Oracle {
                    is_resolved: true,
                    resolution_bit: bit,
                    phase: Phase::Complete,
                    lamports: (o.lamports - payout) as u64,
                    ..o
                },
                settle_all(s, bit, reward as u64),
            ))
        }
    }
}

/// The balances of the settled nodes grow by the reward of each consensus node.
pub proof fn lemma_settle_all_lamports(s: Seq<Node>, bit: bool, reward: u64)
    requires
        !payout_overflows(s, bit, reward),
    ensures
        total_lamports(settle_all(s, bit, reward)) == total_lamports(s) + reward * count(s, votes_for(bit)),
    decreases s.len(),
{
    if s.len() > 0 {
        let t = s.drop_last();
        assert(settle_all(s, bit, reward).drop_last() =~= settle_all(t, bit, reward));
        assert(!payout_overflows(t, bit, reward)) by {
            if payout_overflows(t, bit, reward) {
                let i = choose|i: int| 0 <= i < t.len() && votes_for(bit)(#[trigger] t[i]) && t[i].lamports + reward > u64::MAX;
                assert(s[i] == t[i]);
            }
        }
        lemma_settle_all_lamports(t, bit, reward);
        let u = settle_all(s, bit, reward);
        assert(u.len() == s.len());
        assert(u.last() == settled_node(s.last(), bit, reward));
        assert(total_lamports(u) == total_lamports(u.drop_last()) + u.last().lamports);
        assert(u.last().lamports == s.last().lamports + if votes_for(bit)(s.last()) { reward as int } else { 0 });
        assert(!(votes_for(bit)(s[s.len() - 1]) && s[s.len() - 1].lamports + reward > u64::MAX));
        assert(reward * count(s, votes_for(bit)) == reward * count(t, votes_for(bit))
            + if votes_for(bit)(s.last()) { reward as int } else { 0 }) by (nonlinear_arith)
            requires
                count(s, votes_for(bit)) == count(t, votes_for(bit)) + if votes_for(bit)(s.last()) { 1nat } else { 0nat },
        ;
        assert(total_lamports(s) == total_lamports(t) + s.last().lamports);
        assert(total_lamports(u.drop_last()) == total_lamports(t) + reward * count(t, votes_for(bit)));
        assert(total_lamports(u) == total_lamports(s) + reward * count(s, votes_for(bit)));
    } else {
        assert(settle_all(s, bit, reward).len() == 0);
        assert(count(s, votes_for(bit)) == 0);
        assert(total_lamports(settle_all(s, bit, reward)) == 0);
    }
}

/// Resolves the round once the reveal window has closed: tallies `nodes`,
/// slashes the silent ones, pays each consensus node its share of the
/// forfeited stake from the pool and marks the round `Complete`. On success
/// the balances of the nodes and the pool keep their sum.
pub fn resolve(ctx: &mut Resolve, now: i64) -> (r: Result<Settlement, ErrorCode>)
    ensures
        resolve_outcome(old(ctx).oracle, old(ctx).nodes@, now) == match r {
            Ok(_) => Ok((final(ctx).oracle, final(ctx).nodes@)),
            Err(e) => Err::<(Oracle, Seq<Node>), ErrorCode>(e),
        },
        r is Err ==> final(ctx).oracle == old(ctx).oracle && final(ctx).nodes@ == old(ctx).nodes@,
        r matches Ok(st) ==> {
            &&& st.resolution_bit == resolution_bit_of(old(ctx).nodes@)
            &&& st.consensus_count == consensus_count_of(old(ctx).nodes@)
            &&& st.reward_per_node == reward_per_node_of(old(ctx).nodes@, old(ctx).oracle.collateral)
        },
        r is Ok ==> total_lamports(final(ctx).nodes@) + final(ctx).oracle.lamports
            == total_lamports(old(ctx).nodes@) + old(ctx).oracle.lamports,
        old(ctx).oracle.wf() ==> final(ctx).oracle.wf(),
{
    if ctx.oracle.phase != Phase::Reveal {
        return Err(ErrorCode::InvalidPhase);
    }
    if now <= ctx.oracle.reveal_end_time {
        return Err(ErrorCode::RevealPhaseNotClosed);
    }
    let key = ctx.oracle.key;
    let mut i: usize = 0;
    while i < ctx.nodes.len()
        invariant
            i <= ctx.nodes@.len(),
            key == ctx.oracle.key,
            ctx.oracle == old(ctx).oracle,
            ctx.nodes@ == old(ctx).nodes@,
            ctx.oracle.phase == Phase::Reveal,
            now > ctx.oracle.reveal_end_time,
            forall|j: int| 0 <= j < i ==> #[trigger] ctx.nodes@[j].member_of(key),
        decreases ctx.nodes@.len() - i,
    {
        if !ctx.nodes[i].stake_posted || !bytes_eq(&ctx.nodes[i].oracle, &key) {
            assert(!ctx.nodes@[i as int].member_of(key));
            return Err(ErrorCode::NodeNotJoined);
        }
        i = i + 1;
    }
    let mut i: usize = 0;
    while i < ctx.nodes.len()
        invariant
            i <= ctx.nodes@.len(),
            ctx.oracle == old(ctx).oracle,
            ctx.nodes@ == old(ctx).nodes@,
            ctx.oracle.phase == Phase::Reveal,
            now > ctx.oracle.reveal_end_time,
            all_members(ctx.nodes@, ctx.oracle.key),
            forall|a: int, b: int| #![trigger ctx.nodes@[a], ctx.nodes@[b]]
                0 <= a < i && a < b < ctx.nodes@.len() ==> ctx.nodes@[a].key@ != ctx.nodes@[b].key@,
        decreases ctx.nodes@.len() - i,
    {
        let mut j: usize = i + 1;
        while j < ctx.nodes.len()
            invariant
                i < j <= ctx.nodes@.len(),
                ctx.oracle == old(ctx).oracle,
                ctx.nodes@ == old(ctx).nodes@,
                ctx.oracle.phase == Phase::Reveal,
                now > ctx.oracle.reveal_end_time,
                all_members(ctx.nodes@, ctx.oracle.key),
                forall|a: int, b: int| #![trigger ctx.nodes@[a], ctx.nodes@[b]]
                    0 <= a < i && a < b < ctx.nodes@.len() ==> ctx.nodes@[a].key@ != ctx.nodes@[b].key@,
                forall|b: int| i < b < j ==> ctx.nodes@[i as int].key@ != #[trigger] ctx.nodes@[b].key@,
            decreases ctx.nodes@.len() - j,
        {
            if bytes_eq(&ctx.nodes[i].key, &ctx.nodes[j].key) {
                assert(ctx.nodes@[i as int].key@ == ctx.nodes@[j as int].key@);
                return Err(ErrorCode::DuplicateNode);
            }
            j = j + 1;
        }
        i = i + 1;
    }
    assert(distinct_keys(ctx.nodes@));
    let st = match settlement_terms(&ctx.nodes, ctx.oracle.collateral) {
        Err(e) => {
            return Err(e);
        },
        Ok(st) => st,
    };
    let s = Ghost(ctx.nodes@);
    let bit = st.resolution_bit;
    let reward = st.reward_per_node;
    proof {
        let c = consensus_count_of(s@) as int;
        let f = forfeited_amount(s@, ctx.oracle.collateral);
        if c > 0 {
            assert((f / c) * c <= f) by (nonlinear_arith)
                requires c > 0, f >= 0;
        }
    }
    if reward as u128 * st.consensus_count as u128 > ctx.oracle.lamports as u128 {
        return Err(ErrorCode::InsufficientFunds);
    }
    let payout = reward * (st.consensus_count as u64);
    let mut settled: Vec<Node> = Vec::with_capacity(ctx.nodes.len());
    let mut i: usize = 0;
    while i < ctx.nodes.len()
        invariant
            i <= ctx.nodes@.len(),
            ctx.nodes@ == s@,
            s@ == old(ctx).nodes@,
            ctx.oracle == old(ctx).oracle,
            ctx.oracle.phase == Phase::Reveal,
            now > ctx.oracle.reveal_end_time,
            all_members(s@, ctx.oracle.key),
            distinct_keys(s@),
            forfeited_amount(s@, ctx.oracle.collateral) <= u64::MAX,
            bit == resolution_bit_of(s@),
            reward == reward_per_node_of(s@, ctx.oracle.collateral),
            reward * consensus_count_of(s@) <= ctx.oracle.lamports,
            settled@ == settle_all(s@.subrange(0, i as int), bit, reward),
            forall|j: int| 0 <= j < i ==> !(votes_for(bit)(#[trigger] s@[j]) && s@[j].lamports + reward > u64::MAX),
        decreases ctx.nodes@.len() - i,
    {
        let n = ctx.nodes[i];
        assert(s@.subrange(0, i + 1) == s@.subrange(0, i as int).push(n));
        assert(settle_all(s@.subrange(0, i + 1), bit, reward) =~= settle_all(s@.subrange(0, i as int), bit, reward).push(settled_node(n, bit, reward)));
        if n.slashed {
            settled.push(n);
        } else {
            match n.vote {
                None => {
                    settled.push(Node { slashed: true, ..n });
                },
                Some(v) => {
                    if v == bit {
                        if n.lamports > u64::MAX - reward {
                            assert(votes_for(bit)(s@[i as int]));
                            return Err(ErrorCode::ArithmeticOverflow);
                        }
                        settled.push(Node { lamports: n.lamports + reward, ..n });
                    } else {
                        settled.push(n);
                    }
                },
            }
        }
        i = i + 1;
    }
    assert(s@.subrange(0, s@.len() as int) =~= s@);
    proof {
        lemma_settle_all_lamports(s@, bit, reward);
    }
    ctx.nodes = settled;
    ctx.oracle.is_resolved = true;
    ctx.oracle.resolution_bit = bit;
    ctx.oracle.phase = Phase::Complete;
    ctx.oracle.lamports = ctx.oracle.lamports - payout;
    Ok(st)
}

} // verus!
