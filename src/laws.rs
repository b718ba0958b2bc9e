//! Laws of the protocol, stated over the outcome of each instruction and
//! proved from it.
use vstd::prelude::*;
use crate::commitment::{commitment_of, commitment_preimage, opens, sha256_of};
use crate::error::ErrorCode;
use crate::instructions::{
    commit_outcome, join_outcome, reveal_outcome, slash_outcome, start_outcome, Commit, JoinNetwork, Reveal,
    SlashColluding, StartRequest,
};
use crate::settlement::{
    all_members, consensus_count_of, count, distinct_keys, forfeited_amount, forfeits, payout_overflows, resolution_bit_of, resolve_outcome, reward_per_node_of, settle_all,
    settled_node, total_lamports, votes_for,
};
use crate::state::{phase_rank, Node, NodeSlashed, Oracle};

verus! {

/// Joining moves exactly the collateral from the payer into the pool, creates
/// a node with an empty balance, never moves the phase back, and keeps the
/// round's counters in order.
pub proof fn lemma_join_step(c: JoinNetwork)
    ensures
        join_outcome(c) matches Ok((a, n)) ==> {
            &&& a.oracle.lamports == c.oracle.lamports + c.oracle.collateral
            &&& a.node_authority.lamports == c.node_authority.lamports - c.oracle.collateral
            &&& n.lamports == 0
            &&& phase_rank(a.oracle.phase) >= phase_rank(c.oracle.phase)
            &&& (c.oracle.wf() ==> a.oracle.wf())
        },
{
}

/// Starting a round moves no money, moves the phase forward, and keeps the
/// round's counters in order.
pub proof fn lemma_start_step(c: StartRequest)
    ensures
        start_outcome(c) matches Ok(a) ==> {
            &&& a.oracle.lamports == c.oracle.lamports
            &&& phase_rank(a.oracle.phase) > phase_rank(c.oracle.phase)
            &&& (c.oracle.wf() ==> a.oracle.wf())
        },
{
}

/// Committing moves no money, never moves the phase back, and keeps the
/// round's counters in order.
pub proof fn lemma_commit_step(c: Commit, vote_hash: [u8; 32], now: i64)
    ensures
        commit_outcome(c, vote_hash, now) matches Ok(a) ==> {
            &&& a.oracle.lamports == c.oracle.lamports
            &&& a.node.lamports == c.node.lamports
            &&& phase_rank(a.oracle.phase) >= phase_rank(c.oracle.phase)
            &&& (c.oracle.wf() ==> a.oracle.wf())
        },
{
}

/// Revealing moves no money and leaves the round untouched.
pub proof fn lemma_reveal_step(c: Reveal, vote: bool, computed: Seq<u8>, now: i64)
    ensures
        reveal_outcome(c, vote, computed, now) matches Ok(a) ==> {
            &&& a.oracle == c.oracle
            &&& a.node.lamports == c.node.lamports
        },
{
}

/// Slashing forfeits the stake that already sits in the pool: no balance
/// changes, and the phase stays where it was.
pub proof fn lemma_slash_step(c: SlashColluding, computed: Seq<u8>)
    ensures
        slash_outcome(c, computed) matches Ok((a, _)) ==> {
            &&& a.colluding_node.lamports == c.colluding_node.lamports
            &&& a.oracle.lamports == c.oracle.lamports
            &&& a.oracle.phase == c.oracle.phase
            &&& (c.oracle.wf() ==> a.oracle.wf())
        },
{
}

/// Resolution pays rewards out of the pool into the nodes only: the sum of
/// the nodes' balances and the pool is kept, and the phase moves forward.
pub proof fn lemma_resolve_step(o: Oracle, s: Seq<Node>, now: i64)
    ensures
        resolve_outcome(o, s, now) matches Ok((o2, s2)) ==> {
            &&& total_lamports(s2) + o2.lamports == total_lamports(s) + o.lamports
            &&& phase_rank(o2.phase) > phase_rank(o.phase)
            &&& (o.wf() ==> o2.wf())
        },
{
    if resolve_outcome(o, s, now) is Ok {
        let bit = resolution_bit_of(s);
        let reward = reward_per_node_of(s, o.collateral) as u64;
        crate::settlement::lemma_settle_all_lamports(s, bit, reward);
    }
}

/// Once the round is in its reveal window and the node has committed but not
/// revealed, and has not been slashed, a reveal of `(vote, nonce)` by the
/// node's owner succeeds exactly
/// when the stored commitment is `H(vote byte ++ nonce)`.
pub proof fn lemma_commitment_binding(c: Reveal, vote: bool, nonce: [u8; 32], now: i64)
    requires
        c.node.authority@ == c.authority@,
        c.oracle.phase == crate::state::Phase::Reveal,
        now <= c.oracle.reveal_end_time,
        c.node.vote_hash is Some,
        !c.node.slashed,
        c.node.vote is None,
    ensures
        reveal_outcome(c, vote, commitment_of(vote, nonce@), now) is Ok <==> opens(
            c.node.vote_hash.unwrap(),
            vote,
            nonce,
        ),
{
}

/// After a successful commitment, every further commitment for the same node
/// fails, whatever the round, signer, hash or time it comes with.
pub proof fn lemma_no_double_commit(c: Commit, vote_hash: [u8; 32], now: i64, again: Commit, vote_hash2: [u8; 32], now2: i64)
    requires
        commit_outcome(c, vote_hash, now) matches Ok(a) && again.node == a.node,
    ensures
        commit_outcome(again, vote_hash2, now2) is Err,
{
}

/// After a successful reveal, every further reveal for the same node fails,
/// whatever the round, signer, vote, nonce or time it comes with.
pub proof fn lemma_no_double_reveal(
    c: Reveal,
    vote: bool,
    computed: Seq<u8>,
    now: i64,
    again: Reveal,
    vote2: bool,
    computed2: Seq<u8>,
    now2: i64,
)
    requires
        reveal_outcome(c, vote, computed, now) matches Ok(a) && again.node == a.node,
    ensures
        reveal_outcome(again, vote2, computed2, now2) is Err,
{
}

/// Settling a set of nodes changes none of the counts that a tally reads.
proof fn lemma_settle_all_counts(s: Seq<Node>, bit: bool, reward: u64)
    ensures
        count(settle_all(s, bit, reward), votes_for(true)) == count(s, votes_for(true)),
        count(settle_all(s, bit, reward), votes_for(false)) == count(s, votes_for(false)),
        count(settle_all(s, bit, reward), forfeits()) == count(s, forfeits()),
    decreases s.len(),
{
    let u = settle_all(s, bit, reward);
    if s.len() > 0 {
        let t = s.drop_last();
        assert(u.drop_last() =~= settle_all(t, bit, reward));
        assert(u.last() == settled_node(s.last(), bit, reward));
        lemma_settle_all_counts(t, bit, reward);
    } else {
        assert(u.len() == 0);
    }
}

/// The tally is stable: tallying the nodes again after they were settled
/// gives the same consensus bit, the same number of consensus nodes and the
/// same reward per node.
pub proof fn lemma_tally_stable(o: Oracle, s: Seq<Node>, now: i64)
    ensures
        resolve_outcome(o, s, now) matches Ok((o2, s2)) ==> {
            &&& resolution_bit_of(s2) == resolution_bit_of(s)
            &&& consensus_count_of(s2) == consensus_count_of(s)
            &&& reward_per_node_of(s2, o2.collateral) == reward_per_node_of(s, o.collateral)
        },
{
    let bit = resolution_bit_of(s);
    let reward = reward_per_node_of(s, o.collateral) as u64;
    lemma_settle_all_counts(s, bit, reward);
}


/// Where SHA-256 is injective on 33-byte inputs, a reveal whose vote or nonce
/// differs from the committed pair in any bit fails with `InvalidReveal`.
pub proof fn lemma_bit_flip_rejected(
    c: Reveal,
    committed_vote: bool,
    committed_nonce: [u8; 32],
    vote: bool,
    nonce: [u8; 32],
    now: i64,
)
    requires
        c.node.authority@ == c.authority@,
        c.oracle.phase == crate::state::Phase::Reveal,
        now <= c.oracle.reveal_end_time,
        c.node.vote_hash matches Some(h) && opens(h, committed_vote, committed_nonce),
        !c.node.slashed,
        c.node.vote is None,
        vote != committed_vote || nonce@ != committed_nonce@,
    ensures
        (forall|x: Seq<u8>, y: Seq<u8>|
            x.len() == 33 && y.len() == 33 && #[trigger] sha256_of(x) == #[trigger] sha256_of(y) ==> x == y)
            ==> reveal_outcome(c, vote, commitment_of(vote, nonce@), now)
            == Err::<Reveal, ErrorCode>(ErrorCode::InvalidReveal),
{
    let p = commitment_preimage(vote, nonce@);
    let q = commitment_preimage(committed_vote, committed_nonce@);
    assert(p.len() == 33 && q.len() == 33);
    if vote != committed_vote {
        assert(p[0] != q[0]);
    } else {
        assert(p.subrange(1, 33) =~= nonce@);
        assert(q.subrange(1, 33) =~= committed_nonce@);
    }
    assert(p != q);
}

/// During the commit phase, a collusion proof against a joined, committed,
/// unslashed node that does not open its commitment fails with
/// `InvalidCollusion`; a failed slash leaves every account as it was.
pub proof fn lemma_wrong_collusion_proof_rejected(c: SlashColluding, vote: bool, nonce: [u8; 32])
    requires
        c.oracle.phase == crate::state::Phase::Commit,
        c.colluding_node.vote_hash is Some,
        c.colluding_node.member_of(c.oracle.key),
        !c.colluding_node.slashed,
        !opens(c.colluding_node.vote_hash.unwrap(), vote, nonce),
    ensures
        slash_outcome(c, commitment_of(vote, nonce@)) == Err::<(SlashColluding, NodeSlashed), ErrorCode>(
            ErrorCode::InvalidCollusion,
        ),
{
}

/// Two nodes joined and committed; `a` revealed `v`, `b` stayed silent. Once
/// the window closes, `b` is slashed and paid nothing, the bit is `v`, and `a`,
/// a majority of one, receives all of `b`'s forfeited stake from the pool.
pub proof fn lemma_silent_node_forfeits_to_majority(o: Oracle, a: Node, b: Node, v: bool, now: i64)
    requires
        o.phase == crate::state::Phase::Reveal,
        now > o.reveal_end_time,
        a.member_of(o.key),
        b.member_of(o.key),
        a.key@ != b.key@,
        !a.slashed,
        !b.slashed,
        a.vote == Some(v),
        b.vote is None,
        o.lamports >= 2 * o.collateral,
        a.lamports + o.collateral <= u64::MAX,
    ensures
        resolve_outcome(o, seq![a, b], now) matches Ok((o2, s2)) && {
            &&& o2.resolution_bit == v
            &&& o2.lamports == o.lamports - o.collateral
            &&& s2[0].lamports == a.lamports + o.collateral
            &&& s2[1].slashed
            &&& s2[1].lamports == b.lamports
        },
{
    let s = seq![a, b];
    assert(s.drop_last() =~= seq![a]);
    assert(seq![a].drop_last() =~= Seq::<Node>::empty());
    let one = seq![a];
    assert(s.last() == b && one.last() == a);
    assert(votes_for(v)(a) && !votes_for(!v)(a) && !forfeits()(a));
    assert(!votes_for(v)(b) && !votes_for(!v)(b) && forfeits()(b));
    assert(count(Seq::<Node>::empty(), votes_for(v)) == 0);
    assert(count(Seq::<Node>::empty(), votes_for(!v)) == 0);
    assert(count(Seq::<Node>::empty(), forfeits()) == 0);
    assert(count(one, votes_for(v)) == 1);
    assert(count(one, votes_for(!v)) == 0);
    assert(count(one, forfeits()) == 0);
    assert(count(s, votes_for(v)) == 1);
    assert(count(s, votes_for(!v)) == 0);
    assert(count(s, forfeits()) == 1);
    assert(resolution_bit_of(s) == v);
    assert(all_members(s, o.key));
    assert(distinct_keys(s));
    assert(consensus_count_of(s) == 1);
    let k = count(s, forfeits());
    assert(o.collateral * k == o.collateral) by (nonlinear_arith)
        requires
            k == 1,
    ;
    assert(forfeited_amount(s, o.collateral) == o.collateral);
    assert((o.collateral as int) / 1 == o.collateral);
    assert(reward_per_node_of(s, o.collateral) == o.collateral);
    assert(!payout_overflows(s, v, o.collateral));
    let s2 = settle_all(s, v, o.collateral);
    assert(s2[0] == settled_node(a, v, o.collateral));
    assert(s2[1] == settled_node(b, v, o.collateral));
}

} // verus!
