//! Binding a hidden vote to a public commitment, `H(vote byte ++ nonce)`.
use vstd::prelude::*;

verus! {

/// The SHA-256 digest of `data`.
pub uninterp spec fn sha256_of(data: Seq<u8>) -> Seq<u8>;

/// Relies on `anchor_lang::solana_program::hash::hash`: the SHA-256 digest of
/// its input, which depends on the bytes alone.
#[verifier::external_body]
fn sha256(data: &[u8]) -> (r: [u8; 32])
    ensures
        r@ == sha256_of(data@),
{
    anchor_lang::solana_program::hash::hash(data).to_bytes()
}

/// The one-byte encoding of a vote: `1` for `true`, `0` for `false`.
pub open spec fn vote_byte(vote: bool) -> u8 {
    if vote { 1u8 } else { 0u8 }
}

/// The bytes that a commitment hashes: the vote byte followed by the nonce.
pub open spec fn commitment_preimage(vote: bool, nonce: Seq<u8>) -> Seq<u8> {
    seq![vote_byte(vote)] + nonce
}

/// The commitment to `vote` under `nonce`.
pub open spec fn commitment_of(vote: bool, nonce: Seq<u8>) -> Seq<u8> {
    sha256_of(commitment_preimage(vote, nonce))
}

/// Whether `hash` is the commitment to `vote` under `nonce`.
pub open spec fn opens(hash: [u8; 32], vote: bool, nonce: [u8; 32]) -> bool {
    hash@ == commitment_of(vote, nonce@)
}

/// The bytes that a commitment hashes: the vote byte followed by the 32 nonce bytes.
pub fn preimage(vote: bool, nonce: &[u8; 32]) -> (r: Vec<u8>)
    ensures
        r@ == commitment_preimage(vote, nonce@),
{
    let mut bytes: Vec<u8> = Vec::with_capacity(33);
    bytes.push(if vote { 1u8 } else { 0u8 });
    let mut i: usize = 0;
    while i < 32
        invariant
            i <= 32,
            bytes@ == seq![vote_byte(vote)] + nonce@.subrange(0, i as int),
        decreases 32 - i,
    {
        bytes.push(nonce[i]);
        i = i + 1;
        assert(nonce@.subrange(0, i as int) == nonce@.subrange(0, i - 1).push(nonce@[i - 1]));
    }
    assert(nonce@.subrange(0, 32) == nonce@);
    bytes
}

/// The commitment `H(vote byte ++ nonce)` that binds `vote` under `nonce`.
pub fn compute_commitment(vote: bool, nonce: &[u8; 32]) -> (r: [u8; 32])
    ensures
        r@ == commitment_of(vote, nonce@),
{
    let bytes = preimage(vote, nonce);
    sha256(bytes.as_slice())
}

/// Whether two 32-byte values are equal, byte for byte.
pub fn bytes_eq(a: &[u8; 32], b: &[u8; 32]) -> (r: bool)
    ensures
        r == (a@ == b@),
{
    let mut i: usize = 0;
    while i < 32
        invariant
            i <= 32,
            forall|j: int| 0 <= j < i ==> a@[j] == b@[j],
        decreases 32 - i,
    {
        if a[i] != b[i] {
            return false;
        }
        i = i + 1;
    }
    assert(a@ =~= b@);
    true
}

} // verus!
