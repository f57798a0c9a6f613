//! Commitments: a voter binds a hidden outcome to a digest, and discloses it later.
//!
//! The digest is the Keccak-256 hash of sixty bytes: the voter's address, the
//! outcome tag, and the seed as a 32-byte big-endian number. The bytes are
//! framed here; the hash is computed by `stylus_sdk`.

use crate::ident::{Address, Bytes32, Outcome};
use crate::uint::U256;
use vstd::prelude::*;

verus! {

/// The Keccak-256 hash of `data`: thirty-two bytes.
pub uninterp spec fn keccak256(data: Seq<u8>) -> Seq<u8>;

/// `stylus_sdk::crypto::keccak`: the Keccak-256 hash of `data`, which has
/// thirty-two bytes.
#[verifier::external_body]
fn keccak(data: &[u8]) -> (r: Vec<u8>)
    ensures
        r@ == keccak256(data@),
        r@.len() == 32,
{
    stylus_sdk::crypto::keccak(data).to_vec()
}

/// The bytes that are hashed for a commitment.
pub open spec fn preimage_spec(voter: Address, outcome: Outcome, seed: U256) -> Seq<u8> {
    voter.bytes() + outcome.bytes() + seed.word().bytes()
}

/// The digest that commits `voter` to `outcome` under `seed`.
pub open spec fn commit_spec(voter: Address, outcome: Outcome, seed: U256) -> Bytes32 {
    Bytes32::of_bytes(keccak256(preimage_spec(voter, outcome, seed)))
}

/// Frames the bytes that are hashed for a commitment.
pub fn preimage(voter: Address, outcome: Outcome, seed: U256) -> (r: Vec<u8>)
    ensures
        r@ == preimage_spec(voter, outcome, seed),
{
    let mut out: Vec<u8> = Vec::new();
    voter.append_to(&mut out);
    outcome.append_to(&mut out);
    seed.word().append_to(&mut out);
    assert(out@ =~= preimage_spec(voter, outcome, seed));
    out
}

/// The digest that commits `voter` to `outcome` under `seed`.
pub fn create_commit(voter: Address, outcome: Outcome, seed: U256) -> (r: Bytes32)
    ensures
        r == commit_spec(voter, outcome, seed),
{
    let framed = preimage(voter, outcome, seed);
    let hash = keccak(framed.as_slice());
    Bytes32::from_be_bytes(hash.as_slice()).unwrap()
}

/// Whether `commitment` is the digest that commits `voter` to `outcome` under `seed`.
pub fn verify_commit(commitment: Bytes32, voter: Address, outcome: Outcome, seed: U256) -> (r: bool)
    ensures
        r == (commitment == commit_spec(voter, outcome, seed)),
{
    commitment == create_commit(voter, outcome, seed)
}

/// The framing binds all three parts: sixty bytes, from which the voter, the
/// outcome and the seed can be read back. Two commitments are therefore
/// hashes of the same bytes only where they agree in voter, outcome and seed.
pub proof fn law_preimage_binds(
    voter1: Address,
    outcome1: Outcome,
    seed1: U256,
    voter2: Address,
    outcome2: Outcome,
    seed2: U256,
)
    ensures
        preimage_spec(voter1, outcome1, seed1).len() == 60,
        preimage_spec(voter1, outcome1, seed1) == preimage_spec(voter2, outcome2, seed2) ==> voter1
            == voter2 && outcome1 == outcome2 && seed1 == seed2,
{
    let first = preimage_spec(voter1, outcome1, seed1);
    let second = preimage_spec(voter2, outcome2, seed2);
    voter1.lemma_bytes();
    voter2.lemma_bytes();
    outcome1.lemma_bytes();
    outcome2.lemma_bytes();
    seed1.word().lemma_bytes();
    seed2.word().lemma_bytes();
    assert(first.subrange(0, 20) =~= voter1.bytes());
    assert(second.subrange(0, 20) =~= voter2.bytes());
    assert(first.subrange(20, 28) =~= outcome1.bytes());
    assert(second.subrange(20, 28) =~= outcome2.bytes());
    assert(first.subrange(28, 60) =~= seed1.word().bytes());
    assert(second.subrange(28, 60) =~= seed2.word().bytes());
}

} // verus!
