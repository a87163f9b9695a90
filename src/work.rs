use vstd::prelude::*;
use vstd::std_specs::bits::{u8_leading_zeros, axiom_u8_leading_zeros};

verus! {

/// Number of leading zero bits of a byte string, most significant bit of the
/// first byte first.
pub open spec fn leading_zero_bits(h: Seq<u8>) -> nat
    decreases h.len(),
{
    if h.len() == 0 {
        0
    } else if h[0] == 0 {
        8 + leading_zero_bits(h.drop_first())
    } else {
        u8_leading_zeros(h[0]) as nat
    }
}

/// The difficulty of a hash: its number of leading zero bits.
pub fn difficulty(hash: &[u8; 32]) -> (r: u64)
    ensures
        r == leading_zero_bits(hash@),
        r <= 256,
{
    broadcast use axiom_u8_leading_zeros;
    let mut count: u64 = 0;
    let mut i: usize = 0;
    let mut done = false;
    assert(hash@.skip(0) == hash@);
    while i < 32 && !done
        invariant
            hash@.len() == 32,
            i <= 32,
            !done ==> count == 8 * i,
            !done ==> leading_zero_bits(hash@) == count + leading_zero_bits(hash@.skip(i as int)),
            done ==> leading_zero_bits(hash@) == count,
            count <= 256,
        decreases 32 - i + (if done { 0int } else { 1int }),
    {
        let byte = hash[i];
        let lz = byte.leading_zeros();
        proof {
            assert(hash@.skip(i as int).drop_first() == hash@.skip(i + 1));
        }
        if lz < 8 {
            count = count + lz as u64;
            done = true;
        } else {
            count = count + 8;
            i = i + 1;
        }
    }
    proof {
        if !done {
            assert(hash@.skip(32).len() == 0);
        }
    }
    count
}

/// What a drillx solution check answers for a challenge, a nonce and a digest.
pub uninterp spec fn drillx_solution_valid(challenge: Seq<u8>, nonce: Seq<u8>, digest: Seq<u8>) -> bool;

/// The drillx hash of a digest and a nonce.
pub uninterp spec fn drillx_hash(digest: Seq<u8>, nonce: Seq<u8>) -> Seq<u8>;

/// The Keccak-256 digest of a byte string.
pub uninterp spec fn keccak256(data: Seq<u8>) -> Seq<u8>;

/// Relies on `drillx::Solution::is_valid`: whether `digest` is an Equi-X solution
/// for the seed made of `challenge` and `nonce`. The answer depends on the
/// three arguments alone.
#[verifier::external_body]
pub(crate) fn solution_is_valid(digest: [u8; 16], nonce: [u8; 8], challenge: &[u8; 32]) -> (r: bool)
    ensures
        r == drillx_solution_valid(challenge@, nonce@, digest@),
{
    drillx::Solution::new(digest, nonce).is_valid(challenge)
}

/// Relies on `drillx::Solution::to_hash`: the Keccak hash of the sorted digest and
/// the nonce, which depends on those two alone.
#[verifier::external_body]
pub(crate) fn solution_hash(digest: [u8; 16], nonce: [u8; 8]) -> (r: [u8; 32])
    ensures
        r@ == drillx_hash(digest@, nonce@),
{
    drillx::Solution::new(digest, nonce).to_hash().h
}

/// Relies on `solana_program::keccak::hashv`: the Keccak-256 digest of the bytes given.
#[verifier::external_body]
pub(crate) fn keccak_hash(data: &[u8]) -> (r: [u8; 32])
    ensures
        r@ == keccak256(data@),
{
    solana_program::keccak::hashv(&[data]).to_bytes()
}

} // verus!
