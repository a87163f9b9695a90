use vstd::prelude::*;
use vstd::arithmetic::power2::{pow2, lemma_pow2_pos, lemma_pow2_strictly_increases, lemma2_to64};

use crate::consts::{BASE_COAL_REWARD_RATE_MIN_THRESHOLD, REPROCESS_DELAY_SLOTS, REPROCESS_SLOT_BUFFER};
use crate::math::{checked_pow2, read_u64_le, sat_u64, to_le_bytes, u64_le_at, u64_le_bytes};
use crate::state::{Address, Proof, Reprocessor};
use crate::work::{keccak256, keccak_hash};

verus! {

/// Why a reprocess could not be settled.
#[derive(Clone, Copy, Debug, PartialEq, Eq)]
pub enum ReprocessError {
    /// The target slot has not passed yet.
    SlotTooEarly,
    /// The proof has no hashes or no rewards to reprocess.
    Spam,
}

impl ReprocessError {
    /// The error's code on the ledger.
    pub fn code(&self) -> (r: u32)
        ensures
            r == match *self {
                ReprocessError::Spam => 5u32,
                ReprocessError::SlotTooEarly => 8u32,
            },
    {
        match self {
            ReprocessError::Spam => 5,
            ReprocessError::SlotTooEarly => 8,
        }
    }
}

/// The sum, modulo `2^64`, of the four little-endian words of a 32-byte hash.
pub open spec fn hash_word_sum(h: Seq<u8>) -> int {
    (u64_le_at(h, 0) + u64_le_at(h, 8) + u64_le_at(h, 16) + u64_le_at(h, 24)) % 0x1_0000_0000_0000_0000
}

/// A number in `[min, max]` taken from a hash.
pub open spec fn number_from_hash(h: Seq<u8>, min: u64, max: u64) -> int {
    min + hash_word_sum(h) % (max - min + 1)
}

/// Derives a number in `[min, max]` from the whole hash: the wrapping sum of its
/// four little-endian words, reduced modulo the size of the range.
pub fn derive_number_from_hash(hash: &[u8; 32], min: u64, max: u64) -> (r: u64)
    requires
        min <= max,
        max - min < u64::MAX,
    ensures
        r == number_from_hash(hash@, min, max),
        min <= r <= max,
{
    let mut acc: u64 = 0;
    let w0 = read_u64_le(hash, 0);
    let w1 = read_u64_le(hash, 8);
    let w2 = read_u64_le(hash, 16);
    let w3 = read_u64_le(hash, 24);
    let ghost m: int = 0x1_0000_0000_0000_0000int;
    acc = acc.wrapping_add(w0);
    assert(acc == (w0 as int) % m);
    acc = acc.wrapping_add(w1);
    assert(acc == (w0 + w1) % m);
    acc = acc.wrapping_add(w2);
    assert(acc == (w0 + w1 + w2) % m);
    acc = acc.wrapping_add(w3);
    assert(acc == (w0 + w1 + w2 + w3) % m);
    let span: u64 = max - min + 1;
    min + acc % span
}

/// `a * b` saturated to the `u64` range.
pub open spec fn sat_mul(a: u64, b: u64) -> u64 {
    sat_u64(a as int * b as int) as u64
}

/// The reprocess reward: a base of `scale * total_hashes * reward_root`, drawn
/// `number` times, each product saturated to the `u64` range.
pub open spec fn reprocess_reward(total_hashes: u64, reward_root: u64, number: u64) -> u64 {
    sat_mul(sat_mul(sat_mul(BASE_COAL_REWARD_RATE_MIN_THRESHOLD, total_hashes), reward_root), number)
}

/// `a * b`, saturating at `u64::MAX`.
fn saturating_mul(a: u64, b: u64) -> (r: u64)
    ensures
        r == sat_mul(a, b),
{
    match a.checked_mul(b) {
        Some(v) => v,
        None => u64::MAX,
    }
}

/// Computes the reprocess reward from the lifetime hash count, the integer cube
/// root of the lifetime rewards (`reward_root`) and the drawn number.
pub fn calculate_reward(total_hashes: u64, reward_root: u64, pseudo_random_number: u64) -> (r: u64)
    ensures
        r == reprocess_reward(total_hashes, reward_root, pseudo_random_number),
{
    let hash_factor = saturating_mul(BASE_COAL_REWARD_RATE_MIN_THRESHOLD, total_hashes);
    let combined = saturating_mul(hash_factor, reward_root);
    saturating_mul(combined, pseudo_random_number)
}

/// The reward after the late-settlement penalty: divided by `2^late` for `late`
/// slots past the target slot and its buffer, the divisor saturating at `u64::MAX`.
pub open spec fn late_reprocess_reward(reward: u64, target_slot: u64, current_slot: u64) -> int {
    let tolerance = sat_u64(target_slot + REPROCESS_SLOT_BUFFER);
    if current_slot > tolerance {
        reward as int / sat_u64(pow2((current_slot - tolerance) as nat) as int)
    } else {
        reward as int
    }
}

/// Opens a reprocess for `authority` at `current_slot`, seeded with the Keccak hash
/// of the recent slot hash.
pub fn process_initialize_reprocess(authority: &Address, current_slot: u64, recent: &[u8]) -> (r: Reprocessor)
    requires
        current_slot + REPROCESS_DELAY_SLOTS <= u64::MAX,
    ensures
        r.authority == *authority,
        r.slot == current_slot + REPROCESS_DELAY_SLOTS,
        r.hash@ == keccak256(recent@),
{
    Reprocessor { authority: *authority, slot: current_slot + REPROCESS_DELAY_SLOTS, hash: keccak_hash(recent) }
}

/// Settles a reprocess: after its target slot, a proof with lifetime hashes and
/// rewards has both counters cleared and earns the reprocess reward for a number
/// drawn from the Keccak hash of the seed, the bus rewards and the recent slot
/// hash, halved for each slot of lateness. `reward_root` is the integer cube root
/// of the proof's lifetime rewards. Returns the amount to mint; on an error
/// nothing changes.
pub fn process_finalize_reprocess(
    reprocessor: &Reprocessor,
    proof: &mut Proof,
    bus_rewards: u64,
    reward_root: u64,
    recent: &[u8],
    current_slot: u64,
) -> (r: Result<u64, ReprocessError>)
    ensures
        current_slot <= reprocessor.slot ==> r == Err::<u64, ReprocessError>(ReprocessError::SlotTooEarly),
        current_slot > reprocessor.slot && (old(proof).total_hashes == 0 || old(proof).total_rewards == 0)
            ==> r == Err::<u64, ReprocessError>(ReprocessError::Spam),
        r is Err ==> *final(proof) == *old(proof),
        r matches Ok(amount) ==> {
            &&& current_slot > reprocessor.slot
            &&& *final(proof) == Proof { total_hashes: 0, total_rewards: 0, ..*old(proof) }
            &&& amount == late_reprocess_reward(
                reprocess_reward(
                    old(proof).total_hashes,
                    reward_root,
                    number_from_hash(keccak256(reprocessor.hash@ + u64_le_bytes(bus_rewards) + recent@), 1, 100) as u64,
                ),
                reprocessor.slot,
                current_slot,
            )
        },
{
    if current_slot <= reprocessor.slot {
        return Err(ReprocessError::SlotTooEarly);
    }
    let total_hashes = proof.total_hashes;
    if total_hashes == 0 || proof.total_rewards == 0 {
        return Err(ReprocessError::Spam);
    }
    proof.total_hashes = 0;
    proof.total_rewards = 0;

    let mut seed: Vec<u8> = Vec::new();
    let mut i: usize = 0;
    while i < 32
        invariant
            i <= 32,
            reprocessor.hash@.len() == 32,
            seed@ == reprocessor.hash@.take(i as int),
        decreases 32 - i,
    {
        seed.push(reprocessor.hash[i]);
        proof {
            assert(reprocessor.hash@.take(i + 1) == reprocessor.hash@.take(i as int).push(reprocessor.hash@[i as int]));
        }
        i = i + 1;
    }
    assert(reprocessor.hash@.take(32) == reprocessor.hash@);
    let mut words = to_le_bytes(bus_rewards);
    seed.append(&mut words);
    let ghost front = seed@;
    let mut j: usize = 0;
    while j < recent.len()
        invariant
            j <= recent@.len(),
            seed@ == front + recent@.take(j as int),
        decreases recent@.len() - j,
    {
        seed.push(recent[j]);
        proof {
            assert(recent@.take(j + 1) == recent@.take(j as int).push(recent@[j as int]));
        }
        j = j + 1;
    }
    assert(recent@.take(recent@.len() as int) == recent@);
    let final_hash = keccak_hash(seed.as_slice());
    let number = derive_number_from_hash(&final_hash, 1, 100);
    let reward = calculate_reward(total_hashes, reward_root, number);

    let tolerance: u64 = if reprocessor.slot > u64::MAX - REPROCESS_SLOT_BUFFER {
        u64::MAX
    } else {
        reprocessor.slot + REPROCESS_SLOT_BUFFER
    };
    if current_slot > tolerance {
        let halvings = current_slot - tolerance;
        return match checked_pow2(halvings) {
            Some(p) => {
                proof {
                    lemma_pow2_pos(halvings as nat);
                }
                assert(sat_u64(pow2(halvings as nat) as int) == p);
                Ok(reward / p)
            },
            None => {
                proof {
                    lemma2_to64();
                    if halvings > 64 {
                        lemma_pow2_strictly_increases(64, halvings as nat);
                    }
                    assert(sat_u64(pow2(halvings as nat) as int) == u64::MAX);
                }
                Ok(reward / u64::MAX)
            },
        };
    }
    Ok(reward)
}

} // verus!
