use vstd::prelude::*;
use vstd::arithmetic::div_mod::lemma_div_denominator;
use vstd::arithmetic::power2::{
    pow2, lemma_pow2_pos, lemma_pow2_strictly_increases, lemma_pow2_unfold, lemma2_to64,
};

use crate::consts::{BASE_TOOL_MULTIPLIER, MAX_TOOL_MULTIPLIER, ONE_MINUTE};
use crate::math::{checked_pow2, lemma_u64_product_fits, min_int};

verus! {

/// Reward for a hash `extra` bits above the minimum difficulty: `rate * 2^extra`,
/// or `None` where that does not fit in a `u64`.
pub open spec fn base_reward(rate: u64, extra: int) -> Option<u64> {
    if extra < 0 || rate as int * pow2(extra as nat) > u64::MAX {
        None
    } else {
        Some((rate as int * pow2(extra as nat)) as u64)
    }
}

/// Computes the base reward of a hash with `difficulty` leading zero bits.
pub fn calculate_base_reward(rate: u64, min_difficulty: u64, difficulty: u64) -> (r: Option<u64>)
    requires
        difficulty >= min_difficulty,
    ensures
        r == base_reward(rate, difficulty - min_difficulty),
        difficulty == min_difficulty ==> r == Some(rate),
{
    let extra = difficulty - min_difficulty;
    proof {
        lemma2_to64();
        if extra == 0 {
            assert(rate as int * pow2(0) == rate as int);
        }
    }
    if rate == 0 {
        assert(0 * pow2(extra as nat) == 0);
        return Some(0);
    }
    match checked_pow2(extra) {
        None => {
            proof {
                if extra > 64 {
                    lemma_pow2_strictly_increases(64, extra as nat);
                }
                assert(rate as int * pow2(extra as nat) >= pow2(extra as nat)) by (nonlinear_arith)
                    requires
                        rate >= 1,
                        pow2(extra as nat) >= 0,
                ;
            }
            None
        },
        Some(p) => {
            proof {
                lemma_pow2_pos(extra as nat);
                lemma2_to64();
            }
            rate.checked_mul(p)
        },
    }
}

/// The staking bonus: the reward scaled by the miner's share of the top balance.
pub open spec fn staking_bonus(reward: u64, balance: u64, top_balance: u64) -> int {
    if top_balance == 0 {
        0
    } else {
        reward as int * min_int(balance as int, top_balance as int) / top_balance as int
    }
}

/// The reward with the staking bonus, multiplied by `factor`, added; `None` on overflow.
pub open spec fn staked_reward(reward: u64, balance: u64, top_balance: u64, factor: u64) -> Option<u64> {
    let total = reward as int + factor as int * staking_bonus(reward, balance, top_balance);
    if total > u64::MAX { None } else { Some(total as u64) }
}

/// Adds the staking bonus, scaled by `factor`, to `reward`.
pub fn apply_staking_bonus(reward: u64, balance: u64, top_balance: u64, factor: u64) -> (r: Option<u64>)
    ensures
        r == staked_reward(reward, balance, top_balance, factor),
{
    if top_balance == 0 {
        return Some(reward);
    }
    let share: u64 = if balance < top_balance { balance } else { top_balance };
    proof {
        lemma_u64_product_fits(reward, share);
        assert(reward as int * share as int / top_balance as int <= reward as int) by (nonlinear_arith)
            requires
                share <= top_balance,
                top_balance > 0,
        ;
    }
    let bonus: u64 = ((reward as u128) * (share as u128) / (top_balance as u128)) as u64;
    match bonus.checked_mul(factor) {
        None => {
            proof {
                assert(factor as int * bonus as int == bonus as int * factor as int) by (nonlinear_arith);
            }
            None
        },
        Some(scaled) => {
            proof {
                assert(factor as int * bonus as int == bonus as int * factor as int) by (nonlinear_arith);
            }
            reward.checked_add(scaled)
        },
    }
}

/// The reward left after `tardiness` seconds past the target time: halved once per
/// full minute, then reduced linearly by up to a half over the remaining seconds.
pub open spec fn liveness_adjusted(reward: u64, tardiness: int) -> int {
    let minute = ONE_MINUTE as int;
    let halved = reward as int / pow2((tardiness / minute) as nat) as int;
    halved - (halved / 2) * (tardiness % minute) / minute
}

/// The reward after the liveness penalty: none within `tolerance` seconds of the
/// target time, the decay of `liveness_adjusted` beyond it.
pub open spec fn liveness_reward(reward: u64, tardiness: int, tolerance: int) -> int {
    if tardiness > tolerance { liveness_adjusted(reward, tardiness) } else { reward as int }
}

/// Applies the liveness decay for `tardiness` seconds of lateness.
pub fn apply_liveness_penalty(reward: u64, tardiness: u64) -> (r: u64)
    ensures
        r == liveness_adjusted(reward, tardiness as int),
        r <= reward,
{
    let minute: u64 = ONE_MINUTE as u64;
    let halvings: u64 = tardiness / minute;
    let halved: u64 = match checked_pow2(halvings) {
        Some(p) => {
            proof {
                lemma_pow2_pos(halvings as nat);
            }
            reward / p
        },
        None => {
            proof {
                lemma2_to64();
                if halvings > 64 {
                    lemma_pow2_strictly_increases(64, halvings as nat);
                }
                assert(reward as int / pow2(halvings as nat) as int == 0) by (nonlinear_arith)
                    requires
                        reward < pow2(halvings as nat),
                ;
            }
            0
        },
    };
    proof {
        lemma_pow2_pos(halvings as nat);
        assert(halved <= reward) by (nonlinear_arith)
            requires
                halved == reward as int / pow2(halvings as nat) as int,
                pow2(halvings as nat) > 0,
        ;
    }
    let rem: u64 = tardiness % minute;
    let half: u64 = halved / 2;
    proof {
        assert(half as int * rem as int <= half as int * 59) by (nonlinear_arith)
            requires
                rem < 60,
        ;
        assert(half as int * rem as int / 60 <= half as int) by (nonlinear_arith)
            requires
                rem < 60,
        ;
    }
    let penalty: u64 = ((half as u128) * (rem as u128) / (minute as u128)) as u64;
    halved - penalty
}

/// One more second of lateness never raises the reward.
proof fn lemma_liveness_step(reward: u64, t: int)
    requires
        t >= 0,
    ensures
        liveness_adjusted(reward, t + 1) <= liveness_adjusted(reward, t),
{
    let k = t / 60;
    let rem = t % 60;
    lemma_pow2_pos(k as nat);
    let halved = reward as int / pow2(k as nat) as int;
    assert(halved >= 0) by (nonlinear_arith)
        requires
            halved == reward as int / pow2(k as nat) as int,
            pow2(k as nat) > 0,
    ;
    if rem < 59 {
        assert((t + 1) / 60 == k && (t + 1) % 60 == rem + 1);
        assert((halved / 2) * rem / 60 <= (halved / 2) * (rem + 1) / 60) by (nonlinear_arith)
            requires
                halved >= 0,
                rem >= 0,
        ;
    } else {
        assert((t + 1) / 60 == k + 1 && (t + 1) % 60 == 0);
        lemma_pow2_unfold((k + 1) as nat);
        lemma_div_denominator(reward as int, pow2(k as nat) as int, 2);
        assert(pow2(k as nat) * 2 == pow2((k + 1) as nat));
        assert(reward as int / pow2((k + 1) as nat) as int == halved / 2);
        assert((halved / 2) * 59 / 60 <= halved / 2) by (nonlinear_arith)
            requires
                halved >= 0,
        ;
        assert(liveness_adjusted(reward, t + 1) == halved / 2 - (halved / 2 / 2) * 0 / 60);
    }
}

/// The decayed reward never exceeds the reward.
pub proof fn lemma_liveness_at_most(reward: u64, t: int)
    requires
        t >= 0,
    ensures
        0 <= liveness_adjusted(reward, t) <= reward,
{
    let k = t / 60;
    lemma_pow2_pos(k as nat);
    let halved = reward as int / pow2(k as nat) as int;
    assert(0 <= halved <= reward) by (nonlinear_arith)
        requires
            halved == reward as int / pow2(k as nat) as int,
            pow2(k as nat) > 0,
    ;
    assert(0 <= (halved / 2) * (t % 60) / 60 <= halved / 2) by (nonlinear_arith)
        requires
            halved >= 0,
            0 <= t % 60 < 60,
    ;
}

/// The liveness penalty never decreases with lateness: a later submission
/// earns at most what an earlier one does.
pub proof fn lemma_liveness_monotone(reward: u64, t1: int, t2: int, tolerance: int)
    requires
        0 <= t1 <= t2,
    ensures
        liveness_reward(reward, t2, tolerance) <= liveness_reward(reward, t1, tolerance),
    decreases t2 - t1,
{
    if t1 < t2 {
        lemma_liveness_monotone(reward, t1, t2 - 1, tolerance);
        lemma_liveness_step(reward, t2 - 1);
        lemma_liveness_at_most(reward, t2);
    }
}

/// A reward below `2^n` has decayed to nothing after `n` full minutes of lateness;
/// any `u64` reward after 64 minutes.
pub proof fn lemma_liveness_vanishes(reward: u64, n: nat, t: int)
    requires
        reward < pow2(n),
        t >= n * 60,
    ensures
        liveness_adjusted(reward, t) == 0,
{
    let k = t / 60;
    assert(k >= n);
    if k > n {
        lemma_pow2_strictly_increases(n, k as nat);
    }
    lemma_pow2_pos(k as nat);
    assert(reward as int / pow2(k as nat) as int == 0) by (nonlinear_arith)
        requires
            0 <= reward < pow2(k as nat),
    ;
    assert(0int * (t % 60) == 0) by (nonlinear_arith);
}

/// A tool's multiplier held within the protocol's range.
pub open spec fn clamped_multiplier(multiplier: u64) -> int {
    if multiplier < BASE_TOOL_MULTIPLIER {
        BASE_TOOL_MULTIPLIER as int
    } else if multiplier > MAX_TOOL_MULTIPLIER {
        MAX_TOOL_MULTIPLIER as int
    } else {
        multiplier as int
    }
}

/// The tool bonus: the clamped percentage of the reward, at most the durability.
pub open spec fn tool_bonus(reward: u64, durability: u64, multiplier: u64) -> int {
    min_int(reward as int * clamped_multiplier(multiplier) / 100, durability as int)
}

/// The part of the tool bonus that the bus can still pay, which the tool is charged.
pub open spec fn tool_charge(reward: u64, bonus: int, bus_rewards: u64) -> int {
    let room = if bus_rewards > reward { bus_rewards - reward } else { 0 };
    min_int(bonus, room)
}

/// Computes the tool bonus of `reward` and what the tool is charged for it.
pub fn calculate_tool_bonus(reward: u64, durability: u64, multiplier: u64, bus_rewards: u64) -> (r: (u64, u64))
    ensures
        r.0 == tool_bonus(reward, durability, multiplier),
        r.1 == tool_charge(reward, r.0 as int, bus_rewards),
        r.1 <= r.0 <= durability,
{
    let m: u64 = if multiplier < BASE_TOOL_MULTIPLIER {
        BASE_TOOL_MULTIPLIER
    } else if multiplier > MAX_TOOL_MULTIPLIER {
        MAX_TOOL_MULTIPLIER
    } else {
        multiplier
    };
    proof {
        lemma_u64_product_fits(reward, m);
    }
    let raw: u128 = (reward as u128) * (m as u128) / 100;
    let bonus: u64 = if raw < durability as u128 { raw as u64 } else { durability };
    let room: u64 = if bus_rewards > reward { bus_rewards - reward } else { 0 };
    let charge: u64 = if bonus < room { bonus } else { room };
    (bonus, charge)
}

/// The group stake bonus `reward * multiplier * stake / total_stake`, or `None` where
/// the total stake is zero, the product leaves the `u128` range or the bonus the
/// `u64` range.
pub open spec fn stake_bonus(reward: u64, stake: u64, total_stake: u64, multiplier: u64) -> Option<u64> {
    let product = reward as int * multiplier as int * stake as int;
    if total_stake == 0 || product > u128::MAX || product / total_stake as int > u64::MAX {
        None
    } else {
        Some((product / total_stake as int) as u64)
    }
}

/// Computes the group stake bonus of `base_reward`.
pub fn calculate_stake_multiplier(base_reward: u64, stake: u64, total_stake: u64, multiplier: u64) -> (r: Option<u64>)
    ensures
        r == stake_bonus(base_reward, stake, total_stake, multiplier),
{
    if total_stake == 0 {
        return None;
    }
    proof {
        lemma_u64_product_fits(base_reward, multiplier);
    }
    let first: u128 = (base_reward as u128) * (multiplier as u128);
    if stake != 0 && first > u128::MAX / (stake as u128) {
        proof {
            assert(first as int * stake as int > u128::MAX) by (nonlinear_arith)
                requires
                    stake > 0,
                    first > u128::MAX as int / stake as int,
            ;
        }
        return None;
    }
    proof {
        assert(first as int * stake as int <= u128::MAX) by (nonlinear_arith)
            requires
                stake == 0 || first <= u128::MAX as int / stake as int,
        ;
    }
    let product: u128 = first * (stake as u128);
    let q: u128 = product / (total_stake as u128);
    if q > u64::MAX as u128 {
        None
    } else {
        Some(q as u64)
    }
}

} // verus!
