use vstd::prelude::*;

verus! {

/// A 32-byte account address.
pub type Address = [u8; 32];

/// A miner's record: the challenge to solve next, claimable rewards and lifetime stats.
#[derive(Clone, Copy, Debug, PartialEq, Eq)]
pub struct Proof {
    /// The account that may mine with this proof and claim its balance.
    pub authority: Address,
    /// Rewards accrued and not yet claimed.
    pub balance: u64,
    /// The challenge the next solution must satisfy.
    pub challenge: [u8; 32],
    /// Hash of the last accepted solution.
    pub last_hash: [u8; 32],
    /// Time of the last accepted solution (or the target time it was credited to).
    pub last_hash_at: i64,
    /// Time of the last stake deposit.
    pub last_stake_at: i64,
    /// The signer allowed to submit solutions.
    pub miner: Address,
    /// Number of accepted solutions.
    pub total_hashes: u64,
    /// Lifetime rewards.
    pub total_rewards: u64,
}

/// One shard of the epoch's reward budget.
#[derive(Clone, Copy, Debug, PartialEq, Eq)]
pub struct Bus {
    /// Index of the shard.
    pub id: u64,
    /// What the shard may still pay in this epoch.
    pub rewards: u64,
    /// What the shard would have paid without its budget ceiling.
    pub theoretical_rewards: u64,
    /// Highest staked balance seen by the shard in this epoch.
    pub top_balance: u64,
}

/// The global settings that the epoch controller tunes.
#[derive(Clone, Copy, Debug, PartialEq, Eq)]
pub struct Config {
    /// Reward for a solution at the minimum difficulty.
    pub base_reward_rate: u64,
    /// Start of the current epoch.
    pub last_reset_at: i64,
    /// Fewest leading zero bits an accepted hash has.
    pub min_difficulty: u64,
    /// Highest stake on the network, which normalises the staking bonus.
    pub top_balance: u64,
}

/// An equipped coal tool.
#[derive(Clone, Copy, Debug, PartialEq, Eq)]
pub struct Tool {
    /// The tool authority.
    pub authority: Address,
    /// Miner authorized to use the tool.
    pub miner: Address,
    /// The equipped asset.
    pub asset: Address,
    /// Reward units the tool may still add.
    pub durability: u64,
    /// Bonus in percent of the reward.
    pub multiplier: u64,
}

/// An equipped wood tool.
#[derive(Clone, Copy, Debug, PartialEq, Eq)]
pub struct WoodTool {
    /// The tool authority.
    pub authority: Address,
    /// Miner authorized to use the tool.
    pub miner: Address,
    /// The equipped asset.
    pub asset: Address,
    /// Reward units the tool may still add.
    pub durability: u64,
    /// Bonus in percent of the reward.
    pub multiplier: u64,
}

/// A pending reprocess: a draw that settles a number of slots after it was opened.
#[derive(Clone, Copy, Debug, PartialEq, Eq)]
pub struct Reprocessor {
    /// The reprocess authority.
    pub authority: Address,
    /// The slot from which the draw may settle.
    pub slot: u64,
    /// Seed taken from the slot hashes when the reprocess was opened.
    pub hash: [u8; 32],
}

} // verus!
