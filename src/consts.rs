use vstd::prelude::*;

verus! {

/// Decimal places of the reward token.
pub const TOKEN_DECIMALS: u8 = 11;

/// One whole coal token, in base units.
pub const ONE_COAL: u64 = 100_000_000_000;

/// One whole wood token, in base units.
pub const ONE_WOOD: u64 = 100_000_000_000;

/// Seconds in a minute: the submission interval and the liveness penalty interval.
pub const ONE_MINUTE: i64 = 60;

/// Length of an epoch in seconds, between two resets of the buses.
pub const EPOCH_DURATION: i64 = 60;

/// Epoch length of the coal track.
pub const COAL_EPOCH_DURATION: i64 = 60;

/// Epoch length of the wood track.
pub const WOOD_EPOCH_DURATION: i64 = 60;

/// Seconds of slack around the submission target, for spam and liveness checks.
pub const TOLERANCE: i64 = 5;

/// Seconds of slack before the liveness penalty starts on the wood track.
pub const WOOD_LIVENESS_TOLERANCE: i64 = 10;

/// Extra factor applied to the staking bonus on the coal track.
pub const COAL_STAKE_BONUS_FACTOR: u64 = 12;

/// Lowest tool multiplier, in percent.
pub const BASE_TOOL_MULTIPLIER: u64 = 100;

/// Highest tool multiplier, in percent.
pub const MAX_TOOL_MULTIPLIER: u64 = 300;

/// Number of reward shards.
pub const BUS_COUNT: usize = 8;

/// Bound on how far the reward rate may move in one epoch.
pub const SMOOTHING_FACTOR: u64 = 2;

/// Largest supply that may ever be minted.
pub const MAX_SUPPLY: u64 = 2_100_000_000_000_000_000;

/// Number of supply milestones: every twentieth of the maximum supply halves the budgets.
pub const HALVING_STEPS: u64 = 20;

/// Rewards the network aims to pay in one epoch.
pub const TARGET_EPOCH_REWARDS: u64 = 50_000_000_000_000;

/// Rewards all buses may pay together in one epoch.
pub const MAX_EPOCH_REWARDS: u64 = TARGET_EPOCH_REWARDS * 8;

/// Rewards one bus may pay in one epoch.
pub const BUS_EPOCH_REWARDS: u64 = MAX_EPOCH_REWARDS / 8;

/// Largest reward paid for a single coal submission.
pub const TARGET_COAL_REWARDS: u64 = TARGET_EPOCH_REWARDS;

/// At or below this rate the difficulty goes up by one.
pub const BASE_REWARD_RATE_MIN_THRESHOLD: u64 = 32;

/// At or above this rate the difficulty goes down by one.
pub const BASE_REWARD_RATE_MAX_THRESHOLD: u64 = 256;

/// Program id of the no-op program whose instructions carry the committed proof address.
pub const NOOP_PROGRAM_ID: [u8; 32] = [
    11, 188, 15, 192, 187, 71, 202, 47, 116, 196, 17, 46, 148, 171, 19, 207,
    163, 198, 52, 229, 220, 23, 234, 203, 3, 205, 26, 35, 205, 126, 120, 124,
];

/// Scale of the reprocess reward per lifetime hash.
pub const BASE_COAL_REWARD_RATE_MIN_THRESHOLD: u64 = 32;

/// Slots between opening a reprocess and its target slot.
pub const REPROCESS_DELAY_SLOTS: u64 = 20;

/// Slots of slack after the reprocess target before its reward halves.
pub const REPROCESS_SLOT_BUFFER: u64 = 5;

} // verus!
