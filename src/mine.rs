use vstd::prelude::*;
use vstd::arithmetic::power2::pow2;
use vstd::string::StringSliceAdditionalSpecFns;

use crate::consts::{
    COAL_EPOCH_DURATION, COAL_STAKE_BONUS_FACTOR, NOOP_PROGRAM_ID, ONE_MINUTE, TARGET_COAL_REWARDS,
    TOLERANCE, WOOD_EPOCH_DURATION, WOOD_LIVENESS_TOLERANCE,
};
use crate::introspection::{committed_address, parse_auth_address, IntrospectionError};
use crate::math::{
    i64_le_bytes, i64_to_le_bytes, max_int, min_int, sat_add_i64, sat_sub_i64, sat_u64,
    saturating_add_i64, saturating_sub_i64, to_le_bytes, u64_le_bytes,
};
use crate::reward::{
    lemma_liveness_at_most, lemma_liveness_monotone, liveness_reward, apply_liveness_penalty, apply_staking_bonus, base_reward, calculate_base_reward,
    calculate_stake_multiplier, calculate_tool_bonus, liveness_adjusted, stake_bonus, staked_reward,
    tool_bonus, tool_charge,
};
use crate::state::{Address, Bus, Config, Proof, Tool, WoodTool};
use crate::work::{
    difficulty, drillx_hash, drillx_solution_valid, keccak256, keccak_hash, leading_zero_bits,
    solution_hash, solution_is_valid,
};

verus! {

/// The resource a miner works on. The tracks share one mining rule and differ
/// in a few parameters.
#[derive(Clone, Copy, Debug, PartialEq, Eq)]
pub enum Resource {
    /// Coal, mined with the main-hand coal tool and staking groups.
    Coal,
    /// Wood, chopped with the wood tool.
    Wood,
}

/// Epoch length of a track.
pub open spec fn track_epoch_length(res: Resource) -> i64 {
    match res {
        Resource::Coal => COAL_EPOCH_DURATION,
        Resource::Wood => WOOD_EPOCH_DURATION,
    }
}

/// Seconds of lateness a track forgives before the liveness penalty.
pub open spec fn track_liveness_tolerance(res: Resource) -> i64 {
    match res {
        Resource::Coal => TOLERANCE,
        Resource::Wood => WOOD_LIVENESS_TOLERANCE,
    }
}

/// Factor applied to the staking bonus on a track.
pub open spec fn track_stake_factor(res: Resource) -> u64 {
    match res {
        Resource::Coal => COAL_STAKE_BONUS_FACTOR,
        Resource::Wood => 1,
    }
}

/// Largest reward a single submission may be paid on a track.
pub open spec fn track_payout_cap(res: Resource) -> u64 {
    match res {
        Resource::Coal => TARGET_COAL_REWARDS,
        Resource::Wood => u64::MAX,
    }
}

/// Which marker instruction (counting from 1) carries the proof address on a track.
pub open spec fn track_marker_occurrence(res: Resource) -> u64 {
    match res {
        Resource::Coal => 2,
        Resource::Wood => 1,
    }
}

/// Bytes hashed in front of the next challenge on a track (`b"wood"` for wood).
pub open spec fn track_challenge_domain(res: Resource) -> Seq<u8> {
    match res {
        Resource::Coal => seq![],
        Resource::Wood => seq![119u8, 111u8, 111u8, 100u8],
    }
}

/// Whether a track credits the uncapped reward to the lifetime total (else the payout).
pub open spec fn track_credits_uncapped(res: Resource) -> bool {
    res == Resource::Wood
}

impl Resource {
    /// The track's epoch length.
    pub fn epoch_length(&self) -> (r: i64)
        ensures
            r == track_epoch_length(*self),
    {
        match self {
            Resource::Coal => COAL_EPOCH_DURATION,
            Resource::Wood => WOOD_EPOCH_DURATION,
        }
    }

    /// The track's liveness tolerance.
    pub fn liveness_tolerance(&self) -> (r: i64)
        ensures
            r == track_liveness_tolerance(*self),
            r >= 0,
    {
        match self {
            Resource::Coal => TOLERANCE,
            Resource::Wood => WOOD_LIVENESS_TOLERANCE,
        }
    }

    /// The track's staking bonus factor.
    pub fn stake_factor(&self) -> (r: u64)
        ensures
            r == track_stake_factor(*self),
    {
        match self {
            Resource::Coal => COAL_STAKE_BONUS_FACTOR,
            Resource::Wood => 1,
        }
    }

    /// The track's cap on a single payout.
    pub fn payout_cap(&self) -> (r: u64)
        ensures
            r == track_payout_cap(*self),
    {
        match self {
            Resource::Coal => TARGET_COAL_REWARDS,
            Resource::Wood => u64::MAX,
        }
    }

    /// Which marker instruction carries the proof address on this track.
    pub fn marker_occurrence(&self) -> (r: u64)
        ensures
            r == track_marker_occurrence(*self),
    {
        match self {
            Resource::Coal => 2,
            Resource::Wood => 1,
        }
    }

    /// The bytes hashed in front of the next challenge on this track.
    pub fn challenge_domain(&self) -> (r: Vec<u8>)
        ensures
            r@ == track_challenge_domain(*self),
    {
        match self {
            Resource::Coal => Vec::new(),
            Resource::Wood => {
                let v = vec![119u8, 111u8, 111u8, 100u8];
                assert(v@ == seq![119u8, 111u8, 111u8, 100u8]);
                v
            },
        }
    }

    /// Whether the track credits the uncapped reward to the lifetime total.
    pub fn credits_uncapped(&self) -> (r: bool)
        ensures
            r == track_credits_uncapped(*self),
    {
        match self {
            Resource::Coal => false,
            Resource::Wood => true,
        }
    }
}

/// The track named by a tool's `resource` attribute: `"coal"` or `"wood"`.
pub open spec fn named_resource(name: Seq<u8>) -> Option<Resource> {
    if name == seq![99u8, 111u8, 97u8, 108u8] {
        Some(Resource::Coal)
    } else if name == seq![119u8, 111u8, 111u8, 100u8] {
        Some(Resource::Wood)
    } else {
        None
    }
}

/// Reads a tool's `resource` attribute; `None` for an unknown resource.
pub fn resource_from_name(name: &str) -> (r: Option<Resource>)
    ensures
        r == named_resource(name.spec_bytes()),
{
    let b = name.as_bytes();
    if b.len() != 4 {
        return None;
    }
    if b[0] == 99 && b[1] == 111 && b[2] == 97 && b[3] == 108 {
        assert(b@ =~= seq![99u8, 111u8, 97u8, 108u8]);
        Some(Resource::Coal)
    } else if b[0] == 119 && b[1] == 111 && b[2] == 111 && b[3] == 100 {
        assert(b@ =~= seq![119u8, 111u8, 111u8, 100u8]);
        Some(Resource::Wood)
    } else {
        None
    }
}

/// A submitted solution: an Equi-X digest and the nonce it was found for.
#[derive(Clone, Copy, Debug, PartialEq, Eq)]
pub struct MineArgs {
    pub digest: [u8; 16],
    pub nonce: [u8; 8],
}

impl MineArgs {
    /// Decodes the instruction data of a mining instruction: the 16-byte digest
    /// followed by the 8-byte nonce, and nothing else.
    pub fn from_bytes(data: &[u8]) -> (r: Option<MineArgs>)
        ensures
            data@.len() != 24 ==> r is None,
            data@.len() == 24 ==> (r matches Some(a) && a.digest@ == data@.subrange(0, 16)
                && a.nonce@ == data@.subrange(16, 24)),
    {
        if data.len() != 24 {
            return None;
        }
        let mut digest = [0u8; 16];
        let mut i: usize = 0;
        while i < 16
            invariant
                i <= 16,
                data@.len() == 24,
                digest@.len() == 16,
                forall|k: int| 0 <= k < i ==> digest@[k] == data@[k],
            decreases 16 - i,
        {
            digest[i] = data[i];
            i = i + 1;
        }
        let mut nonce = [0u8; 8];
        let mut j: usize = 0;
        while j < 8
            invariant
                j <= 8,
                data@.len() == 24,
                nonce@.len() == 8,
                forall|k: int| 0 <= k < j ==> nonce@[k] == data@[16 + k],
            decreases 8 - j,
        {
            nonce[j] = data[16 + j];
            j = j + 1;
        }
        assert(digest@ == data@.subrange(0, 16));
        assert(nonce@ == data@.subrange(16, 24));
        Some(MineArgs { digest, nonce })
    }
}

/// What a mining instruction reports to off-ledger observers.
#[derive(Clone, Copy, Debug, PartialEq, Eq)]
pub struct MineEvent {
    pub difficulty: u64,
    pub reward: u64,
    pub timing: i64,
    pub tool_reward: u64,
    pub stake_reward: u64,
}

/// The event's wire form: its five fields as little-endian 8-byte words.
pub open spec fn event_bytes(e: MineEvent) -> Seq<u8> {
    u64_le_bytes(e.difficulty) + u64_le_bytes(e.reward) + i64_le_bytes(e.timing)
        + u64_le_bytes(e.tool_reward) + u64_le_bytes(e.stake_reward)
}

impl MineEvent {
    /// Encodes the event for the instruction's return data.
    pub fn to_bytes(&self) -> (r: Vec<u8>)
        ensures
            r@ == event_bytes(*self),
    {
        let mut out = to_le_bytes(self.difficulty);
        let mut reward = to_le_bytes(self.reward);
        out.append(&mut reward);
        let mut timing = i64_to_le_bytes(self.timing);
        out.append(&mut timing);
        let mut tool = to_le_bytes(self.tool_reward);
        out.append(&mut tool);
        let mut stake = to_le_bytes(self.stake_reward);
        out.append(&mut stake);
        out
    }
}

/// A staking group's figures for a miner: the member's (or the group's) stake, the
/// total stake and the total multiplier.
#[derive(Clone, Copy, Debug, PartialEq, Eq)]
pub struct GuildStake {
    pub stake: u64,
    pub total_stake: u64,
    pub total_multiplier: u64,
}

/// The fields of an equipped tool that mining reads.
#[derive(Clone, Copy, Debug, PartialEq, Eq)]
pub struct ToolState {
    pub durability: u64,
    pub multiplier: u64,
}

/// Why a mining instruction was refused.
#[derive(Clone, Copy, Debug, PartialEq, Eq)]
pub enum MineError {
    /// The transaction does not commit to this proof account.
    AuthFailed,
    /// The epoch has run out; the buses must be reset first.
    NeedsReset,
    /// The digest is not a solution of the challenge.
    HashInvalid,
    /// The submission comes too soon after the last one.
    Spam,
    /// The hash has fewer leading zeros than the minimum difficulty.
    HashTooEasy,
    /// An amount would leave the `u64` range.
    Overflow,
}

impl MineError {
    /// The error's code on the ledger; `None` for an overflow, which the ledger
    /// reports as its own arithmetic error.
    pub fn code(&self) -> (r: Option<u32>)
        ensures
            r == match *self {
                MineError::NeedsReset => Some(0u32),
                MineError::HashInvalid => Some(1u32),
                MineError::HashTooEasy => Some(2u32),
                MineError::Spam => Some(5u32),
                MineError::AuthFailed => Some(7u32),
                MineError::Overflow => None,
            },
    {
        match self {
            MineError::NeedsReset => Some(0),
            MineError::HashInvalid => Some(1),
            MineError::HashTooEasy => Some(2),
            MineError::Spam => Some(5),
            MineError::AuthFailed => Some(7),
            MineError::Overflow => None,
        }
    }
}

/// The reward of one accepted solution, stage by stage.
#[derive(Clone, Copy, Debug, PartialEq, Eq)]
pub struct RewardBreakdown {
    /// The reward before the bus ceiling and the payout cap.
    pub reward: u64,
    /// What is paid: the reward within the bus budget and the payout cap.
    pub payable: u64,
    /// Bonus added by the tool.
    pub tool_reward: u64,
    /// Durability the tool loses: the part of its bonus that the bus can pay.
    pub tool_charge: u64,
    /// Bonus added by the staking group.
    pub stake_reward: u64,
    /// The bus's top balance after this solution.
    pub top_balance: u64,
}

/// The instruction result: the event and the durability the tool lost.
#[derive(Clone, Copy, Debug, PartialEq, Eq)]
pub struct Mined {
    pub event: MineEvent,
    pub tool_charge: u64,
}

/// The time the next solution is due: a minute after the last.
pub open spec fn target_time(proof: Proof) -> int {
    sat_add_i64(proof.last_hash_at, ONE_MINUTE)
}

/// The time after which the liveness penalty applies.
pub open spec fn liveness_deadline(res: Resource, proof: Proof) -> int {
    sat_add_i64(target_time(proof) as i64, track_liveness_tolerance(res))
}

/// The staking bonus applies: the miner has a balance and did not stake within the last minute.
pub open spec fn stake_eligible(proof: Proof, now: i64) -> bool {
    proof.balance > 0 && sat_add_i64(proof.last_stake_at, ONE_MINUTE) < now
}

/// The reward after the liveness penalty.
pub open spec fn live_reward(res: Resource, proof: Proof, now: i64, reward: u64) -> u64 {
    if now > liveness_deadline(res, proof) {
        liveness_adjusted(reward, now - target_time(proof)) as u64
    } else {
        reward
    }
}

/// The tool bonus and charge for a reward, `(0, 0)` without a usable tool.
pub open spec fn tool_terms(tool: Option<ToolState>, reward: u64, bus_rewards: u64) -> (int, int) {
    match tool {
        Some(t) => if t.durability > 0 {
            let bonus = tool_bonus(reward, t.durability, t.multiplier);
            (bonus, tool_charge(reward, bonus, bus_rewards))
        } else {
            (0, 0)
        },
        None => (0, 0),
    }
}

/// The reward composition for a hash of the given difficulty: base reward, staking
/// bonus, liveness penalty, tool bonus, group bonus, then the payout within the bus
/// budget and the track's cap.
pub open spec fn reward_spec(
    res: Resource,
    config: Config,
    bus: Bus,
    proof: Proof,
    tool: Option<ToolState>,
    guild: Option<GuildStake>,
    now: i64,
    difficulty: u64,
) -> Result<RewardBreakdown, MineError> {
    let eligible = stake_eligible(proof, now);
    let staked = match base_reward(config.base_reward_rate, difficulty - config.min_difficulty) {
        None => None,
        Some(base) => if eligible {
            staked_reward(base, proof.balance, config.top_balance, track_stake_factor(res))
        } else {
            Some(base)
        },
    };
    match staked {
        None => Err(MineError::Overflow),
        Some(r1) => {
            let top = if eligible && proof.balance > bus.top_balance { proof.balance } else { bus.top_balance };
            let r2 = live_reward(res, proof, now, r1);
            let (bonus, charge) = tool_terms(tool, r2, bus.rewards);
            if r2 + bonus > u64::MAX {
                Err(MineError::Overflow)
            } else {
                let r3 = (r2 + bonus) as u64;
                let group = match guild {
                    None => Some(0u64),
                    Some(g) => stake_bonus(r3, g.stake, g.total_stake, g.total_multiplier),
                };
                match group {
                    None => Err(MineError::Overflow),
                    Some(s) => if r3 + s > u64::MAX {
                        Err(MineError::Overflow)
                    } else {
                        let r4 = r3 + s;
                        Ok(RewardBreakdown {
                            reward: r4 as u64,
                            payable: min_int(min_int(r4, bus.rewards as int), track_payout_cap(res) as int) as u64,
                            tool_reward: bonus as u64,
                            tool_charge: charge as u64,
                            stake_reward: s,
                            top_balance: top,
                        })
                    },
                }
            }
        },
    }
}

/// The checks and the reward of a solution whose validity and hash are known:
/// refused when the epoch has run out, the solution is invalid, it comes too soon,
/// its hash is too easy, or an amount overflows.
pub open spec fn settle_spec(
    res: Resource,
    config: Config,
    bus: Bus,
    proof: Proof,
    tool: Option<ToolState>,
    guild: Option<GuildStake>,
    now: i64,
    valid: bool,
    hash: Seq<u8>,
) -> Result<RewardBreakdown, MineError> {
    if sat_add_i64(config.last_reset_at, track_epoch_length(res)) <= now {
        Err(MineError::NeedsReset)
    } else if !valid {
        Err(MineError::HashInvalid)
    } else if now < sat_sub_i64(target_time(proof) as i64, TOLERANCE) {
        Err(MineError::Spam)
    } else if leading_zero_bits(hash) < config.min_difficulty {
        Err(MineError::HashTooEasy)
    } else {
        match reward_spec(res, config, bus, proof, tool, guild, now, leading_zero_bits(hash) as u64) {
            Err(e) => Err(e),
            Ok(b) => if bus.theoretical_rewards + b.reward > u64::MAX || proof.balance + b.payable > u64::MAX {
                Err(MineError::Overflow)
            } else {
                Ok(b)
            },
        }
    }
}

/// The transaction commits to `proof_address` through the track's marker instruction.
pub open spec fn authentic(data: Seq<u8>, proof_address: Seq<u8>, occurrence: u64) -> bool {
    match committed_address(data, NOOP_PROGRAM_ID@, occurrence as int) {
        Ok(Some(a)) => a == proof_address,
        _ => false,
    }
}

/// A whole mining instruction: authentication, then the drillx check of the
/// solution against the proof's challenge, then the settlement of its hash.
pub open spec fn mine_spec(
    res: Resource,
    config: Config,
    bus: Bus,
    proof: Proof,
    tool: Option<ToolState>,
    guild: Option<GuildStake>,
    args: MineArgs,
    proof_address: Seq<u8>,
    data: Seq<u8>,
    now: i64,
) -> Result<RewardBreakdown, MineError> {
    if !authentic(data, proof_address, track_marker_occurrence(res)) {
        Err(MineError::AuthFailed)
    } else {
        settle_spec(
            res,
            config,
            bus,
            proof,
            tool,
            guild,
            now,
            drillx_solution_valid(proof.challenge@, args.nonce@, args.digest@),
            drillx_hash(args.digest@, args.nonce@),
        )
    }
}

/// The bus after paying a settled solution.
pub open spec fn bus_after(bus: Bus, b: RewardBreakdown) -> Bus {
    Bus {
        rewards: (bus.rewards - b.payable) as u64,
        theoretical_rewards: (bus.theoretical_rewards + b.reward) as u64,
        top_balance: b.top_balance,
        ..bus
    }
}

/// `next` is the proof after a settled solution with hash `hash`: paid, credited,
/// with the next challenge drawn from the hash and the recent slot hash.
pub open spec fn proof_after(res: Resource, proof: Proof, b: RewardBreakdown, now: i64, hash: Seq<u8>, recent: Seq<u8>, next: Proof) -> bool {
    let credited = if track_credits_uncapped(res) { b.reward } else { b.payable };
    &&& next.last_hash@ == hash
    &&& next.challenge@ == keccak256(track_challenge_domain(res) + hash + recent)
    &&& next == Proof {
        balance: (proof.balance + b.payable) as u64,
        last_hash: next.last_hash,
        challenge: next.challenge,
        last_hash_at: max_int(now as int, target_time(proof)) as i64,
        total_hashes: sat_u64(proof.total_hashes + 1) as u64,
        total_rewards: sat_u64(proof.total_rewards + credited) as u64,
        ..proof
    }
}

/// The event reported for a settled solution.
pub open spec fn event_of(res: Resource, proof: Proof, b: RewardBreakdown, now: i64, hash: Seq<u8>) -> MineEvent {
    MineEvent {
        difficulty: leading_zero_bits(hash) as u64,
        reward: b.payable,
        timing: sat_sub_i64(now, liveness_deadline(res, proof) as i64) as i64,
        tool_reward: b.tool_reward,
        stake_reward: b.stake_reward,
    }
}

/// Computes the reward of a hash with `difficulty` leading zero bits.
pub fn compute_reward(
    res: Resource,
    config: &Config,
    bus: &Bus,
    proof: &Proof,
    tool: Option<ToolState>,
    guild: Option<GuildStake>,
    now: i64,
    difficulty: u64,
) -> (r: Result<RewardBreakdown, MineError>)
    requires
        difficulty >= config.min_difficulty,
    ensures
        r == reward_spec(res, *config, *bus, *proof, tool, guild, now, difficulty),
        r is Ok ==> r->Ok_0.payable <= bus.rewards && r->Ok_0.payable <= r->Ok_0.reward,
        r is Ok ==> r->Ok_0.tool_charge <= r->Ok_0.tool_reward,
{
    let base = match calculate_base_reward(config.base_reward_rate, config.min_difficulty, difficulty) {
        None => return Err(MineError::Overflow),
        Some(b) => b,
    };
    let eligible = proof.balance > 0 && saturating_add_i64(proof.last_stake_at, ONE_MINUTE) < now;
    let mut reward = if eligible {
        match apply_staking_bonus(base, proof.balance, config.top_balance, res.stake_factor()) {
            None => return Err(MineError::Overflow),
            Some(r) => r,
        }
    } else {
        base
    };
    let top = if eligible && proof.balance > bus.top_balance { proof.balance } else { bus.top_balance };

    // Liveness penalty.
    let t_target = saturating_add_i64(proof.last_hash_at, ONE_MINUTE);
    let t_liveness = saturating_add_i64(t_target, res.liveness_tolerance());
    if now > t_liveness {
        let tardiness: u64 = ((now as i128) - (t_target as i128)) as u64;
        reward = apply_liveness_penalty(reward, tardiness);
    }

    // Tool bonus.
    let (tool_reward, charge) = match tool {
        Some(t) => if t.durability > 0 {
            calculate_tool_bonus(reward, t.durability, t.multiplier, bus.rewards)
        } else {
            (0, 0)
        },
        None => (0, 0),
    };
    let reward = match reward.checked_add(tool_reward) {
        None => return Err(MineError::Overflow),
        Some(r) => r,
    };

    // Group stake bonus.
    let stake_reward: u64 = match guild {
        None => 0,
        Some(g) => match calculate_stake_multiplier(reward, g.stake, g.total_stake, g.total_multiplier) {
            None => return Err(MineError::Overflow),
            Some(s) => s,
        },
    };
    let reward = match reward.checked_add(stake_reward) {
        None => return Err(MineError::Overflow),
        Some(r) => r,
    };

    let within_bus = if reward < bus.rewards { reward } else { bus.rewards };
    let cap = res.payout_cap();
    let payable = if within_bus < cap { within_bus } else { cap };
    Ok(RewardBreakdown {
        reward,
        payable,
        tool_reward,
        tool_charge: charge,
        stake_reward,
        top_balance: top,
    })
}

/// Checks and rewards a solution whose drillx validity (`valid`) and hash are given.
pub fn settle_solution(
    res: Resource,
    config: &Config,
    bus: &Bus,
    proof: &Proof,
    tool: Option<ToolState>,
    guild: Option<GuildStake>,
    now: i64,
    valid: bool,
    hash: &[u8; 32],
) -> (r: Result<RewardBreakdown, MineError>)
    ensures
        r == settle_spec(res, *config, *bus, *proof, tool, guild, now, valid, hash@),
{
    if saturating_add_i64(config.last_reset_at, res.epoch_length()) <= now {
        return Err(MineError::NeedsReset);
    }
    if !valid {
        return Err(MineError::HashInvalid);
    }
    let t_target = saturating_add_i64(proof.last_hash_at, ONE_MINUTE);
    if now < saturating_sub_i64(t_target, TOLERANCE) {
        return Err(MineError::Spam);
    }
    let d = difficulty(hash);
    if d < config.min_difficulty {
        return Err(MineError::HashTooEasy);
    }
    let b = match compute_reward(res, config, bus, proof, tool, guild, now, d) {
        Err(e) => return Err(e),
        Ok(b) => b,
    };
    if bus.theoretical_rewards > u64::MAX - b.reward || proof.balance > u64::MAX - b.payable {
        return Err(MineError::Overflow);
    }
    Ok(b)
}

/// Reads the proof address that the transaction commits to through its marker
/// instruction numbered `occurrence`, and fails with `AuthFailed` unless it is
/// `proof_address`.
pub fn authenticate_proof(data: &[u8], proof_address: &Address, occurrence: u64) -> (r: Result<(), MineError>)
    ensures
        r is Ok <==> authentic(data@, proof_address@, occurrence),
        r is Err ==> r == Err::<(), MineError>(MineError::AuthFailed),
{
    let marker = NOOP_PROGRAM_ID;
    match parse_auth_address(data, &marker, occurrence) {
        Ok(Some(a)) => {
            if crate::introspection::same_address(&a, proof_address) {
                Ok(())
            } else {
                Err(MineError::AuthFailed)
            }
        },
        _ => Err(MineError::AuthFailed),
    }
}

/// Authenticates a coal proof: the second marker instruction carries its address.
pub fn authenticate_coal_proof(data: &[u8], proof_address: &Address) -> (r: Result<(), MineError>)
    ensures
        r is Ok <==> authentic(data@, proof_address@, track_marker_occurrence(Resource::Coal)),
        r is Err ==> r == Err::<(), MineError>(MineError::AuthFailed),
{
    authenticate_proof(data, proof_address, Resource::Coal.marker_occurrence())
}

/// Authenticates a wood proof: the first marker instruction carries its address.
pub fn authenticate_wood_proof(data: &[u8], proof_address: &Address) -> (r: Result<(), MineError>)
    ensures
        r is Ok <==> authentic(data@, proof_address@, track_marker_occurrence(Resource::Wood)),
        r is Err ==> r == Err::<(), MineError>(MineError::AuthFailed),
{
    authenticate_proof(data, proof_address, Resource::Wood.marker_occurrence())
}

/// The address carried by the second marker instruction of the transaction.
pub fn parse_coal_auth_address(data: &[u8]) -> (r: Result<Option<Address>, IntrospectionError>)
    ensures
        match committed_address(data@, NOOP_PROGRAM_ID@, 2) {
            Err(e) => r == Err::<Option<Address>, IntrospectionError>(e),
            Ok(None) => r == Ok::<Option<Address>, IntrospectionError>(None),
            Ok(Some(a)) => r is Ok && r->Ok_0 is Some && r->Ok_0->Some_0@ == a,
        },
{
    let marker = NOOP_PROGRAM_ID;
    parse_auth_address(data, &marker, 2)
}

/// The address carried by the first marker instruction of the transaction.
pub fn parse_wood_auth_address(data: &[u8]) -> (r: Result<Option<Address>, IntrospectionError>)
    ensures
        match committed_address(data@, NOOP_PROGRAM_ID@, 1) {
            Err(e) => r == Err::<Option<Address>, IntrospectionError>(e),
            Ok(None) => r == Ok::<Option<Address>, IntrospectionError>(None),
            Ok(Some(a)) => r is Ok && r->Ok_0 is Some && r->Ok_0->Some_0@ == a,
        },
{
    let marker = NOOP_PROGRAM_ID;
    parse_auth_address(data, &marker, 1)
}

/// The next challenge: the Keccak hash of the track's domain bytes, the solution
/// hash and the recent slot hash.
pub fn next_challenge(res: Resource, hash: &[u8; 32], recent: &[u8]) -> (r: [u8; 32])
    ensures
        r@ == keccak256(track_challenge_domain(res) + hash@ + recent@),
{
    let mut data = res.challenge_domain();
    let ghost domain = data@;
    let mut i: usize = 0;
    while i < 32
        invariant
            i <= 32,
            hash@.len() == 32,
            data@ == domain + hash@.take(i as int),
        decreases 32 - i,
    {
        data.push(hash[i]);
        proof {
            assert(hash@.take(i + 1) == hash@.take(i as int).push(hash@[i as int]));
        }
        i = i + 1;
    }
    assert(hash@.take(32) == hash@);
    let ghost with_hash = data@;
    let mut j: usize = 0;
    while j < recent.len()
        invariant
            j <= recent@.len(),
            data@ == with_hash + recent@.take(j as int),
        decreases recent@.len() - j,
    {
        data.push(recent[j]);
        proof {
            assert(recent@.take(j + 1) == recent@.take(j as int).push(recent@[j as int]));
        }
        j = j + 1;
    }
    assert(recent@.take(recent@.len() as int) == recent@);
    keccak_hash(data.as_slice())
}

/// A mining instruction on either track. The transaction must commit to
/// `proof_address`; the solution is checked with drillx against the proof's
/// challenge; the reward is paid from the bus into the proof, and the proof gets
/// a new challenge drawn from the solution hash and `recent`, the most recent
/// slot hash. On an error nothing changes.
pub fn mine(
    res: Resource,
    config: &Config,
    bus: &mut Bus,
    proof: &mut Proof,
    tool: Option<ToolState>,
    guild: Option<GuildStake>,
    args: &MineArgs,
    proof_address: &Address,
    introspection: &[u8],
    recent: &[u8],
    now: i64,
) -> (r: Result<Mined, MineError>)
    ensures
        match mine_spec(res, *config, *old(bus), *old(proof), tool, guild, *args, proof_address@, introspection@, now) {
            Err(e) => r == Err::<Mined, MineError>(e) && *final(bus) == *old(bus) && *final(proof) == *old(proof),
            Ok(b) => r == Ok::<Mined, MineError>(Mined {
                event: event_of(res, *old(proof), b, now, drillx_hash(args.digest@, args.nonce@)),
                tool_charge: b.tool_charge,
            }) && *final(bus) == bus_after(*old(bus), b)
                && proof_after(res, *old(proof), b, now, drillx_hash(args.digest@, args.nonce@), recent@, *final(proof))
                && b.payable <= old(bus).rewards,
        },
{
    if authenticate_proof(introspection, proof_address, res.marker_occurrence()).is_err() {
        return Err(MineError::AuthFailed);
    }
    let valid = solution_is_valid(args.digest, args.nonce, &proof.challenge);
    let hash = solution_hash(args.digest, args.nonce);
    let b = match settle_solution(res, config, bus, proof, tool, guild, now, valid, &hash) {
        Err(e) => return Err(e),
        Ok(b) => b,
    };
    let t_target = saturating_add_i64(proof.last_hash_at, ONE_MINUTE);
    let t_liveness = saturating_add_i64(t_target, res.liveness_tolerance());
    let event = MineEvent {
        difficulty: difficulty(&hash),
        reward: b.payable,
        timing: saturating_sub_i64(now, t_liveness),
        tool_reward: b.tool_reward,
        stake_reward: b.stake_reward,
    };
    let challenge = next_challenge(res, &hash, recent);
    let credited = if res.credits_uncapped() { b.reward } else { b.payable };

    bus.rewards = bus.rewards - b.payable;
    bus.theoretical_rewards = bus.theoretical_rewards + b.reward;
    bus.top_balance = b.top_balance;

    proof.balance = proof.balance + b.payable;
    proof.last_hash = hash;
    proof.challenge = challenge;
    proof.last_hash_at = if now > t_target { now } else { t_target };
    proof.total_hashes = if proof.total_hashes == u64::MAX { u64::MAX } else { proof.total_hashes + 1 };
    proof.total_rewards = if proof.total_rewards > u64::MAX - credited {
        u64::MAX
    } else {
        proof.total_rewards + credited
    };
    Ok(Mined { event, tool_charge: b.tool_charge })
}

/// What a settled reward respects: the payout is within the bus budget and the
/// reward, and the tool is charged at most its bonus, which is at most its
/// durability (nothing without a usable tool).
pub proof fn lemma_reward_bounds(
    res: Resource,
    config: Config,
    bus: Bus,
    proof: Proof,
    tool: Option<ToolState>,
    guild: Option<GuildStake>,
    now: i64,
    difficulty: u64,
)
    ensures
        reward_spec(res, config, bus, proof, tool, guild, now, difficulty) matches Ok(b) ==> {
            &&& b.payable <= bus.rewards
            &&& b.payable <= b.reward
            &&& b.tool_charge <= b.tool_reward
            &&& match tool {
                Some(t) => b.tool_reward <= t.durability
                    && (t.durability == 0 ==> b.tool_reward == 0 && b.tool_charge == 0),
                None => b.tool_reward == 0 && b.tool_charge == 0,
            }
        },
{
}

/// Without a staking bonus, a tool, a group or lateness, a hash `k` bits above
/// the minimum difficulty is rewarded `rate * 2^k` (the rate itself at the minimum
/// difficulty), paid within the bus budget and the track's cap; where `rate * 2^k`
/// leaves the `u64` range the reward is refused as an overflow.
pub proof fn lemma_plain_reward(res: Resource, config: Config, bus: Bus, proof: Proof, now: i64, difficulty: u64)
    requires
        difficulty >= config.min_difficulty,
        !stake_eligible(proof, now),
        now <= liveness_deadline(res, proof),
    ensures
        difficulty == config.min_difficulty ==> base_reward(config.base_reward_rate, 0)
            == Some(config.base_reward_rate),
        match base_reward(config.base_reward_rate, difficulty - config.min_difficulty) {
            None => reward_spec(res, config, bus, proof, None, None, now, difficulty)
                == Err::<RewardBreakdown, MineError>(MineError::Overflow),
            Some(base) => reward_spec(res, config, bus, proof, None, None, now, difficulty)
                == Ok::<RewardBreakdown, MineError>(RewardBreakdown {
                    reward: base,
                    payable: min_int(min_int(base as int, bus.rewards as int), track_payout_cap(res) as int) as u64,
                    tool_reward: 0,
                    tool_charge: 0,
                    stake_reward: 0,
                    top_balance: bus.top_balance,
                }),
        },
{
    vstd::arithmetic::power2::lemma2_to64();
    assert(config.base_reward_rate as int * 1 == config.base_reward_rate as int);
}

/// The liveness stage never pays more for a later submission of the same proof.
pub proof fn lemma_live_reward_monotone(res: Resource, proof: Proof, reward: u64, now1: i64, now2: i64)
    requires
        now1 <= now2,
    ensures
        live_reward(res, proof, now2, reward) <= live_reward(res, proof, now1, reward),
{
    let target = target_time(proof);
    let tol = track_liveness_tolerance(res) as int;
    assert(tol >= 0);
    if now1 - target >= 0 {
        lemma_liveness_at_most(reward, now1 - target);
    }
    if now2 - target >= 0 {
        lemma_liveness_at_most(reward, now2 - target);
    }
    assert(live_reward(res, proof, now1, reward) == liveness_reward(reward, now1 - target, tol));
    assert(live_reward(res, proof, now2, reward) == liveness_reward(reward, now2 - target, tol));
    if now1 - target >= 0 {
        lemma_liveness_monotone(reward, now1 - target, now2 - target, tol);
    } else if now2 - target >= 0 {
        lemma_liveness_monotone(reward, 0, now2 - target, tol);
    }
}

/// The tool state that mining reads from a coal tool.
pub open spec fn coal_tool_state(tool: Option<Tool>) -> Option<ToolState> {
    match tool {
        Some(t) => Some(ToolState { durability: t.durability, multiplier: t.multiplier }),
        None => None,
    }
}

/// The tool state that mining reads from a wood tool.
pub open spec fn wood_tool_state(tool: Option<WoodTool>) -> Option<ToolState> {
    match tool {
        Some(t) => Some(ToolState { durability: t.durability, multiplier: t.multiplier }),
        None => None,
    }
}

/// A coal tool after being charged `charge` durability.
pub open spec fn coal_tool_after(tool: Option<Tool>, charge: u64) -> Option<Tool> {
    match tool {
        Some(t) => Some(Tool { durability: (t.durability - charge) as u64, ..t }),
        None => None,
    }
}

/// A wood tool after being charged `charge` durability.
pub open spec fn wood_tool_after(tool: Option<WoodTool>, charge: u64) -> Option<WoodTool> {
    match tool {
        Some(t) => Some(WoodTool { durability: (t.durability - charge) as u64, ..t }),
        None => None,
    }
}

/// Mines coal: `mine` on the coal track, with an optional tool and staking group.
/// The tool loses the durability that its payable bonus used.
pub fn process_mine_coal(
    config: &Config,
    bus: &mut Bus,
    proof: &mut Proof,
    tool: &mut Option<Tool>,
    guild: Option<GuildStake>,
    args: &MineArgs,
    proof_address: &Address,
    introspection: &[u8],
    recent: &[u8],
    now: i64,
) -> (r: Result<MineEvent, MineError>)
    ensures
        match mine_spec(Resource::Coal, *config, *old(bus), *old(proof), coal_tool_state(*old(tool)), guild, *args, proof_address@, introspection@, now) {
            Err(e) => r == Err::<MineEvent, MineError>(e) && *final(bus) == *old(bus)
                && *final(proof) == *old(proof) && *final(tool) == *old(tool),
            Ok(b) => r == Ok::<MineEvent, MineError>(event_of(Resource::Coal, *old(proof), b, now, drillx_hash(args.digest@, args.nonce@)))
                && *final(bus) == bus_after(*old(bus), b)
                && proof_after(Resource::Coal, *old(proof), b, now, drillx_hash(args.digest@, args.nonce@), recent@, *final(proof))
                && *final(tool) == coal_tool_after(*old(tool), b.tool_charge)
                && (*old(tool) matches Some(t) ==> b.tool_charge <= t.durability),
        },
        r matches Ok(e) ==> e.reward <= old(bus).rewards && final(bus).rewards == old(bus).rewards - e.reward,
{
    let state = match *tool {
        Some(t) => Some(ToolState { durability: t.durability, multiplier: t.multiplier }),
        None => None,
    };
    let ghost b = mine_spec(Resource::Coal, *config, *bus, *proof, state, guild, *args, proof_address@, introspection@, now);
    proof {
        if !(b is Err) {
            let d = leading_zero_bits(drillx_hash(args.digest@, args.nonce@)) as u64;
            lemma_reward_bounds(Resource::Coal, *config, *bus, *proof, state, guild, now, d);
        }
    }
    let mined = match mine(Resource::Coal, config, bus, proof, state, guild, args, proof_address, introspection, recent, now) {
        Err(e) => return Err(e),
        Ok(m) => m,
    };
    if let Some(t) = *tool {
        *tool = Some(Tool { durability: t.durability - mined.tool_charge, ..t });
    }
    Ok(mined.event)
}

/// Chops wood: `mine` on the wood track, with an optional tool and no staking group.
/// The tool loses the durability that its payable bonus used.
pub fn process_chop_wood(
    config: &Config,
    bus: &mut Bus,
    proof: &mut Proof,
    tool: &mut Option<WoodTool>,
    args: &MineArgs,
    proof_address: &Address,
    introspection: &[u8],
    recent: &[u8],
    now: i64,
) -> (r: Result<MineEvent, MineError>)
    ensures
        match mine_spec(Resource::Wood, *config, *old(bus), *old(proof), wood_tool_state(*old(tool)), None, *args, proof_address@, introspection@, now) {
            Err(e) => r == Err::<MineEvent, MineError>(e) && *final(bus) == *old(bus)
                && *final(proof) == *old(proof) && *final(tool) == *old(tool),
            Ok(b) => r == Ok::<MineEvent, MineError>(event_of(Resource::Wood, *old(proof), b, now, drillx_hash(args.digest@, args.nonce@)))
                && *final(bus) == bus_after(*old(bus), b)
                && proof_after(Resource::Wood, *old(proof), b, now, drillx_hash(args.digest@, args.nonce@), recent@, *final(proof))
                && *final(tool) == wood_tool_after(*old(tool), b.tool_charge)
                && (*old(tool) matches Some(t) ==> b.tool_charge <= t.durability),
        },
        r matches Ok(e) ==> e.reward <= old(bus).rewards && final(bus).rewards == old(bus).rewards - e.reward,
{
    let state = match *tool {
        Some(t) => Some(ToolState { durability: t.durability, multiplier: t.multiplier }),
        None => None,
    };
    let ghost b = mine_spec(Resource::Wood, *config, *bus, *proof, state, None, *args, proof_address@, introspection@, now);
    proof {
        if !(b is Err) {
            let d = leading_zero_bits(drillx_hash(args.digest@, args.nonce@)) as u64;
            lemma_reward_bounds(Resource::Wood, *config, *bus, *proof, state, None, now, d);
        }
    }
    let mined = match mine(Resource::Wood, config, bus, proof, state, None, args, proof_address, introspection, recent, now) {
        Err(e) => return Err(e),
        Ok(m) => m,
    };
    if let Some(t) = *tool {
        *tool = Some(WoodTool { durability: t.durability - mined.tool_charge, ..t });
    }
    Ok(mined.event)
}

/// Sum of a run of durability charges.
pub open spec fn total_charge(charges: Seq<u64>) -> int
    decreases charges.len(),
{
    if charges.len() == 0 { 0 } else { total_charge(charges.drop_last()) + charges.last() }
}

/// Over a run of mining instructions, each of which leaves the tool with its
/// durability less the charge it settled (and charges at most what is left, as
/// `process_mine_coal` and `process_chop_wood` ensure), the final durability is
/// the initial one less the sum of the charges, the sum never exceeds the initial
/// durability, and durability never grows: once it is 0 it stays 0.
pub proof fn lemma_tool_wear(durability: Seq<u64>, charges: Seq<u64>)
    requires
        durability.len() == charges.len() + 1,
        forall|i: int| 0 <= i < charges.len() ==> #[trigger] charges[i] <= durability[i]
            && durability[i + 1] == durability[i] - charges[i],
    ensures
        durability.last() == durability[0] - total_charge(charges),
        total_charge(charges) <= durability[0],
        forall|i: int, j: int| 0 <= i <= j < durability.len() ==> durability[j] <= durability[i],
        forall|i: int, j: int| 0 <= i <= j < durability.len() && durability[i] == 0 ==> durability[j] == 0,
    decreases charges.len(),
{
    if charges.len() > 0 {
        let n = charges.len() - 1;
        let front = durability.drop_last();
        lemma_tool_wear(front, charges.drop_last());
        assert(charges[n] <= durability[n]);
        assert forall|i: int, j: int| 0 <= i <= j < durability.len() implies durability[j] <= durability[i] by {
            if j < durability.len() - 1 {
                assert(front[j] <= front[i]);
            } else if i < j {
                assert(front[n] <= front[i]);
            }
        }
    }
}

/// Sum of the payouts of a run of settlements.
pub open spec fn total_paid(settled: Seq<RewardBreakdown>) -> int
    decreases settled.len(),
{
    if settled.len() == 0 { 0 } else { total_paid(settled.drop_last()) + settled.last().payable }
}

/// Over a run of mining instructions on one bus, each of which pays at most what
/// the bus holds and leaves the bus as `bus_after` (as `process_mine_coal` and
/// `process_chop_wood` ensure), the bus's budget is the initial one less the sum of
/// the payouts, that sum never exceeds the initial budget, and the budget never grows.
pub proof fn lemma_bus_run(busses: Seq<Bus>, settled: Seq<RewardBreakdown>)
    requires
        busses.len() == settled.len() + 1,
        forall|i: int| 0 <= i < settled.len() ==> #[trigger] settled[i].payable <= busses[i].rewards
            && busses[i + 1] == bus_after(busses[i], settled[i]),
    ensures
        busses.last().rewards == busses[0].rewards - total_paid(settled),
        total_paid(settled) <= busses[0].rewards,
        forall|i: int, j: int| 0 <= i <= j < busses.len() ==> busses[j].rewards <= busses[i].rewards,
    decreases settled.len(),
{
    if settled.len() > 0 {
        let n = settled.len() - 1;
        let front = busses.drop_last();
        lemma_bus_run(front, settled.drop_last());
        assert(settled[n].payable <= busses[n].rewards);
        assert forall|i: int, j: int| 0 <= i <= j < busses.len() implies busses[j].rewards <= busses[i].rewards by {
            if j < busses.len() - 1 {
                assert(front[j].rewards <= front[i].rewards);
            } else if i < j {
                assert(front[n].rewards <= front[i].rewards);
            }
        }
    }
}

/// A plain submission through a whole mining instruction: with the transaction
/// committing to the proof, a valid solution submitted in time and in the epoch,
/// no staking bonus, no lateness, no tool and no group, a hash `k` bits above the
/// minimum difficulty earns exactly `rate * 2^k` before the bus ceiling, paid within
/// the bus budget and the track's cap.
pub proof fn lemma_plain_mining(
    res: Resource,
    config: Config,
    bus: Bus,
    proof: Proof,
    args: MineArgs,
    proof_address: Seq<u8>,
    data: Seq<u8>,
    now: i64,
    k: nat,
)
    requires
        authentic(data, proof_address, track_marker_occurrence(res)),
        drillx_solution_valid(proof.challenge@, args.nonce@, args.digest@),
        now < sat_add_i64(config.last_reset_at, track_epoch_length(res)),
        now >= sat_sub_i64(target_time(proof) as i64, TOLERANCE),
        leading_zero_bits(drillx_hash(args.digest@, args.nonce@)) == config.min_difficulty + k,
        config.min_difficulty + k <= u64::MAX,
        config.base_reward_rate * pow2(k) <= u64::MAX,
        !stake_eligible(proof, now),
        now <= liveness_deadline(res, proof),
        bus.theoretical_rewards + config.base_reward_rate * pow2(k) <= u64::MAX,
        proof.balance + bus.rewards <= u64::MAX,
    ensures
        mine_spec(res, config, bus, proof, None, None, args, proof_address, data, now) matches Ok(b)
            && b.reward == config.base_reward_rate * pow2(k)
            && b.payable == min_int(
                min_int(config.base_reward_rate * pow2(k), bus.rewards as int),
                track_payout_cap(res) as int,
            )
            && b.tool_reward == 0 && b.stake_reward == 0,
{
    let d = (config.min_difficulty + k) as u64;
    lemma_plain_reward(res, config, bus, proof, now, d);
    assert(d - config.min_difficulty == k);
}

/// A submission exactly at the target time suffers no liveness penalty, reports
/// a timing of minus the track's tolerance (away from the `i64` bound), and is
/// credited to the target time.
pub proof fn lemma_on_time_submission(res: Resource, proof: Proof, now: i64, reward: u64)
    requires
        now == target_time(proof),
        now <= i64::MAX - track_liveness_tolerance(res),
    ensures
        live_reward(res, proof, now, reward) == reward,
        sat_sub_i64(now, liveness_deadline(res, proof) as i64) == -track_liveness_tolerance(res),
        max_int(now as int, target_time(proof)) == now,
{
}

} // verus!
