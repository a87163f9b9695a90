use solana_program::program_pack::Pack;
use vstd::prelude::*;

use vstd::arithmetic::power2::{pow2, lemma_pow2_pos, lemma_pow2_strictly_increases, lemma2_to64};

use crate::consts::{
    BASE_REWARD_RATE_MAX_THRESHOLD, BASE_REWARD_RATE_MIN_THRESHOLD, BUS_EPOCH_REWARDS,
    EPOCH_DURATION, HALVING_STEPS, MAX_EPOCH_REWARDS, MAX_SUPPLY, SMOOTHING_FACTOR,
    TARGET_EPOCH_REWARDS,
};
use crate::math::{checked_pow2, lemma_u64_product_fits, min_int, sat_add_i64, sat_u64, saturating_add_i64, u64_le_at};
use crate::state::{Bus, Config};

verus! {

/// The rate that exactly meets the target: `current * target / actual`.
pub open spec fn raw_reward_rate(current: u64, epoch_rewards: u64, target: u64) -> int
    recommends
        epoch_rewards > 0,
{
    current as int * target as int / epoch_rewards as int
}

/// Smallest rate allowed after one epoch.
pub open spec fn smoothing_floor(current: u64) -> int {
    current as int / SMOOTHING_FACTOR as int
}

/// Largest rate allowed after one epoch (saturated to the `u64` range).
pub open spec fn smoothing_ceiling(current: u64) -> int {
    let hi = current as int * SMOOTHING_FACTOR as int;
    if hi > u64::MAX { u64::MAX as int } else { hi }
}

/// The smoothed proportional controller: move the rate towards the one that meets
/// the target, by at most the smoothing factor, then keep it within `[1, budget]`.
/// With no rewards in the epoch the rate is kept.
pub open spec fn new_reward_rate(current: u64, epoch_rewards: u64, target: u64, budget: u64) -> int {
    if epoch_rewards == 0 {
        current as int
    } else {
        let raw = raw_reward_rate(current, epoch_rewards, target);
        let capped = if raw > smoothing_ceiling(current) { smoothing_ceiling(current) } else { raw };
        let smoothed = if capped < smoothing_floor(current) { smoothing_floor(current) } else { capped };
        let at_least_one = if smoothed < 1 { 1 } else { smoothed };
        if at_least_one > budget { budget as int } else { at_least_one }
    }
}

/// Computes the base reward rate of the next epoch from the rewards that the last
/// epoch would have paid (`epoch_rewards`), the target and the per-bus budget.
pub fn calculate_new_reward_rate(current_rate: u64, epoch_rewards: u64, target_rewards: u64, bus_rewards: u64) -> (r: u64)
    ensures
        r == new_reward_rate(current_rate, epoch_rewards, target_rewards, bus_rewards),
{
    if epoch_rewards == 0 {
        return current_rate;
    }
    proof {
        lemma_u64_product_fits(current_rate, target_rewards);
    }
    let product: u128 = (current_rate as u128) * (target_rewards as u128);
    let new_rate: u128 = product / (epoch_rewards as u128);
    let new_rate_min: u64 = current_rate / SMOOTHING_FACTOR;
    let new_rate_max: u64 = if current_rate <= u64::MAX / SMOOTHING_FACTOR {
        current_rate * SMOOTHING_FACTOR
    } else {
        u64::MAX
    };
    let capped: u64 = if new_rate > new_rate_max as u128 { new_rate_max } else { new_rate as u64 };
    let smoothed: u64 = if capped < new_rate_min { new_rate_min } else { capped };
    let at_least_one: u64 = if smoothed < 1 { 1 } else { smoothed };
    if at_least_one > bus_rewards { bus_rewards } else { at_least_one }
}

/// When the rewards of an epoch meet the target exactly, the controller keeps
/// any rate that already lies within `[1, budget]`.
pub proof fn lemma_rate_fixed_point(rate: u64, target: u64, budget: u64)
    requires
        target == 0 || (1 <= rate && rate <= budget),
    ensures
        new_reward_rate(rate, target, target, budget) == rate,
{
    if target > 0 {
        assert(rate as int * target as int / target as int == rate as int) by (nonlinear_arith)
            requires
                target > 0,
        ;
    }
}

/// For positive inputs the new rate lies within `[1, budget]`, at most the
/// smoothing factor above the old one, and, where the budget allows it, at most
/// the smoothing factor below it.
pub proof fn lemma_rate_bounds(rate: u64, epoch_rewards: u64, target: u64, budget: u64)
    requires
        rate > 0,
        epoch_rewards > 0,
        target > 0,
        budget > 0,
    ensures
        1 <= new_reward_rate(rate, epoch_rewards, target, budget) <= budget,
        new_reward_rate(rate, epoch_rewards, target, budget) <= smoothing_ceiling(rate),
        budget >= smoothing_floor(rate) ==> new_reward_rate(rate, epoch_rewards, target, budget)
            >= smoothing_floor(rate),
{
}

/// Why an epoch reset was refused.
#[derive(Clone, Copy, Debug, PartialEq, Eq)]
pub enum ResetError {
    /// The whole supply has been minted.
    MaxSupply,
    /// The mint account does not hold an initialized mint.
    InvalidMint,
    /// The minimum difficulty cannot grow any further.
    Overflow,
}

impl ResetError {
    /// The error's code on the ledger; `None` for an overflow or a bad mint
    /// account, which the ledger reports with its own errors.
    pub fn code(&self) -> (r: Option<u32>)
        ensures
            r == match *self {
                ResetError::MaxSupply => Some(6u32),
                ResetError::InvalidMint => None,
                ResetError::Overflow => None,
            },
    {
        match self {
            ResetError::MaxSupply => Some(6),
            ResetError::InvalidMint => None,
            ResetError::Overflow => None,
        }
    }
}

/// The epoch of `config` has run out at time `now`.
pub open spec fn epoch_elapsed(config: Config, now: i64) -> bool {
    sat_add_i64(config.last_reset_at, EPOCH_DURATION) <= now
}

/// Number of supply milestones (twentieths of the maximum supply) reached.
pub open spec fn halving_exponent(supply: u64) -> nat {
    (supply as int * HALVING_STEPS as int / MAX_SUPPLY as int) as nat
}

/// Divisor of the epoch budgets at the given supply.
pub open spec fn halving_factor(supply: u64) -> int {
    pow2(halving_exponent(supply)) as int
}

/// Sum of the unspent budgets of the buses.
pub open spec fn total_unspent(busses: Seq<Bus>) -> int
    decreases busses.len(),
{
    if busses.len() == 0 { 0 } else { total_unspent(busses.drop_last()) + busses.last().rewards }
}

/// Sum of the rewards that the buses would have paid without their ceilings.
pub open spec fn total_theoretical(busses: Seq<Bus>) -> int
    decreases busses.len(),
{
    if busses.len() == 0 {
        0
    } else {
        total_theoretical(busses.drop_last()) + busses.last().theoretical_rewards
    }
}

/// Highest `top_balance` over the buses (0 for none).
pub open spec fn highest_top_balance(busses: Seq<Bus>) -> int
    decreases busses.len(),
{
    if busses.len() == 0 {
        0
    } else {
        let rest = highest_top_balance(busses.drop_last());
        if busses.last().top_balance > rest { busses.last().top_balance as int } else { rest }
    }
}

/// A bus refilled for a new epoch.
pub open spec fn refilled(bus: Bus, budget: int) -> Bus {
    Bus { rewards: budget as u64, theoretical_rewards: 0, top_balance: 0, ..bus }
}

/// Per-bus budget of the next epoch.
pub open spec fn bus_budget(supply: u64) -> int {
    BUS_EPOCH_REWARDS as int / halving_factor(supply)
}

/// A rate held within `[1, budget]`.
pub open spec fn within_budget(rate: int, budget: int) -> int {
    if rate < 1 { 1 } else if rate > budget { budget } else { rate }
}

/// The base reward rate chosen by the controller, held within `[1, budget]` (a
/// rate kept for want of rewards may lie outside a budget that has just halved).
pub open spec fn controlled_rate(config: Config, busses: Seq<Bus>, supply: u64) -> int {
    within_budget(
        new_reward_rate(
            config.base_reward_rate,
            sat_u64(total_theoretical(busses)) as u64,
            (TARGET_EPOCH_REWARDS as int / halving_factor(supply)) as u64,
            bus_budget(supply) as u64,
        ),
        bus_budget(supply),
    )
}

/// The configuration after a reset at time `now` (with the supply below the maximum):
/// the new rate, the difficulty moved by at most one step (the rate doubled when
/// the difficulty goes up, halved but kept at least 1 when it goes down), the
/// network top balance.
pub open spec fn reset_config(config: Config, busses: Seq<Bus>, now: i64, supply: u64) -> Result<Config, ResetError> {
    let rate = controlled_rate(config, busses, supply);
    let low = BASE_REWARD_RATE_MIN_THRESHOLD as int / halving_factor(supply);
    let high = BASE_REWARD_RATE_MAX_THRESHOLD as int / halving_factor(supply);
    let top = highest_top_balance(busses) as u64;
    if rate <= low {
        if config.min_difficulty == u64::MAX {
            Err(ResetError::Overflow)
        } else {
            Ok(Config {
                base_reward_rate: (rate * 2) as u64,
                last_reset_at: now,
                min_difficulty: (config.min_difficulty + 1) as u64,
                top_balance: top,
            })
        }
    } else if rate >= high && config.min_difficulty > 1 {
        Ok(Config {
            base_reward_rate: (if rate / 2 < 1 { 1 } else { rate / 2 }) as u64,
            last_reset_at: now,
            min_difficulty: (config.min_difficulty - 1) as u64,
            top_balance: top,
        })
    } else {
        Ok(Config {
            base_reward_rate: rate as u64,
            last_reset_at: now,
            min_difficulty: config.min_difficulty,
            top_balance: top,
        })
    }
}

/// Tokens minted to fund the next epoch: what the buses paid out, within what is
/// left of the maximum supply.
pub open spec fn mint_amount(busses: Seq<Bus>, supply: u64) -> int {
    let max_epoch = MAX_EPOCH_REWARDS as int / halving_factor(supply);
    let unspent = sat_u64(total_unspent(busses));
    let paid = if max_epoch > unspent { max_epoch - unspent } else { 0 };
    min_int(MAX_SUPPLY as int - supply as int, paid)
}

/// Every per-bus budget has room for a doubled minimum-threshold rate.
proof fn lemma_budget_room(supply: u64)
    requires
        supply < MAX_SUPPLY,
    ensures
        1 <= halving_factor(supply) <= 0x80000,
        2 * BASE_REWARD_RATE_MIN_THRESHOLD as int <= bus_budget(supply),
        BASE_REWARD_RATE_MIN_THRESHOLD as int / halving_factor(supply) <= BASE_REWARD_RATE_MIN_THRESHOLD,
{
    let k = halving_exponent(supply);
    assert(k < 20) by (nonlinear_arith)
        requires
            supply < MAX_SUPPLY,
            k == supply as int * 20 / 2_100_000_000_000_000_000int,
    ;
    lemma2_to64();
    lemma_pow2_pos(k);
    if k < 19 {
        lemma_pow2_strictly_increases(k, 19);
    }
    let h = halving_factor(supply);
    assert(BUS_EPOCH_REWARDS as int / h >= BUS_EPOCH_REWARDS as int / 0x80000) by {
        vstd::arithmetic::div_mod::lemma_div_is_ordered_by_denominator(BUS_EPOCH_REWARDS as int, h, 0x80000);
    }
    assert(BASE_REWARD_RATE_MIN_THRESHOLD as int / h <= BASE_REWARD_RATE_MIN_THRESHOLD) by {
        vstd::arithmetic::div_mod::lemma_div_is_ordered_by_denominator(BASE_REWARD_RATE_MIN_THRESHOLD as int, 1, h);
    }
}

/// Every reset that completes leaves the base reward rate within `[1, budget]`.
pub proof fn lemma_reset_rate_in_budget(config: Config, busses: Seq<Bus>, now: i64, supply: u64)
    requires
        supply < MAX_SUPPLY,
    ensures
        reset_config(config, busses, now, supply) matches Ok(c) ==> 1 <= c.base_reward_rate <= bus_budget(supply),
{
    lemma_budget_room(supply);
}

/// Halving divisor for the given supply, as `2^(supply * 20 / MAX_SUPPLY)`.
pub fn calculate_halving_factor(supply: u64) -> (r: u64)
    requires
        supply < MAX_SUPPLY,
    ensures
        r == halving_factor(supply),
        1 <= r <= 0x80000,
{
    let steps: u128 = HALVING_STEPS as u128;
    assert(steps == 20);
    let k: u128 = (supply as u128) * steps / (MAX_SUPPLY as u128);
    assert(k < 20) by (nonlinear_arith)
        requires
            supply < MAX_SUPPLY,
            k == supply as int * 20 / 2_100_000_000_000_000_000int,
    ;
    let p = checked_pow2(k as u64);
    proof {
        lemma2_to64();
        if k < 19 {
            lemma_pow2_strictly_increases(k as nat, 19);
        }
        lemma_pow2_pos(k as nat);
    }
    match p {
        Some(v) => v,
        None => 1,
    }
}

/// Closes the epoch when it has run out: refills every bus, retunes the base
/// reward rate and the difficulty, and returns how many tokens to mint for the
/// next epoch. Before the epoch has run out nothing changes and `Ok(None)` comes
/// back. On an error nothing changes.
pub fn reset_epoch(config: &mut Config, busses: &mut Vec<Bus>, now: i64, supply: u64) -> (r: Result<Option<u64>, ResetError>)
    ensures
        !epoch_elapsed(*old(config), now) ==> r == Ok::<Option<u64>, ResetError>(None),
        epoch_elapsed(*old(config), now) && supply >= MAX_SUPPLY ==> r == Err::<Option<u64>, ResetError>(ResetError::MaxSupply),
        epoch_elapsed(*old(config), now) && supply < MAX_SUPPLY ==> match reset_config(*old(config), old(busses)@, now, supply) {
            Err(e) => r == Err::<Option<u64>, ResetError>(e),
            Ok(c) => r == Ok::<Option<u64>, ResetError>(Some(mint_amount(old(busses)@, supply) as u64)),
        },
        r is Ok && r->Ok_0 is Some ==> epoch_elapsed(*old(config), now) && supply < MAX_SUPPLY
            && reset_config(*old(config), old(busses)@, now, supply) == Ok::<Config, ResetError>(*final(config))
            && final(busses)@.len() == old(busses)@.len()
            && forall|i: int| 0 <= i < old(busses)@.len() ==> #[trigger] final(busses)@[i] == refilled(old(busses)@[i], bus_budget(supply)),
        r is Ok && r->Ok_0 is Some ==> 1 <= final(config).base_reward_rate <= bus_budget(supply),
        !(r is Ok && r->Ok_0 is Some) ==> *final(config) == *old(config) && final(busses)@ == old(busses)@,
{
    if saturating_add_i64(config.last_reset_at, EPOCH_DURATION) > now {
        return Ok(None);
    }
    if supply >= MAX_SUPPLY {
        return Err(ResetError::MaxSupply);
    }
    let halving = calculate_halving_factor(supply);
    let target = TARGET_EPOCH_REWARDS / halving;
    let budget = BUS_EPOCH_REWARDS / halving;
    let max_epoch = MAX_EPOCH_REWARDS / halving;

    // Aggregate the shards.
    let mut unspent: u64 = 0;
    let mut theoretical: u64 = 0;
    let mut top: u64 = 0;
    let mut i: usize = 0;
    while i < busses.len()
        invariant
            i <= busses@.len(),
            unspent == sat_u64(total_unspent(busses@.take(i as int))),
            theoretical == sat_u64(total_theoretical(busses@.take(i as int))),
            top == highest_top_balance(busses@.take(i as int)),
        decreases busses@.len() - i,
    {
        let bus = busses[i];
        proof {
            assert(busses@.take(i + 1).drop_last() == busses@.take(i as int));
        }
        if bus.top_balance > top {
            top = bus.top_balance;
        }
        unspent = if unspent > u64::MAX - bus.rewards { u64::MAX } else { unspent + bus.rewards };
        theoretical = if theoretical > u64::MAX - bus.theoretical_rewards {
            u64::MAX
        } else {
            theoretical + bus.theoretical_rewards
        };
        i = i + 1;
    }
    proof {
        assert(busses@.take(busses@.len() as int) == busses@);
    }

    // Retune the rate and the difficulty.
    let proposed = calculate_new_reward_rate(config.base_reward_rate, theoretical, target, budget);
    proof {
        lemma_budget_room(supply);
    }
    let rate: u64 = if proposed < 1 { 1 } else if proposed > budget { budget } else { proposed };
    let low = BASE_REWARD_RATE_MIN_THRESHOLD / halving;
    let high = BASE_REWARD_RATE_MAX_THRESHOLD / halving;
    let mut next = Config {
        base_reward_rate: rate,
        last_reset_at: now,
        min_difficulty: config.min_difficulty,
        top_balance: top,
    };
    if rate <= low {
        if config.min_difficulty == u64::MAX {
            return Err(ResetError::Overflow);
        }
        next.min_difficulty = config.min_difficulty + 1;
        next.base_reward_rate = rate * 2;
    } else if rate >= high && config.min_difficulty > 1 {
        next.min_difficulty = config.min_difficulty - 1;
        next.base_reward_rate = if rate / 2 < 1 { 1 } else { rate / 2 };
    }

    // Refill the shards.
    let ghost before = busses@;
    let mut j: usize = 0;
    while j < busses.len()
        invariant
            j <= busses@.len(),
            busses@.len() == before.len(),
            forall|k: int| 0 <= k < j ==> #[trigger] busses@[k] == refilled(before[k], budget as int),
            forall|k: int| j <= k < busses@.len() ==> #[trigger] busses@[k] == before[k],
        decreases busses@.len() - j,
    {
        let mut bus = busses[j];
        bus.rewards = budget;
        bus.theoretical_rewards = 0;
        bus.top_balance = 0;
        busses.set(j, bus);
        j = j + 1;
    }
    *config = next;

    let paid: u64 = if max_epoch > unspent { max_epoch - unspent } else { 0 };
    let room: u64 = MAX_SUPPLY - supply;
    Ok(Some(if room < paid { room } else { paid }))
}

/// The tag of an optional key in a mint account is `None` (0) or `Some` (1).
pub open spec fn key_tag_valid(d: Seq<u8>, at: int) -> bool {
    (d[at] == 0 || d[at] == 1) && d[at + 1] == 0 && d[at + 2] == 0 && d[at + 3] == 0
}

/// The account data holds an initialized mint: 82 bytes, valid key tags, the
/// initialized flag set.
pub open spec fn valid_mint(d: Seq<u8>) -> bool {
    d.len() == 82 && key_tag_valid(d, 0) && d[45] == 1 && key_tag_valid(d, 46)
}

/// Relies on `spl_token::state::Mint::unpack`: it accepts exactly the 82-byte
/// initialized mints with valid key tags, and the supply is the little-endian
/// `u64` at offset 36.
#[verifier::external_body]
pub(crate) fn unpack_mint_supply(data: &[u8]) -> (r: Option<u64>)
    ensures
        r is Some <==> valid_mint(data@),
        r matches Some(s) ==> s == u64_le_at(data@, 36),
{
    spl_token::state::Mint::unpack(data).ok().map(|m| m.supply)
}

/// The epoch reset instruction: `reset_epoch` with the supply read from the
/// mint account's data. The mint is read only once the epoch has run out.
pub fn process_reset(config: &mut Config, busses: &mut Vec<Bus>, now: i64, mint_data: &[u8]) -> (r: Result<Option<u64>, ResetError>)
    ensures
        !epoch_elapsed(*old(config), now) ==> r == Ok::<Option<u64>, ResetError>(None)
            && *final(config) == *old(config) && final(busses)@ == old(busses)@,
        epoch_elapsed(*old(config), now) && !valid_mint(mint_data@) ==> r == Err::<Option<u64>, ResetError>(ResetError::InvalidMint)
            && *final(config) == *old(config) && final(busses)@ == old(busses)@,
        epoch_elapsed(*old(config), now) && valid_mint(mint_data@) ==> {
            let supply = u64_le_at(mint_data@, 36) as u64;
            &&& (supply >= MAX_SUPPLY ==> r == Err::<Option<u64>, ResetError>(ResetError::MaxSupply))
            &&& (supply < MAX_SUPPLY ==> match reset_config(*old(config), old(busses)@, now, supply) {
                Err(e) => r == Err::<Option<u64>, ResetError>(e),
                Ok(c) => r == Ok::<Option<u64>, ResetError>(Some(mint_amount(old(busses)@, supply) as u64))
                    && *final(config) == c
                    && final(busses)@.len() == old(busses)@.len()
                    && forall|i: int| 0 <= i < old(busses)@.len() ==> #[trigger] final(busses)@[i] == refilled(old(busses)@[i], bus_budget(supply)),
            })
            &&& (r is Err ==> *final(config) == *old(config) && final(busses)@ == old(busses)@)
            &&& (r matches Ok(Some(_)) ==> 1 <= final(config).base_reward_rate <= bus_budget(supply))
        },
{
    if saturating_add_i64(config.last_reset_at, EPOCH_DURATION) > now {
        return Ok(None);
    }
    let supply = match unpack_mint_supply(mint_data) {
        None => return Err(ResetError::InvalidMint),
        Some(s) => s,
    };
    reset_epoch(config, busses, now, supply)
}

} // verus!
