use coal_core::consts::{BUS_EPOCH_REWARDS, MAX_EPOCH_REWARDS, MAX_SUPPLY, TARGET_EPOCH_REWARDS};
use coal_core::epoch::{calculate_halving_factor, process_reset, reset_epoch, ResetError};
use solana_program::program_pack::Pack;
use spl_token::state::Mint;
use coal_core::state::{Bus, Config};

fn busses(rewards: u64, theoretical: u64) -> Vec<Bus> {
    (0..8u64)
        .map(|i| Bus { id: i, rewards, theoretical_rewards: theoretical, top_balance: i * 10 })
        .collect()
}

fn config(rate: u64, min_difficulty: u64) -> Config {
    Config { base_reward_rate: rate, last_reset_at: 1_000, min_difficulty, top_balance: 0 }
}

#[test]
fn reset_before_epoch_end_is_noop() {
    let mut c = config(1000, 5);
    let mut b = busses(7, 9);
    let before_c = c;
    let before_b = b.clone();
    assert_eq!(reset_epoch(&mut c, &mut b, 1_059, 0), Ok(None));
    assert_eq!(c, before_c);
    assert_eq!(b, before_b);
}

#[test]
fn reset_refuses_at_max_supply() {
    let mut c = config(1000, 5);
    let mut b = busses(7, 9);
    let before_b = b.clone();
    assert_eq!(reset_epoch(&mut c, &mut b, 1_060, MAX_SUPPLY), Err(ResetError::MaxSupply));
    assert_eq!(c, config(1000, 5));
    assert_eq!(b, before_b);
}

#[test]
fn reset_refills_and_lowers_difficulty_for_high_rate() {
    let mut c = config(1000, 5);
    let mut b = busses(BUS_EPOCH_REWARDS / 2, TARGET_EPOCH_REWARDS / 8);
    let minted = reset_epoch(&mut c, &mut b, 2_000, 0).unwrap().unwrap();
    // Half of every bus was paid out.
    assert_eq!(minted, MAX_EPOCH_REWARDS - 4 * BUS_EPOCH_REWARDS);
    // Target met: rate kept at 1000, which is above the high threshold, so halved.
    assert_eq!(c, Config { base_reward_rate: 500, last_reset_at: 2_000, min_difficulty: 4, top_balance: 70 });
    for (i, bus) in b.iter().enumerate() {
        assert_eq!(*bus, Bus { id: i as u64, rewards: BUS_EPOCH_REWARDS, theoretical_rewards: 0, top_balance: 0 });
    }
}

#[test]
fn reset_raises_difficulty_for_low_rate() {
    let mut c = config(20, 5);
    let mut b = busses(0, TARGET_EPOCH_REWARDS / 8);
    let minted = reset_epoch(&mut c, &mut b, 2_000, 0).unwrap().unwrap();
    assert_eq!(minted, MAX_EPOCH_REWARDS);
    assert_eq!(c.base_reward_rate, 40);
    assert_eq!(c.min_difficulty, 6);
}

#[test]
fn reset_keeps_difficulty_in_band() {
    let mut c = config(100, 5);
    let mut b = busses(0, 0);
    reset_epoch(&mut c, &mut b, 2_000, 0).unwrap();
    assert_eq!(c.base_reward_rate, 100);
    assert_eq!(c.min_difficulty, 5);
}

#[test]
fn reset_difficulty_overflow_is_refused() {
    let mut c = config(20, u64::MAX);
    let mut b = busses(0, TARGET_EPOCH_REWARDS / 8);
    assert_eq!(reset_epoch(&mut c, &mut b, 2_000, 0), Err(ResetError::Overflow));
    assert_eq!(c, config(20, u64::MAX));
}

#[test]
fn reset_halves_budgets_with_supply() {
    let mut c = config(100, 5);
    let mut b = busses(0, 0);
    let supply = MAX_SUPPLY / 20;
    let minted = reset_epoch(&mut c, &mut b, 2_000, supply).unwrap().unwrap();
    assert_eq!(b[0].rewards, BUS_EPOCH_REWARDS / 2);
    assert_eq!(minted, MAX_EPOCH_REWARDS / 2);
}

#[test]
fn reset_mint_bounded_by_remaining_supply() {
    let mut c = config(100, 5);
    let mut b = busses(0, 0);
    let minted = reset_epoch(&mut c, &mut b, 2_000, MAX_SUPPLY - 3).unwrap().unwrap();
    assert_eq!(minted, 3);
}

#[test]
fn halving_factor_values() {
    assert_eq!(calculate_halving_factor(0), 1);
    assert_eq!(calculate_halving_factor(MAX_SUPPLY / 20 - 1), 1);
    assert_eq!(calculate_halving_factor(MAX_SUPPLY / 20), 2);
    assert_eq!(calculate_halving_factor(MAX_SUPPLY / 2), 1024);
    assert_eq!(calculate_halving_factor(MAX_SUPPLY - 1), 1 << 19);
}

fn mint_data(supply: u64, initialized: bool) -> Vec<u8> {
    let mint = Mint {
        mint_authority: solana_program::program_option::COption::None,
        supply,
        decimals: 11,
        is_initialized: initialized,
        freeze_authority: solana_program::program_option::COption::None,
    };
    let mut data = vec![0u8; Mint::LEN];
    Mint::pack_into_slice(&mint, &mut data);
    data
}

#[test]
fn reset_reads_supply_from_mint() {
    let mut c = config(100, 5);
    let mut b = busses(0, 0);
    let minted = process_reset(&mut c, &mut b, 2_000, &mint_data(MAX_SUPPLY / 20, true)).unwrap().unwrap();
    assert_eq!(minted, MAX_EPOCH_REWARDS / 2);
    assert_eq!(b[7].rewards, BUS_EPOCH_REWARDS / 2);
}

#[test]
fn reset_rejects_bad_mint_only_when_due() {
    let mut c = config(100, 5);
    let mut b = busses(0, 0);
    assert_eq!(process_reset(&mut c, &mut b, 1_010, &[1u8, 2, 3]), Ok(None));
    assert_eq!(process_reset(&mut c, &mut b, 2_000, &[1u8, 2, 3]), Err(ResetError::InvalidMint));
    assert_eq!(process_reset(&mut c, &mut b, 2_000, &mint_data(0, false)), Err(ResetError::InvalidMint));
    assert_eq!(c, config(100, 5));
    assert_eq!(process_reset(&mut c, &mut b, 2_000, &mint_data(MAX_SUPPLY, true)), Err(ResetError::MaxSupply));
}

#[test]
fn reset_step_down_keeps_rate_at_least_one() {
    // Past 45% of the supply the high threshold rounds to 0, so the difficulty steps down.
    let mut c = config(1, 5);
    let mut b = busses(0, 0);
    process_reset(&mut c, &mut b, 2_000, &mint_data(MAX_SUPPLY / 2, true)).unwrap().unwrap();
    assert_eq!(c.base_reward_rate, 1);
    assert_eq!(c.min_difficulty, 4);
}

#[test]
fn reset_holds_kept_rate_within_budget() {
    // No rewards in the epoch keeps the rate, but not above the new budget; the
    // rate then sits above the high threshold and is halved.
    let mut c = config(BUS_EPOCH_REWARDS, 5);
    let mut b = busses(0, 0);
    reset_epoch(&mut c, &mut b, 2_000, MAX_SUPPLY / 20).unwrap().unwrap();
    assert_eq!(c.base_reward_rate, BUS_EPOCH_REWARDS / 4);
    assert_eq!(c.min_difficulty, 4);
}
