use coal_core::reward::{
    apply_liveness_penalty, apply_staking_bonus, calculate_base_reward, calculate_stake_multiplier,
    calculate_tool_bonus,
};
use coal_core::work::difficulty;

#[test]
fn base_reward_at_min_difficulty_is_rate() {
    assert_eq!(calculate_base_reward(1000, 10, 10), Some(1000));
    assert_eq!(calculate_base_reward(7, 0, 0), Some(7));
}

#[test]
fn base_reward_three_bits_above_minimum() {
    assert_eq!(calculate_base_reward(1000, 12, 15), Some(8000));
}

#[test]
fn base_reward_overflow_fails_closed() {
    assert_eq!(calculate_base_reward(1, 0, 63), Some(1u64 << 63));
    assert_eq!(calculate_base_reward(2, 0, 63), None);
    assert_eq!(calculate_base_reward(1, 0, 64), None);
    assert_eq!(calculate_base_reward(u64::MAX, 5, 6), None);
    // A zero rate never overflows.
    assert_eq!(calculate_base_reward(0, 0, 100), Some(0));
}

#[test]
fn liveness_no_lateness_no_penalty() {
    assert_eq!(apply_liveness_penalty(1000, 0), 1000);
}

#[test]
fn liveness_halves_per_minute_and_decays_linearly() {
    assert_eq!(apply_liveness_penalty(1000, 60), 500);
    assert_eq!(apply_liveness_penalty(1000, 120), 250);
    // Half a minute past one halving: 500 - 250 * 30 / 60.
    assert_eq!(apply_liveness_penalty(1000, 90), 375);
    assert_eq!(apply_liveness_penalty(1000, 30), 750);
}

#[test]
fn liveness_reaches_zero() {
    assert_eq!(apply_liveness_penalty(u64::MAX, 64 * 60), 0);
    assert_eq!(apply_liveness_penalty(1000, 20 * 60), 0);
    assert_eq!(apply_liveness_penalty(u64::MAX, u64::MAX), 0);
}

#[test]
fn liveness_is_non_increasing() {
    let mut last = apply_liveness_penalty(1_000_000, 0);
    for t in 1..(70 * 60) {
        let r = apply_liveness_penalty(1_000_000, t);
        assert!(r <= last);
        last = r;
    }
    assert_eq!(last, 0);
}

#[test]
fn staking_bonus_scales_with_share() {
    // Half of the top balance: 1000 * 50 / 100 = 500, times 12.
    assert_eq!(apply_staking_bonus(1000, 50, 100, 12), Some(7000));
    // Balance above the top balance counts as the top balance.
    assert_eq!(apply_staking_bonus(1000, 500, 100, 1), Some(2000));
    // No top balance, no bonus.
    assert_eq!(apply_staking_bonus(1000, 500, 0, 12), Some(1000));
    assert_eq!(apply_staking_bonus(u64::MAX, 1, 1, 1), None);
}

#[test]
fn tool_bonus_clamped_and_charged() {
    assert_eq!(calculate_tool_bonus(1000, 10_000, 150, 5000), (1500, 1500));
    // Bus can only pay 200 beyond the reward.
    assert_eq!(calculate_tool_bonus(1000, 10_000, 150, 1200), (1500, 200));
    // Multiplier below the minimum is raised, above the maximum is lowered.
    assert_eq!(calculate_tool_bonus(1000, 10_000, 50, 10_000), (1000, 1000));
    assert_eq!(calculate_tool_bonus(1000, 10_000, 1000, 10_000), (3000, 3000));
    // Durability caps the bonus.
    assert_eq!(calculate_tool_bonus(1000, 400, 150, 10_000), (400, 400));
    // An empty bus charges nothing.
    assert_eq!(calculate_tool_bonus(1000, 400, 150, 0), (400, 0));
}

#[test]
fn stake_multiplier_values() {
    assert_eq!(calculate_stake_multiplier(1000, 10, 100, 2), Some(200));
    assert_eq!(calculate_stake_multiplier(1000, 10, 0, 2), None);
    assert_eq!(calculate_stake_multiplier(u64::MAX, u64::MAX, 1, u64::MAX), None);
    assert_eq!(calculate_stake_multiplier(u64::MAX, 2, 1, 1), None);
}

#[test]
fn difficulty_counts_leading_zero_bits() {
    let mut h = [0xffu8; 32];
    assert_eq!(difficulty(&h), 0);
    h[0] = 0;
    h[1] = 0;
    h[2] = 0x0f;
    assert_eq!(difficulty(&h), 20);
    assert_eq!(difficulty(&[0u8; 32]), 256);
    let mut g = [0u8; 32];
    g[31] = 1;
    assert_eq!(difficulty(&g), 255);
}
