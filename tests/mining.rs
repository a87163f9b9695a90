use coal_core::consts::{NOOP_PROGRAM_ID, TARGET_COAL_REWARDS};
use coal_core::introspection::{parse_auth_address, IntrospectionError};
use coal_core::mine::{
    authenticate_coal_proof, authenticate_wood_proof, compute_reward, next_challenge,
    parse_coal_auth_address, parse_wood_auth_address, process_chop_wood, process_mine_coal,
    resource_from_name, settle_solution, GuildStake, MineArgs, MineError, Resource, ToolState,
};
use coal_core::state::{Bus, Config, Proof, Tool, WoodTool};
use coal_core::work::difficulty;

const NOW: i64 = 1_700_000_000;
const MINE_PROGRAM: [u8; 32] = [7u8; 32];

/// Serializes an instruction list the way the ledger exposes it: a count, a table
/// of offsets, then for each instruction its accounts, program id and data.
fn instruction_list(instrs: &[([u8; 32], Vec<u8>)]) -> Vec<u8> {
    let n = instrs.len();
    let header = 2 + 2 * n;
    let mut bodies: Vec<u8> = Vec::new();
    let mut offsets: Vec<usize> = Vec::new();
    for (program, data) in instrs {
        offsets.push(header + bodies.len());
        bodies.extend_from_slice(&1u16.to_le_bytes());
        bodies.extend_from_slice(&[0u8; 33]);
        bodies.extend_from_slice(program);
        bodies.extend_from_slice(&(data.len() as u16).to_le_bytes());
        bodies.extend_from_slice(data);
    }
    let mut out: Vec<u8> = Vec::new();
    out.extend_from_slice(&(n as u16).to_le_bytes());
    for off in offsets {
        out.extend_from_slice(&(off as u16).to_le_bytes());
    }
    out.extend_from_slice(&bodies);
    out
}

fn marker(address: [u8; 32]) -> ([u8; 32], Vec<u8>) {
    (NOOP_PROGRAM_ID, address.to_vec())
}

fn config() -> Config {
    Config { base_reward_rate: 1000, last_reset_at: NOW - 10, min_difficulty: 0, top_balance: 0 }
}

fn bus() -> Bus {
    Bus { id: 3, rewards: 1_000_000_000_000_000, theoretical_rewards: 0, top_balance: 0 }
}

fn sample_proof(challenge: [u8; 32]) -> Proof {
    Proof {
        authority: [1u8; 32],
        balance: 0,
        challenge,
        last_hash: [0u8; 32],
        last_hash_at: NOW - 60,
        last_stake_at: 0,
        miner: [1u8; 32],
        total_hashes: 0,
        total_rewards: 0,
    }
}

/// Finds a drillx solution of the challenge.
fn solve(challenge: &[u8; 32]) -> (MineArgs, [u8; 32]) {
    for n in 0u64..1000 {
        let nonce = n.to_le_bytes();
        if let Ok(h) = drillx::hash(challenge, &nonce) {
            return (MineArgs { digest: h.d, nonce }, h.h);
        }
    }
    panic!("no solution found");
}

#[test]
fn parse_finds_first_and_second_marker() {
    let a = [0xaau8; 32];
    let b = [0xbbu8; 32];
    let data = instruction_list(&[(MINE_PROGRAM, vec![1, 2]), marker(a), marker(b)]);
    assert_eq!(parse_wood_auth_address(&data), Ok(Some(a)));
    assert_eq!(parse_coal_auth_address(&data), Ok(Some(b)));
    assert_eq!(parse_auth_address(&data, &NOOP_PROGRAM_ID, 3), Ok(None));
}

#[test]
fn parse_without_marker_is_none() {
    let data = instruction_list(&[(MINE_PROGRAM, vec![1, 2])]);
    assert_eq!(parse_wood_auth_address(&data), Ok(None));
    assert_eq!(parse_coal_auth_address(&data), Ok(None));
}

#[test]
fn parse_truncated_data_is_an_error() {
    assert_eq!(parse_wood_auth_address(&[]), Err(IntrospectionError::IndexOutOfBounds));
    let data = instruction_list(&[marker([5u8; 32])]);
    let cut = &data[..data.len() - 1];
    assert_eq!(parse_wood_auth_address(cut), Err(IntrospectionError::IndexOutOfBounds));
}

#[test]
fn authentication_checks_the_committed_address() {
    let a = [0xaau8; 32];
    let data = instruction_list(&[marker([0u8; 32]), marker(a)]);
    assert_eq!(authenticate_coal_proof(&data, &a), Ok(()));
    assert_eq!(authenticate_wood_proof(&data, &a), Err(MineError::AuthFailed));
    assert_eq!(authenticate_wood_proof(&data, &[0u8; 32]), Ok(()));
    assert_eq!(authenticate_coal_proof(&data, &[9u8; 32]), Err(MineError::AuthFailed));
    let none = instruction_list(&[(MINE_PROGRAM, vec![])]);
    assert_eq!(authenticate_coal_proof(&none, &a), Err(MineError::AuthFailed));
}

#[test]
fn second_proof_in_one_transaction_fails_auth() {
    let proof_a = [0xaau8; 32];
    let proof_b = [0xbbu8; 32];
    let tx = instruction_list(&[
        marker([0u8; 32]),
        marker(proof_a),
        (MINE_PROGRAM, vec![]),
        (MINE_PROGRAM, vec![]),
    ]);
    let recent = [3u8; 40];

    let challenge_a = [11u8; 32];
    let (args_a, _) = solve(&challenge_a);
    let mut bus_state = bus();
    let mut proof_state_a = sample_proof(challenge_a);
    let mut tool: Option<Tool> = None;
    let first = process_mine_coal(&config(), &mut bus_state, &mut proof_state_a, &mut tool, None, &args_a, &proof_a, &tx, &recent, NOW);
    assert!(first.is_ok());

    let challenge_b = [12u8; 32];
    let (args_b, _) = solve(&challenge_b);
    let mut proof_state_b = sample_proof(challenge_b);
    let bus_before = bus_state;
    let second = process_mine_coal(&config(), &mut bus_state, &mut proof_state_b, &mut tool, None, &args_b, &proof_b, &tx, &recent, NOW);
    assert_eq!(second, Err(MineError::AuthFailed));
    assert_eq!(bus_state, bus_before);
    assert_eq!(proof_state_b, sample_proof(challenge_b));
}

#[test]
fn mine_coal_pays_and_rotates_the_challenge() {
    let address = [0xaau8; 32];
    let tx = instruction_list(&[marker([0u8; 32]), marker(address)]);
    let recent = [3u8; 40];
    let challenge = [42u8; 32];
    let (args, h) = solve(&challenge);
    let d = difficulty(&h);
    let expected = 1000u64 << d;

    let mut bus_state = bus();
    let mut proof_state = sample_proof(challenge);
    let mut tool: Option<Tool> = None;
    let event = process_mine_coal(&config(), &mut bus_state, &mut proof_state, &mut tool, None, &args, &address, &tx, &recent, NOW)
        .unwrap();
    assert_eq!(event.difficulty, d);
    assert_eq!(event.reward, expected);
    assert_eq!(event.tool_reward, 0);
    assert_eq!(event.stake_reward, 0);
    assert_eq!(event.timing, -5);
    assert_eq!(bus_state.rewards, 1_000_000_000_000_000 - expected);
    assert_eq!(bus_state.theoretical_rewards, expected);
    assert_eq!(proof_state.balance, expected);
    assert_eq!(proof_state.total_hashes, 1);
    assert_eq!(proof_state.total_rewards, expected);
    assert_eq!(proof_state.last_hash, h);
    assert_eq!(proof_state.last_hash_at, NOW);
    let want = solana_program::keccak::hashv(&[h.as_slice(), &recent]).to_bytes();
    assert_eq!(proof_state.challenge, want);
    assert_ne!(proof_state.challenge, challenge);
}

#[test]
fn chop_wood_hashes_with_domain_and_charges_tool() {
    let address = [0xccu8; 32];
    let tx = instruction_list(&[marker(address)]);
    let recent = [9u8; 40];
    let challenge = [5u8; 32];
    let (args, h) = solve(&challenge);
    let d = difficulty(&h);
    let base = 1000u64 << d;

    let mut bus_state = Bus { id: 0, rewards: base + base / 2, theoretical_rewards: 0, top_balance: 0 };
    let mut proof_state = sample_proof(challenge);
    let mut tool = Some(WoodTool {
        authority: [1u8; 32],
        miner: [1u8; 32],
        asset: [2u8; 32],
        durability: 1_000_000_000,
        multiplier: 100,
    });
    let event = process_chop_wood(&config(), &mut bus_state, &mut proof_state, &mut tool, &args, &address, &tx, &recent, NOW)
        .unwrap();
    // The tool doubles the reward; the bus can pay only half of the bonus.
    assert_eq!(event.tool_reward, base);
    assert_eq!(event.reward, base + base / 2);
    assert_eq!(bus_state.rewards, 0);
    assert_eq!(bus_state.theoretical_rewards, 2 * base);
    assert_eq!(tool.unwrap().durability, 1_000_000_000 - base / 2);
    // Wood credits the uncapped reward to the lifetime total.
    assert_eq!(proof_state.total_rewards, 2 * base);
    let want = solana_program::keccak::hashv(&[b"wood", h.as_slice(), &recent]).to_bytes();
    assert_eq!(proof_state.challenge, want);
}

#[test]
fn invalid_solution_is_rejected() {
    let address = [0xaau8; 32];
    let tx = instruction_list(&[marker([0u8; 32]), marker(address)]);
    let challenge = [42u8; 32];
    let (mut args, _) = solve(&challenge);
    args.digest[0] ^= 0xff;
    let mut bus_state = bus();
    let mut proof_state = sample_proof(challenge);
    let mut tool: Option<Tool> = None;
    let r = process_mine_coal(&config(), &mut bus_state, &mut proof_state, &mut tool, None, &args, &address, &tx, &[0u8; 40], NOW);
    assert_eq!(r, Err(MineError::HashInvalid));
    assert_eq!(proof_state, sample_proof(challenge));
}

fn easy_hash(leading_zero_bytes: usize) -> [u8; 32] {
    let mut h = [0xffu8; 32];
    for b in h.iter_mut().take(leading_zero_bytes) {
        *b = 0;
    }
    h
}

#[test]
fn settle_refusals_in_order() {
    let h = easy_hash(2);
    let p = sample_proof([0u8; 32]);
    let mut c = config();
    c.last_reset_at = NOW - 60;
    assert_eq!(settle_solution(Resource::Coal, &c, &bus(), &p, None, None, NOW, true, &h), Err(MineError::NeedsReset));
    assert_eq!(settle_solution(Resource::Coal, &config(), &bus(), &p, None, None, NOW, false, &h), Err(MineError::HashInvalid));
    let mut early = p;
    early.last_hash_at = NOW - 50;
    assert_eq!(settle_solution(Resource::Coal, &config(), &bus(), &early, None, None, NOW, true, &h), Err(MineError::Spam));
    let mut hard = config();
    hard.min_difficulty = 17;
    assert_eq!(settle_solution(Resource::Coal, &hard, &bus(), &p, None, None, NOW, true, &h), Err(MineError::HashTooEasy));
    let mut rich = config();
    rich.base_reward_rate = u64::MAX;
    assert_eq!(settle_solution(Resource::Coal, &rich, &bus(), &p, None, None, NOW, true, &h), Err(MineError::Overflow));
}

#[test]
fn settle_scenario_three_bits_above_min() {
    let h = easy_hash(2);
    let mut c = config();
    c.min_difficulty = 13;
    let b = settle_solution(Resource::Coal, &c, &bus(), &sample_proof([0u8; 32]), None, None, NOW, true, &h).unwrap();
    assert_eq!(b.reward, 8000);
    assert_eq!(b.payable, 8000);
}

#[test]
fn spam_tolerance_allows_slightly_early() {
    let h = easy_hash(0);
    let mut p = sample_proof([0u8; 32]);
    p.last_hash_at = NOW - 55;
    assert!(settle_solution(Resource::Coal, &config(), &bus(), &p, None, None, NOW, true, &h).is_ok());
    p.last_hash_at = NOW - 54;
    assert_eq!(settle_solution(Resource::Coal, &config(), &bus(), &p, None, None, NOW, true, &h), Err(MineError::Spam));
}

#[test]
fn payable_capped_by_bus() {
    let small = Bus { id: 1, rewards: 300, theoretical_rewards: 0, top_balance: 0 };
    let b = compute_reward(Resource::Coal, &config(), &small, &sample_proof([0u8; 32]), None, None, NOW, 0).unwrap();
    assert_eq!(b.reward, 1000);
    assert_eq!(b.payable, 300);
}

#[test]
fn payable_capped_per_submission_on_coal() {
    let mut c = config();
    c.base_reward_rate = TARGET_COAL_REWARDS;
    let big = Bus { id: 1, rewards: u64::MAX, theoretical_rewards: 0, top_balance: 0 };
    let b = compute_reward(Resource::Coal, &c, &big, &sample_proof([0u8; 32]), None, None, NOW, 1).unwrap();
    assert_eq!(b.reward, 2 * TARGET_COAL_REWARDS);
    assert_eq!(b.payable, TARGET_COAL_REWARDS);
    let w = compute_reward(Resource::Wood, &c, &big, &sample_proof([0u8; 32]), None, None, NOW, 1).unwrap();
    assert_eq!(w.payable, 2 * TARGET_COAL_REWARDS);
}

#[test]
fn staking_and_group_bonus() {
    let mut c = config();
    c.top_balance = 100;
    let mut p = sample_proof([0u8; 32]);
    p.balance = 50;
    p.last_stake_at = NOW - 61;
    let b = compute_reward(Resource::Coal, &c, &bus(), &p, None, None, NOW, 0).unwrap();
    // 1000 + 12 * 500
    assert_eq!(b.reward, 7000);
    assert_eq!(b.top_balance, 50);
    // Staked within the last minute: no bonus, top balance unchanged.
    p.last_stake_at = NOW - 60;
    let b = compute_reward(Resource::Coal, &c, &bus(), &p, None, None, NOW, 0).unwrap();
    assert_eq!(b.reward, 1000);
    assert_eq!(b.top_balance, 0);
    // Group bonus: 1000 * 3 * 20 / 100 = 600.
    let g = GuildStake { stake: 20, total_stake: 100, total_multiplier: 3 };
    let b = compute_reward(Resource::Coal, &c, &bus(), &p, None, Some(g), NOW, 0).unwrap();
    assert_eq!(b.stake_reward, 600);
    assert_eq!(b.reward, 1600);
    let bad = GuildStake { stake: 20, total_stake: 0, total_multiplier: 3 };
    assert_eq!(compute_reward(Resource::Coal, &c, &bus(), &p, None, Some(bad), NOW, 0), Err(MineError::Overflow));
}

#[test]
fn late_submission_is_penalised() {
    let mut p = sample_proof([0u8; 32]);
    // On time: no penalty.
    let b = compute_reward(Resource::Coal, &config(), &bus(), &p, None, None, NOW, 0).unwrap();
    assert_eq!(b.reward, 1000);
    // Within the tolerance: no penalty.
    p.last_hash_at = NOW - 65;
    assert_eq!(compute_reward(Resource::Coal, &config(), &bus(), &p, None, None, NOW, 0).unwrap().reward, 1000);
    // Ninety seconds late: one halving and a quarter off.
    p.last_hash_at = NOW - 150;
    assert_eq!(compute_reward(Resource::Coal, &config(), &bus(), &p, None, None, NOW, 0).unwrap().reward, 375);
}

#[test]
fn tool_with_no_durability_adds_nothing() {
    let t = ToolState { durability: 0, multiplier: 200 };
    let b = compute_reward(Resource::Coal, &config(), &bus(), &sample_proof([0u8; 32]), Some(t), None, NOW, 0).unwrap();
    assert_eq!(b.tool_reward, 0);
    assert_eq!(b.tool_charge, 0);
    assert_eq!(b.reward, 1000);
}

#[test]
fn tool_durability_accumulates_charges() {
    let address = [0xaau8; 32];
    let tx = instruction_list(&[marker([0u8; 32]), marker(address)]);
    let mut bus_state = bus();
    let start = 5_000u64;
    let mut tool = Some(Tool { authority: [1u8; 32], miner: [1u8; 32], asset: [2u8; 32], durability: start, multiplier: 100 });
    let mut challenge = [77u8; 32];
    let mut proof_state = sample_proof(challenge);
    let mut charged = 0u64;
    let mut now = NOW;
    for _ in 0..3 {
        let (args, _) = solve(&challenge);
        let mut c = config();
        c.last_reset_at = now - 10;
        let event = process_mine_coal(&c, &mut bus_state, &mut proof_state, &mut tool, None, &args, &address, &tx, &[1u8; 40], now)
            .unwrap();
        charged += event.tool_reward;
        challenge = proof_state.challenge;
        now += 60;
    }
    assert!(charged <= start);
    assert_eq!(tool.unwrap().durability, start - charged);
}

#[test]
fn next_challenge_is_keccak_of_hash_and_recent() {
    let h = [8u8; 32];
    let recent = [4u8; 40];
    let c = next_challenge(Resource::Coal, &h, &recent);
    assert_eq!(c, solana_program::keccak::hashv(&[&h, &recent]).to_bytes());
    assert_ne!(c, h);
    let w = next_challenge(Resource::Wood, &h, &recent);
    assert_eq!(w, solana_program::keccak::hashv(&[b"wood", &h, &recent]).to_bytes());
}

#[test]
fn resource_names() {
    assert_eq!(resource_from_name("coal"), Some(Resource::Coal));
    assert_eq!(resource_from_name("wood"), Some(Resource::Wood));
    assert_eq!(resource_from_name("stone"), None);
    assert_eq!(resource_from_name(""), None);
}

#[test]
fn mine_args_decode() {
    let mut data = vec![0u8; 24];
    for (i, b) in data.iter_mut().enumerate() {
        *b = i as u8;
    }
    let args = MineArgs::from_bytes(&data).unwrap();
    assert_eq!(args.digest.to_vec(), data[..16].to_vec());
    assert_eq!(args.nonce.to_vec(), data[16..].to_vec());
    assert_eq!(MineArgs::from_bytes(&data[..23]), None);
    assert_eq!(MineArgs::from_bytes(&[0u8; 25]), None);
}

#[test]
fn mine_event_encoding() {
    let e = coal_core::mine::MineEvent { difficulty: 9, reward: 0x0102, timing: -5, tool_reward: 3, stake_reward: u64::MAX };
    let bytes = e.to_bytes();
    let mut want: Vec<u8> = Vec::new();
    want.extend_from_slice(&9u64.to_le_bytes());
    want.extend_from_slice(&0x0102u64.to_le_bytes());
    want.extend_from_slice(&(-5i64).to_le_bytes());
    want.extend_from_slice(&3u64.to_le_bytes());
    want.extend_from_slice(&u64::MAX.to_le_bytes());
    assert_eq!(bytes, want);
}

#[test]
fn mine_error_codes() {
    assert_eq!(MineError::NeedsReset.code(), Some(0));
    assert_eq!(MineError::HashInvalid.code(), Some(1));
    assert_eq!(MineError::HashTooEasy.code(), Some(2));
    assert_eq!(MineError::Spam.code(), Some(5));
    assert_eq!(MineError::AuthFailed.code(), Some(7));
    assert_eq!(MineError::Overflow.code(), None);
}
