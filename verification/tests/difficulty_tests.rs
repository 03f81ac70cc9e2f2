use bekcoin::chain::{Blockchain, Config};

const BUDGET: u64 = 10_000_000;

fn config_with_target(target: u64) -> Config {
    Config {
        base_difficulty: 2,
        adjustment_interval: 10,
        target_seconds_per_block: target,
        mining_reward: 50,
    }
}

/// A chain of eleven blocks whose timestamps are exactly `spacing`
/// seconds apart.
fn chain_spaced(target: u64, spacing: u64) -> Blockchain {
    let mut chain = Blockchain::new(config_with_target(target), 1_000, BUDGET).unwrap();
    for i in 1..11u64 {
        let block = chain
            .mine_block(b"miner".to_vec(), Vec::new(), 1_000 + i * spacing, BUDGET)
            .unwrap();
        chain.add_block(block).unwrap();
    }
    assert_eq!(chain.get_total_blocks(), 11);
    chain
}

#[test]
fn difficulty_unchanged_at_target_pace() {
    let chain = chain_spaced(40, 40);
    assert_eq!(chain.calculate_difficulty(), 2);
}

#[test]
fn difficulty_rises_when_blocks_come_fast() {
    let chain = chain_spaced(40, 10);
    assert_eq!(chain.calculate_difficulty(), 3);
}

#[test]
fn difficulty_falls_when_blocks_come_slow() {
    let chain = chain_spaced(40, 120);
    assert_eq!(chain.calculate_difficulty(), 1);
}

#[test]
fn difficulty_is_base_before_a_full_window() {
    let mut chain = Blockchain::new(config_with_target(40), 1_000, BUDGET).unwrap();
    assert_eq!(chain.calculate_difficulty(), 2);
    for i in 1..10u64 {
        let block = chain
            .mine_block(b"miner".to_vec(), Vec::new(), 1_000 + i, BUDGET)
            .unwrap();
        chain.add_block(block).unwrap();
        assert_eq!(chain.calculate_difficulty(), 2);
    }
}

#[test]
fn difficulty_treats_backward_clock_as_too_fast() {
    // the last block's timestamp lies before the window anchor's
    let mut chain = Blockchain::new(config_with_target(40), 10_000, BUDGET).unwrap();
    for i in 1..11u64 {
        let now = if i == 10 { 100 } else { 10_000 + i * 40 };
        let block = chain
            .mine_block(b"miner".to_vec(), Vec::new(), now, BUDGET)
            .unwrap();
        chain.add_block(block).unwrap();
    }
    assert_eq!(chain.calculate_difficulty(), 3);
}

#[test]
fn difficulty_never_falls_below_one() {
    let chain = chain_spaced(40, 120);
    assert_eq!(chain.calculate_difficulty(), 1);
    // rebuild the same pattern at base difficulty 1: it stays at 1
    let config = Config {
        base_difficulty: 1,
        adjustment_interval: 10,
        target_seconds_per_block: 40,
        mining_reward: 50,
    };
    let mut chain = Blockchain::new(config, 1_000, BUDGET).unwrap();
    for i in 1..11u64 {
        let block = chain
            .mine_block(b"miner".to_vec(), Vec::new(), 1_000 + i * 120, BUDGET)
            .unwrap();
        chain.add_block(block).unwrap();
    }
    assert_eq!(chain.calculate_difficulty(), 1);
}
