use bekcoin::chain::{Blockchain, Config};
use bekcoin::transaction::Transaction;

const BUDGET: u64 = 10_000_000;

fn test_config() -> Config {
    Config {
        base_difficulty: 2,
        adjustment_interval: 10,
        target_seconds_per_block: 10,
        mining_reward: 50,
    }
}

#[test]
fn genesis_block_properties() {
    let chain = Blockchain::new(test_config(), 1_000, BUDGET).unwrap();
    assert_eq!(chain.get_total_blocks(), 1);
    let genesis = &chain.chain[0];
    assert_eq!(genesis.index, 0);
    assert!(genesis.previous_hash.is_empty());
    assert!(genesis.transactions.is_empty());
    assert_eq!(genesis.difficulty, 2);
    assert_eq!(genesis.timestamp, 1_000);
    assert_eq!(genesis.hash.len(), 64);
    assert_eq!(&genesis.hash[..2], b"00");
    assert_eq!(genesis.hash, genesis.calculate_hash());
}

#[test]
fn end_to_end_mine_and_append() {
    let mut chain = Blockchain::new(test_config(), 1_000, BUDGET).unwrap();
    let genesis_hash = chain.chain[0].hash.clone();
    let tx = Transaction::new(b"A".to_vec(), b"B".to_vec(), 10, 1_010);
    let block = chain
        .mine_block(b"miner".to_vec(), vec![tx], 1_010, BUDGET)
        .unwrap();
    assert_eq!(block.index, 1);
    assert_eq!(block.previous_hash, genesis_hash);
    assert_eq!(block.transactions.len(), 2);
    assert_eq!(&block.hash[..2], b"00");
    chain.add_block(block).unwrap();
    assert_eq!(chain.get_total_blocks(), 2);
}

#[test]
fn mined_block_carries_reward_transaction() {
    let chain = Blockchain::new(test_config(), 1_000, BUDGET).unwrap();
    let block = chain
        .mine_block(b"miner".to_vec(), Vec::new(), 1_010, BUDGET)
        .unwrap();
    assert_eq!(block.transactions.len(), 1);
    let reward = &block.transactions[0];
    assert_eq!(reward.sender, b"NETWORK".to_vec());
    assert_eq!(reward.recipient, b"miner".to_vec());
    assert_eq!(reward.amount, 50);
    assert_eq!(reward.timestamp, 1_010);
    assert_eq!(reward.signature, b"SIG_NETWORK_1010".to_vec());
}

#[test]
fn append_rejects_mismatched_previous_hash() {
    let mut chain = Blockchain::new(test_config(), 1_000, BUDGET).unwrap();
    let mut block = chain
        .mine_block(b"miner".to_vec(), Vec::new(), 1_010, BUDGET)
        .unwrap();
    block.previous_hash[0] ^= 1;
    let tip_before = chain.chain[chain.get_total_blocks() - 1].hash.clone();
    assert!(chain.add_block(block).is_err());
    assert_eq!(chain.get_total_blocks(), 1);
    assert_eq!(chain.chain[chain.get_total_blocks() - 1].hash, tip_before);
}

#[test]
fn append_rejects_wrong_index() {
    let mut chain = Blockchain::new(test_config(), 1_000, BUDGET).unwrap();
    let mut block = chain
        .mine_block(b"miner".to_vec(), Vec::new(), 1_010, BUDGET)
        .unwrap();
    block.index = 5;
    assert!(chain.add_block(block).is_err());
    assert_eq!(chain.get_total_blocks(), 1);
}

#[test]
fn append_rejects_unmet_difficulty() {
    let mut chain = Blockchain::new(test_config(), 1_000, BUDGET).unwrap();
    let mut block = chain
        .mine_block(b"miner".to_vec(), Vec::new(), 1_010, BUDGET)
        .unwrap();
    block.hash[0] = b'f';
    assert!(chain.add_block(block).is_err());
    assert_eq!(chain.get_total_blocks(), 1);
}

#[test]
fn append_accepts_only_valid_link_after_rejection() {
    let mut chain = Blockchain::new(test_config(), 1_000, BUDGET).unwrap();
    let bad = {
        let mut b = chain
            .mine_block(b"miner".to_vec(), Vec::new(), 1_010, BUDGET)
            .unwrap();
        b.previous_hash.clear();
        b
    };
    assert!(chain.add_block(bad).is_err());
    let good = chain
        .mine_block(b"miner".to_vec(), Vec::new(), 1_010, BUDGET)
        .unwrap();
    assert!(chain.add_block(good).is_ok());
    assert_eq!(chain.get_total_blocks(), 2);
}

#[test]
fn mining_cancelled_with_zero_budget() {
    let chain = Blockchain::new(test_config(), 1_000, BUDGET).unwrap();
    assert!(chain
        .mine_block(b"miner".to_vec(), Vec::new(), 1_010, 0)
        .is_err());
    assert_eq!(chain.get_total_blocks(), 1);
}

#[test]
fn genesis_search_cancelled_with_zero_budget() {
    assert!(Blockchain::new(test_config(), 1_000, 0).is_err());
}

#[test]
fn chain_stays_linked_over_many_blocks() {
    let mut chain = Blockchain::new(test_config(), 1_000, BUDGET).unwrap();
    for i in 1..6u64 {
        let block = chain
            .mine_block(b"miner".to_vec(), Vec::new(), 1_000 + i * 10, BUDGET)
            .unwrap();
        chain.add_block(block).unwrap();
    }
    assert_eq!(chain.get_total_blocks(), 6);
    for i in 1..6usize {
        assert_eq!(chain.chain[i].previous_hash, chain.chain[i - 1].hash);
        assert_eq!(chain.chain[i].index as usize, i);
        assert_eq!(&chain.chain[i].hash[..2], b"00");
    }
}
