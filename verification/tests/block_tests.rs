use bekcoin::block::Block;
use bekcoin::transaction::Transaction;

fn sample_block() -> Block {
    let tx = Transaction::new(b"Alice".to_vec(), b"Bob".to_vec(), 10, 500);
    Block::new(0, Vec::new(), vec![tx], 2, 500)
}

#[test]
fn new_block_starts_unsealed() {
    let block = sample_block();
    assert_eq!(block.nonce, 0);
    assert!(block.hash.is_empty());
    assert_eq!(block.difficulty, 2);
    assert_eq!(block.timestamp, 500);
}

#[test]
fn calculate_hash_is_idempotent() {
    let block = sample_block();
    assert_eq!(block.calculate_hash(), block.calculate_hash());
}

#[test]
fn calculate_hash_is_a_64_digit_hex_string() {
    let hash = sample_block().calculate_hash();
    assert_eq!(hash.len(), 64);
    for b in hash.iter() {
        assert!(b.is_ascii_hexdigit());
        assert!(!b.is_ascii_uppercase());
    }
}

#[test]
fn calculate_hash_depends_on_the_nonce() {
    let mut block = sample_block();
    let before = block.calculate_hash();
    block.nonce = 1;
    assert_ne!(block.calculate_hash(), before);
}

#[test]
fn sealed_hash_is_reproducible_and_meets_difficulty() {
    let mut block = sample_block();
    block.seal(10_000_000).unwrap();
    assert_eq!(&block.hash[..2], b"00");
    assert_eq!(block.hash, block.calculate_hash());
}

#[test]
fn cancelled_seal_leaves_the_block_unsealed() {
    let mut block = sample_block();
    assert!(block.seal(0).is_err());
    assert_eq!(block.nonce, 0);
    assert!(block.hash.is_empty());
}

#[test]
fn hex_encoding_is_exact() {
    assert_eq!(
        bekcoin::hashing::to_hex(&vec![0x00, 0xaf, 0x1b]),
        b"00af1b".to_vec()
    );
    assert_eq!(bekcoin::hashing::to_hex(&Vec::new()), Vec::<u8>::new());
}

#[test]
fn check_difficulty_counts_leading_zeros() {
    let hash = b"00ab".to_vec();
    assert!(bekcoin::block::check_difficulty(&hash, 0));
    assert!(bekcoin::block::check_difficulty(&hash, 2));
    assert!(!bekcoin::block::check_difficulty(&hash, 3));
    assert!(!bekcoin::block::check_difficulty(&hash, 5));
    assert!(!bekcoin::block::check_difficulty(&Vec::new(), 0));
}
