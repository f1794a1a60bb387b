use std::time::Duration;
use std::time::SystemTime;
use std::time::UNIX_EPOCH;

use blockchain_rust_demo::block::hash_meets_target;
use blockchain_rust_demo::block::Block;
use blockchain_rust_demo::block::TARGET_HEXT;
use blockchain_rust_demo::clock::current_millis;
use blockchain_rust_demo::clock::millis_since_epoch;
use blockchain_rust_demo::errors::ChainError;
use blockchain_rust_demo::transaction::Transaction;

const ADDRESS: &str = "32LB5ANdvjNPoW3DXLXUt6ra7Lih9WeBJN";

fn coinbase() -> Transaction {
    Transaction::new_coinbase(ADDRESS.to_string(), "hello".to_string()).unwrap()
}

#[test]
fn target_is_four_hex_zeros() {
    assert_eq!(TARGET_HEXT, 4);
    assert!(hash_meets_target(&"0000ab".to_string()));
    assert!(hash_meets_target(&"0000".to_string()));
    assert!(!hash_meets_target(&"000a00".to_string()));
    assert!(!hash_meets_target(&"000".to_string()));
    assert!(!hash_meets_target(&"".to_string()));
}

#[test]
fn header_bytes_are_the_canonical_encoding() {
    let block = Block::from_parts(1, Vec::new(), "ab".to_string(), String::new(), 0, 7);
    let expected: Vec<u8> = vec![
        2, 0, 0, 0, 0, 0, 0, 0, 97, 98, 0, 0, 0, 0, 0, 0, 0, 0, 1, 0, 0, 0, 0, 0, 0, 0, 0, 0, 0, 0,
        0, 0, 0, 0, 4, 0, 0, 0, 0, 0, 0, 0, 7, 0, 0, 0,
    ];
    assert_eq!(block.prepare_hash_data(), Ok(expected));
}

#[test]
fn mining_finds_the_least_nonce() {
    let block = Block::mine(vec![coinbase()], String::new(), 0, 1700000000025).unwrap();
    assert_eq!(block.get_nonce(), 267);
    assert_eq!(
        block.get_hash(),
        "000057d5729263670758b0ba0dd4bccf5486840f7986754b64e1d635ca3f38cc"
    );
    assert_eq!(block.get_height(), 0);
    assert_eq!(block.get_prev_hash(), "");
    assert_eq!(block.get_timestamp(), 1700000000025);
    assert_eq!(block.get_transaction().len(), 1);
    assert_eq!(block.validate(), Ok(true));
    assert_eq!(block.check(), Ok(true));
}

#[test]
fn mining_a_longer_search_ends_at_the_known_nonce() {
    let block = Block::mine(vec![coinbase()], String::new(), 0, 1700000000000).unwrap();
    assert_eq!(block.get_nonce(), 30550);
    assert_eq!(
        block.get_hash(),
        "00004cf9c4d7b80e61ec8121782030fb1b6609d8f4ea97598becf918276dde0d"
    );
}

#[test]
fn mined_block_has_leading_zeros_and_recomputes() {
    let block = Block::new_block(vec![coinbase()], "00ab".to_string(), 3).unwrap();
    let hash = block.get_hash();
    assert_eq!(hash.len(), 64);
    assert!(hash.starts_with("0000"));
    assert_eq!(block.get_height(), 3);
    assert_eq!(block.get_prev_hash(), "00ab");
    assert!(block.get_nonce() >= 0);
    assert!(block.get_timestamp() > 1_600_000_000_000);
    assert_eq!(block.check(), Ok(true));
    let again = Block::from_parts(
        block.get_timestamp(),
        block.get_transaction().clone(),
        block.get_prev_hash(),
        String::new(),
        block.get_height(),
        block.get_nonce(),
    );
    assert_eq!(again.validate(), Ok(true));
    let data = again.prepare_hash_data().unwrap();
    assert_eq!(blockchain_rust_demo::hashing::digest_hex(&data), hash);
}

#[test]
fn block_with_a_wrong_hash_is_not_mined() {
    let block = Block::mine(vec![coinbase()], String::new(), 0, 1700000000025).unwrap();
    let forged = Block::from_parts(
        block.get_timestamp(),
        block.get_transaction().clone(),
        block.get_prev_hash(),
        "0000000000000000000000000000000000000000000000000000000000000000".to_string(),
        block.get_height(),
        block.get_nonce(),
    );
    assert_eq!(forged.validate(), Ok(true));
    assert_eq!(forged.check(), Ok(false));
    let moved = Block::from_parts(
        block.get_timestamp(),
        block.get_transaction().clone(),
        block.get_prev_hash(),
        block.get_hash(),
        block.get_height(),
        block.get_nonce() + 1,
    );
    assert_eq!(moved.check(), Ok(false));
}

#[test]
fn genesis_block_has_height_zero_and_no_parent() {
    let block = Block::new_genesis_block(coinbase()).unwrap();
    assert_eq!(block.get_height(), 0);
    assert_eq!(block.get_prev_hash(), "");
    assert_eq!(block.get_transaction().len(), 1);
    assert!(block.get_transaction()[0].is_coinbase());
    assert!(block.get_hash().starts_with("0000"));
}

fn unhex(text: &str) -> Vec<u8> {
    let digits: Vec<u8> = text.chars().map(|c| c.to_digit(16).unwrap() as u8).collect();
    digits.chunks(2).map(|pair| pair[0] * 16 + pair[1]).collect()
}

#[test]
fn hash_transactions_is_the_merkle_root_of_the_digests() {
    let tx = coinbase();
    let leaf = tx.hash_bytes().unwrap();
    assert_eq!(leaf.len(), 32);
    assert_eq!(leaf, unhex("0391733170ffc6c92403a1e036b5863ad1dd8fdb088006fefac62af4a702bc78"));
    assert_eq!(leaf, unhex(&tx.id));

    // The root of a single transaction is its digest, unchanged.
    let block = Block::from_parts(0, vec![tx.clone()], String::new(), String::new(), 0, 0);
    assert_eq!(block.hash_transactions(), Ok(leaf.clone()));

    let other = Transaction::new_coinbase(ADDRESS.to_string(), String::new()).unwrap();
    let second = other.hash_bytes().unwrap();
    let two = Block::from_parts(0, vec![tx.clone(), other.clone()], String::new(), String::new(), 0, 0);
    let root = two.hash_transactions().unwrap();
    assert_eq!(root.len(), 32);
    assert_eq!(root, blockchain_rust_demo::hashing::merge(&leaf, &second));
    let swapped = Block::from_parts(0, vec![other, tx], String::new(), String::new(), 0, 0);
    assert_ne!(swapped.hash_transactions().unwrap(), root);

    let none = Block::from_parts(0, Vec::new(), String::new(), String::new(), 0, 0);
    assert_eq!(none.hash_transactions(), Ok(Vec::new()));
}

#[test]
fn header_of_a_block_holds_the_root_of_32_bytes() {
    let tx = coinbase();
    let block = Block::from_parts(1, vec![tx.clone()], "ab".to_string(), String::new(), 0, 7);
    let mut expected: Vec<u8> = vec![2, 0, 0, 0, 0, 0, 0, 0, 97, 98, 32, 0, 0, 0, 0, 0, 0, 0];
    expected.extend_from_slice(&tx.hash_bytes().unwrap());
    expected.extend_from_slice(&[1, 0, 0, 0, 0, 0, 0, 0, 0, 0, 0, 0, 0, 0, 0, 0]);
    expected.extend_from_slice(&[4, 0, 0, 0, 0, 0, 0, 0, 7, 0, 0, 0]);
    assert_eq!(block.prepare_hash_data(), Ok(expected));
}

#[test]
fn error_messages_are_distinct() {
    let all = [
        ChainError::InsufficientFunds,
        ChainError::MissingPrevTransaction,
        ChainError::MissingPrevOutput,
        ChainError::NoLedgerFound,
        ChainError::LedgerAlreadyExists,
        ChainError::CorruptAddress,
        ChainError::Serialization,
        ChainError::Clock,
        ChainError::NonceExhausted,
        ChainError::NoEntropy,
        ChainError::CorruptStore,
        ChainError::HeightExhausted,
        ChainError::InvalidKey,
    ];
    for (i, a) in all.iter().enumerate() {
        for (j, b) in all.iter().enumerate() {
            assert_eq!(i == j, a.message() == b.message());
        }
    }
    assert_eq!(ChainError::InsufficientFunds.message(), "not enough balance");
}

#[test]
fn reading_against_the_epoch_gives_whole_milliseconds_or_clock() {
    assert_eq!(millis_since_epoch(Ok(Duration::from_millis(1500))), Ok(1500));
    assert_eq!(millis_since_epoch(Ok(Duration::new(2, 999_999))), Ok(2000));
    assert_eq!(millis_since_epoch(Ok(Duration::new(0, 0))), Ok(0));
    let early = UNIX_EPOCH.duration_since(SystemTime::now());
    assert!(early.is_err());
    assert_eq!(millis_since_epoch(early), Err(ChainError::Clock));
}

#[test]
fn clock_reads_later_than_the_epoch() {
    let first = current_millis().unwrap();
    let second = current_millis().unwrap();
    assert!(first > 1_600_000_000_000);
    assert!(second >= first);
}
