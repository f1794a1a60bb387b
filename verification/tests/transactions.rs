use blockchain_rust_demo::errors::ChainError;
use blockchain_rust_demo::transaction::find_tx;
use blockchain_rust_demo::transaction::Transaction;
use blockchain_rust_demo::transaction::SUBSIDY;
use blockchain_rust_demo::tx::bytes_equal;
use blockchain_rust_demo::tx::TXInput;
use blockchain_rust_demo::tx::TXOutput;
use blockchain_rust_demo::wallet::Wallet;

const ADDRESS: &str = "32LB5ANdvjNPoW3DXLXUt6ra7Lih9WeBJN";

fn wallet(seed: u8) -> Wallet {
    Wallet::from_seed(&[seed; 32])
}

fn key_hash(w: &Wallet) -> Vec<u8> {
    let mut h = w.public_key.clone();
    blockchain_rust_demo::wallet::hash_pub_key(&mut h);
    h
}

/// A transaction that pays 100 to `owner`, and a spend of its output 0 by
/// `owner` that is not signed yet.
fn funded_spend(owner: &Wallet) -> (Transaction, Transaction) {
    let source = Transaction::new_coinbase(owner.get_address(), "fund".to_string()).unwrap();
    let mut spend = Transaction {
        id: String::new(),
        vin: vec![TXInput {
            txid: source.id.clone(),
            vout: 0,
            signature: Vec::new(),
            pub_key: owner.public_key.clone(),
        }],
        vout: vec![
            TXOutput { value: 40, pub_key_hash: vec![7u8; 20] },
            TXOutput { value: 60, pub_key_hash: key_hash(owner) },
        ],
    };
    spend.id = spend.hash().unwrap();
    (source, spend)
}

#[test]
fn coinbase_with_memo_has_the_known_id() {
    let tx = Transaction::new_coinbase(ADDRESS.to_string(), "hello".to_string()).unwrap();
    assert_eq!(tx.id, "0391733170ffc6c92403a1e036b5863ad1dd8fdb088006fefac62af4a702bc78");
    assert_eq!(tx.vin.len(), 1);
    assert_eq!(tx.vin[0].txid, "");
    assert_eq!(tx.vin[0].vout, -1);
    assert!(tx.vin[0].signature.is_empty());
    assert_eq!(tx.vin[0].pub_key, b"hello".to_vec());
    assert_eq!(tx.vout.len(), 1);
    assert_eq!(tx.vout[0].value, 100);
    assert_eq!(tx.vout[0].value, SUBSIDY);
    assert_eq!(tx.vout[0].pub_key_hash, vec![7u8; 20]);
    assert!(tx.is_coinbase());
}

#[test]
fn coinbase_without_memo_carries_the_reward_text() {
    let tx = Transaction::new_coinbase(ADDRESS.to_string(), String::new()).unwrap();
    assert_eq!(tx.vin[0].pub_key, b"Reward to '32LB5ANdvjNPoW3DXLXUt6ra7Lih9WeBJN'".to_vec());
    assert_eq!(tx.id, "113d0a428386d5ad0e13bf89dede34097c297f88713e58dfe447b0fd0c4b46a7");
}

#[test]
fn coinbase_to_a_corrupt_address_is_refused() {
    let r = Transaction::new_coinbase("32LB5ANdvjNPoW3DXLXUt6ra7Lih9WeBJM".to_string(), String::new());
    assert_eq!(r.err(), Some(ChainError::CorruptAddress));
}

#[test]
fn hash_ignores_the_id_and_is_the_id() {
    let tx = Transaction::new_coinbase(ADDRESS.to_string(), "hello".to_string()).unwrap();
    assert_eq!(tx.hash(), Ok(tx.id.clone()));
    let mut renamed = tx.clone();
    renamed.id = "something else".to_string();
    assert_eq!(renamed.hash(), Ok(tx.id.clone()));
    let mut changed = tx.clone();
    changed.vout[0].value = 101;
    assert_ne!(changed.hash(), Ok(tx.id.clone()));
}

#[test]
fn is_coinbase_needs_one_empty_input_with_index_minus_one() {
    let tx = Transaction::new_coinbase(ADDRESS.to_string(), "hello".to_string()).unwrap();
    assert!(tx.is_coinbase());
    let mut two = tx.clone();
    two.vin.push(two.vin[0].clone());
    assert!(!two.is_coinbase());
    let mut named = tx.clone();
    named.vin[0].txid = "ab".to_string();
    assert!(!named.is_coinbase());
    let mut indexed = tx.clone();
    indexed.vin[0].vout = 0;
    assert!(!indexed.is_coinbase());
    let mut none = tx.clone();
    none.vin.clear();
    assert!(!none.is_coinbase());
}

#[test]
fn trim_copy_clears_signatures_and_keys_only() {
    let tx = Transaction {
        id: "id".to_string(),
        vin: vec![
            TXInput { txid: "a".to_string(), vout: 1, signature: vec![1, 2], pub_key: vec![3] },
            TXInput { txid: "b".to_string(), vout: 2, signature: vec![4], pub_key: vec![5, 6] },
        ],
        vout: vec![TXOutput { value: 9, pub_key_hash: vec![8u8; 20] }],
    };
    let copy = tx.trim_copy();
    assert_eq!(copy.id, "id");
    assert_eq!(copy.vin.len(), 2);
    assert_eq!(copy.vin[0].txid, "a");
    assert_eq!(copy.vin[0].vout, 1);
    assert_eq!(copy.vin[1].txid, "b");
    assert_eq!(copy.vin[1].vout, 2);
    for input in &copy.vin {
        assert!(input.signature.is_empty());
        assert!(input.pub_key.is_empty());
    }
    assert_eq!(copy.vout.len(), 1);
    assert_eq!(copy.vout[0].value, 9);
    assert_eq!(copy.vout[0].pub_key_hash, vec![8u8; 20]);
}

#[test]
fn coinbase_verifies_whatever_the_previous_transactions() {
    let tx = Transaction::new_coinbase(ADDRESS.to_string(), "hello".to_string()).unwrap();
    assert_eq!(tx.verify(Vec::new()), Ok(true));
    assert_eq!(tx.verify(vec![tx.clone()]), Ok(true));
}

#[test]
fn signing_without_a_signature_to_make_reads_no_key() {
    let mut coinbase = Transaction::new_coinbase(ADDRESS.to_string(), "hello".to_string()).unwrap();
    assert_eq!(coinbase.sign(&[], Vec::new()), Ok(()));
    let mut empty = Transaction { id: "e".to_string(), vin: Vec::new(), vout: Vec::new() };
    assert_eq!(empty.sign(&[1, 2, 3], Vec::new()), Ok(()));
    let owner = wallet(1);
    let (_, mut spend) = funded_spend(&owner);
    assert_eq!(spend.sign(&[], Vec::new()), Err(ChainError::MissingPrevTransaction));
}

#[test]
fn short_secret_key_is_reported_where_a_signature_is_due() {
    let owner = wallet(1);
    let (source, mut spend) = funded_spend(&owner);
    let before = spend.clone();
    assert_eq!(spend.sign(&owner.secret_key[..63], vec![source.clone()]), Err(ChainError::InvalidKey));
    assert_eq!(spend.sign(&[], vec![source.clone()]), Err(ChainError::InvalidKey));
    assert_eq!(spend.vin[0].signature, before.vin[0].signature);
    assert_eq!(spend.sign(&owner.secret_key, vec![source]), Ok(()));
}

#[test]
fn digest_bytes_are_the_id_unhexed() {
    let tx = Transaction::new_coinbase(ADDRESS.to_string(), "hello".to_string()).unwrap();
    let bytes = tx.hash_bytes().unwrap();
    assert_eq!(bytes.len(), 32);
    let text: String = bytes.iter().map(|b| format!("{:02x}", b)).collect();
    assert_eq!(text, tx.id);
}

#[test]
fn signing_a_coinbase_changes_nothing() {
    let owner = wallet(1);
    let mut tx = Transaction::new_coinbase(ADDRESS.to_string(), "hello".to_string()).unwrap();
    assert_eq!(tx.sign(&owner.secret_key, Vec::new()), Ok(()));
    assert!(tx.vin[0].signature.is_empty());
    assert_eq!(tx.vin[0].pub_key, b"hello".to_vec());
}

#[test]
fn correctly_signed_transaction_verifies() {
    let owner = wallet(1);
    let (source, mut spend) = funded_spend(&owner);
    assert_eq!(spend.verify(vec![source.clone()]), Ok(false));
    assert_eq!(spend.sign(&owner.secret_key, vec![source.clone()]), Ok(()));
    assert_eq!(spend.vin[0].signature.len(), 64);
    assert_eq!(spend.vin[0].pub_key, owner.public_key);
    assert_eq!(spend.verify(vec![source]), Ok(true));
}

#[test]
fn signature_by_another_key_does_not_verify() {
    let owner = wallet(1);
    let thief = wallet(2);
    let (source, mut spend) = funded_spend(&owner);
    assert_eq!(spend.sign(&thief.secret_key, vec![source.clone()]), Ok(()));
    assert_eq!(spend.verify(vec![source]), Ok(false));
}

#[test]
fn tampering_with_an_output_value_breaks_verification() {
    let owner = wallet(1);
    let (source, mut spend) = funded_spend(&owner);
    spend.sign(&owner.secret_key, vec![source.clone()]).unwrap();
    assert_eq!(spend.verify(vec![source.clone()]), Ok(true));
    spend.vout[0].value = 41;
    assert_eq!(spend.verify(vec![source]), Ok(false));
}

#[test]
fn tampering_with_a_signature_breaks_verification() {
    let owner = wallet(1);
    let (source, mut spend) = funded_spend(&owner);
    spend.sign(&owner.secret_key, vec![source.clone()]).unwrap();
    spend.vin[0].signature[5] ^= 1;
    assert_eq!(spend.verify(vec![source.clone()]), Ok(false));
    spend.vin[0].signature.truncate(63);
    assert_eq!(spend.verify(vec![source.clone()]), Ok(false));
    spend.vin[0].signature.clear();
    assert_eq!(spend.verify(vec![source]), Ok(false));
}

#[test]
fn short_public_key_does_not_verify() {
    let owner = wallet(1);
    let (source, mut spend) = funded_spend(&owner);
    spend.sign(&owner.secret_key, vec![source.clone()]).unwrap();
    spend.vin[0].pub_key.truncate(31);
    assert_eq!(spend.verify(vec![source]), Ok(false));
}

#[test]
fn missing_previous_transaction_is_reported() {
    let owner = wallet(1);
    let (source, mut spend) = funded_spend(&owner);
    let before = spend.clone();
    assert_eq!(spend.verify(Vec::new()), Err(ChainError::MissingPrevTransaction));
    assert_eq!(
        spend.sign(&owner.secret_key, Vec::new()),
        Err(ChainError::MissingPrevTransaction)
    );
    assert_eq!(spend.vin[0].signature, before.vin[0].signature);
    let other = Transaction::new_coinbase(ADDRESS.to_string(), "x".to_string()).unwrap();
    assert_eq!(spend.verify(vec![other]), Err(ChainError::MissingPrevTransaction));
    let mut unnamed = spend.clone();
    unnamed.vin[0].txid = String::new();
    unnamed.vin[0].vout = 0;
    let mut empty_id = source.clone();
    empty_id.id = String::new();
    assert_eq!(unnamed.verify(vec![empty_id]), Err(ChainError::MissingPrevTransaction));
}

#[test]
fn missing_previous_output_is_reported() {
    let owner = wallet(1);
    let (source, mut spend) = funded_spend(&owner);
    spend.vin[0].vout = 1;
    assert_eq!(spend.verify(vec![source.clone()]), Err(ChainError::MissingPrevOutput));
    assert_eq!(
        spend.sign(&owner.secret_key, vec![source.clone()]),
        Err(ChainError::MissingPrevOutput)
    );
    spend.vin[0].vout = -2;
    assert_eq!(spend.verify(vec![source]), Err(ChainError::MissingPrevOutput));
}

#[test]
fn find_tx_gives_the_first_match() {
    let a = Transaction::new_coinbase(ADDRESS.to_string(), "a".to_string()).unwrap();
    let b = Transaction::new_coinbase(ADDRESS.to_string(), "b".to_string()).unwrap();
    let list = vec![a.clone(), b.clone(), a.clone()];
    assert_eq!(find_tx(&list, &a.id), Some(0));
    assert_eq!(find_tx(&list, &b.id), Some(1));
    assert_eq!(find_tx(&list, &"none".to_string()), None);
    assert_eq!(find_tx(&Vec::new(), &a.id), None);
}

#[test]
fn outputs_lock_to_the_hash_of_the_address() {
    let out = TXOutput::new(5, ADDRESS.to_string()).unwrap();
    assert_eq!(out.value, 5);
    assert_eq!(out.pub_key_hash, vec![7u8; 20]);
    assert!(out.is_locked_with_key(&[7u8; 20]));
    assert!(!out.is_locked_with_key(&[8u8; 20]));
    assert!(!out.is_locked_with_key(&[7u8; 19]));
    assert_eq!(TXOutput::new(5, "nonsense".to_string()).err(), Some(ChainError::CorruptAddress));
    let mut other = TXOutput { value: 1, pub_key_hash: vec![1] };
    assert_eq!(other.lock("nonsense"), Err(ChainError::CorruptAddress));
    assert_eq!(other.pub_key_hash, vec![1]);
    assert_eq!(other.lock(ADDRESS), Ok(()));
    assert_eq!(other.pub_key_hash, vec![7u8; 20]);
    assert_eq!(other.value, 1);
}

#[test]
fn inputs_unlock_outputs_of_their_own_key() {
    let owner = wallet(1);
    let input = TXInput {
        txid: String::new(),
        vout: 0,
        signature: Vec::new(),
        pub_key: owner.public_key.clone(),
    };
    assert!(input.can_unlock_output_with(&key_hash(&owner)));
    assert!(!input.can_unlock_output_with(&key_hash(&wallet(2))));
}

#[test]
fn bytes_equal_compares_contents() {
    assert!(bytes_equal(&[], &[]));
    assert!(bytes_equal(&[1, 2, 3], &[1, 2, 3]));
    assert!(!bytes_equal(&[1, 2, 3], &[1, 2, 4]));
    assert!(!bytes_equal(&[1, 2, 3], &[1, 2]));
}
