use blockchain_rust_demo::block::Block;
use blockchain_rust_demo::blockchain::Blockchain;
use blockchain_rust_demo::blockchain::GENESIS_COINBASE_DATA;
use blockchain_rust_demo::errors::ChainError;
use blockchain_rust_demo::transaction::Transaction;
use blockchain_rust_demo::tx::TXInput;
use blockchain_rust_demo::tx::TXOutput;
use blockchain_rust_demo::utxoset::apply_block;
use blockchain_rust_demo::utxoset::balance_of;
use blockchain_rust_demo::utxoset::collect_spendable;
use blockchain_rust_demo::utxoset::find_unspent;
use blockchain_rust_demo::utxoset::outputs_locked_to;
use blockchain_rust_demo::utxoset::UTXOSet;
use blockchain_rust_demo::wallet::hash_pub_key;
use blockchain_rust_demo::wallet::Wallet;

const ADDRESS: &str = "32LB5ANdvjNPoW3DXLXUt6ra7Lih9WeBJN";

fn wallet(seed: u8) -> Wallet {
    Wallet::from_seed(&[seed; 32])
}

fn key_hash(w: &Wallet) -> Vec<u8> {
    let mut h = w.public_key.clone();
    hash_pub_key(&mut h);
    h
}

fn output(value: u32, owner: u8) -> TXOutput {
    TXOutput { value, pub_key_hash: vec![owner; 20] }
}

fn input(txid: &str, vout: i32) -> TXInput {
    TXInput { txid: txid.to_string(), vout, signature: Vec::new(), pub_key: Vec::new() }
}

/// Entries of an index, with the index's questions asked of them.
struct Entries(Vec<blockchain_rust_demo::utxoset::UnspentOutput>);

impl Entries {
    fn balance(&self, key_hash: &[u8]) -> i128 {
        balance_of(&self.0, key_hash)
    }

    fn find_utxo(&self, key_hash: &[u8]) -> Vec<TXOutput> {
        outputs_locked_to(&self.0, key_hash)
    }

    fn find_spendable_outputs(&self, key_hash: &[u8], amount: i32) -> (i128, Vec<(String, i32)>) {
        collect_spendable(&self.0, key_hash, amount)
    }
}

fn refs(set: &[blockchain_rust_demo::utxoset::UnspentOutput]) -> Vec<(String, i32, u32)> {
    set.iter().map(|u| (u.txid.clone(), u.index, u.output.value)).collect()
}

#[test]
fn no_stored_blocks_means_no_ledger() {
    assert_eq!(Blockchain::new(Vec::new()).err(), Some(ChainError::NoLedgerFound));
}

#[test]
fn existing_ledger_is_not_created_again() {
    let bc = Blockchain::create_blockchain(&Vec::new(), ADDRESS.to_string()).unwrap();
    let stored = bc.get_blocks().clone();
    assert_eq!(
        Blockchain::create_blockchain(&stored, ADDRESS.to_string()).err(),
        Some(ChainError::LedgerAlreadyExists)
    );
}

#[test]
fn ledger_is_not_created_for_a_corrupt_address() {
    assert_eq!(
        Blockchain::create_blockchain(&Vec::new(), "nonsense".to_string()).err(),
        Some(ChainError::CorruptAddress)
    );
}

#[test]
fn created_ledger_holds_the_genesis_block() {
    let bc = Blockchain::create_blockchain(&Vec::new(), ADDRESS.to_string()).unwrap();
    assert_eq!(bc.get_blocks().len(), 1);
    assert_eq!(bc.get_best_height(), 0);
    let genesis = bc.tip();
    assert_eq!(genesis.get_height(), 0);
    assert_eq!(genesis.get_prev_hash(), "");
    assert_eq!(genesis.check(), Ok(true));
    let txs = genesis.get_transaction();
    assert_eq!(txs.len(), 1);
    assert!(txs[0].is_coinbase());
    assert_eq!(txs[0].vin[0].pub_key, GENESIS_COINBASE_DATA.as_bytes().to_vec());
    assert_eq!(txs[0].id, "1a9686777b42b0a2514d2729d6aa5f436fc7189e638c9f495b926f0d04f7dd8c");
    assert_eq!(txs[0].vout[0].value, 100);
    assert_eq!(txs[0].vout[0].pub_key_hash, vec![7u8; 20]);
}

#[test]
fn ledger_created_at_a_given_time_is_reproducible() {
    let a = Blockchain::create_blockchain_at(&Vec::new(), ADDRESS.to_string(), 7).unwrap();
    let b = Blockchain::create_blockchain_at(&Vec::new(), ADDRESS.to_string(), 7).unwrap();
    assert_eq!(a.tip().get_timestamp(), 7);
    assert_eq!(a.tip().get_hash(), b.tip().get_hash());
    assert_eq!(a.tip().get_nonce(), b.tip().get_nonce());
    assert_eq!(
        Blockchain::create_blockchain_at(a.get_blocks(), ADDRESS.to_string(), 7).err(),
        Some(ChainError::LedgerAlreadyExists)
    );
    assert_eq!(
        Blockchain::create_blockchain_at(&Vec::new(), "nonsense".to_string(), 7).err(),
        Some(ChainError::CorruptAddress)
    );
}

#[test]
fn added_block_links_to_its_parent() {
    let mut bc = Blockchain::create_blockchain(&Vec::new(), ADDRESS.to_string()).unwrap();
    let parent_hash = bc.tip().get_hash();
    let tx = Transaction::new_coinbase(ADDRESS.to_string(), "second".to_string()).unwrap();
    let block = bc.add_block(vec![tx.clone()]).unwrap();
    assert_eq!(block.get_prev_hash(), parent_hash);
    assert_eq!(block.get_height(), 1);
    assert_eq!(block.check(), Ok(true));
    assert_eq!(bc.get_best_height(), 1);
    assert_eq!(bc.tip().get_hash(), block.get_hash());
    assert_eq!(bc.get_blocks().len(), 2);
    assert_eq!(bc.get_blocks()[1].get_transaction()[0].id, tx.id);

    let walk = bc.blocks_from_tip();
    assert_eq!(walk.len(), 2);
    assert_eq!(walk[0].get_hash(), block.get_hash());
    assert_eq!(walk[1].get_hash(), parent_hash);
    assert_eq!(walk[1].get_height(), 0);

    let mut steps = bc.iter();
    assert_eq!(steps.next().unwrap().get_hash(), block.get_hash());
    let genesis = steps.next().unwrap();
    assert_eq!(genesis.get_hash(), parent_hash);
    assert_eq!(genesis.get_prev_hash(), "");
    assert!(steps.next().is_none());
    assert!(steps.next().is_none());
    // Each walk starts at the head again.
    let mut again = bc.iter();
    assert_eq!(again.next().unwrap().get_hash(), block.get_hash());

    let all = bc.transactions();
    assert_eq!(all.len(), 2);
    assert_eq!(all[0].id, tx.id);
    assert_eq!(bc.find_transaction(&tx.id).unwrap().id, tx.id);
    assert_eq!(
        bc.find_transaction(&"none".to_string()).err(),
        Some(ChainError::MissingPrevTransaction)
    );

    let reopened = Blockchain::new(bc.get_blocks().clone()).unwrap();
    assert_eq!(reopened.get_best_height(), 1);
    assert_eq!(reopened.tip().get_hash(), block.get_hash());
}

#[test]
fn block_mined_at_a_given_time_is_reproducible() {
    let mut a = Blockchain::create_blockchain(&Vec::new(), ADDRESS.to_string()).unwrap();
    let mut b = a.clone();
    let tx = Transaction::new_coinbase(ADDRESS.to_string(), "second".to_string()).unwrap();
    let first = a.add_block_at(vec![tx.clone()], 42).unwrap();
    let second = b.add_block_at(vec![tx], 42).unwrap();
    assert_eq!(first.get_hash(), second.get_hash());
    assert_eq!(first.get_nonce(), second.get_nonce());
    assert_eq!(first.get_timestamp(), 42);
}

#[test]
fn stored_blocks_that_form_no_ledger_are_refused() {
    let cb = Transaction::new_coinbase(ADDRESS.to_string(), "hello".to_string()).unwrap();
    let genesis = Block::mine(vec![cb.clone()], String::new(), 0, 1700000000025).unwrap();
    assert!(Blockchain::new(vec![genesis.clone()]).is_ok());

    let not_mined = Block::from_parts(0, vec![cb.clone()], String::new(), "0000".to_string(), 0, 0);
    assert_eq!(Blockchain::new(vec![not_mined]).err(), Some(ChainError::CorruptStore));

    let with_parent = Block::mine(vec![cb.clone()], "00ab".to_string(), 0, 1700000000025).unwrap();
    assert_eq!(Blockchain::new(vec![with_parent]).err(), Some(ChainError::CorruptStore));

    let too_high = Block::mine(vec![cb.clone()], String::new(), 1, 1700000000025).unwrap();
    assert_eq!(Blockchain::new(vec![too_high]).err(), Some(ChainError::CorruptStore));

    let unlinked = Block::mine(vec![cb.clone()], "00ab".to_string(), 1, 1700000000025).unwrap();
    assert_eq!(
        Blockchain::new(vec![genesis.clone(), unlinked]).err(),
        Some(ChainError::CorruptStore)
    );

    let linked = Block::new_block(vec![cb.clone()], genesis.get_hash(), 1).unwrap();
    assert!(Blockchain::new(vec![genesis.clone(), linked.clone()]).is_ok());
    assert_eq!(Blockchain::new(vec![linked, genesis]).err(), Some(ChainError::CorruptStore));
}

#[test]
fn unspent_outputs_of_a_walk() {
    let a = Transaction { id: "a".to_string(), vin: vec![input("", -1)], vout: vec![output(100, 1)] };
    let b = Transaction {
        id: "b".to_string(),
        vin: vec![input("a", 0)],
        vout: vec![output(40, 2), output(60, 1)],
    };
    let c = Transaction {
        id: "c".to_string(),
        vin: vec![input("b", 1), input("zz", 3)],
        vout: vec![output(60, 3)],
    };
    assert_eq!(refs(&find_unspent(&Vec::new())), vec![]);
    assert_eq!(refs(&find_unspent(&vec![a.clone()])), vec![("a".to_string(), 0, 100)]);
    assert_eq!(
        refs(&find_unspent(&vec![b.clone(), a.clone()])),
        vec![("b".to_string(), 0, 40), ("b".to_string(), 1, 60)]
    );
    assert_eq!(
        refs(&find_unspent(&vec![c.clone(), b.clone(), a.clone()])),
        vec![("c".to_string(), 0, 60), ("b".to_string(), 0, 40)]
    );
    // An input spends only what the walk meets after it.
    assert_eq!(
        refs(&find_unspent(&vec![a.clone(), b.clone()])),
        vec![("a".to_string(), 0, 100), ("b".to_string(), 0, 40), ("b".to_string(), 1, 60)]
    );
    // Under an id the walk lists the outputs of the transaction it meets
    // first; a later one with the same id gives none.
    let twin = Transaction { id: "a".to_string(), vin: vec![], vout: vec![output(7, 3), output(8, 3)] };
    assert_eq!(
        refs(&find_unspent(&vec![a.clone(), twin.clone()])),
        vec![("a".to_string(), 0, 100)]
    );
    assert_eq!(
        refs(&find_unspent(&vec![twin.clone(), b.clone(), a.clone()])),
        vec![
            ("a".to_string(), 0, 7),
            ("a".to_string(), 1, 8),
            ("b".to_string(), 0, 40),
            ("b".to_string(), 1, 60)
        ]
    );
    assert_eq!(
        refs(&find_unspent(&vec![b.clone(), twin.clone(), a.clone()])),
        vec![("b".to_string(), 0, 40), ("b".to_string(), 1, 60), ("a".to_string(), 1, 8)]
    );
    // The inputs of a coinbase transaction spend nothing.
    let minted = Transaction { id: "m".to_string(), vin: vec![input("", -1)], vout: vec![] };
    let odd = Transaction { id: "".to_string(), vin: vec![], vout: vec![output(1, 1)] };
    assert_eq!(refs(&find_unspent(&vec![minted, odd])), vec![("".to_string(), 0, 1)]);
}

#[test]
fn spendable_outputs_stop_once_the_amount_is_reached() {
    let entries = find_unspent(&vec![
        Transaction {
            id: "x".to_string(),
            vin: vec![],
            vout: vec![output(30, 1), output(5, 2), output(30, 1)],
        },
        Transaction { id: "y".to_string(), vin: vec![], vout: vec![output(30, 1), output(30, 1)] },
    ]);
    let set = Entries(entries);
    let owner = [1u8; 20];
    assert_eq!(set.balance(&owner), 120);
    assert_eq!(set.balance(&[2u8; 20]), 5);
    assert_eq!(set.balance(&[9u8; 20]), 0);
    assert_eq!(set.find_utxo(&owner).len(), 4);
    assert_eq!(set.find_utxo(&[2u8; 20])[0].value, 5);

    let (total, taken) = set.find_spendable_outputs(&owner, 50);
    assert_eq!(total, 60);
    assert_eq!(taken, vec![("x".to_string(), 0), ("x".to_string(), 2)]);

    let (total, taken) = set.find_spendable_outputs(&owner, 60);
    assert_eq!(total, 60);
    assert_eq!(taken.len(), 2);

    let (total, taken) = set.find_spendable_outputs(&owner, 61);
    assert_eq!(total, 90);
    assert_eq!(taken.len(), 3);

    let (total, taken) = set.find_spendable_outputs(&owner, 0);
    assert_eq!(total, 0);
    assert!(taken.is_empty());

    // A total below the amount means every matching output was taken.
    let (total, taken) = set.find_spendable_outputs(&owner, 1000);
    assert_eq!(total, 120);
    assert_eq!(total, set.balance(&owner));
    assert_eq!(
        taken,
        vec![
            ("x".to_string(), 0),
            ("x".to_string(), 2),
            ("y".to_string(), 0),
            ("y".to_string(), 1)
        ]
    );
    let (total, taken) = set.find_spendable_outputs(&[9u8; 20], 1);
    assert_eq!(total, 0);
    assert!(taken.is_empty());
}

#[test]
fn ledger_scenario_of_three_transfers() {
    let a = wallet(1);
    let b = wallet(2);
    let c = wallet(3);
    let bc = Blockchain::create_blockchain(&Vec::new(), a.get_address()).unwrap();
    let mut set = UTXOSet::new(bc);
    assert_eq!(set.balance(&key_hash(&a)), 100);
    assert_eq!(set.balance(&key_hash(&b)), 0);

    // A sends 40 to B.
    let tx = Transaction::new_UTXO(&a, &b.get_address(), 40, &set).unwrap();
    assert_eq!(tx.vin.len(), 1);
    assert_eq!(tx.vout.len(), 2);
    assert_eq!(tx.vout[0].value, 40);
    assert_eq!(tx.vout[1].value, 60);
    assert_eq!(tx.id.len(), 64);
    assert_eq!(tx.vin[0].signature.len(), 64);
    assert_eq!(tx.vin[0].pub_key, a.public_key);
    assert!(!tx.is_coinbase());
    assert_eq!(set.blockchain().verify_transaction(&tx), Ok(true));
    let block = set.add_block_at(vec![tx], 1).unwrap();
    assert_eq!(block.get_height(), 1);
    set.reindex();
    assert_eq!(set.balance(&key_hash(&a)), 60);
    assert_eq!(set.balance(&key_hash(&b)), 40);

    // B cannot send 1000.
    let height = set.blockchain().get_best_height();
    let r = Transaction::new_UTXO(&b, &c.get_address(), 1000, &set);
    assert_eq!(r.err(), Some(ChainError::InsufficientFunds));
    assert_eq!(set.blockchain().get_best_height(), height);
    assert_eq!(set.blockchain().get_best_height(), 1);

    // A sends its whole balance to C: no change output.
    let tx = Transaction::new_UTXO(&a, &c.get_address(), 60, &set).unwrap();
    assert_eq!(tx.vout.len(), 1);
    assert_eq!(tx.vout[0].value, 60);
    assert_eq!(tx.vout[0].pub_key_hash, key_hash(&c));
    assert_eq!(set.blockchain().verify_transaction(&tx), Ok(true));
    set.add_block_at(vec![tx], 2).unwrap();
    assert_eq!(set.balance(&key_hash(&a)), 0);
    assert_eq!(set.balance(&key_hash(&b)), 40);
    assert_eq!(set.balance(&key_hash(&c)), 60);
    assert_eq!(set.blockchain().get_best_height(), 2);

    let rebuilt = UTXOSet::new(set.blockchain().clone());
    assert_eq!(refs(rebuilt.get_utxos()), refs(set.get_utxos()));
}

#[test]
fn spend_with_a_short_secret_key_is_refused_where_it_would_sign() {
    let a = wallet(1);
    let b = wallet(2);
    let bc = Blockchain::create_blockchain_at(&Vec::new(), a.get_address(), 5).unwrap();
    let set = UTXOSet::new(bc);
    let broken = Wallet { secret_key: vec![1, 2, 3], public_key: a.public_key.clone() };
    let r = Transaction::new_UTXO(&broken, &b.get_address(), 40, &set);
    assert_eq!(r.err(), Some(ChainError::InvalidKey));
    // Where no signature is due the key is not read.
    let r = Transaction::new_UTXO(&broken, &b.get_address(), 1000, &set);
    assert_eq!(r.err(), Some(ChainError::InsufficientFunds));
    let r = Transaction::new_UTXO(&broken, "nonsense", 40, &set);
    assert_eq!(r.err(), Some(ChainError::CorruptAddress));
    let nothing = Transaction::new_UTXO(&broken, &b.get_address(), 0, &set).unwrap();
    assert!(nothing.vin.is_empty());
    assert_eq!(nothing.vout.len(), 1);
    assert_eq!(nothing.vout[0].value, 0);
}

#[test]
fn spend_to_a_corrupt_address_is_refused() {
    let a = wallet(1);
    let bc = Blockchain::create_blockchain(&Vec::new(), a.get_address()).unwrap();
    let set = UTXOSet::new(bc);
    let r = Transaction::new_UTXO(&a, "nonsense", 10, &set);
    assert_eq!(r.err(), Some(ChainError::CorruptAddress));
    let r = Transaction::new_UTXO(&a, "nonsense", 1000, &set);
    assert_eq!(r.err(), Some(ChainError::InsufficientFunds));
}

#[test]
fn updating_the_index_agrees_with_rebuilding_it() {
    let a = wallet(1);
    let b = wallet(2);
    let bc = Blockchain::create_blockchain_at(&Vec::new(), a.get_address(), 5).unwrap();
    let mut set = UTXOSet::new(bc);

    let tx = Transaction::new_UTXO(&a, &b.get_address(), 30, &set).unwrap();
    let reward = Transaction::new_coinbase(b.get_address(), "reward".to_string()).unwrap();
    let block = set.add_block_at(vec![reward, tx], 6).unwrap();
    assert_eq!(block.get_height(), 1);
    assert_eq!(set.blockchain().get_best_height(), 1);
    assert_eq!(set.balance(&key_hash(&a)), 70);
    assert_eq!(set.balance(&key_hash(&b)), 130);
    let rebuilt = UTXOSet::new(set.blockchain().clone());
    assert_eq!(refs(rebuilt.get_utxos()), refs(set.get_utxos()));

    let tx = Transaction::new_UTXO(&b, &a.get_address(), 120, &set).unwrap();
    assert_eq!(tx.vin.len(), 2);
    assert_eq!(tx.vout.len(), 2);
    assert_eq!(tx.vout[1].value, 10);
    set.add_block(vec![tx]).unwrap();
    assert_eq!(set.balance(&key_hash(&a)), 190);
    assert_eq!(set.balance(&key_hash(&b)), 10);
    let rebuilt = UTXOSet::new(set.blockchain().clone());
    assert_eq!(refs(rebuilt.get_utxos()), refs(set.get_utxos()));

    // Applying the head to the index of the ledger below it does the same.
    let below = UTXOSet::new(Blockchain::new(set.blockchain().get_blocks()[..2].to_vec()).unwrap());
    let by_hand = apply_block(below.get_utxos(), &set.blockchain().get_blocks()[2]);
    assert_eq!(refs(&by_hand), refs(set.get_utxos()));

    // No reference occurs twice in the index.
    let listed = refs(set.get_utxos());
    for (i, x) in listed.iter().enumerate() {
        for y in &listed[i + 1..] {
            assert!(!(x.0 == y.0 && x.1 == y.1));
        }
    }
}

#[test]
fn repeated_coinbase_is_listed_once() {
    let a = wallet(1);
    let bc = Blockchain::create_blockchain_at(&Vec::new(), a.get_address(), 5).unwrap();
    let genesis_coinbase = bc.tip().get_transaction()[0].clone();
    let mut set = UTXOSet::new(bc);
    assert_eq!(set.balance(&key_hash(&a)), 100);
    // A block that repeats the genesis coinbase adds no second output under
    // the same reference.
    set.add_block_at(vec![genesis_coinbase], 6).unwrap();
    assert_eq!(set.get_utxos().len(), 1);
    assert_eq!(set.balance(&key_hash(&a)), 100);
    let rebuilt = UTXOSet::new(set.blockchain().clone());
    assert_eq!(refs(rebuilt.get_utxos()), refs(set.get_utxos()));
    let copy = set.clone();
    assert_eq!(refs(copy.get_utxos()), refs(set.get_utxos()));
}
