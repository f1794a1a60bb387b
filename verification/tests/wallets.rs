use blockchain_rust_demo::address::decode;
use blockchain_rust_demo::wallet::hash_pub_key;
use blockchain_rust_demo::wallet::Wallet;
use blockchain_rust_demo::wallet::Wallets;

fn hex(bytes: &[u8]) -> String {
    let mut out = String::new();
    for b in bytes {
        out.push_str(&format!("{:02x}", b));
    }
    out
}

#[test]
fn key_pair_of_a_known_seed() {
    let seed: [u8; 32] = [
        0x26, 0x27, 0xf6, 0x85, 0x97, 0x15, 0xad, 0x1d, 0xd2, 0x94, 0xdd, 0xc4, 0x76, 0x19, 0x39,
        0x31, 0xf1, 0xad, 0xb5, 0x58, 0xf0, 0x93, 0x97, 0x32, 0x19, 0x2b, 0xd1, 0xc0, 0xfd, 0x16,
        0x8e, 0x4e,
    ];
    let w = Wallet::from_seed(&seed);
    assert_eq!(
        hex(&w.public_key),
        "5d6d236b52d18e3ab6d6072fb6e4c7d46bd59ad9cc1947265f00b720fa2c8f66"
    );
    assert_eq!(w.secret_key.len(), 64);
    assert_eq!(&w.secret_key[..32], &seed[..]);
    assert_eq!(&w.secret_key[32..], &w.public_key[..]);
}

#[test]
fn fresh_wallets_differ() {
    let a = Wallet::new().unwrap();
    let b = Wallet::new().unwrap();
    assert_eq!(a.secret_key.len(), 64);
    assert_eq!(a.public_key.len(), 32);
    assert_ne!(a.secret_key, b.secret_key);
    assert_ne!(a.get_address(), b.get_address());
}

#[test]
fn wallet_address_decodes_to_the_key_hash() {
    let w = Wallet::from_seed(&[3u8; 32]);
    let address = w.get_address();
    assert!(address.starts_with('3'));
    let mut hash = w.public_key.clone();
    hash_pub_key(&mut hash);
    assert_eq!(decode(&address), Ok(hash));
    assert_eq!(w.get_address(), address);
}

#[test]
fn created_wallet_is_filed_under_its_address() {
    let mut ws = Wallets::new();
    assert!(ws.get_all_address().is_empty());
    let address = ws.create_wallet().unwrap();
    assert_eq!(ws.get_all_address(), vec![address.clone()]);
    let w = ws.get_wallet(&address).unwrap();
    assert_eq!(w.get_address(), address);
    assert!(ws.get_wallet("nobody").is_none());
}

#[test]
fn addresses_come_in_filing_order_without_repeats() {
    let mut ws = Wallets::new();
    let a = ws.add_wallet(Wallet::from_seed(&[1u8; 32]));
    let b = ws.add_wallet(Wallet::from_seed(&[2u8; 32]));
    let c = ws.add_wallet(Wallet::from_seed(&[3u8; 32]));
    let again = ws.add_wallet(Wallet::from_seed(&[2u8; 32]));
    assert_eq!(again, b);
    assert_eq!(ws.get_all_address(), vec![a.clone(), b.clone(), c.clone()]);
    assert_eq!(ws.get_wallet(&a).unwrap().public_key, Wallet::from_seed(&[1u8; 32]).public_key);
    assert_eq!(ws.get_wallet(&c).unwrap().public_key, Wallet::from_seed(&[3u8; 32]).public_key);
}

#[test]
fn insert_replaces_the_wallet_filed_under_an_address() {
    let mut ws = Wallets::new();
    ws.insert("first".to_string(), Wallet::from_seed(&[1u8; 32]));
    ws.insert("second".to_string(), Wallet::from_seed(&[2u8; 32]));
    ws.insert("first".to_string(), Wallet::from_seed(&[3u8; 32]));
    assert_eq!(ws.get_all_address(), vec!["first".to_string(), "second".to_string()]);
    assert_eq!(
        ws.get_wallet("first").unwrap().public_key,
        Wallet::from_seed(&[3u8; 32]).public_key
    );
    assert_eq!(
        ws.get_wallet("second").unwrap().public_key,
        Wallet::from_seed(&[2u8; 32]).public_key
    );
}

#[test]
fn collection_from_entries_files_them_in_order() {
    let entries = vec![
        ("first".to_string(), Wallet::from_seed(&[1u8; 32])),
        ("second".to_string(), Wallet::from_seed(&[2u8; 32])),
        ("first".to_string(), Wallet::from_seed(&[3u8; 32])),
    ];
    let ws = Wallets::from_entries(entries);
    assert_eq!(ws.get_all_address(), vec!["first".to_string(), "second".to_string()]);
    let back = ws.entries();
    assert_eq!(back.len(), 2);
    assert_eq!(back[0].0, "first");
    assert_eq!(back[0].1.public_key, Wallet::from_seed(&[3u8; 32]).public_key);
    assert_eq!(back[1].0, "second");
    assert_eq!(back[1].1.secret_key, Wallet::from_seed(&[2u8; 32]).secret_key);
    assert!(Wallets::from_entries(Vec::new()).entries().is_empty());
}
