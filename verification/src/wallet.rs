use vstd::prelude::*;
use vstd::string::StringExecFns;

use crate::address::BODY_LEN;
use crate::address::decode_spec;
use crate::address::encode;
use crate::address::encode_spec;
use crate::errors::ChainError;
use crate::hashing::ripemd160;
use crate::hashing::sha256;
use crate::hashing::spec_ripemd160;
use crate::hashing::spec_sha256;
use crate::keys::PUBLIC_KEY_LEN;
use crate::keys::SECRET_KEY_LEN;
use crate::keys::SEED_LEN;
use crate::keys::ed25519_keypair;
use crate::keys::is_keypair;
use crate::keys::os_random_seed;
use crate::keys::spec_ed25519_keypair;

verus! {

/// The hash that stands for a public key in outputs and addresses: the
/// RIPEMD-160 digest of the key's SHA-256 digest.
pub open spec fn pub_key_hash_spec(pub_key: Seq<u8>) -> Seq<u8> {
    spec_ripemd160(spec_sha256(pub_key))
}

/// Replaces a public key by its hash.
pub fn hash_pub_key(pub_key: &mut Vec<u8>)
    ensures
        final(pub_key)@ == pub_key_hash_spec(old(pub_key)@),
        final(pub_key)@.len() == BODY_LEN,
{
    let first = sha256(pub_key.as_slice());
    let second = ripemd160(first.as_slice());
    *pub_key = second;
}

/// A key pair.
#[derive(Debug)]
pub struct Wallet {
    pub secret_key: Vec<u8>,
    pub public_key: Vec<u8>,
}

/// What a `Wallet` holds, as mathematical values.
pub struct WalletView {
    pub secret_key: Seq<u8>,
    pub public_key: Seq<u8>,
}

impl View for Wallet {
    type V = WalletView;

    open spec fn view(&self) -> WalletView {
        WalletView { secret_key: self.secret_key@, public_key: self.public_key@ }
    }
}

impl Clone for Wallet {
    fn clone(&self) -> (r: Self)
        ensures
            r@ == self@,
    {
        Wallet { secret_key: self.secret_key.clone(), public_key: self.public_key.clone() }
    }
}

impl Wallet {
    /// The two keys belong together: they are the key pair of one seed, of 64
    /// and 32 bytes.
    pub open spec fn wf(&self) -> bool {
        &&& self.secret_key@.len() == SECRET_KEY_LEN
        &&& self.public_key@.len() == PUBLIC_KEY_LEN
        &&& is_keypair(self.secret_key@, self.public_key@)
    }

    /// The address of the wallet, as mathematical text.
    pub open spec fn address_spec(&self) -> Seq<char> {
        encode_spec(pub_key_hash_spec(self.public_key@))
    }

    /// The wallet whose key pair is derived from `seed`.
    pub fn from_seed(seed: &[u8]) -> (r: Wallet)
        ensures
            (r.secret_key@, r.public_key@) == spec_ed25519_keypair(seed@),
            r.secret_key@.len() == SECRET_KEY_LEN,
            r.public_key@.len() == PUBLIC_KEY_LEN,
            seed@.len() == SEED_LEN ==> r.wf(),
    {
        let (secret_key, public_key) = ed25519_keypair(seed);
        Wallet { secret_key, public_key }
    }

    /// A wallet with a fresh key pair, derived from 32 bytes of the operating
    /// system's randomness; `NoEntropy` when the system supplies none.
    pub fn new() -> (r: Result<Wallet, ChainError>)
        ensures
            r matches Ok(w) ==> w.wf(),
            r matches Err(e) ==> e == ChainError::NoEntropy,
    {
        match os_random_seed() {
            Ok(seed) => Ok(Wallet::from_seed(seed.as_slice())),
            Err(_) => Err(ChainError::NoEntropy),
        }
    }

    /// The wallet's address: the encoded hash of its public key. It decodes to
    /// that hash again.
    pub fn get_address(&self) -> (r: String)
        ensures
            r@ == self.address_spec(),
            decode_spec(r@) == Some(pub_key_hash_spec(self.public_key@)),
    {
        let mut pub_hash = self.public_key.clone();
        hash_pub_key(&mut pub_hash);
        encode(&pub_hash)
    }
}

/// An address with the wallet filed under it.
pub type WalletEntry = (String, Wallet);

/// The entries held by a vector, as mathematical values.
pub open spec fn entry_views(entries: Seq<WalletEntry>) -> Seq<(Seq<char>, WalletView)> {
    entries.map_values(|e: WalletEntry| (e.0@, e.1@))
}

/// Some entry is filed under `address`.
pub open spec fn has_address(entries: Seq<(Seq<char>, WalletView)>, address: Seq<char>) -> bool {
    exists|i: int| 0 <= i < entries.len() && (#[trigger] entries[i]).0 == address
}

/// No two entries are filed under the same address.
pub open spec fn distinct_addresses(entries: Seq<(Seq<char>, WalletView)>) -> bool {
    forall|i: int, j: int|
        0 <= i < entries.len() && 0 <= j < entries.len() && i != j ==> (#[trigger] entries[i]).0
            != (#[trigger] entries[j]).0
}

/// The place of the entry filed under `address`.
pub open spec fn place_of(entries: Seq<(Seq<char>, WalletView)>, address: Seq<char>) -> int {
    choose|i: int| 0 <= i < entries.len() && (#[trigger] entries[i]).0 == address
}

/// The entries after filing `wallet` under `address`: the wallet takes the
/// place of the one filed there before, or goes to the end.
pub open spec fn filed(
    entries: Seq<(Seq<char>, WalletView)>,
    address: Seq<char>,
    wallet: WalletView,
) -> Seq<(Seq<char>, WalletView)> {
    if has_address(entries, address) {
        entries.update(place_of(entries, address), (address, wallet))
    } else {
        entries.push((address, wallet))
    }
}

/// The entries after filing the first `n` of `entries`, one after the other,
/// starting from nothing.
pub open spec fn filed_upto(entries: Seq<(Seq<char>, WalletView)>, n: int) -> Seq<
    (Seq<char>, WalletView),
>
    decreases n,
{
    if n <= 0 {
        Seq::empty()
    } else {
        filed(filed_upto(entries, n - 1), entries[n - 1].0, entries[n - 1].1)
    }
}

/// The addresses of the entries, in order.
pub open spec fn addresses_of(entries: Seq<(Seq<char>, WalletView)>) -> Seq<Seq<char>> {
    entries.map_values(|e: (Seq<char>, WalletView)| e.0)
}

/// The texts held by a vector of strings.
pub open spec fn text_views(texts: Seq<String>) -> Seq<Seq<char>> {
    texts.map_values(|t: String| t@)
}

/// A collection of wallets, each filed under an address; no address occurs
/// twice.
#[derive(Debug)]
pub struct Wallets {
    wallets: Vec<WalletEntry>,
}

impl View for Wallets {
    type V = Seq<(Seq<char>, WalletView)>;

    closed spec fn view(&self) -> Seq<(Seq<char>, WalletView)> {
        entry_views(self.wallets@)
    }
}

impl Wallets {
    #[verifier::type_invariant]
    spec fn inv(self) -> bool {
        distinct_addresses(entry_views(self.wallets@))
    }

    /// An empty collection.
    pub fn new() -> (r: Wallets)
        ensures
            r@.len() == 0,
    {
        Wallets { wallets: Vec::new() }
    }

    /// The place of the entry filed under `address`, if there is one.
    fn find(&self, address: &str) -> (r: Option<usize>)
        ensures
            distinct_addresses(self@),
            match r {
                Some(i) => i < self@.len() && self@[i as int].0 == address@ && has_address(
                    self@,
                    address@,
                ) && i == place_of(self@, address@),
                None => !has_address(self@, address@),
            },
    {
        proof {
            use_type_invariant(self);
        }
        let ghost entries = self@;
        let key = String::from_str(address);
        let mut i: usize = 0;
        while i < self.wallets.len()
            invariant
                i <= self.wallets@.len(),
                key@ == address@,
                entries == entry_views(self.wallets@),
                distinct_addresses(entries),
                forall|k: int| 0 <= k < i ==> (#[trigger] entries[k]).0 != address@,
            decreases self.wallets@.len() - i,
        {
            if self.wallets[i].0 == key {
                return Some(i);
            }
            i += 1;
        }
        None
    }

    /// Files `wallet` under `address`, in the place of the wallet filed
    /// there before if there is one, else at the end.
    pub fn insert(&mut self, address: String, wallet: Wallet)
        ensures
            final(self)@ == filed(old(self)@, address@, wallet@),
            distinct_addresses(final(self)@),
    {
        let found = self.find(address.as_str());
        let ghost before = self@;
        let ghost target = filed(before, address@, wallet@);
        let mut entries: Vec<WalletEntry> = Vec::new();
        let mut i: usize = 0;
        while i < self.wallets.len()
            invariant
                i <= self.wallets@.len(),
                before == entry_views(self.wallets@),
                entries@.len() == i,
                distinct_addresses(before),
                found matches Some(at) ==> at < before.len() && has_address(before, address@)
                    && at == place_of(before, address@),
                found is None ==> !has_address(before, address@),
                forall|k: int|
                    0 <= k < i ==> ((#[trigger] entries@[k]).0@, entries@[k].1@) == (if found
                        == Some(k as usize) {
                        (address@, wallet@)
                    } else {
                        before[k]
                    }),
            decreases self.wallets@.len() - i,
        {
            let replace = match found {
                Some(at) => at == i,
                None => false,
            };
            if replace {
                entries.push((address.clone(), wallet.clone()));
            } else {
                entries.push((self.wallets[i].0.clone(), self.wallets[i].1.clone()));
            }
            i += 1;
        }
        if found.is_none() {
            entries.push((address, wallet));
        }
        proof {
            let after = entry_views(entries@);
            assert forall|k: int| 0 <= k < after.len() implies after[k] == target[k] by {}
            assert forall|a: int, b: int|
                0 <= a < after.len() && 0 <= b < after.len() && a != b implies (
            #[trigger] after[a]).0 != (#[trigger] after[b]).0 by {}
        }
        self.wallets = entries;
    }

    /// The collection that filing the given entries, one after the other,
    /// leads to.
    pub fn from_entries(entries: Vec<WalletEntry>) -> (r: Wallets)
        ensures
            r@ == filed_upto(entry_views(entries@), entries@.len() as int),
    {
        let ghost views = entry_views(entries@);
        let mut wallets = Wallets::new();
        let mut i: usize = 0;
        while i < entries.len()
            invariant
                i <= entries@.len(),
                views == entry_views(entries@),
                wallets@ == filed_upto(views, i as int),
            decreases entries@.len() - i,
        {
            wallets.insert(entries[i].0.clone(), entries[i].1.clone());
            i += 1;
        }
        wallets
    }

    /// The entries of the collection, in filing order.
    pub fn entries(&self) -> (r: Vec<WalletEntry>)
        ensures
            entry_views(r@) == self@,
    {
        let ghost views = self@;
        let mut out: Vec<WalletEntry> = Vec::new();
        let mut i: usize = 0;
        while i < self.wallets.len()
            invariant
                i <= self.wallets@.len(),
                views == entry_views(self.wallets@),
                out@.len() == i,
                forall|k: int|
                    0 <= k < i ==> ((#[trigger] out@[k]).0@, out@[k].1@) == views[k],
            decreases self.wallets@.len() - i,
        {
            out.push((self.wallets[i].0.clone(), self.wallets[i].1.clone()));
            i += 1;
        }
        out
    }

    /// Files `wallet` under its own address, and gives that address.
    pub fn add_wallet(&mut self, wallet: Wallet) -> (r: String)
        ensures
            r@ == wallet.address_spec(),
            final(self)@ == filed(old(self)@, r@, wallet@),
    {
        let address = wallet.get_address();
        self.insert(address.clone(), wallet);
        address
    }

    /// Makes a wallet with a fresh key pair, files it under its address and
    /// gives that address; `NoEntropy`, and no change, when the operating
    /// system supplies no randomness.
    pub fn create_wallet(&mut self) -> (r: Result<String, ChainError>)
        ensures
            match r {
                Ok(address) => exists|wallet: Wallet|
                    wallet.wf() && address@ == wallet.address_spec() && final(self)@ == filed(
                        old(self)@,
                        address@,
                        #[trigger] wallet@,
                    ),
                Err(e) => e == ChainError::NoEntropy && final(self)@ == old(self)@,
            },
    {
        match Wallet::new() {
            Ok(wallet) => {
                let ghost made = wallet;
                let address = self.add_wallet(wallet);
                assert(made.wf() && address@ == made.address_spec() && self@ == filed(
                    old(self)@,
                    address@,
                    made@,
                ));
                Ok(address)
            },
            Err(e) => Err(e),
        }
    }

    /// The addresses that wallets are filed under, in the order in which
    /// they were first filed; none occurs twice.
    pub fn get_all_address(&self) -> (r: Vec<String>)
        ensures
            text_views(r@) == addresses_of(self@),
            text_views(r@).no_duplicates(),
    {
        proof {
            use_type_invariant(self);
        }
        let ghost entries = self@;
        let mut addresses: Vec<String> = Vec::new();
        let mut i: usize = 0;
        while i < self.wallets.len()
            invariant
                i <= self.wallets@.len(),
                entries == entry_views(self.wallets@),
                addresses@.len() == i,
                forall|k: int| 0 <= k < i ==> (#[trigger] addresses@[k])@ == entries[k].0,
            decreases self.wallets@.len() - i,
        {
            addresses.push(self.wallets[i].0.clone());
            i += 1;
        }
        addresses
    }

    /// The wallet filed under `address`, if there is one.
    pub fn get_wallet(&self, address: &str) -> (r: Option<&Wallet>)
        ensures
            match r {
                Some(wallet) => has_address(self@, address@) && wallet@ == self@[place_of(
                    self@,
                    address@,
                )].1,
                None => !has_address(self@, address@),
            },
    {
        match self.find(address) {
            Some(i) => {
                Some(&self.wallets[i].1)
            },
            None => None,
        }
    }
}

} // verus!
