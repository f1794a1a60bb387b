use vstd::prelude::*;

use crate::address::decode;
use crate::address::decode_spec;
use crate::errors::ChainError;
use crate::wallet::hash_pub_key;
use crate::wallet::pub_key_hash_spec;

verus! {

/// A reference to an output of an earlier transaction, with the proof of the
/// right to spend it.
#[derive(Debug)]
pub struct TXInput {
    pub txid: String,
    pub vout: i32,
    pub signature: Vec<u8>,
    pub pub_key: Vec<u8>,
}

/// What a `TXInput` holds, as mathematical values.
pub struct TXInputView {
    pub txid: Seq<char>,
    pub vout: i32,
    pub signature: Seq<u8>,
    pub pub_key: Seq<u8>,
}

impl View for TXInput {
    type V = TXInputView;

    open spec fn view(&self) -> TXInputView {
        TXInputView {
            txid: self.txid@,
            vout: self.vout,
            signature: self.signature@,
            pub_key: self.pub_key@,
        }
    }
}

impl Clone for TXInput {
    fn clone(&self) -> (r: Self)
        ensures
            r@ == self@,
    {
        TXInput {
            txid: self.txid.clone(),
            vout: self.vout,
            signature: self.signature.clone(),
            pub_key: self.pub_key.clone(),
        }
    }
}

/// An amount of value, which is never negative, locked to the hash of a
/// public key.
#[derive(Debug)]
pub struct TXOutput {
    pub value: u32,
    pub pub_key_hash: Vec<u8>,
}

/// What a `TXOutput` holds, as mathematical values.
pub struct TXOutputView {
    pub value: u32,
    pub pub_key_hash: Seq<u8>,
}

impl View for TXOutput {
    type V = TXOutputView;

    open spec fn view(&self) -> TXOutputView {
        TXOutputView { value: self.value, pub_key_hash: self.pub_key_hash@ }
    }
}

impl Clone for TXOutput {
    fn clone(&self) -> (r: Self)
        ensures
            r@ == self@,
    {
        TXOutput { value: self.value, pub_key_hash: self.pub_key_hash.clone() }
    }
}

/// Whether two byte strings are the same.
pub fn bytes_equal(a: &[u8], b: &[u8]) -> (r: bool)
    ensures
        r == (a@ == b@),
{
    if a.len() != b.len() {
        return false;
    }
    let mut i: usize = 0;
    while i < a.len()
        invariant
            a@.len() == b@.len(),
            i <= a@.len(),
            forall|k: int| 0 <= k < i ==> a@[k] == b@[k],
        decreases a@.len() - i,
    {
        if a[i] != b[i] {
            return false;
        }
        i += 1;
    }
    assert(a@ =~= b@);
    true
}

impl TXInput {
    /// Whether the input was made with the key that `unlocking_data` is the
    /// hash of.
    pub fn can_unlock_output_with(&self, unlocking_data: &[u8]) -> (r: bool)
        ensures
            r == (pub_key_hash_spec(self@.pub_key) == unlocking_data@),
    {
        let mut key_hash = self.pub_key.clone();
        hash_pub_key(&mut key_hash);
        bytes_equal(key_hash.as_slice(), unlocking_data)
    }
}

impl TXOutput {
    /// Whether the output is locked to the given key hash.
    pub fn is_locked_with_key(&self, pub_key_hash: &[u8]) -> (r: bool)
        ensures
            r == (self@.pub_key_hash == pub_key_hash@),
    {
        bytes_equal(self.pub_key_hash.as_slice(), pub_key_hash)
    }

    /// Locks the output to the key hash that `address` stands for. A corrupt
    /// address leaves the output as it was.
    pub fn lock(&mut self, address: &str) -> (r: Result<(), ChainError>)
        ensures
            final(self).value == old(self).value,
            match decode_spec(address@) {
                Some(body) => r is Ok && final(self)@.pub_key_hash == body,
                None => r matches Err(e) && e == ChainError::CorruptAddress && final(self)@ == old(
                    self,
                )@,
            },
    {
        match decode(address) {
            Ok(body) => {
                self.pub_key_hash = body;
                Ok(())
            },
            Err(e) => Err(e),
        }
    }

    /// An output of `value` locked to the key hash that `address` stands for.
    pub fn new(value: u32, address: String) -> (r: Result<TXOutput, ChainError>)
        ensures
            match decode_spec(address@) {
                Some(body) => r matches Ok(out) && out@ == (TXOutputView {
                    value,
                    pub_key_hash: body,
                }),
                None => r matches Err(e) && e == ChainError::CorruptAddress,
            },
    {
        let mut txo = TXOutput { value, pub_key_hash: Vec::new() };
        match txo.lock(address.as_str()) {
            Ok(()) => Ok(txo),
            Err(e) => Err(e),
        }
    }
}

/// The views of a sequence of inputs, in order.
pub open spec fn input_views(inputs: Seq<TXInput>) -> Seq<TXInputView> {
    inputs.map_values(|i: TXInput| i@)
}

/// The views of a sequence of outputs, in order.
pub open spec fn output_views(outputs: Seq<TXOutput>) -> Seq<TXOutputView> {
    outputs.map_values(|o: TXOutput| o@)
}

} // verus!
