use bitcoincash_addr::Address;
use bitcoincash_addr::AddressCodec;
use bitcoincash_addr::Base58Codec;
use bitcoincash_addr::HashType;
use bitcoincash_addr::Scheme;
use bitcoincash_addr::base58::DecodingError;
use bitcoincash_addr::cashaddr::EncodingError;
use vstd::prelude::*;
use vstd::string::StringSliceAdditionalSpecFns;

use crate::errors::ChainError;

verus! {

/// The Base58 decoding error of the crate `bitcoincash_addr`, carried
/// through unread.
#[verifier::external_type_specification]
#[verifier::external_body]
pub struct ExDecodingError(DecodingError);

/// The encoding error of the crate `bitcoincash_addr`, carried through
/// unread.
#[verifier::external_type_specification]
#[verifier::external_body]
pub struct ExEncodingError(EncodingError);

/// Length of the key hash that an address carries.
pub const BODY_LEN: usize = 20;

/// The Base58 text of an address body on the main network, with the script
/// version byte in front and the checksum behind.
pub uninterp spec fn spec_base58_encode(body: Seq<u8>) -> Seq<char>;

/// The body that a Base58 address decodes to; `None` where the text has a
/// character outside the alphabet, does not decode to 25 bytes, carries an
/// unknown version byte or fails its checksum.
pub uninterp spec fn spec_base58_decode(address: Seq<char>) -> Option<Seq<u8>>;

/// Calls `Address::encode` of the crate `bitcoincash_addr` on an address with
/// the Base58 scheme, the script hash type and the default (main) network.
/// Trusted: for that scheme the call succeeds and the text depends on the
/// body alone; the encoder writes at most two one-byte digits for each of the
/// body's bytes and of the five bytes it adds; and the text of a 20-byte body
/// decodes to that body again.
#[verifier::external_body]
pub(crate) fn base58_encode(body: &Vec<u8>) -> (r: Result<String, EncodingError>)
    ensures
        r is Ok,
        r matches Ok(text) ==> text@ == spec_base58_encode(body@),
        r matches Ok(text) ==> vstd::utf8::encode_utf8(text@).len() <= 2 * (body@.len() + 5),
        r matches Ok(text) ==> (body@.len() == BODY_LEN ==> spec_base58_decode(text@) == Some(
            body@,
        )),
{
    let address = Address {
        body: body.clone(),
        scheme: Scheme::Base58,
        hash_type: HashType::Script,
        ..Default::default()
    };
    address.encode()
}

/// Calls `Base58Codec::decode` of the crate `bitcoincash_addr` and takes the
/// body of the address it returns. Trusted: success and the body depend on the
/// text alone, and a decoded body has 20 bytes. The call multiplies the
/// text's length in bytes by 11, which must fit.
#[verifier::external_body]
pub(crate) fn base58_decode(address: &str) -> (r: Result<Vec<u8>, DecodingError>)
    requires
        address.spec_bytes().len() * 11 <= usize::MAX,
    ensures
        r.is_ok() == spec_base58_decode(address@).is_some(),
        r matches Ok(body) ==> spec_base58_decode(address@) == Some(body@) && body@.len()
            == BODY_LEN,
{
    Base58Codec::decode(address).map(|a| a.body)
}

/// The human-readable address of a key hash.
pub open spec fn encode_spec(body: Seq<u8>) -> Seq<char> {
    spec_base58_encode(body)
}

/// The key hash that an address stands for, if the address is sound. A text
/// too long for the decoder's arithmetic is no address.
pub open spec fn decode_spec(address: Seq<char>) -> Option<Seq<u8>> {
    if vstd::utf8::encode_utf8(address).len() * 11 > usize::MAX {
        None
    } else {
        spec_base58_decode(address)
    }
}

/// Encodes a key hash as an address. The address of a 20-byte hash decodes to
/// that hash again.
pub fn encode(body: &Vec<u8>) -> (r: String)
    ensures
        r@ == encode_spec(body@),
        body@.len() == BODY_LEN ==> decode_spec(r@) == Some(body@),
{
    match base58_encode(body) {
        Ok(text) => text,
        Err(_) => {
            proof {
                assert(false);
            }
            String::new()
        },
    }
}

/// Decodes an address to the key hash it stands for, or reports
/// `CorruptAddress`.
pub fn decode(address: &str) -> (r: Result<Vec<u8>, ChainError>)
    ensures
        match decode_spec(address@) {
            Some(body) => r matches Ok(b) && b@ == body && body.len() == BODY_LEN,
            None => r == Err::<Vec<u8>, ChainError>(ChainError::CorruptAddress),
        },
{
    if address.as_bytes().len() > usize::MAX / 11 {
        return Err(ChainError::CorruptAddress);
    }
    match base58_decode(address) {
        Ok(body) => Ok(body),
        Err(_) => Err(ChainError::CorruptAddress),
    }
}

} // verus!
