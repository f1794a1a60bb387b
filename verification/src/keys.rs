use crypto::ed25519;
use rand::RngCore;
use rand::rngs::OsRng;
use vstd::prelude::*;

verus! {

/// The error of the crate `rand`, carried through unread.
#[verifier::external_type_specification]
#[verifier::external_body]
pub struct ExRandError(rand::Error);

/// The key pair that Ed25519 derives from a seed: the 64-byte secret key,
/// then the 32-byte public key.
pub uninterp spec fn spec_ed25519_keypair(seed: Seq<u8>) -> (Seq<u8>, Seq<u8>);

/// The Ed25519 signature of a message under a secret key.
pub uninterp spec fn spec_ed25519_signature(message: Seq<u8>, secret_key: Seq<u8>) -> Seq<u8>;

/// Whether Ed25519 accepts a signature of a message under a public key.
pub uninterp spec fn spec_ed25519_verify(
    message: Seq<u8>,
    public_key: Seq<u8>,
    signature: Seq<u8>,
) -> bool;

/// Length of the seed a key pair is derived from.
pub const SEED_LEN: usize = 32;

/// Length of a secret key.
pub const SECRET_KEY_LEN: usize = 64;

/// Length of a public key.
pub const PUBLIC_KEY_LEN: usize = 32;

/// Length of a signature.
pub const SIGNATURE_LEN: usize = 64;

/// `secret_key` and `public_key` are the two halves of the key pair derived
/// from some 32-byte seed.
pub open spec fn is_keypair(secret_key: Seq<u8>, public_key: Seq<u8>) -> bool {
    exists|seed: Seq<u8>|
        seed.len() == SEED_LEN && #[trigger] spec_ed25519_keypair(seed) == (secret_key, public_key)
}

/// Calls `OsRng::try_fill_bytes` of the crate `rand` on a buffer of 32 bytes.
/// Trusted: on success the buffer handed back has 32 bytes. Nothing is said
/// of their values.
#[verifier::external_body]
pub(crate) fn os_random_seed() -> (r: Result<Vec<u8>, rand::Error>)
    ensures
        r matches Ok(seed) ==> seed@.len() == SEED_LEN,
{
    let mut key = vec![0u8; 32];
    match OsRng.try_fill_bytes(&mut key) {
        Ok(()) => Ok(key),
        Err(e) => Err(e),
    }
}

/// Calls `ed25519::keypair` of the crate `crypto`. Trusted: the two arrays
/// handed back are the key pair of the seed, of 64 and 32 bytes.
#[verifier::external_body]
pub(crate) fn ed25519_keypair(seed: &[u8]) -> (r: (Vec<u8>, Vec<u8>))
    ensures
        (r.0@, r.1@) == spec_ed25519_keypair(seed@),
        r.0@.len() == SECRET_KEY_LEN,
        r.1@.len() == PUBLIC_KEY_LEN,
{
    let (secret_key, public_key) = ed25519::keypair(seed);
    (secret_key.to_vec(), public_key.to_vec())
}

/// Calls `ed25519::signature` of the crate `crypto`, which reads the first
/// 64 bytes of the secret key. Trusted: the array handed back is the 64-byte
/// signature of the message, and where the secret key is the secret half of
/// the key pair of a 32-byte seed, `ed25519::verify` accepts that signature
/// for the same message under the public half.
#[verifier::external_body]
pub(crate) fn ed25519_signature(message: &[u8], secret_key: &[u8]) -> (r: Vec<u8>)
    requires
        secret_key@.len() >= SECRET_KEY_LEN,
    ensures
        r@ == spec_ed25519_signature(message@, secret_key@),
        r@.len() == SIGNATURE_LEN,
        forall|seed: Seq<u8>|
            seed.len() == SEED_LEN && (#[trigger] spec_ed25519_keypair(seed)).0 == secret_key@
                ==> spec_ed25519_verify(message@, spec_ed25519_keypair(seed).1, r@),
{
    ed25519::signature(message, secret_key).to_vec()
}

/// Calls `ed25519::verify` of the crate `crypto`, which reads the first 32
/// bytes of the public key's point and bytes 0 to 63 of the signature.
/// Trusted: the answer depends on the three byte strings alone.
#[verifier::external_body]
pub(crate) fn ed25519_verify(message: &[u8], public_key: &[u8], signature: &[u8]) -> (r: bool)
    requires
        public_key@.len() >= PUBLIC_KEY_LEN,
        signature@.len() >= SIGNATURE_LEN,
    ensures
        r == spec_ed25519_verify(message@, public_key@, signature@),
{
    ed25519::verify(message, public_key, signature)
}

} // verus!
