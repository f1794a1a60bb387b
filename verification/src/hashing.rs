use crypto::digest::Digest;
use crypto::ripemd160::Ripemd160;
use crypto::sha2::Sha256;
use merkle_cbt::merkle_tree::CBMT;
use merkle_cbt::merkle_tree::Merge;
use vstd::prelude::*;

verus! {

/// The SHA-256 digest of a byte string.
pub uninterp spec fn spec_sha256(data: Seq<u8>) -> Seq<u8>;

/// The RIPEMD-160 digest of a byte string.
pub uninterp spec fn spec_ripemd160(data: Seq<u8>) -> Seq<u8>;

/// The lowercase hexadecimal digit for a value below sixteen.
pub open spec fn hex_digit(n: int) -> char {
    seq!['0', '1', '2', '3', '4', '5', '6', '7', '8', '9', 'a', 'b', 'c', 'd', 'e', 'f'][n]
}

/// Lowercase hexadecimal form of a byte string: two digits per byte, high
/// nibble first.
pub open spec fn hex_lower(bytes: Seq<u8>) -> Seq<char> {
    Seq::new(
        2 * bytes.len(),
        |i: int|
            if i % 2 == 0 {
                hex_digit(bytes[i / 2] as int / 16)
            } else {
                hex_digit(bytes[i / 2] as int % 16)
            },
    )
}

/// Number of `'0'` characters a text must start with to count as `n` leading
/// zeros: the first `n` characters exist and are all `'0'`.
pub open spec fn has_leading_zeros(text: Seq<char>, n: int) -> bool {
    text.len() >= n && forall|i: int| 0 <= i < n ==> text[i] == '0'
}

/// Calls `Sha256::new`, `Digest::input` and `Digest::result` of the crate
/// `crypto`. Trusted: the bytes handed back are the 32-byte SHA-256 digest of
/// `data`.
#[verifier::external_body]
pub(crate) fn sha256(data: &[u8]) -> (r: Vec<u8>)
    ensures
        r@ == spec_sha256(data@),
        r@.len() == 32,
{
    let mut hasher = Sha256::new();
    hasher.input(data);
    let mut out = vec![0u8; 32];
    hasher.result(&mut out);
    out
}

/// Calls `Sha256::new`, `Digest::input` and `Digest::result_str` of the crate
/// `crypto`. Trusted: the text handed back is the SHA-256 digest of `data`
/// written as 64 lowercase hexadecimal digits.
#[verifier::external_body]
pub(crate) fn sha256_hex(data: &[u8]) -> (r: String)
    ensures
        r@ == hex_lower(spec_sha256(data@)),
        r@.len() == 64,
{
    let mut hasher = Sha256::new();
    hasher.input(data);
    hasher.result_str()
}

/// Calls `Ripemd160::new`, `Digest::input` and `Digest::result` of the crate
/// `crypto`. Trusted: the bytes handed back are the 20-byte RIPEMD-160 digest
/// of `data`.
#[verifier::external_body]
pub(crate) fn ripemd160(data: &[u8]) -> (r: Vec<u8>)
    ensures
        r@ == spec_ripemd160(data@),
        r@.len() == 20,
{
    let mut hasher = Ripemd160::new();
    hasher.input(data);
    let mut out = vec![0u8; 20];
    hasher.result(&mut out);
    out
}

/// SHA-256 digest of `data`.
pub fn digest(data: &Vec<u8>) -> (r: Vec<u8>)
    ensures
        r@ == spec_sha256(data@),
        r@.len() == 32,
{
    sha256(data.as_slice())
}

/// SHA-256 digest of `data` as lowercase hexadecimal text.
pub fn digest_hex(data: &Vec<u8>) -> (r: String)
    ensures
        r@ == hex_lower(spec_sha256(data@)),
        r@.len() == 64,
{
    sha256_hex(data.as_slice())
}

/// The pairwise combiner of the Merkle tree: the digest of the left node
/// followed by the right node.
pub open spec fn merge_spec(left: Seq<u8>, right: Seq<u8>) -> Seq<u8> {
    spec_sha256(left + right)
}

/// Combines two nodes into their parent node.
pub fn merge(left: &Vec<u8>, right: &Vec<u8>) -> (r: Vec<u8>)
    ensures
        r@ == merge_spec(left@, right@),
        r@.len() == 32,
{
    let mut data: Vec<u8> = left.clone();
    let mut tail: Vec<u8> = right.clone();
    data.append(&mut tail);
    sha256(data.as_slice())
}

/// The combiner handed to the tree builder: it merges two nodes as `merge`
/// does.
pub struct MergeTX {}

impl Merge for MergeTX {
    type Item = Vec<u8>;

    fn merge(left: &Self::Item, right: &Self::Item) -> (r: Self::Item)
        ensures
            r@ == merge_spec(left@, right@),
            r@.len() == 32,
    {
        self::merge(left, right)
    }
}

/// Node `i` of the complete binary tree over `leaves`, laid out as an array
/// of `2n - 1` nodes: the `n` leaves fill the last `n` places in order, and
/// every place before them holds the merge of its two children, which sit at
/// `2i + 1` and `2i + 2`.
pub open spec fn tree_node(leaves: Seq<Seq<u8>>, i: nat) -> Seq<u8>
    decreases 2 * leaves.len() - i,
{
    let n = leaves.len();
    if n == 0 || i >= 2 * n - 1 {
        Seq::empty()
    } else if i + 1 >= n {
        leaves[i + 1 - n]
    } else {
        merge_spec(tree_node(leaves, 2 * i + 1), tree_node(leaves, 2 * i + 2))
    }
}

/// The root of the complete binary tree over `leaves`; the empty byte string
/// when there is no leaf.
pub open spec fn merkle_root_spec(leaves: Seq<Seq<u8>>) -> Seq<u8> {
    tree_node(leaves, 0)
}

/// The byte strings held by a vector of byte vectors.
pub open spec fn byte_views(leaves: Seq<Vec<u8>>) -> Seq<Seq<u8>> {
    leaves.map_values(|l: Vec<u8>| l@)
}

/// Calls `CBMT::build_merkle_tree` of the crate `merkle_cbt` with `MergeTX`
/// as the combiner, then `MerkleTree::root`. Trusted: the tree is the array
/// that `tree_node` describes and the root is its first node, or the default
/// (empty) vector when `leaves` is empty. Over two or more leaves the root is
/// a value that the combiner returned, so it has the combiner's 32 bytes.
#[verifier::external_body]
pub(crate) fn cbmt_root(leaves: &Vec<Vec<u8>>) -> (r: Vec<u8>)
    ensures
        r@ == merkle_root_spec(byte_views(leaves@)),
        leaves@.len() >= 2 ==> r@.len() == 32,
{
    CBMT::<Vec<u8>, MergeTX>::build_merkle_tree(leaves).root()
}

/// Merkle root of an ordered sequence of leaves.
pub fn merkle_root(leaves: &Vec<Vec<u8>>) -> (r: Vec<u8>)
    ensures
        r@ == merkle_root_spec(byte_views(leaves@)),
        leaves@.len() == 0 ==> r@.len() == 0,
        leaves@.len() == 1 ==> r@ == leaves@[0]@,
        leaves@.len() == 2 ==> r@ == merge_spec(leaves@[0]@, leaves@[1]@),
        leaves@.len() >= 2 ==> r@.len() == 32,
{
    proof {
        let l = byte_views(leaves@);
        if l.len() == 2 {
            assert(tree_node(l, 1) == l[0]);
            assert(tree_node(l, 2) == l[1]);
        }
    }
    cbmt_root(leaves)
}

} // verus!
