//! SHA-256, Merkle trees and hex text, from the `rs_merkle`, `hex` and `uuid` crates.
//!
//! The functions here call those crates; their contracts are believed, not proved. The
//! results that take more than a few lines to state are left to uninterpreted names.

use vstd::prelude::*;

use rs_merkle::algorithms::Sha256;
use rs_merkle::{Hasher, MerkleProof, MerkleTree};
use uuid::Uuid;

verus! {

/// A Merkle tree of `rs_merkle` over SHA-256 leaf hashes. What it holds is known through
/// `merkle_tree_leaves`.
#[verifier::external_body]
pub struct ShaMerkleTree {
    tree: MerkleTree<Sha256>,
}

/// A Merkle proof of `rs_merkle` for a SHA-256 tree. What it holds is known through
/// `merkle_proof_hashes`.
#[verifier::external_body]
pub struct ShaMerkleProof {
    proof: MerkleProof<Sha256>,
}

/// The character of the hex digit `n` (below 16), in lower case.
pub open spec fn spec_hex_digit(n: nat) -> char {
    if n < 10 {
        ((n + 48) as u32) as char
    } else {
        ((n + 87) as u32) as char
    }
}

/// The lower-case hex text of some bytes: two digits per byte, high nibble first.
pub open spec fn spec_lower_hex(bytes: Seq<u8>) -> Seq<char>
    decreases bytes.len(),
{
    if bytes.len() == 0 {
        Seq::empty()
    } else {
        seq![spec_hex_digit(bytes[0] as nat / 16), spec_hex_digit(bytes[0] as nat % 16)]
            + spec_lower_hex(bytes.drop_first())
    }
}

/// The SHA-256 digest of some bytes.
pub uninterp spec fn spec_sha256(data: Seq<u8>) -> Seq<u8>;

/// The leaves of a Merkle tree, in order.
pub uninterp spec fn merkle_tree_leaves(tree: ShaMerkleTree) -> Seq<Seq<u8>>;

/// The root of the Merkle tree over some leaves, or `None` when the tree has none.
pub uninterp spec fn spec_merkle_root(leaves: Seq<Seq<u8>>) -> Option<Seq<u8>>;

/// The helper hashes that prove the leaves at `indices` of the tree over `leaves`.
pub uninterp spec fn spec_merkle_helper_hashes(leaves: Seq<Seq<u8>>, indices: Seq<usize>) -> Seq<
    Seq<u8>,
>;

/// The hashes that a Merkle proof holds, in order.
pub uninterp spec fn merkle_proof_hashes(proof: ShaMerkleProof) -> Seq<Seq<u8>>;

/// The root that a proof made of `hashes` yields for the leaves `leaf_hashes` at `indices`
/// of a tree of `total` leaves, or `None` when the proof does not fit them.
pub uninterp spec fn spec_merkle_proof_root(
    hashes: Seq<Seq<u8>>,
    indices: Seq<usize>,
    leaf_hashes: Seq<Seq<u8>>,
    total: usize,
) -> Option<Seq<u8>>;

/// The bytes of some 32-byte hashes.
pub open spec fn hash_bytes(hashes: Seq<[u8; 32]>) -> Seq<Seq<u8>> {
    hashes.map_values(|h: [u8; 32]| h@)
}

/// Calls `hex::encode`, which writes two lower-case hex digits per byte.
#[verifier::external_body]
pub fn hex_encode(data: &[u8]) -> (r: String)
    ensures
        r@ == spec_lower_hex(data@),
{
    hex::encode(data)
}

/// Calls `<Sha256 as rs_merkle::Hasher>::hash`, the SHA-256 digest of `data`; the digest is
/// left to the name `spec_sha256`.
#[verifier::external_body]
pub fn sha256(data: &[u8]) -> (r: [u8; 32])
    ensures
        r@ == spec_sha256(data@),
{
    <Sha256 as Hasher>::hash(data)
}

/// Calls `MerkleTree::<Sha256>::from_leaves`: a tree whose leaves are `leaves`, in order.
#[verifier::external_body]
pub fn merkle_from_leaves(leaves: &[[u8; 32]]) -> (r: ShaMerkleTree)
    ensures
        merkle_tree_leaves(r) == hash_bytes(leaves@),
{
    ShaMerkleTree { tree: MerkleTree::<Sha256>::from_leaves(leaves) }
}

/// Calls `MerkleTree::root`: the root of the tree over its leaves, which the name
/// `spec_merkle_root` stands for. The crate's source gives the top node of the tree, which
/// exists exactly when the tree has a leaf.
#[verifier::external_body]
pub fn merkle_root(tree: &ShaMerkleTree) -> (r: Option<[u8; 32]>)
    ensures
        r is Some <==> merkle_tree_leaves(*tree).len() > 0,
        match r {
            Some(h) => spec_merkle_root(merkle_tree_leaves(*tree)) == Some(h@),
            None => spec_merkle_root(merkle_tree_leaves(*tree)) is None,
        },
{
    tree.tree.root()
}

/// Calls `MerkleTree::root_hex`, which the crate's source writes as the root in lower-case
/// hex, two digits per byte, or `None` when there is no root, that is when the tree has no
/// leaf.
#[verifier::external_body]
pub fn merkle_root_hex(tree: &ShaMerkleTree) -> (r: Option<String>)
    ensures
        r is Some <==> merkle_tree_leaves(*tree).len() > 0,
        match r {
            Some(s) => spec_merkle_root(merkle_tree_leaves(*tree)) matches Some(h) && s@
                == spec_lower_hex(h),
            None => spec_merkle_root(merkle_tree_leaves(*tree)) is None,
        },
{
    tree.tree.root_hex()
}

/// The number of binary digits of `x` (0 for 0).
pub open spec fn spec_bit_length(x: nat) -> nat
    decreases x,
{
    if x == 0 {
        0
    } else {
        1 + spec_bit_length(x / 2)
    }
}

/// The depth of a Merkle tree with `leaf_count` leaves: 0 for one leaf or none, otherwise
/// the number of binary digits of `leaf_count - 1`.
pub open spec fn spec_merkle_depth(leaf_count: nat) -> nat {
    if leaf_count <= 1 {
        0
    } else {
        spec_bit_length((leaf_count - 1) as nat)
    }
}

/// Calls `MerkleTree::proof`: the proof for the leaves at `indices`, holding the helper
/// hashes that the name `spec_merkle_helper_hashes` stands for. The crate documents it as
/// the proof of inclusion of those leaves: for one leaf of the tree, the root that the
/// proof yields from that leaf's hash is the tree's root. For one leaf the crate's source
/// takes at most one helper hash from each layer that has two nodes or more (the sibling
/// of the leaf's ancestor there, when it has one), and a tree of two leaves or more has a
/// layer of exactly two nodes, where the sibling is always present.
#[verifier::external_body]
pub fn merkle_proof(tree: &ShaMerkleTree, indices: &[usize]) -> (r: ShaMerkleProof)
    requires
        forall|i: int| 0 <= i < indices@.len() ==> #[trigger] indices@[i] < merkle_tree_leaves(*tree).len(),
    ensures
        merkle_proof_hashes(r) == spec_merkle_helper_hashes(merkle_tree_leaves(*tree), indices@),
        indices@.len() == 1 ==> merkle_proof_hashes(r).len() <= spec_merkle_depth(
            merkle_tree_leaves(*tree).len(),
        ),
        indices@.len() == 1 && merkle_tree_leaves(*tree).len() >= 2 ==> merkle_proof_hashes(
            r,
        ).len() >= 1,
        indices@.len() == 1 ==> spec_merkle_proof_root(
            merkle_proof_hashes(r),
            indices@,
            seq![merkle_tree_leaves(*tree)[indices@[0] as int]],
            merkle_tree_leaves(*tree).len() as usize,
        ) == spec_merkle_root(merkle_tree_leaves(*tree)),
{
    ShaMerkleProof { proof: tree.tree.proof(indices) }
}

/// Calls `MerkleProof::proof_hashes_hex`: each hash of the proof in lower-case hex.
#[verifier::external_body]
pub fn merkle_proof_hashes_hex(proof: &ShaMerkleProof) -> (r: Vec<String>)
    ensures
        r@.map_values(|s: String| s@) == merkle_proof_hashes(*proof).map_values(
            |h: Seq<u8>| spec_lower_hex(h),
        ),
{
    proof.proof.proof_hashes_hex()
}

/// Calls `MerkleProof::verify`, which the crate's source writes as: the root that the proof
/// yields for the given leaves equals `root`.
#[verifier::external_body]
pub fn merkle_verify(
    proof: &ShaMerkleProof,
    root: [u8; 32],
    indices: &[usize],
    leaf_hashes: &[[u8; 32]],
    total: usize,
) -> (r: bool)
    requires
        forall|i: int| 0 <= i < indices@.len() ==> #[trigger] indices@[i] < total,
    ensures
        r == (spec_merkle_proof_root(
            merkle_proof_hashes(*proof),
            indices@,
            hash_bytes(leaf_hashes@),
            total,
        ) == Some(root@)),
{
    proof.proof.verify(root, indices, leaf_hashes, total)
}

/// Whether `c` is one of `0`-`9`, `a`-`f`.
pub open spec fn spec_is_lower_hex_digit(c: char) -> bool {
    ('0' <= c && c <= '9') || ('a' <= c && c <= 'f')
}

/// Whether `i` is a position of a hyphen in the hyphenated form of a UUID.
pub open spec fn spec_uuid_hyphen_at(i: int) -> bool {
    i == 8 || i == 13 || i == 18 || i == 23
}

/// Whether `s` is a version 4 UUID in its hyphenated form: 36 characters, lower-case hex
/// digits in groups of 8, 4, 4, 4 and 12 separated by hyphens, with the version digit `4`
/// first in the third group.
pub open spec fn spec_is_uuid_v4_text(s: Seq<char>) -> bool {
    &&& s.len() == 36
    &&& forall|i: int| 0 <= i < 36 ==> if spec_uuid_hyphen_at(i) {
        s[i] == '-'
    } else {
        spec_is_lower_hex_digit(#[trigger] s[i])
    }
    &&& s[14] == '4'
}

/// Calls `Uuid::new_v4` and writes the result with `to_string`: a fresh random identifier
/// in the hyphenated form. Which identifier comes back is left open.
#[verifier::external_body]
pub fn new_uuid_string() -> (r: String)
    ensures
        spec_is_uuid_v4_text(r@),
{
    Uuid::new_v4().to_string()
}

} // verus!
