//! The allowlist service: Ethereum addresses, the Merkle trees built over them, the store
//! that keeps the trees, and the answers to the service's requests.

use vstd::prelude::*;
use vstd::utf8::{encode_utf8, is_ascii_chars, is_ascii_chars_encode_utf8};

use crate::api_error::{AppError, ErrorKind, ErrorView};
use crate::hashing::{
    hash_bytes, hex_encode, merkle_from_leaves, merkle_proof, merkle_proof_hashes_hex, merkle_root,
    merkle_root_hex, merkle_verify, new_uuid_string, sha256, spec_lower_hex, spec_merkle_helper_hashes,
    spec_bit_length, spec_is_uuid_v4_text, spec_merkle_depth, spec_merkle_proof_root, spec_merkle_root,
    spec_sha256,
};
use crate::tree_types::{
    CreateTreeRequest, CreateTreeRequestView, CreatorTreesResponse, HealthResponse, ProofResponse,
    ProofResponseView, StoredTree, StoredTreeView, TreeSummary, TreeSummaryView,
};
use crate::text::{
    ascii_lowercase, concat, is_hex_digit, lemma_trim_len, push_char, spec_ascii_lower,
    spec_is_hex_digit, spec_is_whitespace, spec_trim, spec_trim_end, spec_trim_start, str_eq,
    string_texts, trim,
};

verus! {

/// Whether `t` (already trimmed) has the shape of an address: 42 bytes of UTF-8 (as
/// `str::len` counts them), starting with `0x`.
pub open spec fn spec_address_format_ok(t: Seq<char>) -> bool {
    &&& encode_utf8(t).len() as usize == 42
    &&& t.len() >= 2
    &&& t[0] == '0'
    &&& t[1] == 'x'
}

/// Whether every character of `t` after its first two is a hex digit.
pub open spec fn spec_address_digits_ok(t: Seq<char>) -> bool {
    forall|i: int| 2 <= i < t.len() ==> spec_is_hex_digit(#[trigger] t[i])
}

/// What an address becomes: trimmed, checked, and written as `0x` and lower-case hex
/// digits; or the message that says why it is refused.
pub open spec fn spec_normalize_address(address: Seq<char>) -> Result<Seq<char>, Seq<char>> {
    let t = spec_trim(address);
    if !spec_address_format_ok(t) {
        Err("invalid Ethereum address format: "@ + t)
    } else if !spec_address_digits_ok(t) {
        Err("invalid Ethereum address hex: "@ + t)
    } else {
        Ok(seq!['0', 'x'] + t.skip(2).map_values(|c: char| spec_ascii_lower(c)))
    }
}

/// Trims an Ethereum address, checks that it is `0x` followed by 40 hex digits, and writes
/// the digits in lower case.
pub fn normalize_address(address: &str) -> (r: Result<String, AppError>)
    ensures
        match spec_normalize_address(address@) {
            Ok(a) => (r matches Ok(s) && s@ == a),
            Err(m) => (r matches Err(e) && e@ == (ErrorView { kind: ErrorKind::BadRequest, message: m })),
        },
{
    let trimmed = trim(address);
    let n = trimmed.unicode_len();
    if trimmed.len() != 42 || !(n >= 2 && trimmed.get_char(0) == '0' && trimmed.get_char(1) == 'x') {
        return Err(AppError::bad_request(concat("invalid Ethereum address format: ", trimmed)));
    }
    let mut i: usize = 2;
    while i < n
        invariant
            n == trimmed@.len(),
            2 <= i <= n,
            trimmed@ == spec_trim(address@),
            spec_address_format_ok(trimmed@),
            forall|j: int| 2 <= j < i ==> spec_is_hex_digit(#[trigger] trimmed@[j]),
        decreases n - i,
    {
        if !is_hex_digit(trimmed.get_char(i)) {
            assert(!spec_is_hex_digit(trimmed@[i as int]));
            assert(!spec_address_digits_ok(trimmed@));
            return Err(AppError::bad_request(concat("invalid Ethereum address hex: ", trimmed)));
        }
        i = i + 1;
    }
    let mut r = String::new();
    push_char(&mut r, '0');
    push_char(&mut r, 'x');
    let ghost rest = trimmed@.skip(2);
    let mut i: usize = 2;
    while i < n
        invariant
            n == trimmed@.len(),
            2 <= i <= n,
            rest == trimmed@.skip(2),
            trimmed@ == spec_trim(address@),
            spec_address_format_ok(trimmed@),
            spec_address_digits_ok(trimmed@),
            r@ == seq!['0', 'x'] + rest.take(i - 2).map_values(|c: char| spec_ascii_lower(c)),
        decreases n - i,
    {
        let c = ascii_lowercase(trimmed.get_char(i));
        push_char(&mut r, c);
        i = i + 1;
        assert(rest.take(i - 2).map_values(|c: char| spec_ascii_lower(c)) =~= rest.take(
            i - 3,
        ).map_values(|c: char| spec_ascii_lower(c)).push(spec_ascii_lower(rest[i - 3])));
    }
    assert(rest.take(n - 2) =~= rest);
    Ok(r)
}


/// What a list of addresses becomes: each normalized in turn; refused at the first address
/// that is invalid or that repeats, after normalization, one before it.
pub open spec fn spec_normalize_addresses(addresses: Seq<Seq<char>>) -> Result<
    Seq<Seq<char>>,
    Seq<char>,
>
    decreases addresses.len(),
{
    if addresses.len() == 0 {
        Ok(Seq::empty())
    } else {
        match spec_normalize_addresses(addresses.drop_last()) {
            Err(m) => Err(m),
            Ok(done) => match spec_normalize_address(addresses.last()) {
                Err(m) => Err(m),
                Ok(a) => if done.contains(a) {
                    Err("duplicate address found: "@ + a)
                } else {
                    Ok(done.push(a))
                },
            },
        }
    }
}

fn contains_string(v: &Vec<String>, s: &String) -> (r: bool)
    ensures
        r == string_texts(v@).contains(s@),
{
    let n = v.len();
    let mut i: usize = 0;
    while i < n
        invariant
            n == v@.len(),
            i <= n,
            forall|j: int| 0 <= j < i ==> (#[trigger] v@[j])@ != s@,
        decreases n - i,
    {
        if str_eq(v[i].as_str(), s.as_str()) {
            assert(string_texts(v@)[i as int] == s@);
            return true;
        }
        i = i + 1;
    }
    assert forall|j: int| 0 <= j < string_texts(v@).len() implies string_texts(v@)[j] != s@ by {
        assert(string_texts(v@)[j] == v@[j]@);
    }
    false
}

/// Normalizes each address in turn, refusing an invalid one or one that repeats an earlier
/// one after normalization.
pub fn normalize_addresses(addresses: &[String]) -> (r: Result<Vec<String>, AppError>)
    ensures
        match spec_normalize_addresses(string_texts(addresses@)) {
            Ok(a) => (r matches Ok(v) && string_texts(v@) == a),
            Err(m) => (r matches Err(e) && e@ == (ErrorView { kind: ErrorKind::BadRequest, message: m })),
        },
{
    let ghost all = string_texts(addresses@);
    let mut normalized: Vec<String> = Vec::new();
    assert(all.take(0) =~= Seq::<Seq<char>>::empty());
    assert(string_texts(normalized@) =~= Seq::<Seq<char>>::empty());
    let n = addresses.len();
    let mut i: usize = 0;
    while i < n
        invariant
            n == addresses@.len(),
            i <= n,
            all == string_texts(addresses@),
            spec_normalize_addresses(all.take(i as int)) == Ok::<Seq<Seq<char>>, Seq<char>>(
                string_texts(normalized@),
            ),
        decreases n - i,
    {
        assert(all.take(i + 1).drop_last() =~= all.take(i as int));
        assert(all.take(i + 1).last() == addresses@[i as int]@);
        let normalized_address = match normalize_address(addresses[i].as_str()) {
            Ok(a) => a,
            Err(e) => {
                proof {
                    lemma_normalize_addresses_prefix_err(all, i as int + 1);
                }
                return Err(e);
            },
        };
        if contains_string(&normalized, &normalized_address) {
            proof {
                lemma_normalize_addresses_prefix_err(all, i as int + 1);
            }
            return Err(AppError::bad_request(concat("duplicate address found: ", normalized_address.as_str())));
        }
        let ghost before = string_texts(normalized@);
        let ghost added = normalized_address@;
        normalized.push(normalized_address);
        assert(string_texts(normalized@) =~= before.push(added));
        i = i + 1;
    }
    assert(all.take(n as int) =~= all);
    Ok(normalized)
}

proof fn lemma_normalize_addresses_prefix_err(all: Seq<Seq<char>>, i: int)
    requires
        0 <= i <= all.len(),
        spec_normalize_addresses(all.take(i)) is Err,
    ensures
        spec_normalize_addresses(all) == spec_normalize_addresses(all.take(i)),
    decreases all.len() - i,
{
    if i < all.len() {
        assert(all.take(i + 1).drop_last() =~= all.take(i));
        lemma_normalize_addresses_prefix_err(all, i + 1);
    } else {
        assert(all.take(i) =~= all);
    }
}

/// `0x` followed by `value`.
pub fn hex_with_prefix(value: &str) -> (r: String)
    ensures
        r@ == seq!['0', 'x'] + value@,
{
    let mut r = String::new();
    push_char(&mut r, '0');
    push_char(&mut r, 'x');
    r.append(value);
    r
}

proof fn lemma_bit_length_at_most(x: nat)
    ensures
        spec_bit_length(x) <= x,
    decreases x,
{
    if x > 0 {
        lemma_bit_length_at_most(x / 2);
    }
}

/// The depth of a Merkle tree with `leaf_count` leaves.
pub fn merkle_depth(leaf_count: usize) -> (r: usize)
    ensures
        r == spec_merkle_depth(leaf_count as nat),
{
    if leaf_count <= 1 {
        return 0;
    }
    let mut x: usize = leaf_count - 1;
    let mut bits: usize = 0;
    proof {
        lemma_bit_length_at_most((leaf_count - 1) as nat);
    }
    while x > 0
        invariant
            bits + spec_bit_length(x as nat) == spec_bit_length((leaf_count - 1) as nat),
            spec_bit_length((leaf_count - 1) as nat) <= leaf_count - 1,
        decreases x,
    {
        x = x / 2;
        bits = bits + 1;
    }
    bits
}


/// The leaf hashes of a tree over some normalized addresses: the SHA-256 digest of each
/// address's UTF-8 bytes.
pub open spec fn spec_leaf_hashes(addresses: Seq<Seq<char>>) -> Seq<Seq<u8>> {
    addresses.map_values(|a: Seq<char>| spec_sha256(encode_utf8(a)))
}

/// Whether a tree request is accepted: its name is not blank, it names at least one leaf,
/// the creator's address is valid, and the leaf addresses are valid and, once normalized,
/// all different.
pub open spec fn spec_tree_request_valid(req: CreateTreeRequestView) -> bool {
    &&& spec_trim(req.name).len() > 0
    &&& req.leaf_addresses.len() > 0
    &&& spec_normalize_address(req.campaign_creator_address) is Ok
    &&& spec_normalize_addresses(req.leaf_addresses) is Ok
}

/// The checks that a tree request must pass, in the order they are made. When it passes:
/// the normalized creator and the normalized leaf addresses.
pub open spec fn spec_check_tree_request(req: CreateTreeRequestView) -> Result<
    (Seq<char>, Seq<Seq<char>>),
    ErrorView,
> {
    if spec_trim(req.name).len() == 0 {
        Err(ErrorView { kind: ErrorKind::BadRequest, message: "`name` must not be empty"@ })
    } else if req.leaf_addresses.len() == 0 {
        Err(
            ErrorView {
                kind: ErrorKind::BadRequest,
                message: "`leaf_addresses` must contain at least one Ethereum address"@,
            },
        )
    } else {
        match spec_normalize_address(req.campaign_creator_address) {
            Err(m) => Err(ErrorView { kind: ErrorKind::BadRequest, message: m }),
            Ok(creator) => match spec_normalize_addresses(req.leaf_addresses) {
                Err(m) => Err(ErrorView { kind: ErrorKind::BadRequest, message: m }),
                Ok(addresses) => Ok((creator, addresses)),
            },
        }
    }
}

/// The tree that a request which passed its checks becomes, with the Merkle root `root`
/// over its leaf hashes, under the identifier `tree_id`.
pub open spec fn spec_stored_tree(
    req: CreateTreeRequestView,
    checked: (Seq<char>, Seq<Seq<char>>),
    root: Seq<u8>,
    tree_id: Seq<char>,
) -> StoredTreeView {
    let (creator, addresses) = checked;
    StoredTreeView {
        tree_id,
        name: spec_trim(req.name),
        campaign_creator_address: creator,
        leaf_addresses: addresses,
        leaves: spec_leaf_hashes(addresses),
        root: seq!['0', 'x'] + spec_lower_hex(root),
        leaf_count: req.leaf_addresses.len() as usize,
        depth: spec_merkle_depth(req.leaf_addresses.len()) as usize,
    }
}

/// What a built tree holds, in terms of the request alone: its leaf addresses are the
/// request's, each normalized and all different; each leaf is the SHA-256 digest of the
/// UTF-8 bytes of its address; its root is `0x` and the lower-case hex of the Merkle root
/// over those very leaves; its name is the trimmed name, its creator the normalized
/// creator; and its leaf count and depth are those of the tree over its leaves.
pub proof fn lemma_stored_tree_shape(
    req: CreateTreeRequestView,
    c: (Seq<char>, Seq<Seq<char>>),
    root: Seq<u8>,
    tree_id: Seq<char>,
)
    requires
        req.leaf_addresses.len() <= usize::MAX,
        spec_check_tree_request(req) == Ok::<(Seq<char>, Seq<Seq<char>>), ErrorView>(c),
        spec_merkle_root(spec_leaf_hashes(c.1)) == Some(root),
    ensures
        ({
            let t = spec_stored_tree(req, c, root, tree_id);
            &&& t.tree_id == tree_id
            &&& t.name == spec_trim(req.name)
            &&& spec_normalize_address(req.campaign_creator_address) == Ok::<Seq<char>, Seq<char>>(
                t.campaign_creator_address,
            )
            &&& t.leaf_addresses.len() == req.leaf_addresses.len()
            &&& forall|i: int| 0 <= i < t.leaf_addresses.len() ==> spec_normalize_address(
                #[trigger] req.leaf_addresses[i],
            ) == Ok::<Seq<char>, Seq<char>>(t.leaf_addresses[i])
            &&& forall|i: int, j: int| 0 <= i < j < t.leaf_addresses.len() ==> t.leaf_addresses[i]
                != t.leaf_addresses[j]
            &&& t.leaves.len() == t.leaf_addresses.len()
            &&& forall|i: int| 0 <= i < t.leaves.len() ==> #[trigger] t.leaves[i] == spec_sha256(
                encode_utf8(t.leaf_addresses[i]),
            )
            &&& spec_merkle_root(t.leaves) matches Some(h) && t.root == seq!['0', 'x'] + spec_lower_hex(h)
            &&& tree_well_formed(t)
        }),
{
    lemma_normalized_addresses_distinct(req.leaf_addresses);
}

/// A tree request is refused exactly when its name is blank, it names no leaf, the
/// creator's address is invalid, or a leaf address is invalid or repeats an earlier one.
pub proof fn lemma_tree_request_refusals(req: CreateTreeRequestView)
    ensures
        spec_check_tree_request(req) is Err <==> {
            ||| spec_trim(req.name).len() == 0
            ||| req.leaf_addresses.len() == 0
            ||| spec_normalize_address(req.campaign_creator_address) is Err
            ||| spec_normalize_addresses(req.leaf_addresses) is Err
        },
        spec_check_tree_request(req) is Ok <==> spec_tree_request_valid(req),
{
}

/// Whether a stored tree is as building makes it: a hash for each of its addresses, a
/// leaf count that counts them, and the depth of a Merkle tree over that many leaves.
pub open spec fn tree_well_formed(t: StoredTreeView) -> bool {
    &&& t.leaves.len() == t.leaf_addresses.len()
    &&& t.leaf_count == t.leaf_addresses.len()
    &&& t.depth == spec_merkle_depth(t.leaf_count as nat) as usize
}

fn leaf_hashes(addresses: &Vec<String>) -> (r: Vec<[u8; 32]>)
    ensures
        hash_bytes(r@) == spec_leaf_hashes(string_texts(addresses@)),
{
    let mut leaves: Vec<[u8; 32]> = Vec::new();
    let n = addresses.len();
    let mut i: usize = 0;
    while i < n
        invariant
            n == addresses@.len(),
            i <= n,
            leaves@.len() == i,
            forall|j: int| 0 <= j < i ==> (#[trigger] leaves@[j])@ == spec_sha256(
                encode_utf8(addresses@[j]@),
            ),
        decreases n - i,
    {
        leaves.push(sha256(addresses[i].as_str().as_bytes()));
        i = i + 1;
    }
    assert(hash_bytes(leaves@) =~= spec_leaf_hashes(string_texts(addresses@)));
    leaves
}

/// Builds the tree that `payload` asks for, under the identifier `tree_id`: checks the
/// name, normalizes the creator's and the leaves' addresses, hashes the leaves and computes
/// the root. A request that passes the checks is always built: a tree with a leaf has a
/// root.
pub fn build_stored_tree_with_id(payload: CreateTreeRequest, tree_id: String) -> (r: Result<
    StoredTree,
    AppError,
>)
    ensures
        match spec_check_tree_request(payload@) {
            Err(e) => (r matches Err(x) && x@ == e),
            Ok(c) => (r matches Ok(t) && spec_merkle_root(spec_leaf_hashes(c.1)) matches Some(root)
                && t@ == spec_stored_tree(payload@, c, root, tree_id@)),
        },
        r is Ok <==> spec_tree_request_valid(payload@),
        r matches Ok(t) ==> tree_well_formed(t@),
        r matches Ok(t) ==> t@.tree_id == tree_id@ && t@.leaves == spec_leaf_hashes(t@.leaf_addresses),
        r matches Ok(t) ==> (spec_merkle_root(t@.leaves) matches Some(h) && t@.root == seq!['0', 'x']
            + spec_lower_hex(h)),
{
    let name = trim(payload.name.as_str());
    if name.unicode_len() == 0 {
        return Err(AppError::bad_request(String::from_str("`name` must not be empty")));
    }
    if payload.leaf_addresses.len() == 0 {
        return Err(
            AppError::bad_request(
                String::from_str("`leaf_addresses` must contain at least one Ethereum address"),
            ),
        );
    }
    let campaign_creator_address = match normalize_address(payload.campaign_creator_address.as_str()) {
        Ok(a) => a,
        Err(e) => return Err(e),
    };
    let normalized_leaf_addresses = match normalize_addresses(payload.leaf_addresses.as_slice()) {
        Ok(v) => v,
        Err(e) => return Err(e),
    };
    let leaves = leaf_hashes(&normalized_leaf_addresses);
    proof {
        lemma_normalized_addresses_distinct(payload@.leaf_addresses);
        assert(hash_bytes(leaves@).len() == leaves@.len());
        assert(string_texts(normalized_leaf_addresses@).len() == normalized_leaf_addresses@.len());
    }
    let merkle_tree = merkle_from_leaves(leaves.as_slice());
    let root_hex = merkle_root_hex(&merkle_tree);
    let r = stored_tree_from_parts(
        tree_id,
        name,
        campaign_creator_address,
        normalized_leaf_addresses,
        leaves,
        root_hex,
        payload.leaf_addresses.len(),
    );
    proof {
        if r is Ok {
            let t = r->Ok_0;
            let c = spec_check_tree_request(payload@)->Ok_0;
            let root = spec_merkle_root(spec_leaf_hashes(c.1))->Some_0;
            lemma_stored_tree_shape(payload@, c, root, tree_id@);
            assert(t@.leaves =~= spec_leaf_hashes(t@.leaf_addresses));
        }
    }
    r
}

/// Assembles a stored tree from its checked parts and the hex text of its root, as the
/// Merkle tree over `leaves` gave it; with no root, refuses with an internal error.
pub fn stored_tree_from_parts(
    tree_id: String,
    name: &str,
    campaign_creator_address: String,
    leaf_addresses: Vec<String>,
    leaves: Vec<[u8; 32]>,
    root_hex: Option<String>,
    leaf_count: usize,
) -> (r: Result<StoredTree, AppError>)
    ensures
        match root_hex {
            None => (r matches Err(e) && e@ == (ErrorView {
                kind: ErrorKind::Internal,
                message: "failed to compute the merkle root"@,
            })),
            Some(h) => (r matches Ok(t) && t@ == (StoredTreeView {
                tree_id: tree_id@,
                name: name@,
                campaign_creator_address: campaign_creator_address@,
                leaf_addresses: string_texts(leaf_addresses@),
                leaves: hash_bytes(leaves@),
                root: seq!['0', 'x'] + h@,
                leaf_count,
                depth: spec_merkle_depth(leaf_count as nat) as usize,
            })),
        },
{
    let root = match root_hex {
        Some(h) => hex_with_prefix(h.as_str()),
        None => {
            return Err(AppError::internal(String::from_str("failed to compute the merkle root")));
        },
    };
    let t = StoredTree {
        tree_id,
        name: String::from_str(name),
        campaign_creator_address,
        leaf_addresses,
        leaves,
        root,
        leaf_count,
        depth: merkle_depth(leaf_count),
    };
    assert(hash_bytes(t.leaves@) == t@.leaves);
    Ok(t)
}

/// Builds the tree that `payload` asks for under a fresh random identifier. Whatever
/// identifier came back, the tree is the one [`build_stored_tree_with_id`] makes with it.
pub fn build_stored_tree(payload: CreateTreeRequest) -> (r: Result<StoredTree, AppError>)
    ensures
        match spec_check_tree_request(payload@) {
            Err(e) => (r matches Err(x) && x@ == e),
            Ok(c) => (r matches Ok(t) && spec_merkle_root(spec_leaf_hashes(c.1)) matches Some(root)
                && t@ == spec_stored_tree(payload@, c, root, t.tree_id@) && spec_is_uuid_v4_text(t.tree_id@)),
        },
        r is Ok <==> spec_tree_request_valid(payload@),
        r matches Ok(t) ==> tree_well_formed(t@),
        r matches Ok(t) ==> t@.leaves == spec_leaf_hashes(t@.leaf_addresses),
        r matches Ok(t) ==> (spec_merkle_root(t@.leaves) matches Some(h) && t@.root == seq!['0', 'x']
            + spec_lower_hex(h)),
{
    let tree_id = new_uuid_string();
    build_stored_tree_with_id(payload, tree_id)
}


/// The position of the first occurrence of `x` in `s`, if any.
pub open spec fn spec_position(s: Seq<Seq<char>>, x: Seq<char>) -> Option<int>
    decreases s.len(),
{
    if s.len() == 0 {
        None
    } else {
        match spec_position(s.drop_last(), x) {
            Some(i) => Some(i),
            None => if s.last() == x {
                Some(s.len() - 1)
            } else {
                None
            },
        }
    }
}

proof fn lemma_position_prefix(s: Seq<Seq<char>>, x: Seq<char>, i: int)
    requires
        0 <= i <= s.len(),
        forall|j: int| 0 <= j < i ==> s[j] != x,
    ensures
        spec_position(s.take(i), x) is None,
        i < s.len() && s[i] == x ==> spec_position(s, x) == Some(i),
        i == s.len() ==> spec_position(s, x) is None,
    decreases i,
{
    if i > 0 {
        lemma_position_prefix(s, x, i - 1);
        assert(s.take(i).drop_last() =~= s.take(i - 1));
    }
    if i < s.len() && s[i] == x {
        lemma_position_found(s, x, i, s.len() as int);
        assert(s.take(s.len() as int) =~= s);
    }
    if i == s.len() {
        assert(s.take(i) =~= s);
    }
}

proof fn lemma_position_found(s: Seq<Seq<char>>, x: Seq<char>, i: int, k: int)
    requires
        0 <= i < k <= s.len(),
        s[i] == x,
        spec_position(s.take(i), x) is None,
    ensures
        spec_position(s.take(k), x) == Some(i),
    decreases k - i,
{
    if k == i + 1 {
        assert(s.take(k).drop_last() =~= s.take(i));
    } else {
        lemma_position_found(s, x, i, k - 1);
        assert(s.take(k).drop_last() =~= s.take(k - 1));
    }
}

/// The hex text of each hash, with `0x` before it.
pub open spec fn spec_prefixed_hex_list(hashes: Seq<Seq<u8>>) -> Seq<Seq<char>> {
    hashes.map_values(|h: Seq<u8>| seq!['0', 'x'] + spec_lower_hex(h))
}

/// The proof that `leaf_address` is a leaf of `tree`: its position, its hash, the helper
/// hashes on the path to the root, and that the proof checks against the tree's root; or,
/// when the address is not a leaf of the tree or the tree has no leaf hashes (so no root),
/// why there is none.
pub open spec fn spec_build_proof_response(tree: StoredTreeView, leaf_address: Seq<char>) -> Result<
    ProofResponseView,
    ErrorView,
> {
    match spec_position(tree.leaf_addresses, leaf_address) {
        None => Err(
            ErrorView {
                kind: ErrorKind::NotFound,
                message: "leaf address not found in tree: "@ + leaf_address,
            },
        ),
        Some(index) => if tree.leaves.len() == 0 {
            Err(
                ErrorView {
                    kind: ErrorKind::Internal,
                    message: "failed to load the merkle root from the tree"@,
                },
            )
        } else {
            Ok(
            ProofResponseView {
                tree_id: tree.tree_id,
                name: tree.name,
                campaign_creator_address: tree.campaign_creator_address,
                leaf_address,
                index: index as usize,
                leaf_hash: seq!['0', 'x'] + spec_lower_hex(tree.leaves[index]),
                path: spec_prefixed_hex_list(
                    spec_merkle_helper_hashes(tree.leaves, seq![index as usize]),
                ),
                root: tree.root,
                verified: true,
            },
            )
        },
    }
}

/// A proof response is about the first leaf of the tree that holds the asked address: its
/// index is that leaf's position, its leaf hash is that leaf's hash, its path is the list
/// of helper hashes for that very position, and it carries the tree's own identity and
/// root, checked.
pub proof fn lemma_proof_response_is_for_its_leaf(tree: StoredTreeView, leaf_address: Seq<char>)
    requires
        tree.leaf_addresses.len() <= usize::MAX,
        spec_build_proof_response(tree, leaf_address) is Ok,
    ensures
        ({
            let p = spec_build_proof_response(tree, leaf_address)->Ok_0;
            &&& p.index < tree.leaf_addresses.len()
            &&& tree.leaf_addresses[p.index as int] == leaf_address
            &&& forall|j: int| 0 <= j < p.index ==> tree.leaf_addresses[j] != leaf_address
            &&& p.leaf_address == leaf_address
            &&& p.leaf_hash == seq!['0', 'x'] + spec_lower_hex(tree.leaves[p.index as int])
            &&& p.path == spec_prefixed_hex_list(spec_merkle_helper_hashes(tree.leaves, seq![p.index]))
            &&& p.tree_id == tree.tree_id
            &&& p.root == tree.root
            &&& p.verified
        }),
{
    lemma_position_bounds(tree.leaf_addresses, leaf_address);
}

fn prefixed_hex_list(hex: Vec<String>) -> (r: Vec<String>)
    ensures
        string_texts(r@) == string_texts(hex@).map_values(|h: Seq<char>| seq!['0', 'x'] + h),
{
    let mut r: Vec<String> = Vec::new();
    let n = hex.len();
    let mut i: usize = 0;
    while i < n
        invariant
            n == hex@.len(),
            i <= n,
            r@.len() == i,
            forall|j: int| 0 <= j < i ==> (#[trigger] r@[j])@ == seq!['0', 'x'] + hex@[j]@,
        decreases n - i,
    {
        r.push(hex_with_prefix(hex[i].as_str()));
        i = i + 1;
    }
    assert(string_texts(r@) =~= string_texts(hex@).map_values(|h: Seq<char>| seq!['0', 'x'] + h));
    r
}

/// Builds the Merkle proof that `leaf_address` is a leaf of `tree`.
pub fn build_proof_response(tree: &StoredTree, leaf_address: &str) -> (r: Result<
    ProofResponse,
    AppError,
>)
    requires
        spec_position(tree@.leaf_addresses, leaf_address@) matches Some(i) ==> tree.leaves@.len()
            == 0 || i < tree.leaves@.len(),
    ensures
        match spec_build_proof_response(tree@, leaf_address@) {
            Err(e) => (r matches Err(x) && x@ == e),
            Ok(p) => (r matches Ok(x) && x@ == p),
        },
        r is Ok <==> spec_position(tree@.leaf_addresses, leaf_address@) is Some && tree@.leaves.len()
            > 0,
        r matches Ok(p) ==> p.verified,
        r matches Ok(p) ==> p.path.len() <= spec_merkle_depth(tree@.leaves.len()),
        tree@.leaves.len() >= 2 ==> (r matches Ok(p) ==> p.path.len() >= 1),
        tree_well_formed(tree@) ==> (r matches Ok(p) ==> p.path.len() <= tree@.depth),
        r matches Ok(p) ==> {
            &&& p.index < tree.leaves@.len()
            &&& tree@.leaf_addresses[p.index as int] == leaf_address@
            &&& p@.leaf_hash == seq!['0', 'x'] + spec_lower_hex(tree@.leaves[p.index as int])
            &&& p@.path == spec_prefixed_hex_list(
                spec_merkle_helper_hashes(tree@.leaves, seq![p.index]),
            )
            &&& spec_merkle_proof_root(
                spec_merkle_helper_hashes(tree@.leaves, seq![p.index]),
                seq![p.index],
                seq![tree@.leaves[p.index as int]],
                tree@.leaves.len() as usize,
            ) == spec_merkle_root(tree@.leaves)
        },
{
    let n = tree.leaf_addresses.len();
    let mut index: usize = 0;
    while index < n && !str_eq(tree.leaf_addresses[index].as_str(), leaf_address)
        invariant
            n == tree.leaf_addresses@.len(),
            index <= n,
            forall|j: int| 0 <= j < index ==> tree@.leaf_addresses[j] != leaf_address@,
        decreases n - index,
    {
        index = index + 1;
    }
    proof {
        lemma_position_prefix(tree@.leaf_addresses, leaf_address@, index as int);
    }
    if index == n {
        return Err(AppError::not_found(concat("leaf address not found in tree: ", leaf_address)));
    }
    if tree.leaves.len() == 0 {
        return Err(
            AppError::internal(String::from_str("failed to load the merkle root from the tree")),
        );
    }
    let merkle_tree = merkle_from_leaves(tree.leaves.as_slice());
    let indices: [usize; 1] = [index];
    let proof = merkle_proof(&merkle_tree, indices.as_slice());
    let root = match merkle_root(&merkle_tree) {
        Some(h) => h,
        None => {
            return Err(
                AppError::internal(String::from_str("failed to load the merkle root from the tree")),
            );
        },
    };
    let leaf: [[u8; 32]; 1] = [tree.leaves[index]];
    let verified = merkle_verify(&proof, root, indices.as_slice(), leaf.as_slice(), tree.leaves.len());
    let hashes_hex = merkle_proof_hashes_hex(&proof);
    let leaf_hash_hex = hex_encode(tree.leaves[index].as_slice());
    assert(indices@ =~= seq![index]);
    assert(hash_bytes(leaf@) =~= seq![tree@.leaves[index as int]]);
    let r = proof_response_from_parts(tree, leaf_address, index, leaf_hash_hex, hashes_hex, verified);
    assert(r@.path =~= spec_prefixed_hex_list(spec_merkle_helper_hashes(tree@.leaves, seq![index])));
    proof {
        if tree@.leaf_count > 1 {
            lemma_bit_length_at_most((tree@.leaf_count - 1) as nat);
        }
    }
    Ok(r)
}

/// Assembles the proof response for the leaf `leaf_address` at `index` of `tree` from the
/// hex text of the leaf's hash, the hex texts of the proof's hashes, and whether the proof
/// checked: each hash with `0x` before it, and the tree's own identity and root.
pub fn proof_response_from_parts(
    tree: &StoredTree,
    leaf_address: &str,
    index: usize,
    leaf_hash_hex: String,
    path_hex: Vec<String>,
    verified: bool,
) -> (r: ProofResponse)
    ensures
        r@ == (ProofResponseView {
            tree_id: tree@.tree_id,
            name: tree@.name,
            campaign_creator_address: tree@.campaign_creator_address,
            leaf_address: leaf_address@,
            index,
            leaf_hash: seq!['0', 'x'] + leaf_hash_hex@,
            path: string_texts(path_hex@).map_values(|h: Seq<char>| seq!['0', 'x'] + h),
            root: tree@.root,
            verified,
        }),
{
    ProofResponse {
        tree_id: tree.tree_id.clone(),
        name: tree.name.clone(),
        campaign_creator_address: tree.campaign_creator_address.clone(),
        leaf_address: String::from_str(leaf_address),
        index,
        leaf_hash: hex_with_prefix(leaf_hash_hex.as_str()),
        path: prefixed_hex_list(path_hex),
        root: tree.root.clone(),
        verified,
    }
}

/// That a tree of a campaign creator was stored, in the order trees were stored.
struct CreatorLink {
    creator: String,
    tree_id: String,
}

/// The trees the service keeps, and for each campaign creator the identifiers of its trees
/// in the order they were created. Storing a tree under an identifier that is already used
/// replaces the earlier tree.
pub struct TreeStore {
    trees: Vec<StoredTree>,
    links: Vec<CreatorLink>,
}

/// The store as plain values: the trees by identifier, and the tree identifiers of each
/// campaign creator in the order they were stored.
pub struct TreeStoreView {
    pub trees: Map<Seq<char>, StoredTreeView>,
    pub trees_by_campaign_creator: Map<Seq<char>, Seq<Seq<char>>>,
}

/// The last tree in `trees` stored under `tree_id`, if any.
spec fn spec_latest_tree(trees: Seq<StoredTree>, tree_id: Seq<char>) -> Option<StoredTree>
    decreases trees.len(),
{
    if trees.len() == 0 {
        None
    } else if trees.last().tree_id@ == tree_id {
        Some(trees.last())
    } else {
        spec_latest_tree(trees.drop_last(), tree_id)
    }
}

/// The tree identifiers linked to `creator`, in order.
spec fn spec_linked_ids(links: Seq<CreatorLink>, creator: Seq<char>) -> Seq<Seq<char>>
    decreases links.len(),
{
    if links.len() == 0 {
        Seq::empty()
    } else {
        let rest = spec_linked_ids(links.drop_last(), creator);
        if links.last().creator@ == creator {
            rest.push(links.last().tree_id@)
        } else {
            rest
        }
    }
}

impl View for TreeStore {
    type V = TreeStoreView;

    closed spec fn view(&self) -> TreeStoreView {
        TreeStoreView {
            trees: Map::new(
                |id: Seq<char>| spec_latest_tree(self.trees@, id) is Some,
                |id: Seq<char>| spec_latest_tree(self.trees@, id)->0@,
            ),
            trees_by_campaign_creator: Map::new(
                |c: Seq<char>| spec_linked_ids(self.links@, c).len() > 0,
                |c: Seq<char>| spec_linked_ids(self.links@, c),
            ),
        }
    }
}

impl TreeStoreView {
    /// Every stored tree has a hash for each of its addresses and is kept under its own
    /// identifier.
    pub open spec fn wf(self) -> bool {
        forall|id: Seq<char>| #[trigger]
            self.trees.contains_key(id) ==> tree_well_formed(self.trees[id])
                && self.trees[id].tree_id == id
    }

    /// The tree identifiers of `creator`, in the order they were stored.
    pub open spec fn tree_ids_of(self, creator: Seq<char>) -> Seq<Seq<char>> {
        if self.trees_by_campaign_creator.contains_key(creator) {
            self.trees_by_campaign_creator[creator]
        } else {
            Seq::empty()
        }
    }

    /// The store with `t` added: kept under its identifier (replacing any tree there), and
    /// its identifier appended to its creator's list.
    pub open spec fn insert_tree(self, t: StoredTreeView) -> TreeStoreView {
        TreeStoreView {
            trees: self.trees.insert(t.tree_id, t),
            trees_by_campaign_creator: self.trees_by_campaign_creator.insert(
                t.campaign_creator_address,
                self.tree_ids_of(t.campaign_creator_address).push(t.tree_id),
            ),
        }
    }

    /// The summaries of the trees with the identifiers `ids` that the store holds, in order;
    /// identifiers it does not hold are passed over.
    pub open spec fn summaries(self, ids: Seq<Seq<char>>) -> Seq<TreeSummaryView>
        decreases ids.len(),
    {
        if ids.len() == 0 {
            Seq::empty()
        } else {
            let rest = self.summaries(ids.drop_last());
            if self.trees.contains_key(ids.last()) {
                rest.push(self.trees[ids.last()].summary())
            } else {
                rest
            }
        }
    }

    /// The summaries of the trees of `creator`, in the order they were stored.
    pub open spec fn creator_summaries(self, creator: Seq<char>) -> Seq<TreeSummaryView> {
        self.summaries(self.tree_ids_of(creator))
    }
}

proof fn lemma_latest_tree_push(s: Seq<StoredTree>, t: StoredTree, id: Seq<char>)
    ensures
        spec_latest_tree(s.push(t), id) == if t.tree_id@ == id {
            Some(t)
        } else {
            spec_latest_tree(s, id)
        },
{
    assert(s.push(t).drop_last() =~= s);
}

proof fn lemma_latest_tree_is_stored(s: Seq<StoredTree>, id: Seq<char>)
    requires
        spec_latest_tree(s, id) is Some,
    ensures
        exists|i: int| 0 <= i < s.len() && s[i] == spec_latest_tree(s, id)->0,
        spec_latest_tree(s, id)->0.tree_id@ == id,
    decreases s.len(),
{
    if s.last().tree_id@ != id {
        lemma_latest_tree_is_stored(s.drop_last(), id);
        let i = choose|i: int| 0 <= i < s.drop_last().len() && s.drop_last()[i] == spec_latest_tree(
            s.drop_last(),
            id,
        )->0;
        assert(s[i] == s.drop_last()[i]);
    } else {
        assert(s[s.len() - 1] == s.last());
    }
}

proof fn lemma_latest_tree_suffix(s: Seq<StoredTree>, id: Seq<char>, i: int)
    requires
        0 <= i <= s.len(),
        forall|j: int| i <= j < s.len() ==> (#[trigger] s[j]).tree_id@ != id,
    ensures
        spec_latest_tree(s, id) == spec_latest_tree(s.take(i), id),
    decreases s.len() - i,
{
    if i < s.len() {
        lemma_latest_tree_suffix(s.drop_last(), id, i);
        assert(s.drop_last().take(i) =~= s.take(i));
    } else {
        assert(s.take(i) =~= s);
    }
}

proof fn lemma_linked_ids_push(links: Seq<CreatorLink>, l: CreatorLink, c: Seq<char>)
    ensures
        spec_linked_ids(links.push(l), c) == if l.creator@ == c {
            spec_linked_ids(links, c).push(l.tree_id@)
        } else {
            spec_linked_ids(links, c)
        },
{
    assert(links.push(l).drop_last() =~= links);
}

impl TreeStore {
    #[verifier::type_invariant]
    spec fn inv(self) -> bool {
        forall|i: int| 0 <= i < self.trees@.len() ==> tree_well_formed(#[trigger] self.trees@[i]@)
    }

    /// An empty store.
    pub fn new() -> (r: TreeStore)
        ensures
            r@.trees == Map::<Seq<char>, StoredTreeView>::empty(),
            r@.trees_by_campaign_creator == Map::<Seq<char>, Seq<Seq<char>>>::empty(),
            r@.links_held(),
    {
        let r = TreeStore { trees: Vec::new(), links: Vec::new() };
        assert(r@.trees =~= Map::<Seq<char>, StoredTreeView>::empty());
        assert(r@.trees_by_campaign_creator =~= Map::<Seq<char>, Seq<Seq<char>>>::empty());
        r
    }

    /// Stores `tree` under its identifier and appends the identifier to its creator's list.
    pub fn insert_tree(&mut self, tree: StoredTree)
        requires
            tree_well_formed(tree@),
        ensures
            final(self)@ == old(self)@.insert_tree(tree@),
    {
        proof {
            use_type_invariant(&*self);
        }
        let ghost old_view = self@;
        let ghost old_trees = self.trees@;
        let ghost old_links = self.links@;
        let link = CreatorLink {
            creator: tree.campaign_creator_address.clone(),
            tree_id: tree.tree_id.clone(),
        };
        let ghost t = tree;
        let mut links: Vec<CreatorLink> = Vec::new();
        std::mem::swap(&mut links, &mut self.links);
        links.push(link);
        std::mem::swap(&mut links, &mut self.links);
        let mut trees: Vec<StoredTree> = Vec::new();
        std::mem::swap(&mut trees, &mut self.trees);
        trees.push(tree);
        std::mem::swap(&mut trees, &mut self.trees);
        proof {
            assert forall|id: Seq<char>| true implies #[trigger] spec_latest_tree(self.trees@, id)
                == (if t.tree_id@ == id {
                Some(t)
            } else {
                spec_latest_tree(old_trees, id)
            }) by {
                lemma_latest_tree_push(old_trees, t, id);
            }
            assert forall|c: Seq<char>| true implies #[trigger] spec_linked_ids(self.links@, c)
                == (if t.campaign_creator_address@ == c {
                spec_linked_ids(old_links, c).push(t.tree_id@)
            } else {
                spec_linked_ids(old_links, c)
            }) by {
                lemma_linked_ids_push(old_links, link, c);
            }
            assert(self@.trees =~= old_view.trees.insert(t@.tree_id, t@));
            assert(old_view.tree_ids_of(t.campaign_creator_address@) =~= spec_linked_ids(
                old_links,
                t.campaign_creator_address@,
            ));
            assert forall|c: Seq<char>|
                #![trigger self@.trees_by_campaign_creator.contains_key(c)]
                c != t.campaign_creator_address@ implies self@.trees_by_campaign_creator.contains_key(c)
                == old_view.trees_by_campaign_creator.contains_key(c) && (
                self@.trees_by_campaign_creator.contains_key(c)
                    ==> self@.trees_by_campaign_creator[c] == old_view.trees_by_campaign_creator[c]) by {
                assert(spec_linked_ids(self.links@, c) == spec_linked_ids(old_links, c));
            }
            assert(self@.trees_by_campaign_creator =~= old_view.insert_tree(
                t@,
            ).trees_by_campaign_creator);
        }
    }

    /// The tree stored under `tree_id`, if there is one.
    pub fn get(&self, tree_id: &str) -> (r: Option<&StoredTree>)
        ensures
            match r {
                Some(t) => self@.trees.contains_key(tree_id@) && t@ == self@.trees[tree_id@],
                None => !self@.trees.contains_key(tree_id@),
            },
    {
        let mut i = self.trees.len();
        assert(self.trees@.take(i as int) =~= self.trees@);
        while i > 0
            invariant
                i <= self.trees@.len(),
                spec_latest_tree(self.trees@, tree_id@) == spec_latest_tree(
                    self.trees@.take(i as int),
                    tree_id@,
                ),
            decreases i,
        {
            let j = i - 1;
            if str_eq(self.trees[j].tree_id.as_str(), tree_id) {
                proof {
                    assert(self.trees@.take(i as int).drop_last() =~= self.trees@.take(j as int));
                    assert(self.trees@.take(i as int).last() == self.trees@[j as int]);
                }
                return Some(&self.trees[j]);
            }
            proof {
                assert(self.trees@.take(i as int).drop_last() =~= self.trees@.take(j as int));
                assert(self.trees@.take(i as int).last() == self.trees@[j as int]);
            }
            i = j;
        }
        proof {
            assert(self.trees@.take(0) =~= Seq::<StoredTree>::empty());
        }
        None
    }

    /// The summaries of the trees of `creator`, in the order they were stored.
    fn creator_summaries(&self, creator: &str) -> (r: Vec<TreeSummary>)
        ensures
            r@.map_values(|s: TreeSummary| s@) == self@.creator_summaries(creator@),
    {
        let ghost store = self@;
        let ghost ids = spec_linked_ids(self.links@, creator@);
        assert(store.tree_ids_of(creator@) == ids);
        let mut r: Vec<TreeSummary> = Vec::new();
        let m = self.links.len();
        let mut j: usize = 0;
        assert(self.links@.take(0) =~= Seq::<CreatorLink>::empty());
        assert(r@.map_values(|s: TreeSummary| s@) =~= Seq::<TreeSummaryView>::empty());
        while j < m
            invariant
                m == self.links@.len(),
                j <= m,
                store == self@,
                r@.map_values(|s: TreeSummary| s@) == store.summaries(
                    spec_linked_ids(self.links@.take(j as int), creator@),
                ),
            decreases m - j,
        {
            let ghost before = r@.map_values(|s: TreeSummary| s@);
            proof {
                lemma_linked_ids_push(self.links@.take(j as int), self.links@[j as int], creator@);
                assert(self.links@.take(j as int).push(self.links@[j as int]) =~= self.links@.take(
                    j + 1,
                ));
            }
            if str_eq(self.links[j].creator.as_str(), creator) {
                let ghost ids_j = spec_linked_ids(self.links@.take(j as int), creator@);
                let ghost id = self.links@[j as int].tree_id@;
                assert(ids_j.push(id).drop_last() =~= ids_j);
                match self.get(self.links[j].tree_id.as_str()) {
                    Some(t) => {
                        r.push(t.summary());
                        assert(r@.map_values(|s: TreeSummary| s@) =~= before.push(t@.summary()));
                    },
                    None => {},
                }
            }
            j = j + 1;
        }
        assert(self.links@.take(m as int) =~= self.links@);
        r
    }
}

/// What a client is told about a tree is that tree's own identity, name, creator, root,
/// leaf count and depth; for a tree as building makes it, the leaf count counts its
/// addresses and the depth is that of a Merkle tree over that many leaves.
pub proof fn lemma_summary_reports_tree(t: StoredTreeView)
    ensures
        ({
            let s = t.summary();
            &&& s.tree_id == t.tree_id
            &&& s.name == t.name
            &&& s.campaign_creator_address == t.campaign_creator_address
            &&& s.root == t.root
            &&& s.leaf_count == t.leaf_count
            &&& s.depth == t.depth
            &&& tree_well_formed(t) ==> s.leaf_count == t.leaf_addresses.len() && s.depth
                == spec_merkle_depth(s.leaf_count as nat) as usize
        }),
{
}

/// Answers a health check.
pub fn health() -> (r: HealthResponse)
    ensures
        r.status@ == "ok"@,
{
    HealthResponse { status: "ok" }
}

/// Stores a built tree and returns its summary.
pub fn store_tree(store: &mut TreeStore, tree: StoredTree) -> (r: TreeSummary)
    requires
        tree_well_formed(tree@),
    ensures
        r@ == tree@.summary(),
        final(store)@ == old(store)@.insert_tree(tree@),
{
    let summary = tree.summary();
    store.insert_tree(tree);
    summary
}

/// Builds the tree that `payload` asks for under a fresh identifier, stores it, and returns
/// its summary; or refuses the request and leaves the store as it was.
pub fn create_tree(store: &mut TreeStore, payload: CreateTreeRequest) -> (r: Result<
    TreeSummary,
    AppError,
>)
    ensures
        match spec_check_tree_request(payload@) {
            Err(e) => (r matches Err(x) && x@ == e) && final(store)@ == old(store)@,
            Ok(c) => (r matches Ok(s) && spec_merkle_root(spec_leaf_hashes(c.1)) matches Some(root)
                && s@ == spec_stored_tree(payload@, c, root, s.tree_id@).summary()
                && spec_is_uuid_v4_text(s.tree_id@) && final(store)@ == old(store)@.insert_tree(
                spec_stored_tree(payload@, c, root, s.tree_id@),
            )),
        },
        r is Ok <==> spec_tree_request_valid(payload@),
        r matches Ok(s) ==> s.leaf_count == payload@.leaf_addresses.len() && s.depth
            == spec_merkle_depth(s.leaf_count as nat) as usize,
        r matches Ok(s) ==> final(store)@.trees.contains_key(s.tree_id@) && final(store)@.trees[s.tree_id@].summary()
            == s@,
        r matches Ok(s) ==> (spec_merkle_root(final(store)@.trees[s.tree_id@].leaves) matches Some(h)
            && s.root@ == seq!['0', 'x'] + spec_lower_hex(h)),
{
    let ghost req = payload@;
    let leaf_count = payload.leaf_addresses.len();
    assert(req.leaf_addresses.len() == leaf_count);
    let stored_tree = match build_stored_tree(payload) {
        Ok(t) => t,
        Err(e) => return Err(e),
    };
    proof {
        let c = spec_check_tree_request(req)->Ok_0;
        let root = spec_merkle_root(spec_leaf_hashes(c.1))->Some_0;
        lemma_stored_tree_shape(req, c, root, stored_tree@.tree_id);
    }
    Ok(store_tree(store, stored_tree))
}

/// The summary of the tree stored under `tree_id`.
pub fn get_tree(store: &TreeStore, tree_id: &str) -> (r: Result<TreeSummary, AppError>)
    ensures
        store@.trees.contains_key(tree_id@) ==> (r matches Ok(s) && s@ == store@.trees[tree_id@].summary()),
        !store@.trees.contains_key(tree_id@) ==> (r matches Err(e) && e@ == (ErrorView {
            kind: ErrorKind::NotFound,
            message: "tree not found: "@ + tree_id@,
        })),
        r matches Ok(s) ==> s.tree_id@ == tree_id@ && s.leaf_count
            == store@.trees[tree_id@].leaf_addresses.len() && s.depth == spec_merkle_depth(
            s.leaf_count as nat,
        ) as usize,
{
    proof {
        use_type_invariant(store);
        if spec_latest_tree(store.trees@, tree_id@) is Some {
            lemma_latest_tree_is_stored(store.trees@, tree_id@);
        }
    }
    match store.get(tree_id) {
        Some(t) => Ok(t.summary()),
        None => Err(AppError::not_found(concat("tree not found: ", tree_id))),
    }
}

/// The first position of `x` in `s`, when there is one, lies within `s`, holds `x`, and no
/// position before it does; when there is none, no position of `s` holds `x`.
pub proof fn lemma_position_bounds(s: Seq<Seq<char>>, x: Seq<char>)
    ensures
        spec_position(s, x) matches Some(i) ==> 0 <= i < s.len() && s[i] == x && forall|j: int|
            0 <= j < i ==> s[j] != x,
        spec_position(s, x) is None ==> forall|j: int| 0 <= j < s.len() ==> s[j] != x,
    decreases s.len(),
{
    if s.len() > 0 {
        lemma_position_bounds(s.drop_last(), x);
        assert forall|j: int| 0 <= j < s.len() - 1 implies s[j] == s.drop_last()[j] by {}
    }
}

/// The Merkle proof that `leaf_address` is a leaf of the tree stored under `tree_id`.
pub fn get_tree_proof(store: &TreeStore, tree_id: &str, leaf_address: &str) -> (r: Result<
    ProofResponse,
    AppError,
>)
    ensures
        match spec_normalize_address(leaf_address@) {
            Err(m) => (r matches Err(e) && e@ == (ErrorView { kind: ErrorKind::BadRequest, message: m })),
            Ok(a) => if store@.trees.contains_key(tree_id@) {
                match spec_build_proof_response(store@.trees[tree_id@], a) {
                    Err(e) => (r matches Err(x) && x@ == e),
                    Ok(p) => (r matches Ok(x) && x@ == p),
                }
            } else {
                (r matches Err(e) && e@ == (ErrorView {
                    kind: ErrorKind::NotFound,
                    message: "tree not found: "@ + tree_id@,
                }))
            },
        },
        r matches Ok(p) ==> p.verified && p.path.len() <= store@.trees[tree_id@].depth,
{
    let normalized_leaf_address = match normalize_address(leaf_address) {
        Ok(a) => a,
        Err(e) => return Err(e),
    };
    let tree = match store.get(tree_id) {
        Some(t) => t,
        None => return Err(AppError::not_found(concat("tree not found: ", tree_id))),
    };
    proof {
        use_type_invariant(store);
        lemma_latest_tree_is_stored(store.trees@, tree_id@);
        lemma_position_bounds(tree@.leaf_addresses, normalized_leaf_address@);
    }
    build_proof_response(tree, normalized_leaf_address.as_str())
}

/// The trees of the campaign creator `campaign_creator_address`, in the order they were
/// stored, after the address is normalized.
pub fn list_creator_trees(store: &TreeStore, campaign_creator_address: &str) -> (r: Result<
    CreatorTreesResponse,
    AppError,
>)
    ensures
        match spec_normalize_address(campaign_creator_address@) {
            Err(m) => (r matches Err(e) && e@ == (ErrorView { kind: ErrorKind::BadRequest, message: m })),
            Ok(c) => (r matches Ok(x) && x.campaign_creator_address@ == c
                && x.trees@.map_values(|s: TreeSummary| s@) == store@.creator_summaries(c)),
        },
{
    let normalized_creator = match normalize_address(campaign_creator_address) {
        Ok(a) => a,
        Err(e) => return Err(e),
    };
    let trees = store.creator_summaries(normalized_creator.as_str());
    Ok(CreatorTreesResponse { campaign_creator_address: normalized_creator, trees })
}


/// Whether `x` is how addresses are written after normalization: `0x` and 40 hex digits in
/// lower case.
pub open spec fn spec_is_normalized_address(x: Seq<char>) -> bool {
    &&& x.len() == 42
    &&& x[0] == '0'
    &&& x[1] == 'x'
    &&& forall|i: int| 2 <= i < 42 ==> ('0' <= #[trigger] x[i] && x[i] <= '9') || ('a' <= x[i] && x[i]
        <= 'f')
}

/// A normalized address is `0x` followed by 40 lower-case hex digits.
pub proof fn lemma_normalized_address_shape(address: Seq<char>)
    requires
        address.len() <= usize::MAX,
        spec_normalize_address(address) is Ok,
    ensures
        spec_is_normalized_address(spec_normalize_address(address)->Ok_0),
{
    let t = spec_trim(address);
    let x = spec_normalize_address(address)->Ok_0;
    if !is_ascii_chars(t) {
        let k = choose|k: int| 0 <= k < t.len() && !('\0' <= #[trigger] t[k] && t[k] <= '\u{7f}');
        assert(k >= 2);
        assert(spec_is_hex_digit(t[k]));
    }
    is_ascii_chars_encode_utf8(t);
    lemma_trim_len(address);
    assert(t.len() == 42);
    assert forall|i: int| 2 <= i < 42 implies ('0' <= #[trigger] x[i] && x[i] <= '9') || ('a' <= x[i]
        && x[i] <= 'f') by {
        assert(x[i] == spec_ascii_lower(t[i]));
        assert(spec_is_hex_digit(t[i]));
    }
}

proof fn lemma_trim_normalized(x: Seq<char>)
    requires
        spec_is_normalized_address(x),
    ensures
        spec_trim(x) == x,
{
    assert(!spec_is_whitespace(x[0]));
    assert(spec_trim_start(x) == x);
    assert(x.last() == x[41]);
    assert(!spec_is_whitespace(x[41]));
    assert(spec_trim_end(x) == x);
}

/// Normalizing an address that is already normalized changes nothing.
pub proof fn lemma_normalize_address_idempotent(address: Seq<char>)
    requires
        address.len() <= usize::MAX,
        spec_normalize_address(address) is Ok,
    ensures
        spec_normalize_address(spec_normalize_address(address)->Ok_0) == spec_normalize_address(
            address,
        ),
{
    let x = spec_normalize_address(address)->Ok_0;
    lemma_normalized_address_shape(address);
    lemma_trim_normalized(x);
    assert(is_ascii_chars(x));
    is_ascii_chars_encode_utf8(x);
    assert(spec_address_format_ok(x));
    assert(spec_address_digits_ok(x));
    assert(x.skip(2).map_values(|c: char| spec_ascii_lower(c)) =~= x.skip(2));
    assert(seq!['0', 'x'] + x.skip(2) =~= x);
}

/// A normalized list has one entry per address, each the normalized form of the address at
/// the same position, and no entry twice.
pub proof fn lemma_normalized_addresses_distinct(addresses: Seq<Seq<char>>)
    requires
        spec_normalize_addresses(addresses) is Ok,
    ensures
        ({
            let v = spec_normalize_addresses(addresses)->Ok_0;
            &&& v.len() == addresses.len()
            &&& forall|i: int| 0 <= i < v.len() ==> spec_normalize_address(#[trigger] addresses[i])
                == Ok::<Seq<char>, Seq<char>>(v[i])
            &&& forall|i: int, j: int| 0 <= i < j < v.len() ==> v[i] != v[j]
        }),
    decreases addresses.len(),
{
    if addresses.len() > 0 {
        let prev = addresses.drop_last();
        lemma_normalized_addresses_distinct(prev);
        let done = spec_normalize_addresses(prev)->Ok_0;
        let v = spec_normalize_addresses(addresses)->Ok_0;
        assert forall|i: int| 0 <= i < v.len() implies spec_normalize_address(#[trigger] addresses[i])
            == Ok::<Seq<char>, Seq<char>>(v[i]) by {
            if i < prev.len() {
                assert(addresses[i] == prev[i]);
            }
        }
        assert forall|i: int, j: int| 0 <= i < j < v.len() implies v[i] != v[j] by {
            if j == v.len() - 1 {
                assert(done[i] == v[i]);
                assert(done.contains(v[i]));
            }
        }
    }
}

/// Two to the power `k`.
pub open spec fn spec_pow2(k: nat) -> nat
    decreases k,
{
    if k == 0 {
        1
    } else {
        2 * spec_pow2((k - 1) as nat)
    }
}

proof fn lemma_pow2_bit_length(x: nat)
    requires
        x > 0,
    ensures
        spec_bit_length(x) >= 1,
        spec_pow2((spec_bit_length(x) - 1) as nat) <= x,
        x < spec_pow2(spec_bit_length(x)),
    decreases x,
{
    let b = spec_bit_length(x);
    assert(b == 1 + spec_bit_length(x / 2));
    if x / 2 > 0 {
        lemma_pow2_bit_length(x / 2);
        let c = spec_bit_length(x / 2);
        assert(b - 1 == c);
        assert(spec_pow2(b) == 2 * spec_pow2(c));
        assert(spec_pow2((b - 1) as nat) == 2 * spec_pow2((c - 1) as nat));
    } else {
        assert(spec_bit_length(0) == 0);
        assert(b == 1);
        assert(spec_pow2(1) == 2 * spec_pow2(0));
    }
}

/// For two or more leaves, the depth is the least `d` with `leaf_count <= 2^d`.
pub proof fn lemma_merkle_depth_bounds(leaf_count: nat)
    requires
        leaf_count >= 2,
    ensures
        spec_pow2((spec_merkle_depth(leaf_count) - 1) as nat) < leaf_count,
        leaf_count <= spec_pow2(spec_merkle_depth(leaf_count)),
        spec_merkle_depth(leaf_count) >= 1,
{
    lemma_pow2_bit_length((leaf_count - 1) as nat);
}

impl TreeStoreView {
    /// Every tree identifier listed for a creator is held by the store.
    pub open spec fn links_held(self) -> bool {
        forall|c: Seq<char>, i: int|
            0 <= i < self.tree_ids_of(c).len() ==> self.trees.contains_key(
                #[trigger] self.tree_ids_of(c)[i],
            )
    }
}

/// After a tree is stored, the store gives it back under its identifier, and the other
/// identifiers still give what they gave before.
pub proof fn lemma_get_after_insert(store: TreeStoreView, t: StoredTreeView, id: Seq<char>)
    ensures
        store.insert_tree(t).trees.contains_key(t.tree_id),
        store.insert_tree(t).trees[t.tree_id] == t,
        id != t.tree_id ==> store.insert_tree(t).trees.contains_key(id) == store.trees.contains_key(id),
        id != t.tree_id && store.trees.contains_key(id) ==> store.insert_tree(t).trees[id]
            == store.trees[id],
{
}

proof fn lemma_summaries_fresh(store: TreeStoreView, t: StoredTreeView, ids: Seq<Seq<char>>)
    requires
        !ids.contains(t.tree_id),
    ensures
        store.insert_tree(t).summaries(ids) == store.summaries(ids),
    decreases ids.len(),
{
    if ids.len() > 0 {
        assert(!ids.drop_last().contains(t.tree_id)) by {
            if ids.drop_last().contains(t.tree_id) {
                let k = choose|k: int| 0 <= k < ids.drop_last().len() && ids.drop_last()[k] == t.tree_id;
                assert(ids[k] == t.tree_id);
            }
        }
        assert(ids.last() != t.tree_id) by {
            assert(ids[ids.len() - 1] == ids.last());
        }
        lemma_summaries_fresh(store, t, ids.drop_last());
    }
}

/// Storing a tree under an identifier the store does not hold yet keeps the store's
/// links held, appends the tree's summary to its creator's list, and leaves every other
/// creator's list as it was.
pub proof fn lemma_list_after_insert(store: TreeStoreView, t: StoredTreeView, c: Seq<char>)
    requires
        store.links_held(),
        !store.trees.contains_key(t.tree_id),
    ensures
        store.insert_tree(t).links_held(),
        store.insert_tree(t).creator_summaries(t.campaign_creator_address) == store.creator_summaries(
            t.campaign_creator_address,
        ).push(t.summary()),
        c != t.campaign_creator_address ==> store.insert_tree(t).creator_summaries(c)
            == store.creator_summaries(c),
{
    let after = store.insert_tree(t);
    assert forall|x: Seq<char>| !(#[trigger] store.tree_ids_of(x)).contains(t.tree_id) by {
        if store.tree_ids_of(x).contains(t.tree_id) {
            let k = choose|k: int| 0 <= k < store.tree_ids_of(x).len() && store.tree_ids_of(x)[k]
                == t.tree_id;
            assert(store.trees.contains_key(store.tree_ids_of(x)[k]));
        }
    }
    let own = store.tree_ids_of(t.campaign_creator_address);
    assert(after.tree_ids_of(t.campaign_creator_address) == own.push(t.tree_id));
    lemma_summaries_fresh(store, t, own);
    assert(own.push(t.tree_id).drop_last() =~= own);
    if c != t.campaign_creator_address {
        assert(after.tree_ids_of(c) == store.tree_ids_of(c));
        lemma_summaries_fresh(store, t, store.tree_ids_of(c));
    }
    assert forall|x: Seq<char>, i: int| 0 <= i < after.tree_ids_of(x).len() implies after.trees.contains_key(
        #[trigger] after.tree_ids_of(x)[i],
    ) by {
        if x != t.campaign_creator_address {
            assert(after.tree_ids_of(x) == store.tree_ids_of(x));
        } else if i < own.len() {
            assert(after.tree_ids_of(x)[i] == own[i]);
        }
    }
}

} // verus!
