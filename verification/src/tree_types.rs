//! The requests and responses of the allowlist service, and the trees it stores.

use vstd::prelude::*;

verus! {

/// The answer to a health check.
#[derive(Debug)]
pub struct HealthResponse {
    pub status: &'static str,
}

/// A request to build a tree: its name, the address of the campaign's creator, and the
/// addresses that make up its leaves.
#[derive(Debug)]
pub struct CreateTreeRequest {
    pub name: String,
    pub campaign_creator_address: String,
    pub leaf_addresses: Vec<String>,
}

/// A tree request as plain values.
pub struct CreateTreeRequestView {
    pub name: Seq<char>,
    pub campaign_creator_address: Seq<char>,
    pub leaf_addresses: Seq<Seq<char>>,
}

impl View for CreateTreeRequest {
    type V = CreateTreeRequestView;

    open spec fn view(&self) -> CreateTreeRequestView {
        CreateTreeRequestView {
            name: self.name@,
            campaign_creator_address: self.campaign_creator_address@,
            leaf_addresses: self.leaf_addresses@.map_values(|a: String| a@),
        }
    }
}

/// What a client is told about a stored tree.
#[derive(Debug, Clone)]
pub struct TreeSummary {
    pub tree_id: String,
    pub name: String,
    pub campaign_creator_address: String,
    pub root: String,
    pub leaf_count: usize,
    pub depth: usize,
    pub hash_algorithm: &'static str,
    pub leaf_encoding: &'static str,
}

/// A tree summary as plain values.
pub struct TreeSummaryView {
    pub tree_id: Seq<char>,
    pub name: Seq<char>,
    pub campaign_creator_address: Seq<char>,
    pub root: Seq<char>,
    pub leaf_count: usize,
    pub depth: usize,
    pub hash_algorithm: Seq<char>,
    pub leaf_encoding: Seq<char>,
}

impl View for TreeSummary {
    type V = TreeSummaryView;

    open spec fn view(&self) -> TreeSummaryView {
        TreeSummaryView {
            tree_id: self.tree_id@,
            name: self.name@,
            campaign_creator_address: self.campaign_creator_address@,
            root: self.root@,
            leaf_count: self.leaf_count,
            depth: self.depth,
            hash_algorithm: self.hash_algorithm@,
            leaf_encoding: self.leaf_encoding@,
        }
    }
}

/// The trees of one campaign creator.
#[derive(Debug)]
pub struct CreatorTreesResponse {
    pub campaign_creator_address: String,
    pub trees: Vec<TreeSummary>,
}

/// The Merkle proof that an address is a leaf of a stored tree.
#[derive(Debug)]
pub struct ProofResponse {
    pub tree_id: String,
    pub name: String,
    pub campaign_creator_address: String,
    pub leaf_address: String,
    pub index: usize,
    pub leaf_hash: String,
    pub path: Vec<String>,
    pub root: String,
    pub verified: bool,
}

/// A proof response as plain values.
pub struct ProofResponseView {
    pub tree_id: Seq<char>,
    pub name: Seq<char>,
    pub campaign_creator_address: Seq<char>,
    pub leaf_address: Seq<char>,
    pub index: usize,
    pub leaf_hash: Seq<char>,
    pub path: Seq<Seq<char>>,
    pub root: Seq<char>,
    pub verified: bool,
}

impl View for ProofResponse {
    type V = ProofResponseView;

    open spec fn view(&self) -> ProofResponseView {
        ProofResponseView {
            tree_id: self.tree_id@,
            name: self.name@,
            campaign_creator_address: self.campaign_creator_address@,
            leaf_address: self.leaf_address@,
            index: self.index,
            leaf_hash: self.leaf_hash@,
            path: self.path@.map_values(|p: String| p@),
            root: self.root@,
            verified: self.verified,
        }
    }
}

/// A tree as the service keeps it.
#[derive(Debug, Clone)]
pub struct StoredTree {
    pub tree_id: String,
    pub name: String,
    pub campaign_creator_address: String,
    pub leaf_addresses: Vec<String>,
    pub leaves: Vec<[u8; 32]>,
    pub root: String,
    pub leaf_count: usize,
    pub depth: usize,
}

/// A stored tree as plain values.
pub struct StoredTreeView {
    pub tree_id: Seq<char>,
    pub name: Seq<char>,
    pub campaign_creator_address: Seq<char>,
    pub leaf_addresses: Seq<Seq<char>>,
    pub leaves: Seq<Seq<u8>>,
    pub root: Seq<char>,
    pub leaf_count: usize,
    pub depth: usize,
}

impl View for StoredTree {
    type V = StoredTreeView;

    open spec fn view(&self) -> StoredTreeView {
        StoredTreeView {
            tree_id: self.tree_id@,
            name: self.name@,
            campaign_creator_address: self.campaign_creator_address@,
            leaf_addresses: self.leaf_addresses@.map_values(|a: String| a@),
            leaves: self.leaves@.map_values(|h: [u8; 32]| h@),
            root: self.root@,
            leaf_count: self.leaf_count,
            depth: self.depth,
        }
    }
}

impl StoredTreeView {
    /// What a client is told about this tree.
    pub open spec fn summary(self) -> TreeSummaryView {
        TreeSummaryView {
            tree_id: self.tree_id,
            name: self.name,
            campaign_creator_address: self.campaign_creator_address,
            root: self.root,
            leaf_count: self.leaf_count,
            depth: self.depth,
            hash_algorithm: "sha256"@,
            leaf_encoding: "normalized_address_string_utf8"@,
        }
    }
}

impl StoredTree {
    /// What a client is told about this tree: its identity, name, creator, root and shape,
    /// and how its leaves were made.
    pub fn summary(&self) -> (r: TreeSummary)
        ensures
            r@ == self@.summary(),
            r.tree_id@ == self.tree_id@,
            r.name@ == self.name@,
            r.campaign_creator_address@ == self.campaign_creator_address@,
            r.root@ == self.root@,
            r.leaf_count == self.leaf_count,
            r.depth == self.depth,
    {
        TreeSummary {
            tree_id: self.tree_id.clone(),
            name: self.name.clone(),
            campaign_creator_address: self.campaign_creator_address.clone(),
            root: self.root.clone(),
            leaf_count: self.leaf_count,
            depth: self.depth,
            hash_algorithm: "sha256",
            leaf_encoding: "normalized_address_string_utf8",
        }
    }
}

} // verus!
