use zus::api_error::ErrorKind;
use rs_merkle::algorithms::Sha256;
use rs_merkle::Hasher;
use zus::hashing::sha256;
use zus::merkle::{
    proof_response_from_parts, stored_tree_from_parts, build_proof_response, build_stored_tree, build_stored_tree_with_id, create_tree, get_tree,
    get_tree_proof, health, hex_with_prefix, list_creator_trees, merkle_depth, normalize_address,
    normalize_addresses, store_tree, TreeStore,
};
use zus::tree_types::CreateTreeRequest;

fn sample_request() -> CreateTreeRequest {
    CreateTreeRequest {
        name: "allowlist".to_string(),
        campaign_creator_address: "0xaAaAaAaaAaAaAaaAaAAAAAAAAaaaAaAaAaaAaaAa".to_string(),
        leaf_addresses: vec![
            "0x0000000000000000000000000000000000000001".to_string(),
            "0x0000000000000000000000000000000000000002".to_string(),
            "0x0000000000000000000000000000000000000003".to_string(),
        ],
    }
}

#[test]
fn creates_a_tree_with_creator_metadata() {
    let tree = build_stored_tree(sample_request()).expect("tree should build");

    assert_eq!(tree.name, "allowlist");
    assert_eq!(
        tree.campaign_creator_address,
        "0xaaaaaaaaaaaaaaaaaaaaaaaaaaaaaaaaaaaaaaaa"
    );
    assert_eq!(tree.leaf_count, 3);
    assert_eq!(tree.depth, 2);
}

#[test]
fn builds_index_path_and_root_for_a_stored_tree() {
    let tree = build_stored_tree(sample_request()).expect("tree should build");
    let proof = build_proof_response(&tree, "0x0000000000000000000000000000000000000002")
        .expect("proof should build");

    assert_eq!(proof.index, 1);
    assert_eq!(proof.root, tree.root);
    assert!(proof.verified);
    assert!(!proof.path.is_empty());
}

#[test]
fn rejects_duplicate_addresses_after_normalization() {
    let request = CreateTreeRequest {
        name: "allowlist".to_string(),
        campaign_creator_address: "0xaAaAaAaaAaAaAaaAaAAAAAAAAaaaAaAaAaaAaaAa".to_string(),
        leaf_addresses: vec![
            "0xabcdef0000000000000000000000000000001234".to_string(),
            "0xABCDEF0000000000000000000000000000001234".to_string(),
        ],
    };

    let error = build_stored_tree(request).expect_err("duplicates should be rejected");
    assert_eq!(error.status_code(), 400);
}

#[test]
fn normalize_address_trims_and_lowercases() {
    let a = normalize_address("  0xABCDEF0000000000000000000000000000001234\n").unwrap();
    assert_eq!(a, "0xabcdef0000000000000000000000000000001234");
}

#[test]
fn normalize_address_is_idempotent() {
    let a = normalize_address("0xAbCdEf0000000000000000000000000000001234").unwrap();
    let b = normalize_address(&a).unwrap();
    assert_eq!(a, b);
}

#[test]
fn normalize_address_rejects_bad_format() {
    let e = normalize_address("0x1234").unwrap_err();
    assert_eq!(e.kind, ErrorKind::BadRequest);
    assert_eq!(e.message, "invalid Ethereum address format: 0x1234");
    let e = normalize_address("1xabcdef0000000000000000000000000000001234").unwrap_err();
    assert_eq!(
        e.message,
        "invalid Ethereum address format: 1xabcdef0000000000000000000000000000001234"
    );
}

#[test]
fn normalize_address_rejects_bad_hex() {
    let e = normalize_address("0xabcdeg0000000000000000000000000000001234").unwrap_err();
    assert_eq!(e.status_code(), 400);
    assert_eq!(
        e.message,
        "invalid Ethereum address hex: 0xabcdeg0000000000000000000000000000001234"
    );
}

#[test]
fn normalize_address_counts_bytes_for_the_format_check() {
    // 41 characters but 42 bytes: passes the length check, fails the hex check.
    let addr = "0xé00000000000000000000000000000000000000";
    assert_eq!(addr.chars().count(), 41);
    assert_eq!(addr.len(), 42);
    let e = normalize_address(addr).unwrap_err();
    assert!(e.message.starts_with("invalid Ethereum address hex: "));
}

#[test]
fn normalize_addresses_reports_duplicate() {
    let input = vec![
        "0xabcdef0000000000000000000000000000001234".to_string(),
        "0xABCDEF0000000000000000000000000000001234".to_string(),
    ];
    let e = normalize_addresses(&input).unwrap_err();
    assert_eq!(
        e.message,
        "duplicate address found: 0xabcdef0000000000000000000000000000001234"
    );
}

#[test]
fn normalize_addresses_keeps_order() {
    let input = vec![
        "0x00000000000000000000000000000000000000BB".to_string(),
        "0x00000000000000000000000000000000000000aa".to_string(),
    ];
    let out = normalize_addresses(&input).unwrap();
    assert_eq!(
        out,
        vec![
            "0x00000000000000000000000000000000000000bb".to_string(),
            "0x00000000000000000000000000000000000000aa".to_string(),
        ]
    );
}

#[test]
fn merkle_depth_values() {
    assert_eq!(merkle_depth(0), 0);
    assert_eq!(merkle_depth(1), 0);
    assert_eq!(merkle_depth(2), 1);
    assert_eq!(merkle_depth(3), 2);
    assert_eq!(merkle_depth(4), 2);
    assert_eq!(merkle_depth(5), 3);
    assert_eq!(merkle_depth(1024), 10);
    assert_eq!(merkle_depth(1025), 11);
}

#[test]
fn hex_with_prefix_prepends_0x() {
    assert_eq!(hex_with_prefix("beef"), "0xbeef");
    assert_eq!(hex_with_prefix(""), "0x");
}

#[test]
fn health_is_ok() {
    assert_eq!(health().status, "ok");
}

#[test]
fn tree_request_errors() {
    let mut r = sample_request();
    r.name = "   ".to_string();
    let e = build_stored_tree_with_id(r, "id".to_string()).unwrap_err();
    assert_eq!(e.message, "`name` must not be empty");
    assert_eq!(e.status_code(), 400);

    let mut r = sample_request();
    r.leaf_addresses.clear();
    let e = build_stored_tree_with_id(r, "id".to_string()).unwrap_err();
    assert_eq!(
        e.message,
        "`leaf_addresses` must contain at least one Ethereum address"
    );

    let mut r = sample_request();
    r.campaign_creator_address = "nope".to_string();
    let e = build_stored_tree_with_id(r, "id".to_string()).unwrap_err();
    assert_eq!(e.message, "invalid Ethereum address format: nope");
}

#[test]
fn stored_tree_fields_and_root() {
    let tree = build_stored_tree_with_id(sample_request(), "tree-1".to_string()).unwrap();
    assert_eq!(tree.tree_id, "tree-1");
    assert_eq!(tree.leaves.len(), 3);
    // The first leaf is the SHA-256 of the address's UTF-8 bytes.
    let first = hex::encode(tree.leaves[0]);
    assert_eq!(first.len(), 64);
    assert_ne!(tree.leaves[0], tree.leaves[1]);
    assert!(tree.root.starts_with("0x"));
    assert_eq!(tree.root.len(), 66);
    // The same request gives the same root.
    let again = build_stored_tree_with_id(sample_request(), "tree-2".to_string()).unwrap();
    assert_eq!(again.root, tree.root);
    assert_eq!(again.leaves, tree.leaves);
}

#[test]
fn single_leaf_tree_has_depth_zero_and_root_is_leaf() {
    let r = CreateTreeRequest {
        name: "one".to_string(),
        campaign_creator_address: "0x0000000000000000000000000000000000000009".to_string(),
        leaf_addresses: vec!["0x0000000000000000000000000000000000000001".to_string()],
    };
    let tree = build_stored_tree_with_id(r, "t".to_string()).unwrap();
    assert_eq!(tree.depth, 0);
    assert_eq!(tree.root, format!("0x{}", hex::encode(tree.leaves[0])));
}

#[test]
fn proof_for_missing_leaf_is_not_found() {
    let tree = build_stored_tree_with_id(sample_request(), "t".to_string()).unwrap();
    let e = build_proof_response(&tree, "0x0000000000000000000000000000000000000009").unwrap_err();
    assert_eq!(e.status_code(), 404);
    assert_eq!(
        e.message,
        "leaf address not found in tree: 0x0000000000000000000000000000000000000009"
    );
}

#[test]
fn proof_fields() {
    let tree = build_stored_tree_with_id(sample_request(), "t".to_string()).unwrap();
    let proof = build_proof_response(&tree, "0x0000000000000000000000000000000000000003").unwrap();
    assert_eq!(proof.index, 2);
    assert_eq!(proof.tree_id, "t");
    assert_eq!(proof.leaf_hash, format!("0x{}", hex::encode(tree.leaves[2])));
    assert!(proof.path.iter().all(|p| p.starts_with("0x") && p.len() == 66));
    assert!(proof.verified);
}

#[test]
fn store_get_after_create() {
    let mut store = TreeStore::new();
    let summary = create_tree(&mut store, sample_request()).unwrap();
    assert_eq!(summary.tree_id.len(), 36);
    assert_eq!(summary.hash_algorithm, "sha256");
    assert_eq!(summary.leaf_encoding, "normalized_address_string_utf8");
    let got = get_tree(&store, &summary.tree_id).unwrap();
    assert_eq!(got.tree_id, summary.tree_id);
    assert_eq!(got.root, summary.root);
    assert_eq!(got.leaf_count, 3);
}

#[test]
fn store_get_unknown_tree() {
    let store = TreeStore::new();
    let e = get_tree(&store, "missing").unwrap_err();
    assert_eq!(e.status_code(), 404);
    assert_eq!(e.message, "tree not found: missing");
}

#[test]
fn store_refused_create_leaves_store_unchanged() {
    let mut store = TreeStore::new();
    let mut r = sample_request();
    r.name = String::new();
    assert!(create_tree(&mut store, r).is_err());
    let list = list_creator_trees(&store, "0xaaaaaaaaaaaaaaaaaaaaaaaaaaaaaaaaaaaaaaaa").unwrap();
    assert!(list.trees.is_empty());
}

#[test]
fn store_lists_creator_trees_in_order() {
    let mut store = TreeStore::new();
    let a = create_tree(&mut store, sample_request()).unwrap();
    let mut other = sample_request();
    other.campaign_creator_address = "0x00000000000000000000000000000000000000cc".to_string();
    let b = create_tree(&mut store, other).unwrap();
    let mut second = sample_request();
    second.name = "second".to_string();
    let c = create_tree(&mut store, second).unwrap();

    let list = list_creator_trees(&store, "  0xAAAAAAAAAAAAAAAAAAAAAAAAAAAAAAAAAAAAAAAA ").unwrap();
    assert_eq!(
        list.campaign_creator_address,
        "0xaaaaaaaaaaaaaaaaaaaaaaaaaaaaaaaaaaaaaaaa"
    );
    let ids: Vec<&str> = list.trees.iter().map(|t| t.tree_id.as_str()).collect();
    assert_eq!(ids, vec![a.tree_id.as_str(), c.tree_id.as_str()]);
    let others = list_creator_trees(&store, "0x00000000000000000000000000000000000000CC").unwrap();
    assert_eq!(others.trees.len(), 1);
    assert_eq!(others.trees[0].tree_id, b.tree_id);
}

#[test]
fn store_list_rejects_bad_creator() {
    let store = TreeStore::new();
    let e = list_creator_trees(&store, "0xzz").unwrap_err();
    assert_eq!(e.status_code(), 400);
}

#[test]
fn store_proof_flow() {
    let mut store = TreeStore::new();
    let s = create_tree(&mut store, sample_request()).unwrap();
    let p = get_tree_proof(&store, &s.tree_id, "0x0000000000000000000000000000000000000001").unwrap();
    assert_eq!(p.index, 0);
    assert!(p.verified);
    assert_eq!(p.root, s.root);
    let e = get_tree_proof(&store, "nope", "0x0000000000000000000000000000000000000001").unwrap_err();
    assert_eq!(e.status_code(), 404);
    let e = get_tree_proof(&store, &s.tree_id, "garbage").unwrap_err();
    assert_eq!(e.status_code(), 400);
}

#[test]
fn internal_error_status() {
    let e = zus::api_error::AppError::internal("x".to_string());
    assert_eq!(e.status_code(), 500);
}

#[test]
fn sha256_of_known_text() {
    assert_eq!(
        hex::encode(sha256(b"abc")),
        "ba7816bf8f01cfea414140de5dae2223b00361a396177a9cb410ff61f20015ad"
    );
}

#[test]
fn leaves_are_hashes_of_address_bytes() {
    let tree = build_stored_tree_with_id(sample_request(), "t".to_string()).unwrap();
    for (leaf, address) in tree.leaves.iter().zip(tree.leaf_addresses.iter()) {
        assert_eq!(*leaf, Sha256::hash(address.as_bytes()));
    }
}

#[test]
fn stored_tree_from_parts_cases() {
    let e = stored_tree_from_parts(
        "id".to_string(),
        "n",
        "0xc".to_string(),
        vec!["a".to_string()],
        vec![[0u8; 32]],
        None,
        1,
    )
    .unwrap_err();
    assert_eq!(e.status_code(), 500);
    assert_eq!(e.message, "failed to compute the merkle root");
    let t = stored_tree_from_parts(
        "id".to_string(),
        "n",
        "0xc".to_string(),
        vec!["a".to_string(), "b".to_string(), "c".to_string()],
        vec![[0u8; 32], [1u8; 32], [2u8; 32]],
        Some("ab".to_string()),
        3,
    )
    .unwrap();
    assert_eq!(t.root, "0xab");
    assert_eq!(t.depth, 2);
    assert_eq!(t.leaf_count, 3);
}

#[test]
fn proof_response_from_parts_prefixes_hashes() {
    let tree = build_stored_tree_with_id(sample_request(), "t".to_string()).unwrap();
    let p = proof_response_from_parts(
        &tree,
        "0xabc",
        5,
        "ff".to_string(),
        vec!["01".to_string(), "02".to_string()],
        false,
    );
    assert_eq!(p.leaf_hash, "0xff");
    assert_eq!(p.path, vec!["0x01".to_string(), "0x02".to_string()]);
    assert_eq!(p.index, 5);
    assert_eq!(p.root, tree.root);
    assert!(!p.verified);
}

#[test]
fn fresh_tree_ids_have_the_hyphenated_uuid_form() {
    let mut store = TreeStore::new();
    let s = create_tree(&mut store, sample_request()).unwrap();
    let id: Vec<char> = s.tree_id.chars().collect();
    assert_eq!(id.len(), 36);
    for (i, c) in id.iter().enumerate() {
        if i == 8 || i == 13 || i == 18 || i == 23 {
            assert_eq!(*c, '-');
        } else {
            assert!(c.is_ascii_digit() || ('a'..='f').contains(c));
        }
    }
    assert_eq!(id[14], '4');
}

#[test]
fn store_tree_keeps_a_built_tree() {
    let mut store = TreeStore::new();
    let tree = build_stored_tree_with_id(sample_request(), "kept".to_string()).unwrap();
    let root = tree.root.clone();
    let summary = store_tree(&mut store, tree);
    assert_eq!(summary.tree_id, "kept");
    assert_eq!(summary.root, root);
    assert_eq!(get_tree(&store, "kept").unwrap().root, root);
}

#[test]
fn every_stored_leaf_has_a_proof_that_checks() {
    let tree = build_stored_tree_with_id(sample_request(), "t".to_string()).unwrap();
    for (i, address) in tree.leaf_addresses.iter().enumerate() {
        let p = build_proof_response(&tree, address).unwrap();
        assert_eq!(p.index, i);
        assert!(p.verified);
        assert_eq!(p.root, tree.root);
    }
}

#[test]
fn valid_requests_of_any_size_are_accepted() {
    for n in 1..=9u8 {
        let leaf_addresses = (1..=n)
            .map(|k| format!("0x{:040x}", k))
            .collect::<Vec<String>>();
        let r = CreateTreeRequest {
            name: " list ".to_string(),
            campaign_creator_address: "0x00000000000000000000000000000000000000AA".to_string(),
            leaf_addresses,
        };
        let tree = build_stored_tree_with_id(r, "t".to_string()).expect("valid request");
        assert_eq!(tree.name, "list");
        assert_eq!(tree.leaf_count, n as usize);
        assert_eq!(tree.root.len(), 66);
    }
}

#[test]
fn proof_paths_are_no_longer_than_the_depth() {
    for n in 1..=9u8 {
        let leaf_addresses = (1..=n)
            .map(|k| format!("0x{:040x}", k))
            .collect::<Vec<String>>();
        let r = CreateTreeRequest {
            name: "paths".to_string(),
            campaign_creator_address: "0x00000000000000000000000000000000000000AA".to_string(),
            leaf_addresses: leaf_addresses.clone(),
        };
        let tree = build_stored_tree_with_id(r, "t".to_string()).unwrap();
        for address in &leaf_addresses {
            let p = build_proof_response(&tree, address).unwrap();
            assert!(p.path.len() <= tree.depth);
            assert_eq!(p.path.is_empty(), n == 1);
            assert!(p.verified);
        }
    }
}

#[test]
fn proof_on_a_tree_without_leaf_hashes_is_an_internal_error() {
    let mut tree = build_stored_tree_with_id(sample_request(), "t".to_string()).unwrap();
    tree.leaves.clear();
    let e = build_proof_response(&tree, "0x0000000000000000000000000000000000000002").unwrap_err();
    assert_eq!(e.status_code(), 500);
    assert_eq!(e.message, "failed to load the merkle root from the tree");
    let e = build_proof_response(&tree, "0x0000000000000000000000000000000000000009").unwrap_err();
    assert_eq!(e.status_code(), 404);
}
