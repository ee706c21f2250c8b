//! Zus: wallet command forms for the Foundry `cast` tool and an allowlist
//! service that builds Merkle trees over Ethereum addresses.

pub mod text;
pub mod error;
pub mod types;
pub mod command;
pub mod hashing;
pub mod api_error;
pub mod tree_types;
pub mod merkle;
pub mod keys;
pub mod view;
