//! Verified core of a decentralised data-ingestion network: the
//! ingestion command queue and staging store, the background worker's
//! verify-on-commit protocol, and the proxy re-encryption engine that
//! protects data between its owner and the custodian staging it.
pub mod data_assets;
pub mod ipfs;
pub mod pre;
pub mod primitives;
pub mod rpc;
