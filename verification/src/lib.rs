//! Client-side pipeline for provisioning fungible-token resources on a
//! shared ledger: computing the storage footprint of a resource with
//! optional extensions, building and sequencing the protocol operations
//! that create and initialize it, driving a poll-based funding protocol,
//! and decoding resources read back from the ledger.

pub mod amounts;
pub mod effects;
pub mod errors;
pub mod extensions;
pub mod funder;
pub mod inspect;
pub mod identity;
pub mod assembler;
pub mod metadata;
pub mod operations;
pub mod protocol;
pub mod sizing;
pub mod workflow;
