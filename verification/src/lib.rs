//! A cross-chain state-proof-to-authorization pipeline.
//!
//! The crate derives storage-slot keys deterministically, assembles ordered
//! witness bundles from externally supplied inclusion proofs, runs a pure
//! verification-and-message-building transform that emits canonically
//! serialized authorization messages, and models the orchestration cycle
//! that drives a proof through request, proving, on-chain verification and
//! execution, guarded against replay and staleness.
//!
//! Network access, proving engines and chain clients live outside this
//! crate; everything here is pure computation with verified contracts.

pub mod amount;
pub mod bundle;
pub mod bytesfmt;
pub mod circuit;
pub mod config;
pub mod coordinator;
pub mod entry;
pub mod errors;
pub mod hashing;
pub mod hexfmt;
pub mod message;
pub mod proofdata;
pub mod slot_key;
pub mod witness;
