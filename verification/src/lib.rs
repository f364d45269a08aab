//! Client-side core of a proof batching service: commitments over
//! verification data, the Merkle batch tree with inclusion proofs,
//! signed client messages, the submission protocol's state machine,
//! and assembly of the on-chain inclusion check's arguments.
pub mod auth;
pub mod errors;
pub mod hash;
pub mod merkle;
pub mod onchain;
pub mod protocol;
pub mod types;
