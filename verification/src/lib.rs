//! Merkle roots over memory pages: Keccak-256 leaves folded pairwise into a
//! single 32-byte root, and the comparison of that root with an expected one.

pub mod hash;
pub mod input;
pub mod laws;
pub mod merkle;
