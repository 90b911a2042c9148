//! Consensus identity and secret configuration for a node: per-role key
//! material, weighted committees, the bootstrap genesis specification, the
//! bundle of secrets that a node is configured with, and the file that the
//! bundle is kept in.

pub mod codec;
pub mod committee;
pub mod genesis;
pub mod keys;
pub mod secrets;
pub mod sensitive;
