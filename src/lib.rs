//! Finds repositories whose recent public activity suggests smart-contract
//! work, and tells which of them declare a Hardhat or Foundry configuration.
//!
//! The library holds the decisions: repository-name shape, keyword matching,
//! local evidence of build-tool files, the merge of per-shard evidence, the
//! retry and rate-limit rules of remote checks, and shard naming.
pub mod names;
pub mod lexicon;
pub mod json;
pub mod record;
pub mod classify;
pub mod text;
pub mod remote;
pub mod shard;
