//! Block-ingestion core of an execution-layer node: a tree of side chains
//! hanging off the canonical chain, a buffer for blocks whose parent is not
//! known yet, the canonicalization step, and the error taxonomy that every
//! failure path is classified into.
pub mod primitives;
pub mod error;
pub mod tree;
pub mod tree_laws;
pub mod retry;
pub mod keys;
pub mod evm_env;
