//! Event indexer for smart-contract events emitted on the Tezos chain.
//!
//! The library holds the indexer's configuration and the decisions of its
//! synchronisation loop: which events of a block are kept, how they are turned
//! into database rows and broadcast messages, which block comes next and how
//! long to wait in between.

pub mod block;
pub mod config;
pub mod model;
pub mod sync;
