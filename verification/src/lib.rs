//! A minimal proof-of-work blockchain core: a fixed-size block header with a
//! binary wire codec, a double-SHA-256 difficulty predicate, the nonce search
//! that miners run, and the append-only ledger with its acceptance rule.

pub mod agent;
pub mod block_header;
pub mod blockchain;
pub(crate) mod clock;
