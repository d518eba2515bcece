//! Extraction of RGB++ lock and unlock structures from confirmed CKB
//! transactions, their content-derived identifiers, and the decisions of the
//! pipeline that stores each of them exactly once.
//!
//! The library does no input or output. `indexer::RgbppIndexer` says what is
//! to be done next, an `Action`, and is told what came of it, an `Event`;
//! `pipeline` states what then comes of a queue of transactions.
//!
//! One thing is taken on trust and not proved: that `ckb_hash::blake2b_256`
//! is a function of the bytes that it hashes and returns 32 bytes, in
//! `identity`.

pub mod layout;
pub mod extractor;
pub mod identity;
pub mod indexer;
pub mod persister;
pub mod pipeline;
pub mod record;
pub mod schemas;
pub mod transaction;
