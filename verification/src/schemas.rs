//! The binary layouts that the indexer recognises inside witnesses and lock
//! script arguments.

pub mod blockchain;
pub mod rgbpp;
