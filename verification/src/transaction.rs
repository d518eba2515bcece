//! A confirmed transaction, as far as the indexer reads it.

use vstd::prelude::*;

verus! {

/// The hash of a transaction.
pub type TxHash = [u8; 32];

/// The reference to an output that an input spends.
#[derive(Clone, Copy, Debug, PartialEq, Eq)]
pub struct OutPoint {
    /// The hash of the transaction that made the output.
    pub tx_hash: TxHash,
    /// The index of the output among that transaction's outputs.
    pub index: u32,
}

/// A confirmed transaction.
#[derive(Clone, Debug, PartialEq, Eq)]
pub struct Transaction {
    /// The hash of the transaction.
    pub hash: TxHash,
    /// The witnesses, in order.
    pub witnesses: Vec<Vec<u8>>,
    /// The outputs that the inputs spend, in the order of the inputs.
    pub inputs: Vec<OutPoint>,
    /// The arguments of the lock script of each output, in order.
    pub outputs: Vec<Vec<u8>>,
}

/// What a `Transaction` holds.
pub struct TransactionView {
    pub hash: Seq<u8>,
    pub witnesses: Seq<Seq<u8>>,
    pub inputs: Seq<OutPoint>,
    pub outputs: Seq<Seq<u8>>,
}

impl View for Transaction {
    type V = TransactionView;

    open spec fn view(&self) -> TransactionView {
        TransactionView {
            hash: self.hash@,
            witnesses: self.witnesses.deep_view(),
            inputs: self.inputs@,
            outputs: self.outputs.deep_view(),
        }
    }
}

} // verus!
