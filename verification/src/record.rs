//! The rows that the indexer stores: one for each lock structure and one for
//! each unlock structure that it has seen.

use crate::layout::{raw_data, raw_data_of};
use crate::schemas::rgbpp::{
    lock_btc_txid, lock_out_index, unlock_btc_tx, unlock_btc_tx_proof, unlock_input_len,
    unlock_output_len, unlock_version, ExtraCommitmentData, RGBPPLock, RGBPPUnlock,
};
use crate::transaction::TxHash;
use vstd::prelude::*;
use vstd::slice::slice_to_vec;

verus! {

/// A lock structure as it is stored.
#[derive(Clone, Debug, PartialEq, Eq)]
pub struct LockRecord {
    /// The key: the encoding of the lock structure.
    pub lock_id: Vec<u8>,
    /// The index of the bound output.
    pub out_index: u32,
    /// The id of the bound transaction, in display order: the reverse of the
    /// order in which the structure stores it.
    pub btc_txid: Vec<u8>,
    /// The hash of the transaction in which the lock was seen.
    pub tx: Vec<u8>,
}

/// What a `LockRecord` holds.
pub struct LockRow {
    pub lock_id: Seq<u8>,
    pub out_index: int,
    pub btc_txid: Seq<u8>,
    pub tx: Seq<u8>,
}

impl View for LockRecord {
    type V = LockRow;

    open spec fn view(&self) -> LockRow {
        LockRow {
            lock_id: self.lock_id@,
            out_index: self.out_index as int,
            btc_txid: self.btc_txid@,
            tx: self.tx@,
        }
    }
}

/// An unlock structure as it is stored.
#[derive(Clone, Debug, PartialEq, Eq)]
pub struct UnlockRecord {
    /// The key: the digest of the encoding of the unlock structure.
    pub unlock_id: Vec<u8>,
    /// The version.
    pub version: u16,
    /// The number of inputs committed to, widened.
    pub input_len: i16,
    /// The number of outputs committed to, widened.
    pub output_len: i16,
    /// The raw external-chain transaction: what the `btc_tx` field of the
    /// structure holds behind its count, in its own byte order.
    pub btc_tx: Vec<u8>,
    /// The raw inclusion proof: what the `btc_tx_proof` field of the
    /// structure holds behind its count, in its own byte order.
    pub btc_tx_proof: Vec<u8>,
    /// The hash of the transaction in whose witness the unlock was seen.
    pub tx: Vec<u8>,
}

/// What an `UnlockRecord` holds.
pub struct UnlockRow {
    pub unlock_id: Seq<u8>,
    pub version: int,
    pub input_len: int,
    pub output_len: int,
    pub btc_tx: Seq<u8>,
    pub btc_tx_proof: Seq<u8>,
    pub tx: Seq<u8>,
}

impl View for UnlockRecord {
    type V = UnlockRow;

    open spec fn view(&self) -> UnlockRow {
        UnlockRow {
            unlock_id: self.unlock_id@,
            version: self.version as int,
            input_len: self.input_len as int,
            output_len: self.output_len as int,
            btc_tx: self.btc_tx@,
            btc_tx_proof: self.btc_tx_proof@,
            tx: self.tx@,
        }
    }
}

/// The row of the lock structure encoded as `lock`, seen in transaction `tx`.
pub open spec fn lock_row(lock: Seq<u8>, tx: Seq<u8>) -> LockRow {
    LockRow {
        lock_id: lock,
        out_index: lock_out_index(lock),
        btc_txid: lock_btc_txid(lock).reverse(),
        tx,
    }
}

/// The row of the unlock structure encoded as `unlock`, keyed by `unlock_id`
/// and seen in transaction `tx`. The two blobs are stored raw, without the
/// count that the encoding puts in front of them.
pub open spec fn unlock_row(unlock: Seq<u8>, unlock_id: Seq<u8>, tx: Seq<u8>) -> UnlockRow {
    UnlockRow {
        unlock_id,
        version: unlock_version(unlock),
        input_len: unlock_input_len(unlock) as int,
        output_len: unlock_output_len(unlock) as int,
        btc_tx: raw_data(unlock_btc_tx(unlock)),
        btc_tx_proof: raw_data(unlock_btc_tx_proof(unlock)),
        tx,
    }
}

/// The bytes of `data` in reverse order.
pub fn reversed(data: &[u8]) -> (out: Vec<u8>)
    ensures
        out@ == data@.reverse(),
{
    let mut out: Vec<u8> = Vec::new();
    let mut left: usize = data.len();
    while left > 0
        invariant
            left <= data@.len(),
            out@.len() == data@.len() - left,
            forall|i: int| 0 <= i < out@.len() ==> out@[i] == data@[data@.len() - 1 - i],
        decreases left,
    {
        left -= 1;
        out.push(data[left]);
    }
    out
}

impl LockRecord {
    /// The row for `lock`, seen in transaction `tx`.
    pub fn new(lock: &RGBPPLock, tx: &TxHash) -> (record: LockRecord)
        ensures
            record@ == lock_row(lock@, tx@),
    {
        let txid: Vec<u8> = lock.btc_txid();
        LockRecord {
            lock_id: lock.lock_id(),
            out_index: lock.out_index(),
            btc_txid: reversed(txid.as_slice()),
            tx: slice_to_vec(tx.as_slice()),
        }
    }
}

impl UnlockRecord {
    /// The row for `unlock`, keyed by `unlock_id` and seen in transaction
    /// `tx`.
    pub fn new(unlock: &RGBPPUnlock, unlock_id: Vec<u8>, tx: &TxHash) -> (record: UnlockRecord)
        ensures
            record@ == unlock_row(unlock@, unlock_id@, tx@),
    {
        let extra: ExtraCommitmentData = unlock.extra_data();
        let btc_tx: Vec<u8> = unlock.btc_tx();
        let btc_tx_proof: Vec<u8> = unlock.btc_tx_proof();
        UnlockRecord {
            unlock_id,
            version: unlock.version(),
            input_len: extra.input_len as i16,
            output_len: extra.output_len as i16,
            btc_tx: slice_to_vec(raw_data_of(btc_tx.as_slice())),
            btc_tx_proof: slice_to_vec(raw_data_of(btc_tx_proof.as_slice())),
            tx: slice_to_vec(tx.as_slice()),
        }
    }
}

} // verus!
