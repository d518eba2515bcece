//! The content-derived identifier of each structure: a lock is its own key,
//! an unlock is keyed by the digest of its encoding.

use crate::schemas::rgbpp::{
    law_unlock_equal_by_fields, lock_btc_txid, lock_out_index, unlock_btc_tx, unlock_btc_tx_proof,
    unlock_input_len, unlock_output_len, unlock_version, RGBPPLock, RGBPPUnlock,
};
use vstd::prelude::*;

verus! {

/// The CKB default hash of `data`: BLAKE2b with a 32-byte digest and the
/// personalization `ckb-default-hash`.
pub uninterp spec fn blake2b_256_digest(data: Seq<u8>) -> Seq<u8>;

/// Hashes `data` with `ckb_hash::blake2b_256`. What is taken on trust: that
/// the result is a function of the bytes alone, here `blake2b_256_digest`,
/// and that it is 32 bytes long, as the `[u8; 32]` that the call returns is.
/// Nothing is claimed of the digest of any given bytes.
#[verifier::external_body]
fn blake2b_256(data: &[u8]) -> (digest: Vec<u8>)
    ensures
        digest@ == blake2b_256_digest(data@),
        digest@.len() == 32,
{
    ckb_hash::blake2b_256(data).to_vec()
}

/// The identifier of the lock structure encoded as `lock`: the encoding
/// itself.
pub open spec fn lock_id_of(lock: Seq<u8>) -> Seq<u8> {
    lock
}

/// The identifier of the unlock structure encoded as `unlock`: the digest of
/// the encoding.
pub open spec fn unlock_id_of(unlock: Seq<u8>) -> Seq<u8> {
    blake2b_256_digest(unlock)
}

/// Whether `a` and `b` are different byte strings of the same digest.
pub open spec fn digest_collision(a: Seq<u8>, b: Seq<u8>) -> bool {
    a != b && blake2b_256_digest(a) == blake2b_256_digest(b)
}

impl RGBPPLock {
    /// The identifier under which this lock is stored.
    pub fn lock_id(&self) -> (id: Vec<u8>)
        ensures
            id@ == lock_id_of(self@),
            id@.len() == 36,
    {
        self.as_bytes()
    }
}

impl RGBPPUnlock {
    /// The identifier under which this unlock is stored.
    pub fn unlock_id(&self) -> (id: Vec<u8>)
        ensures
            id@ == unlock_id_of(self@),
            id@.len() == 32,
    {
        let bytes: Vec<u8> = self.as_bytes();
        blake2b_256(bytes.as_slice())
    }
}

/// Two lock structures have the same identifier exactly when their encodings
/// are equal.
pub proof fn law_lock_identity(a: RGBPPLock, b: RGBPPLock)
    ensures
        lock_id_of(a@) == lock_id_of(b@) <==> a@ == b@,
{
}

/// Two lock structures have the same identifier exactly when they name the
/// same output of the same transaction.
pub proof fn law_lock_identity_by_fields(a: RGBPPLock, b: RGBPPLock)
    requires
        a.wf(),
        b.wf(),
    ensures
        lock_id_of(a@) == lock_id_of(b@) <==> lock_out_index(a@) == lock_out_index(b@)
            && lock_btc_txid(a@) == lock_btc_txid(b@),
{
    let x: Seq<u8> = a@;
    let y: Seq<u8> = b@;
    if lock_out_index(x) == lock_out_index(y) && lock_btc_txid(x) == lock_btc_txid(y) {
        assert forall|i: int| 0 <= i < 36 implies x[i] == y[i] by {
            if i >= 4 {
                assert(x[i] == lock_btc_txid(x)[i - 4]);
                assert(y[i] == lock_btc_txid(y)[i - 4]);
            }
        }
        assert(x =~= y);
    }
}

/// Two unlock structures whose fields are equal have the same identifier.
pub proof fn law_unlock_identity_by_fields(a: RGBPPUnlock, b: RGBPPUnlock)
    requires
        a.wf(),
        b.wf(),
        unlock_version(a@) == unlock_version(b@),
        unlock_input_len(a@) == unlock_input_len(b@),
        unlock_output_len(a@) == unlock_output_len(b@),
        unlock_btc_tx(a@) == unlock_btc_tx(b@),
        unlock_btc_tx_proof(a@) == unlock_btc_tx_proof(b@),
    ensures
        unlock_id_of(a@) == unlock_id_of(b@),
{
    law_unlock_equal_by_fields(a@, b@);
}

/// Two unlock structures with equal encodings have the same identifier, and
/// two with the same identifier have equal encodings unless the digest
/// collides on them.
pub proof fn law_unlock_identity(a: RGBPPUnlock, b: RGBPPUnlock)
    requires
        !digest_collision(a@, b@),
    ensures
        unlock_id_of(a@) == unlock_id_of(b@) <==> a@ == b@,
{
}

} // verus!
