//! Storing a structure once: look its identifier up, and insert the row only
//! where none is found. The store itself lies outside; here stand its model
//! and the decision between the lookup and the insert.

use crate::identity::{lock_id_of, unlock_id_of};
use crate::record::{lock_row, unlock_row, LockRecord, LockRow, UnlockRecord, UnlockRow};
use crate::schemas::rgbpp::{RGBPPLock, RGBPPUnlock};
use crate::transaction::TxHash;
use vstd::prelude::*;

verus! {

/// The rows of the store, by identifier.
pub struct Store {
    pub locks: Map<Seq<u8>, LockRow>,
    pub unlocks: Map<Seq<u8>, UnlockRow>,
}

impl Store {
    /// The store without rows.
    pub open spec fn empty() -> Store {
        Store { locks: Map::empty(), unlocks: Map::empty() }
    }

    /// Whether a lock row is stored under `lock_id`.
    pub open spec fn has_lock(self, lock_id: Seq<u8>) -> bool {
        self.locks.contains_key(lock_id)
    }

    /// Whether an unlock row is stored under `unlock_id`.
    pub open spec fn has_unlock(self, unlock_id: Seq<u8>) -> bool {
        self.unlocks.contains_key(unlock_id)
    }

    /// The store after the insert of `row`.
    pub open spec fn insert_lock(self, row: LockRow) -> Store {
        Store { locks: self.locks.insert(row.lock_id, row), unlocks: self.unlocks }
    }

    /// The store after the insert of `row`.
    pub open spec fn insert_unlock(self, row: UnlockRow) -> Store {
        Store { locks: self.locks, unlocks: self.unlocks.insert(row.unlock_id, row) }
    }

    /// The store after `row` was persisted: unchanged where a row is stored
    /// under its identifier, and with `row` inserted where none is.
    pub open spec fn persist_lock(self, row: LockRow) -> Store {
        if self.has_lock(row.lock_id) {
            self
        } else {
            self.insert_lock(row)
        }
    }

    /// The store after `row` was persisted: unchanged where a row is stored
    /// under its identifier, and with `row` inserted where none is.
    pub open spec fn persist_unlock(self, row: UnlockRow) -> Store {
        if self.has_unlock(row.unlock_id) {
            self
        } else {
            self.insert_unlock(row)
        }
    }

    /// The store after the insert that a lookup decided on, if any.
    pub open spec fn apply_lock(self, insert: Option<LockRow>) -> Store {
        match insert {
            Some(row) => self.insert_lock(row),
            None => self,
        }
    }

    /// The store after the insert that a lookup decided on, if any.
    pub open spec fn apply_unlock(self, insert: Option<UnlockRow>) -> Store {
        match insert {
            Some(row) => self.insert_unlock(row),
            None => self,
        }
    }
}

/// What is to be inserted for the lock structure encoded as `lock`, seen in
/// `tx`, once the lookup of its identifier has told whether a row `exists`.
pub open spec fn lock_insert(lock: Seq<u8>, tx: Seq<u8>, exists: bool) -> Option<LockRow> {
    if exists {
        None
    } else {
        Some(lock_row(lock, tx))
    }
}

/// What is to be inserted for the unlock structure encoded as `unlock`, keyed
/// by `unlock_id` and seen in `tx`, once the lookup of its identifier has told
/// whether a row `exists`.
pub open spec fn unlock_insert(unlock: Seq<u8>, unlock_id: Seq<u8>, tx: Seq<u8>, exists: bool) -> Option<
    UnlockRow,
> {
    if exists {
        None
    } else {
        Some(unlock_row(unlock, unlock_id, tx))
    }
}

/// Decides what to insert for `rgbpp_lock`, seen in transaction `tx`, after
/// the lookup of `rgbpp_lock.lock_id()` has told whether a row `exists`:
/// nothing where one does, the full row where none does.
pub fn upsert_rgbpp_lock(rgbpp_lock: &RGBPPLock, tx: &TxHash, exists: bool) -> (insert: Option<
    LockRecord,
>)
    ensures
        insert is Some <==> !exists,
        insert matches Some(record) ==> Some(record@) == lock_insert(rgbpp_lock@, tx@, exists),
{
    if exists {
        None
    } else {
        Some(LockRecord::new(rgbpp_lock, tx))
    }
}

/// Decides what to insert for `rgbpp_unlock`, found under `unlock_id` in
/// transaction `tx`, after the lookup of `unlock_id` has told whether a row
/// `exists`: nothing where one does, the full row where none does.
pub fn upsert_unlock_with_id(
    rgbpp_unlock: &RGBPPUnlock,
    unlock_id: Vec<u8>,
    tx: &TxHash,
    exists: bool,
) -> (insert: Option<UnlockRecord>)
    ensures
        insert is Some <==> !exists,
        insert matches Some(record) ==> Some(record@) == unlock_insert(
            rgbpp_unlock@,
            unlock_id@,
            tx@,
            exists,
        ),
{
    if exists {
        None
    } else {
        Some(UnlockRecord::new(rgbpp_unlock, unlock_id, tx))
    }
}

/// Decides what to insert for `rgbpp_unlock`, seen in transaction `tx`, after
/// the lookup of `rgbpp_unlock.unlock_id()` has told whether a row `exists`:
/// nothing where one does, the full row where none does.
pub fn upsert_rgbpp_unlock(rgbpp_unlock: &RGBPPUnlock, tx: &TxHash, exists: bool) -> (insert: Option<
    UnlockRecord,
>)
    ensures
        insert is Some <==> !exists,
        insert matches Some(record) ==> Some(record@) == unlock_insert(
            rgbpp_unlock@,
            unlock_id_of(rgbpp_unlock@),
            tx@,
            exists,
        ),
{
    upsert_unlock_with_id(rgbpp_unlock, rgbpp_unlock.unlock_id(), tx, exists)
}

/// A lookup and the insert that it decides on leave the store as persisting
/// the lock's row does.
pub proof fn law_upsert_lock_persists(store: Store, lock: RGBPPLock, tx: Seq<u8>)
    ensures
        store.apply_lock(lock_insert(lock@, tx, store.has_lock(lock_id_of(lock@))))
            == store.persist_lock(lock_row(lock@, tx)),
{
}

/// A lookup and the insert that it decides on leave the store as persisting
/// the unlock's row does.
pub proof fn law_upsert_unlock_persists(store: Store, unlock: RGBPPUnlock, tx: Seq<u8>)
    ensures
        store.apply_unlock(
            unlock_insert(unlock@, unlock_id_of(unlock@), tx, store.has_unlock(unlock_id_of(unlock@))),
        ) == store.persist_unlock(unlock_row(unlock@, unlock_id_of(unlock@), tx)),
{
}

/// Persisting a lock row makes it, or the row that was there before it, the
/// one row under its identifier, and touches no other row: the store gains
/// one row where it had none under that identifier, and none where it had.
pub proof fn law_persist_lock_once(store: Store, row: LockRow)
    ensures
        store.persist_lock(row).has_lock(row.lock_id),
        store.locks.dom().finite() ==> store.persist_lock(row).locks.dom().finite(),
        store.locks.dom().finite() && !store.has_lock(row.lock_id) ==> store.persist_lock(
            row,
        ).locks.dom().len() == store.locks.dom().len() + 1,
        store.has_lock(row.lock_id) ==> store.persist_lock(row) == store,
        !store.has_lock(row.lock_id) ==> store.persist_lock(row).locks[row.lock_id] == row,
        forall|id: Seq<u8>|
            id != row.lock_id ==> (#[trigger] store.persist_lock(row).has_lock(id) <==> store.has_lock(id)),
        forall|id: Seq<u8>|
            id != row.lock_id && store.has_lock(id) ==> #[trigger] store.persist_lock(row).locks[id]
                == store.locks[id],
        store.persist_lock(row).unlocks == store.unlocks,
{
}

/// Persisting an unlock row makes it, or the row that was there before it,
/// the one row under its identifier, and touches no other row: the store
/// gains one row where it had none under that identifier, and none where it
/// had.
pub proof fn law_persist_unlock_once(store: Store, row: UnlockRow)
    ensures
        store.persist_unlock(row).has_unlock(row.unlock_id),
        store.unlocks.dom().finite() ==> store.persist_unlock(row).unlocks.dom().finite(),
        store.unlocks.dom().finite() && !store.has_unlock(row.unlock_id) ==> store.persist_unlock(
            row,
        ).unlocks.dom().len() == store.unlocks.dom().len() + 1,
        store.has_unlock(row.unlock_id) ==> store.persist_unlock(row) == store,
        !store.has_unlock(row.unlock_id) ==> store.persist_unlock(row).unlocks[row.unlock_id] == row,
        forall|id: Seq<u8>|
            id != row.unlock_id ==> (#[trigger] store.persist_unlock(row).has_unlock(id)
                <==> store.has_unlock(id)),
        forall|id: Seq<u8>|
            id != row.unlock_id && store.has_unlock(id) ==> #[trigger] store.persist_unlock(
                row,
            ).unlocks[id] == store.unlocks[id],
        store.persist_unlock(row).locks == store.locks,
{
}

/// Persisting is idempotent, and the first writer wins: once a lock row is
/// persisted, persisting any row of the same identifier changes nothing, be
/// it the same row or one seen in another transaction.
pub proof fn law_persist_lock_idempotent(store: Store, first: LockRow, second: LockRow)
    requires
        first.lock_id == second.lock_id,
    ensures
        store.persist_lock(first).persist_lock(second) == store.persist_lock(first),
        store.persist_lock(first).persist_lock(first) == store.persist_lock(first),
{
}

/// Persisting is idempotent, and the first writer wins: once an unlock row
/// is persisted, persisting any row of the same identifier changes nothing.
pub proof fn law_persist_unlock_idempotent(store: Store, first: UnlockRow, second: UnlockRow)
    requires
        first.unlock_id == second.unlock_id,
    ensures
        store.persist_unlock(first).persist_unlock(second) == store.persist_unlock(first),
        store.persist_unlock(first).persist_unlock(first) == store.persist_unlock(first),
{
}

/// Persisting one row twice into the empty store leaves exactly one row, be
/// it a lock row or an unlock row.
pub proof fn law_persist_twice_one_row(row: LockRow, unlock: UnlockRow)
    ensures
        Store::empty().persist_lock(row).persist_lock(row).locks == Map::<Seq<u8>, LockRow>::empty().insert(
            row.lock_id,
            row,
        ),
        Store::empty().persist_lock(row).persist_lock(row).locks.dom().len() == 1,
        Store::empty().persist_unlock(unlock).persist_unlock(unlock).unlocks == Map::<
            Seq<u8>,
            UnlockRow,
        >::empty().insert(unlock.unlock_id, unlock),
        Store::empty().persist_unlock(unlock).persist_unlock(unlock).unlocks.dom().len() == 1,
{
}

} // verus!
