//! The pipeline as a whole: the indexer set against a model of its
//! surroundings, an intake queue, a resolver and a store with a single
//! writer, and what then comes of a queue of transactions.

use crate::extractor::{candidates, CandidateView};
use crate::identity::{lock_id_of, unlock_id_of};
use crate::indexer::{persisting, request, step, ActionView, EventView, IndexErrorView, StateView};
use crate::persister::Store;
use crate::record::{lock_row, unlock_row};
use crate::transaction::TransactionView;
use vstd::prelude::*;

verus! {

/// A transaction on the intake queue, with what the resolver will answer
/// when asked for the outputs that it spends: the arguments of the lock
/// script of each, or the message of a failure.
pub struct Delivery {
    pub tx: TransactionView,
    pub resolved: Result<Seq<Seq<u8>>, Seq<char>>,
}

/// The surroundings of the indexer.
pub struct World {
    /// What the intake queue still holds, the next transaction first.
    pub queue: Seq<Delivery>,
    /// What the resolver answers for the transaction that was taken last.
    pub resolving: Result<Seq<Seq<u8>>, Seq<char>>,
    /// The rows of the store.
    pub store: Store,
    /// The lookups and inserts that the store has served, in their order.
    pub calls: Seq<ActionView>,
}

/// How a run of the pipeline ended.
pub struct Outcome {
    /// What the pipeline returned.
    pub result: Result<(), IndexErrorView>,
    /// The rows of the store at the end.
    pub store: Store,
    /// The lookups and inserts that the store has served, in their order.
    pub calls: Seq<ActionView>,
}

/// The message with which the store refuses a row whose identifier it holds
/// already.
pub open spec fn duplicate_key() -> Seq<char> {
    seq!['d', 'u', 'p', 'l', 'i', 'c', 'a', 't', 'e', ' ', 'k', 'e', 'y']
}

/// What the surroundings tell the indexer when it asks for `action`, and
/// what they are afterwards. The queue hands out its transactions in order,
/// the resolver answers as the delivery says, and the store finds what was
/// inserted and nothing else, and refuses a second row under one identifier.
pub open spec fn answer(world: World, action: ActionView) -> (EventView, World) {
    match action {
        ActionView::Receive => if world.queue.len() == 0 {
            (EventView::EndOfStream, world)
        } else {
            (
                EventView::Transaction(world.queue[0].tx),
                World {
                    queue: world.queue.skip(1),
                    resolving: world.queue[0].resolved,
                    store: world.store,
                    calls: world.calls,
                },
            )
        },
        ActionView::Resolve(inputs) => (
            match world.resolving {
                Ok(pre_outputs) => EventView::Outputs(pre_outputs),
                Err(message) => EventView::Failed(message),
            },
            world,
        ),
        ActionView::FindUnlock(unlock_id) => (
            EventView::Found(world.store.has_unlock(unlock_id)),
            World {
                queue: world.queue,
                resolving: world.resolving,
                store: world.store,
                calls: world.calls.push(action),
            },
        ),
        ActionView::InsertUnlock(row) => if world.store.has_unlock(row.unlock_id) {
            (
                EventView::Failed(duplicate_key()),
                World {
                    queue: world.queue,
                    resolving: world.resolving,
                    store: world.store,
                    calls: world.calls.push(action),
                },
            )
        } else {
            (
                EventView::Inserted,
                World {
                    queue: world.queue,
                    resolving: world.resolving,
                    store: world.store.insert_unlock(row),
                    calls: world.calls.push(action),
                },
            )
        },
        ActionView::FindLock(lock_id) => (
            EventView::Found(world.store.has_lock(lock_id)),
            World {
                queue: world.queue,
                resolving: world.resolving,
                store: world.store,
                calls: world.calls.push(action),
            },
        ),
        ActionView::InsertLock(row) => if world.store.has_lock(row.lock_id) {
            (
                EventView::Failed(duplicate_key()),
                World {
                    queue: world.queue,
                    resolving: world.resolving,
                    store: world.store,
                    calls: world.calls.push(action),
                },
            )
        } else {
            (
                EventView::Inserted,
                World {
                    queue: world.queue,
                    resolving: world.resolving,
                    store: world.store.insert_lock(row),
                    calls: world.calls.push(action),
                },
            )
        },
        ActionView::Stop(result) => (EventView::EndOfStream, world),
    }
}

/// How far a state is from the end of its transaction: the phases of one
/// transaction in descending order.
pub open spec fn rank(state: StateView) -> nat {
    match state {
        StateView::Resolving { tx } => 3,
        StateView::Finding { tx_hash, current, rest } => 2,
        StateView::Inserting { tx_hash, current, rest } => 2,
        StateView::Draining => 1,
        StateView::Closed { result } => 0,
    }
}

/// How many answers of the store the current transaction still waits for,
/// at most.
pub open spec fn weight(state: StateView) -> nat {
    match state {
        StateView::Finding { tx_hash, current, rest } => 2 * rest.len() + 2,
        StateView::Inserting { tx_hash, current, rest } => 2 * rest.len() + 1,
        _ => 0,
    }
}

/// The pipeline run from `state` in the surroundings `world` until it stops.
pub open spec fn run(state: StateView, world: World) -> Outcome
    decreases world.queue.len(), rank(state), weight(state),
{
    match request(state) {
        ActionView::Stop(result) => Outcome { result, store: world.store, calls: world.calls },
        action => {
            let (event, next) = answer(world, action);
            run(step(state, event), next)
        },
    }
}

/// The store after `candidate`, found in the transaction of hash `tx_hash`,
/// was persisted.
pub open spec fn persist_candidate(store: Store, tx_hash: Seq<u8>, candidate: CandidateView) -> Store {
    match candidate {
        CandidateView::Unlock(unlock) => store.persist_unlock(
            unlock_row(unlock, unlock_id_of(unlock), tx_hash),
        ),
        CandidateView::Lock(lock) => store.persist_lock(lock_row(lock, tx_hash)),
    }
}

/// The calls that persisting `candidate` makes on `store`: the lookup of its
/// identifier, and the insert of its row where the lookup finds none.
pub open spec fn calls_of(store: Store, tx_hash: Seq<u8>, candidate: CandidateView) -> Seq<ActionView> {
    match candidate {
        CandidateView::Unlock(unlock) => if store.has_unlock(unlock_id_of(unlock)) {
            seq![ActionView::FindUnlock(unlock_id_of(unlock))]
        } else {
            seq![
                ActionView::FindUnlock(unlock_id_of(unlock)),
                ActionView::InsertUnlock(unlock_row(unlock, unlock_id_of(unlock), tx_hash)),
            ]
        },
        CandidateView::Lock(lock) => if store.has_lock(lock_id_of(lock)) {
            seq![ActionView::FindLock(lock_id_of(lock))]
        } else {
            seq![ActionView::FindLock(lock_id_of(lock)), ActionView::InsertLock(lock_row(lock, tx_hash))]
        },
    }
}

/// The store after each of `pending`, found in the transaction of hash
/// `tx_hash`, was persisted in turn.
pub open spec fn persist_each(store: Store, tx_hash: Seq<u8>, pending: Seq<CandidateView>) -> Store
    decreases pending.len(),
{
    if pending.len() == 0 {
        store
    } else {
        persist_each(persist_candidate(store, tx_hash, pending[0]), tx_hash, pending.skip(1))
    }
}

/// The calls that persisting each of `pending` in turn makes on `store`.
pub open spec fn calls_of_each(store: Store, tx_hash: Seq<u8>, pending: Seq<CandidateView>) -> Seq<
    ActionView,
>
    decreases pending.len(),
{
    if pending.len() == 0 {
        Seq::empty()
    } else {
        calls_of(store, tx_hash, pending[0]) + calls_of_each(
            persist_candidate(store, tx_hash, pending[0]),
            tx_hash,
            pending.skip(1),
        )
    }
}

/// The store after the transaction of `delivery` was processed, where its
/// spent outputs resolve.
pub open spec fn process(store: Store, delivery: Delivery) -> Store {
    match delivery.resolved {
        Ok(pre_outputs) => persist_each(store, delivery.tx.hash, candidates(delivery.tx, pre_outputs)),
        Err(message) => store,
    }
}

/// The calls that processing the transaction of `delivery` makes on `store`.
pub open spec fn calls_of_delivery(store: Store, delivery: Delivery) -> Seq<ActionView> {
    match delivery.resolved {
        Ok(pre_outputs) => calls_of_each(store, delivery.tx.hash, candidates(delivery.tx, pre_outputs)),
        Err(message) => Seq::empty(),
    }
}

/// What is to come of the transactions of `queue`, processed one after the
/// other on `store`, which has served `calls` before: each transaction is
/// persisted in full before the next one is looked at, and the first whose
/// spent outputs do not resolve ends the run, with nothing of it or of those
/// behind it persisted.
pub open spec fn sequential(queue: Seq<Delivery>, store: Store, calls: Seq<ActionView>) -> Outcome
    decreases queue.len(),
{
    if queue.len() == 0 {
        Outcome { result: Ok(()), store, calls }
    } else {
        match queue[0].resolved {
            Err(message) => Outcome { result: Err(IndexErrorView::Resolution(message)), store, calls },
            Ok(pre_outputs) => sequential(
                queue.skip(1),
                process(store, queue[0]),
                calls + calls_of_delivery(store, queue[0]),
            ),
        }
    }
}

/// The surroundings at the start of a run.
pub open spec fn world_of(queue: Seq<Delivery>, store: Store) -> World {
    World { queue, resolving: Ok(Seq::empty()), store, calls: Seq::empty() }
}

/// The surroundings `world` once its store has persisted each of `pending`.
spec fn persisted(world: World, tx_hash: Seq<u8>, pending: Seq<CandidateView>) -> World {
    World {
        queue: world.queue,
        resolving: world.resolving,
        store: persist_each(world.store, tx_hash, pending),
        calls: world.calls + calls_of_each(world.store, tx_hash, pending),
    }
}

proof fn lemma_run_persisting(tx_hash: Seq<u8>, pending: Seq<CandidateView>, world: World)
    ensures
        run(persisting(tx_hash, pending), world) == run(
            StateView::Draining,
            persisted(world, tx_hash, pending),
        ),
    decreases pending.len(),
{
    if pending.len() > 0 {
        let current = pending[0];
        let rest = pending.skip(1);
        // the lookup of the first candidate
        let finding = StateView::Finding { tx_hash, current, rest };
        let (found, looked) = answer(world, request(finding));
        // and its insert, where the lookup found no row
        let after = if found == EventView::Found(true) {
            looked
        } else {
            let inserting = StateView::Inserting { tx_hash, current, rest };
            let (inserted, stored) = answer(looked, request(inserting));
            assert(run(inserting, looked) == run(step(inserting, inserted), stored));
            stored
        };
        lemma_run_persisting(tx_hash, rest, after);
        assert(persisted(after, tx_hash, rest).calls =~= persisted(world, tx_hash, pending).calls);
    }
}

proof fn lemma_run_draining(world: World)
    ensures
        run(StateView::Draining, world) == sequential(world.queue, world.store, world.calls),
    decreases world.queue.len(),
{
    let taken = answer(world, request(StateView::Draining)).1;
    if world.queue.len() == 0 {
        let closed = StateView::Closed { result: Ok(()) };
        assert(run(closed, taken) == Outcome { result: Ok(()), store: world.store, calls: world.calls });
    } else {
        let delivery = world.queue[0];
        let resolving = StateView::Resolving { tx: delivery.tx };
        let resolved = answer(taken, request(resolving)).0;
        assert(run(resolving, taken) == run(step(resolving, resolved), taken));
        if let Ok(pre_outputs) = delivery.resolved {
            let pending = candidates(delivery.tx, pre_outputs);
            lemma_run_persisting(delivery.tx.hash, pending, taken);
            lemma_run_draining(persisted(taken, delivery.tx.hash, pending));
        }
    }
}

/// Run against a queue, a resolver and a store with no other writer, the
/// indexer does what processing the transactions one after the other does:
/// it returns the same result, leaves the same rows, and makes the same
/// calls on the store in the same order. In particular it never asks the
/// store for a second row under one identifier, which the store would
/// refuse.
pub proof fn law_run_is_sequential(queue: Seq<Delivery>, store: Store)
    ensures
        run(StateView::Draining, world_of(queue, store)) == sequential(queue, store, Seq::empty()),
{
    lemma_run_draining(world_of(queue, store));
}

/// What a run has done before does not change what it does next: the calls
/// of a run are those made before, then those that the queue brings.
proof fn lemma_sequential_appends(queue: Seq<Delivery>, store: Store, calls: Seq<ActionView>)
    ensures
        sequential(queue, store, calls).result == sequential(queue, store, Seq::empty()).result,
        sequential(queue, store, calls).store == sequential(queue, store, Seq::empty()).store,
        sequential(queue, store, calls).calls == calls + sequential(queue, store, Seq::empty()).calls,
    decreases queue.len(),
{
    if queue.len() > 0 && queue[0].resolved is Ok {
        let made = calls_of_delivery(store, queue[0]);
        let next = process(store, queue[0]);
        lemma_sequential_appends(queue.skip(1), next, calls + made);
        lemma_sequential_appends(queue.skip(1), next, Seq::empty() + made);
    }
}

/// Processing a queue is processing its front part and then, where that
/// ended well, the rest on what the front part left.
proof fn lemma_sequential_splits(
    before: Seq<Delivery>,
    after: Seq<Delivery>,
    store: Store,
    calls: Seq<ActionView>,
)
    ensures
        sequential(before + after, store, calls) == ({
            let head = sequential(before, store, calls);
            if head.result is Ok {
                sequential(after, head.store, head.calls)
            } else {
                head
            }
        }),
    decreases before.len(),
{
    if before.len() > 0 {
        assert((before + after).skip(1) =~= before.skip(1) + after);
        if before[0].resolved is Ok {
            lemma_sequential_splits(
                before.skip(1),
                after,
                process(store, before[0]),
                calls + calls_of_delivery(store, before[0]),
            );
        }
    }
}

/// Transactions are processed in the order of the intake queue, one at a
/// time: whatever the queue holds in front and behind, every call that the
/// store serves for the front part comes before every call for the rest,
/// and the rest is processed on the rows that the front part left. Where
/// the front part fails, nothing of the rest is looked at.
pub proof fn law_ordering(before: Seq<Delivery>, after: Seq<Delivery>, store: Store)
    ensures
        ({
            let all = run(StateView::Draining, world_of(before + after, store));
            let head = run(StateView::Draining, world_of(before, store));
            let tail = run(StateView::Draining, world_of(after, head.store));
            if head.result is Ok {
                &&& all.calls == head.calls + tail.calls
                &&& all.store == tail.store
                &&& all.result == tail.result
            } else {
                all == head
            }
        }),
{
    let none = Seq::<ActionView>::empty();
    law_run_is_sequential(before + after, store);
    law_run_is_sequential(before, store);
    let head = sequential(before, store, none);
    law_run_is_sequential(after, head.store);
    lemma_sequential_splits(before, after, store, none);
    lemma_sequential_appends(after, head.store, head.calls);
}

/// Of two transactions on the intake queue, the first is persisted in full
/// before the second is looked at: the calls of the run are those of the
/// first transaction, then those of the second, made on the rows that the
/// first one left.
pub proof fn law_two_transactions_in_order(first: Delivery, second: Delivery, store: Store)
    requires
        first.resolved is Ok,
    ensures
        run(StateView::Draining, world_of(seq![first, second], store)).calls == calls_of_delivery(
            store,
            first,
        ) + calls_of_delivery(process(store, first), second),
        run(StateView::Draining, world_of(seq![first, second], store)).store == process(
            process(store, first),
            second,
        ),
{
    assert(seq![first] + seq![second] =~= seq![first, second]);
    law_ordering(seq![first], seq![second], store);
    law_run_is_sequential(seq![first], store);
    law_run_is_sequential(seq![second], process(store, first));
    lemma_sequential_one(first, store);
    lemma_sequential_one(second, process(store, first));
}

proof fn lemma_sequential_one(delivery: Delivery, store: Store)
    ensures
        sequential(seq![delivery], store, Seq::empty()).store == process(store, delivery),
        sequential(seq![delivery], store, Seq::empty()).calls == calls_of_delivery(store, delivery),
        sequential(seq![delivery], store, Seq::empty()).result is Ok <==> delivery.resolved is Ok,
{
    let none = Seq::<ActionView>::empty();
    if delivery.resolved is Ok {
        let made = none + calls_of_delivery(store, delivery);
        assert(sequential(seq![delivery], store, none) == sequential(
            seq![delivery].skip(1),
            process(store, delivery),
            made,
        ));
    }
}

/// A failure of the resolver ends the pipeline at once: where the spent
/// outputs of a transaction do not resolve, the run ends with a failure,
/// and the store holds what the transactions in front of it left and has
/// served no call for the failed transaction or for any behind it. The run
/// returns that failure, unless a transaction in front had failed already.
pub proof fn law_fail_fast(
    before: Seq<Delivery>,
    failed: Delivery,
    after: Seq<Delivery>,
    store: Store,
)
    requires
        failed.resolved is Err,
    ensures
        ({
            let all = run(StateView::Draining, world_of(before + seq![failed] + after, store));
            let head = run(StateView::Draining, world_of(before, store));
            &&& all.store == head.store
            &&& all.calls == head.calls
            &&& all.result == if head.result is Ok {
                Err::<(), IndexErrorView>(IndexErrorView::Resolution(failed.resolved->Err_0))
            } else {
                head.result
            }
        }),
{
    let none = Seq::<ActionView>::empty();
    let rest = seq![failed] + after;
    assert(before + seq![failed] + after =~= before + rest);
    law_run_is_sequential(before + rest, store);
    law_run_is_sequential(before, store);
    lemma_sequential_splits(before, rest, store, none);
}

/// Only a failure of the resolver ends a run early: a queue whose
/// transactions all resolve is processed to its end, whatever their
/// witnesses and lock script arguments hold.
pub proof fn law_decoding_never_aborts(queue: Seq<Delivery>, store: Store)
    requires
        forall|i: int| 0 <= i < queue.len() ==> (#[trigger] queue[i]).resolved is Ok,
    ensures
        run(StateView::Draining, world_of(queue, store)).result == Ok::<(), IndexErrorView>(()),
{
    law_run_is_sequential(queue, store);
    lemma_all_resolved(queue, store, Seq::empty());
}

proof fn lemma_all_resolved(queue: Seq<Delivery>, store: Store, calls: Seq<ActionView>)
    requires
        forall|i: int| 0 <= i < queue.len() ==> (#[trigger] queue[i]).resolved is Ok,
    ensures
        sequential(queue, store, calls).result == Ok::<(), IndexErrorView>(()),
    decreases queue.len(),
{
    if queue.len() > 0 {
        assert forall|i: int| 0 <= i < queue.skip(1).len() implies (#[trigger] queue.skip(
            1,
        )[i]).resolved is Ok by {
            assert(queue.skip(1)[i] == queue[i + 1]);
        }
        lemma_all_resolved(
            queue.skip(1),
            process(store, queue[0]),
            calls + calls_of_delivery(store, queue[0]),
        );
    }
}

/// Whether `store` holds a row under the identifier of `candidate`.
pub open spec fn holds(store: Store, candidate: CandidateView) -> bool {
    match candidate {
        CandidateView::Unlock(unlock) => store.has_unlock(unlock_id_of(unlock)),
        CandidateView::Lock(lock) => store.has_lock(lock_id_of(lock)),
    }
}

/// Whether `call` is a lookup.
pub open spec fn is_lookup(call: ActionView) -> bool {
    call is FindUnlock || call is FindLock
}

/// Whether `call` serves the transaction of hash `tx_hash`: a lookup, or the
/// insert of a row that names `tx_hash` as the transaction in which it was
/// seen.
pub open spec fn serves(call: ActionView, tx_hash: Seq<u8>) -> bool {
    match call {
        ActionView::FindUnlock(unlock_id) => true,
        ActionView::FindLock(lock_id) => true,
        ActionView::InsertUnlock(row) => row.tx == tx_hash,
        ActionView::InsertLock(row) => row.tx == tx_hash,
        _ => false,
    }
}

proof fn lemma_persist_each_keeps(
    store: Store,
    tx_hash: Seq<u8>,
    pending: Seq<CandidateView>,
    other: CandidateView,
)
    requires
        holds(store, other),
    ensures
        holds(persist_each(store, tx_hash, pending), other),
    decreases pending.len(),
{
    if pending.len() > 0 {
        lemma_persist_each_keeps(
            persist_candidate(store, tx_hash, pending[0]),
            tx_hash,
            pending.skip(1),
            other,
        );
    }
}

/// Once persisted, each structure has a row under its identifier.
proof fn lemma_persist_each_holds(
    store: Store,
    tx_hash: Seq<u8>,
    pending: Seq<CandidateView>,
    i: int,
)
    requires
        0 <= i < pending.len(),
    ensures
        holds(persist_each(store, tx_hash, pending), pending[i]),
    decreases pending.len(),
{
    let next = persist_candidate(store, tx_hash, pending[0]);
    if i == 0 {
        lemma_persist_each_keeps(next, tx_hash, pending.skip(1), pending[0]);
    } else {
        lemma_persist_each_holds(next, tx_hash, pending.skip(1), i - 1);
    }
}

/// Structures that the store holds already are looked up and left alone,
/// in whatever transaction they are seen again: no row is inserted or
/// changed, and the store serves one lookup for each of them.
pub proof fn law_persisted_is_skipped(store: Store, tx_hash: Seq<u8>, pending: Seq<CandidateView>)
    requires
        forall|i: int| 0 <= i < pending.len() ==> holds(store, #[trigger] pending[i]),
    ensures
        persist_each(store, tx_hash, pending) == store,
        calls_of_each(store, tx_hash, pending).len() == pending.len(),
        forall|j: int|
            0 <= j < pending.len() ==> is_lookup(#[trigger] calls_of_each(store, tx_hash, pending)[j]),
    decreases pending.len(),
{
    if pending.len() > 0 {
        let rest = pending.skip(1);
        assert forall|i: int| 0 <= i < rest.len() implies holds(store, #[trigger] rest[i]) by {
            assert(rest[i] == pending[i + 1]);
        }
        law_persisted_is_skipped(store, tx_hash, rest);
        let calls = calls_of_each(store, tx_hash, pending);
        assert forall|j: int| 0 <= j < pending.len() implies is_lookup(#[trigger] calls[j]) by {
            if j > 0 {
                assert(calls[j] == calls_of_each(store, tx_hash, rest)[j - 1]);
            }
        }
    }
}

/// A transaction that is delivered a second time changes nothing and fails
/// nothing: the run ends well, the store holds the rows that the first
/// delivery left, and for the second delivery it serves lookups only.
pub proof fn law_redelivery(delivery: Delivery, store: Store)
    requires
        delivery.resolved is Ok,
    ensures
        process(process(store, delivery), delivery) == process(store, delivery),
        forall|j: int|
            0 <= j < calls_of_delivery(process(store, delivery), delivery).len() ==> is_lookup(
                #[trigger] calls_of_delivery(process(store, delivery), delivery)[j],
            ),
        run(StateView::Draining, world_of(seq![delivery, delivery], store)).result == Ok::<
            (),
            IndexErrorView,
        >(()),
        run(StateView::Draining, world_of(seq![delivery, delivery], store)).store == run(
            StateView::Draining,
            world_of(seq![delivery], store),
        ).store,
{
    let tx_hash = delivery.tx.hash;
    let pending = candidates(delivery.tx, delivery.resolved->Ok_0);
    let once = process(store, delivery);
    assert forall|i: int| 0 <= i < pending.len() implies holds(once, #[trigger] pending[i]) by {
        lemma_persist_each_holds(store, tx_hash, pending, i);
    }
    law_persisted_is_skipped(once, tx_hash, pending);
    law_two_transactions_in_order(delivery, delivery, store);
    law_decoding_never_aborts(seq![delivery, delivery], store);
    law_run_is_sequential(seq![delivery], store);
    lemma_sequential_one(delivery, store);
}

/// Every call that processing a transaction makes on the store serves that
/// transaction: the rows that it inserts name it as the transaction in
/// which they were seen.
pub proof fn law_calls_serve_their_transaction(
    store: Store,
    tx_hash: Seq<u8>,
    pending: Seq<CandidateView>,
    j: int,
)
    requires
        0 <= j < calls_of_each(store, tx_hash, pending).len(),
    ensures
        serves(calls_of_each(store, tx_hash, pending)[j], tx_hash),
    decreases pending.len(),
{
    if pending.len() > 0 {
        let first = calls_of(store, tx_hash, pending[0]);
        if j >= first.len() {
            law_calls_serve_their_transaction(
                persist_candidate(store, tx_hash, pending[0]),
                tx_hash,
                pending.skip(1),
                j - first.len(),
            );
        }
    }
}

} // verus!
