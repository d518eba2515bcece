//! The pipeline driver: which step comes next, given what the last one
//! brought. The indexer itself touches neither the intake queue, nor the
//! output resolver, nor the store: it asks for one thing at a time with an
//! `Action`, and is told what came of it with an `Event`.

use crate::extractor::{candidates, index_rgbpp_lock, Candidate, CandidateView};
use crate::identity::{lock_id_of, unlock_id_of};
use crate::persister::{upsert_rgbpp_lock, upsert_rgbpp_unlock};
use crate::record::{lock_row, unlock_row, LockRecord, LockRow, UnlockRecord, UnlockRow};
use crate::transaction::{OutPoint, Transaction, TransactionView, TxHash};
use std::collections::VecDeque;
use vstd::prelude::*;

verus! {

/// The number of transactions that the intake queue holds before its
/// producer has to wait.
pub const INTAKE_CAPACITY: usize = 100;

/// Why the pipeline stopped before the intake was closed.
#[derive(Clone, Debug, PartialEq, Eq)]
pub enum IndexError {
    /// The spent outputs of a transaction could not be resolved.
    Resolution(String),
    /// A lookup or an insert failed.
    Persistence(String),
    /// The indexer was told of something that it had not asked for.
    UnexpectedEvent,
}

/// What an `IndexError` holds.
pub enum IndexErrorView {
    Resolution(Seq<char>),
    Persistence(Seq<char>),
    UnexpectedEvent,
}

impl View for IndexError {
    type V = IndexErrorView;

    open spec fn view(&self) -> IndexErrorView {
        match self {
            IndexError::Resolution(message) => IndexErrorView::Resolution(message@),
            IndexError::Persistence(message) => IndexErrorView::Persistence(message@),
            IndexError::UnexpectedEvent => IndexErrorView::UnexpectedEvent,
        }
    }
}

/// What a result of the pipeline holds.
pub open spec fn result_view(result: Result<(), IndexError>) -> Result<(), IndexErrorView> {
    match result {
        Ok(_) => Ok(()),
        Err(error) => Err(error@),
    }
}

/// What the surroundings tell the indexer.
#[derive(Debug, PartialEq, Eq)]
pub enum Event {
    /// The intake queue handed out its next transaction.
    Transaction(Transaction),
    /// The intake queue is closed and empty.
    EndOfStream,
    /// The resolver found the outputs that the transaction spends: the
    /// arguments of the lock script of each, in the order of the inputs.
    Outputs(Vec<Vec<u8>>),
    /// The lookup ended, and a row is or is not stored under the identifier.
    Found(bool),
    /// The insert ended.
    Inserted,
    /// What was asked for failed.
    Failed(String),
}

/// What an `Event` holds.
pub enum EventView {
    Transaction(TransactionView),
    EndOfStream,
    Outputs(Seq<Seq<u8>>),
    Found(bool),
    Inserted,
    Failed(Seq<char>),
}

impl View for Event {
    type V = EventView;

    open spec fn view(&self) -> EventView {
        match self {
            Event::Transaction(tx) => EventView::Transaction(tx@),
            Event::EndOfStream => EventView::EndOfStream,
            Event::Outputs(pre_outputs) => EventView::Outputs(pre_outputs.deep_view()),
            Event::Found(exists) => EventView::Found(*exists),
            Event::Inserted => EventView::Inserted,
            Event::Failed(message) => EventView::Failed(message@),
        }
    }
}

/// What the indexer asks of its surroundings.
#[derive(Debug, PartialEq, Eq)]
pub enum Action {
    /// Take the next transaction from the intake queue.
    Receive,
    /// Resolve the outputs that these inputs spend.
    Resolve(Vec<OutPoint>),
    /// Look an unlock row up by its identifier.
    FindUnlock(Vec<u8>),
    /// Insert an unlock row.
    InsertUnlock(UnlockRecord),
    /// Look a lock row up by its identifier.
    FindLock(Vec<u8>),
    /// Insert a lock row.
    InsertLock(LockRecord),
    /// Nothing more: the pipeline has ended with this result.
    Stop(Result<(), IndexError>),
}

/// What an `Action` holds.
pub enum ActionView {
    Receive,
    Resolve(Seq<OutPoint>),
    FindUnlock(Seq<u8>),
    InsertUnlock(UnlockRow),
    FindLock(Seq<u8>),
    InsertLock(LockRow),
    Stop(Result<(), IndexErrorView>),
}

impl View for Action {
    type V = ActionView;

    open spec fn view(&self) -> ActionView {
        match self {
            Action::Receive => ActionView::Receive,
            Action::Resolve(inputs) => ActionView::Resolve(inputs@),
            Action::FindUnlock(unlock_id) => ActionView::FindUnlock(unlock_id@),
            Action::InsertUnlock(record) => ActionView::InsertUnlock(record@),
            Action::FindLock(lock_id) => ActionView::FindLock(lock_id@),
            Action::InsertLock(record) => ActionView::InsertLock(record@),
            Action::Stop(result) => ActionView::Stop(result_view(*result)),
        }
    }
}

/// The state of the pipeline.
pub enum StateView {
    /// Waiting for the next transaction of the intake queue.
    Draining,
    /// Processing `tx`: waiting for the outputs that it spends.
    Resolving { tx: TransactionView },
    /// Processing the transaction of hash `tx_hash`: waiting for the lookup of
    /// `current`, with `rest` still to come.
    Finding { tx_hash: Seq<u8>, current: CandidateView, rest: Seq<CandidateView> },
    /// Processing the transaction of hash `tx_hash`: waiting for the insert of the
    /// row of `current`, with `rest` still to come.
    Inserting { tx_hash: Seq<u8>, current: CandidateView, rest: Seq<CandidateView> },
    /// Ended, with `result`.
    Closed { result: Result<(), IndexErrorView> },
}

/// What the pipeline asks for in state `state`.
pub open spec fn request(state: StateView) -> ActionView {
    match state {
        StateView::Draining => ActionView::Receive,
        StateView::Resolving { tx } => ActionView::Resolve(tx.inputs),
        StateView::Finding { tx_hash, current, rest } => match current {
            CandidateView::Unlock(unlock) => ActionView::FindUnlock(unlock_id_of(unlock)),
            CandidateView::Lock(lock) => ActionView::FindLock(lock_id_of(lock)),
        },
        StateView::Inserting { tx_hash, current, rest } => match current {
            CandidateView::Unlock(unlock) => ActionView::InsertUnlock(
                unlock_row(unlock, unlock_id_of(unlock), tx_hash),
            ),
            CandidateView::Lock(lock) => ActionView::InsertLock(lock_row(lock, tx_hash)),
        },
        StateView::Closed { result } => ActionView::Stop(result),
    }
}

/// The state in which the structures `pending` of the transaction of hash
/// `tx` are still to be persisted: the lookup of the first of them, and
/// where none is left, waiting for the next transaction.
pub open spec fn persisting(tx: Seq<u8>, pending: Seq<CandidateView>) -> StateView {
    if pending.len() == 0 {
        StateView::Draining
    } else {
        StateView::Finding { tx_hash: tx, current: pending[0], rest: pending.skip(1) }
    }
}

/// The state that follows `state` when the surroundings tell `event`.
pub open spec fn step(state: StateView, event: EventView) -> StateView {
    match (state, event) {
        (StateView::Closed { result }, _) => state,
        (StateView::Draining, EventView::Transaction(tx)) => StateView::Resolving { tx },
        (StateView::Draining, EventView::EndOfStream) => StateView::Closed { result: Ok(()) },
        (StateView::Resolving { tx }, EventView::Outputs(pre_outputs)) => persisting(
            tx.hash,
            candidates(tx, pre_outputs),
        ),
        (StateView::Resolving { tx }, EventView::Failed(message)) => StateView::Closed {
            result: Err(IndexErrorView::Resolution(message)),
        },
        (StateView::Finding { tx_hash, current, rest }, EventView::Found(exists)) => if exists {
            persisting(tx_hash, rest)
        } else {
            StateView::Inserting { tx_hash, current, rest }
        },
        (StateView::Finding { tx_hash, current, rest }, EventView::Failed(message)) => StateView::Closed {
            result: Err(IndexErrorView::Persistence(message)),
        },
        (StateView::Inserting { tx_hash, current, rest }, EventView::Inserted) => persisting(tx_hash, rest),
        (StateView::Inserting { tx_hash, current, rest }, EventView::Failed(message)) => StateView::Closed {
            result: Err(IndexErrorView::Persistence(message)),
        },
        _ => StateView::Closed { result: Err(IndexErrorView::UnexpectedEvent) },
    }
}

/// Whether a transaction is in process in `state`: taken from the intake
/// queue, and not yet persisted in full.
pub open spec fn processing(state: StateView) -> bool {
    state is Resolving || state is Finding || state is Inserting
}

/// The state after the surroundings have told `events` one after the other.
pub open spec fn steps(state: StateView, events: Seq<EventView>) -> StateView
    decreases events.len(),
{
    if events.len() == 0 {
        state
    } else {
        steps(step(state, events[0]), events.skip(1))
    }
}

/// The next transaction is asked for in no state but `Draining`: while one
/// transaction is in process, the intake queue is left alone, and a
/// transaction that arrives unasked ends the pipeline instead of being
/// processed.
pub proof fn law_one_transaction_at_a_time(state: StateView, tx: TransactionView)
    ensures
        request(state) is Receive <==> state is Draining,
        processing(state) ==> request(state) !is Receive && request(state) !is Stop,
        processing(state) ==> step(state, EventView::Transaction(tx)) == (StateView::Closed {
            result: Err(IndexErrorView::UnexpectedEvent),
        }),
{
}

/// Nothing is stored for a transaction before its spent outputs are
/// resolved: between taking it and the resolver's answer the indexer asks
/// for that answer and for nothing else.
pub proof fn law_resolves_before_persisting(tx: TransactionView)
    ensures
        step(StateView::Draining, EventView::Transaction(tx)) == (StateView::Resolving { tx }),
        request(StateView::Resolving { tx }) == ActionView::Resolve(tx.inputs),
{
}

/// Every failure ends the pipeline at once, whatever was in process: the
/// state that follows is `Closed` with an error, that of the resolver where
/// the spent outputs were asked for, that of the store where a lookup or an
/// insert was.
pub proof fn law_failure_closes(state: StateView, message: Seq<char>)
    requires
        state !is Closed,
    ensures
        step(state, EventView::Failed(message)) == (StateView::Closed {
            result: Err(
                match state {
                    StateView::Resolving { tx } => IndexErrorView::Resolution(message),
                    StateView::Finding { tx_hash, current, rest } => IndexErrorView::Persistence(message),
                    StateView::Inserting { tx_hash, current, rest } => IndexErrorView::Persistence(
                        message,
                    ),
                    _ => IndexErrorView::UnexpectedEvent,
                },
            ),
        }),
{
}

/// Once ended, the pipeline stays ended with the result that it has:
/// whatever it is told afterwards, it asks for nothing more.
pub proof fn law_closed_is_final(result: Result<(), IndexErrorView>, events: Seq<EventView>)
    ensures
        steps(StateView::Closed { result }, events) == (StateView::Closed { result }),
        request(steps(StateView::Closed { result }, events)) == ActionView::Stop(result),
    decreases events.len(),
{
    if events.len() > 0 {
        law_closed_is_final(result, events.skip(1));
    }
}

/// Where the pipeline stands, with what it has to remember there.
enum State {
    Draining,
    Resolving { tx: Transaction },
    Finding { tx_hash: TxHash, current: Candidate, rest: VecDeque<Candidate> },
    Inserting { tx_hash: TxHash, current: Candidate, rest: VecDeque<Candidate> },
    Closed { result: Result<(), IndexError> },
}

/// The pipeline driver. It starts out waiting for the first transaction,
/// processes one transaction at a time, in the order of the intake queue,
/// and stops when the queue is closed or at the first failure.
pub struct RgbppIndexer {
    state: State,
}

impl View for RgbppIndexer {
    type V = StateView;

    closed spec fn view(&self) -> StateView {
        match self.state {
            State::Draining => StateView::Draining,
            State::Resolving { tx } => StateView::Resolving { tx: tx@ },
            State::Finding { tx_hash, current, rest } => StateView::Finding {
                tx_hash: tx_hash@,
                current: current@,
                rest: rest.deep_view(),
            },
            State::Inserting { tx_hash, current, rest } => StateView::Inserting {
                tx_hash: tx_hash@,
                current: current@,
                rest: rest.deep_view(),
            },
            State::Closed { result } => StateView::Closed { result: result_view(result) },
        }
    }
}

fn copy_of(result: &Result<(), IndexError>) -> (copy: Result<(), IndexError>)
    ensures
        result_view(copy) == result_view(*result),
{
    match result {
        Ok(_) => Ok(()),
        Err(IndexError::Resolution(message)) => Err(IndexError::Resolution(message.clone())),
        Err(IndexError::Persistence(message)) => Err(IndexError::Persistence(message.clone())),
        Err(IndexError::UnexpectedEvent) => Err(IndexError::UnexpectedEvent),
    }
}

fn copy_of_inputs(inputs: &Vec<OutPoint>) -> (copy: Vec<OutPoint>)
    ensures
        copy@ == inputs@,
{
    let mut copy: Vec<OutPoint> = Vec::new();
    let mut i: usize = 0;
    while i < inputs.len()
        invariant
            i <= inputs@.len(),
            copy@ == inputs@.take(i as int),
        decreases inputs@.len() - i,
    {
        copy.push(inputs[i]);
        i += 1;
    }
    copy
}

fn closed(error: IndexError) -> (next: (RgbppIndexer, Action))
    ensures
        next.0@ == (StateView::Closed { result: Err(error@) }),
        next.1@ == request(next.0@),
{
    let result: Result<(), IndexError> = Err(error);
    let shown: Result<(), IndexError> = copy_of(&result);
    (RgbppIndexer { state: State::Closed { result } }, Action::Stop(shown))
}

fn persist_next(tx: TxHash, pending: VecDeque<Candidate>) -> (next: (RgbppIndexer, Action))
    ensures
        next.0@ == persisting(tx@, pending.deep_view()),
        next.1@ == request(next.0@),
{
    let mut rest: VecDeque<Candidate> = pending;
    match rest.pop_front() {
        None => (RgbppIndexer { state: State::Draining }, Action::Receive),
        Some(current) => {
            assert(rest.deep_view() =~= pending.deep_view().skip(1));
            let action: Action = match &current {
                Candidate::Unlock(unlock) => Action::FindUnlock(unlock.unlock_id()),
                Candidate::Lock(lock) => Action::FindLock(lock.lock_id()),
            };
            (RgbppIndexer { state: State::Finding { tx_hash: tx, current, rest } }, action)
        },
    }
}

impl RgbppIndexer {
    /// The indexer before the first transaction, and what it asks for first:
    /// the next transaction of the intake queue.
    pub fn new() -> (start: (RgbppIndexer, Action))
        ensures
            start.0@ == StateView::Draining,
            start.1@ == request(start.0@),
    {
        (RgbppIndexer { state: State::Draining }, Action::Receive)
    }

    /// Whether the pipeline has ended.
    pub fn is_closed(&self) -> (ended: bool)
        ensures
            ended == (self@ is Closed),
    {
        match &self.state {
            State::Closed { .. } => true,
            _ => false,
        }
    }

    /// Takes what came of the last action and says what to do next. An
    /// event that does not answer the last action ends the pipeline with
    /// `UnexpectedEvent`; once ended, the pipeline stays so, whatever it is
    /// told.
    pub fn index(self, event: Event) -> (next: (RgbppIndexer, Action))
        ensures
            next.0@ == step(self@, event@),
            next.1@ == request(next.0@),
    {
        match (self.state, event) {
            (State::Closed { result }, _) => {
                let shown: Result<(), IndexError> = copy_of(&result);
                (RgbppIndexer { state: State::Closed { result } }, Action::Stop(shown))
            },
            (State::Draining, Event::Transaction(tx)) => {
                let inputs: Vec<OutPoint> = copy_of_inputs(&tx.inputs);
                (RgbppIndexer { state: State::Resolving { tx } }, Action::Resolve(inputs))
            },
            (State::Draining, Event::EndOfStream) => {
                (RgbppIndexer { state: State::Closed { result: Ok(()) } }, Action::Stop(Ok(())))
            },
            (State::Resolving { tx }, Event::Outputs(pre_outputs)) => {
                let found: VecDeque<Candidate> = index_rgbpp_lock(&tx, &pre_outputs);
                persist_next(tx.hash, found)
            },
            (State::Resolving { tx }, Event::Failed(message)) => {
                closed(IndexError::Resolution(message))
            },
            (State::Finding { tx_hash, current, rest }, Event::Found(exists)) => {
                match &current {
                    Candidate::Unlock(unlock) => match upsert_rgbpp_unlock(unlock, &tx_hash, exists) {
                        Some(record) => (
                            RgbppIndexer { state: State::Inserting { tx_hash, current, rest } },
                            Action::InsertUnlock(record),
                        ),
                        None => persist_next(tx_hash, rest),
                    },
                    Candidate::Lock(lock) => match upsert_rgbpp_lock(lock, &tx_hash, exists) {
                        Some(record) => (
                            RgbppIndexer { state: State::Inserting { tx_hash, current, rest } },
                            Action::InsertLock(record),
                        ),
                        None => persist_next(tx_hash, rest),
                    },
                }
            },
            (State::Finding { tx_hash, current, rest }, Event::Failed(message)) => {
                closed(IndexError::Persistence(message))
            },
            (State::Inserting { tx_hash, current, rest }, Event::Inserted) => persist_next(tx_hash, rest),
            (State::Inserting { tx_hash, current, rest }, Event::Failed(message)) => {
                closed(IndexError::Persistence(message))
            },
            _ => closed(IndexError::UnexpectedEvent),
        }
    }
}

} // verus!
