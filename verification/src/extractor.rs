//! Finding the structures of one transaction: unlock structures in its
//! witnesses, lock structures in the lock script arguments of the outputs
//! that it spends and of those that it makes. What does not decode is passed
//! over.

use crate::schemas::blockchain::{is_witness_args, read_witness_lock, witness_lock};
use crate::schemas::rgbpp::{is_rgbpp_lock, is_rgbpp_unlock, RGBPPLock, RGBPPUnlock};
use crate::transaction::{Transaction, TransactionView};
use std::collections::VecDeque;
use vstd::prelude::*;

verus! {

/// The unlock structure that `witness` carries: the payload of the `lock`
/// field of the witness wrapper, where `witness` is such a wrapper, the field
/// is present and its payload is an encoded unlock structure.
pub open spec fn unlock_in_witness(witness: Seq<u8>) -> Option<Seq<u8>> {
    match witness_lock(witness) {
        Some(data) => if is_rgbpp_unlock(data) {
            Some(data)
        } else {
            None
        },
        None => None,
    }
}

/// The lock structure that the lock script arguments `args` are, if any.
pub open spec fn lock_in_args(args: Seq<u8>) -> Option<Seq<u8>> {
    if is_rgbpp_lock(args) {
        Some(args)
    } else {
        None
    }
}

/// The unlock structures of `witnesses`, in the order of the witnesses.
pub open spec fn unlocks_of(witnesses: Seq<Seq<u8>>) -> Seq<Seq<u8>> {
    witnesses.filter_map(|witness: Seq<u8>| unlock_in_witness(witness))
}

/// The lock structures among the lock script arguments `args`, in their
/// order.
pub open spec fn locks_of(args: Seq<Seq<u8>>) -> Seq<Seq<u8>> {
    args.filter_map(|one: Seq<u8>| lock_in_args(one))
}

/// A structure found in a transaction.
#[derive(Clone, Debug, PartialEq, Eq)]
pub enum Candidate {
    /// An unlock structure, found in a witness.
    Unlock(RGBPPUnlock),
    /// A lock structure, found in the arguments of a lock script.
    Lock(RGBPPLock),
}

/// What a `Candidate` holds: the kind and the encoding.
pub enum CandidateView {
    Unlock(Seq<u8>),
    Lock(Seq<u8>),
}

impl View for Candidate {
    type V = CandidateView;

    open spec fn view(&self) -> CandidateView {
        match self {
            Candidate::Unlock(unlock) => CandidateView::Unlock(unlock@),
            Candidate::Lock(lock) => CandidateView::Lock(lock@),
        }
    }
}

impl DeepView for Candidate {
    type V = CandidateView;

    open spec fn deep_view(&self) -> CandidateView {
        self@
    }
}

/// The structures of the transaction `tx`, whose inputs spend outputs with
/// the lock script arguments `pre_outputs`: first the unlock structures of
/// its witnesses, then the lock structures of the spent outputs, then those
/// of its own outputs, each group in its order.
pub open spec fn candidates(tx: TransactionView, pre_outputs: Seq<Seq<u8>>) -> Seq<CandidateView> {
    unlocks_of(tx.witnesses).map_values(|unlock: Seq<u8>| CandidateView::Unlock(unlock))
        + locks_of(pre_outputs + tx.outputs).map_values(|lock: Seq<u8>| CandidateView::Lock(lock))
}

/// Mapping what decodes and dropping the rest goes through a concatenation.
proof fn lemma_filter_map_concat<A, B>(a: Seq<A>, b: Seq<A>, f: spec_fn(A) -> Option<B>)
    ensures
        (a + b).filter_map(f) == a.filter_map(f) + b.filter_map(f),
    decreases b.len(),
{
    if b.len() > 0 {
        assert((a + b).drop_last() =~= a + b.drop_last());
        lemma_filter_map_concat(a, b.drop_last(), f);
    }
}

/// A witness that fails to decode, at whichever stage, adds nothing to the
/// unlock structures of a transaction and takes nothing from them.
pub proof fn law_malformed_witness_is_skipped(
    before: Seq<Seq<u8>>,
    witness: Seq<u8>,
    after: Seq<Seq<u8>>,
)
    requires
        !is_witness_args(witness) || witness_lock(witness) is None || !is_rgbpp_unlock(
            witness_lock(witness)->Some_0,
        ),
    ensures
        unlock_in_witness(witness) is None,
        unlocks_of(before + seq![witness] + after) == unlocks_of(before + after),
{
    let f = |one: Seq<u8>| unlock_in_witness(one);
    lemma_filter_map_concat(before + seq![witness], after, f);
    lemma_filter_map_concat(before, seq![witness], f);
    lemma_filter_map_concat(before, after, f);
    Seq::lemma_filter_map_singleton(witness, f);
}

/// Lock script arguments that fail to decode add nothing to the lock
/// structures of a transaction and take nothing from them.
pub proof fn law_malformed_args_are_skipped(before: Seq<Seq<u8>>, args: Seq<u8>, after: Seq<Seq<u8>>)
    requires
        !is_rgbpp_lock(args),
    ensures
        lock_in_args(args) is None,
        locks_of(before + seq![args] + after) == locks_of(before + after),
{
    let f = |one: Seq<u8>| lock_in_args(one);
    lemma_filter_map_concat(before + seq![args], after, f);
    lemma_filter_map_concat(before, seq![args], f);
    lemma_filter_map_concat(before, after, f);
    Seq::lemma_filter_map_singleton(args, f);
}

/// Decodes `witness` as a witness wrapper and the payload of its `lock`
/// field as an unlock structure; `None` says that one of the two failed or
/// that the field is absent.
pub fn decode_unlock(witness: &[u8]) -> (unlock: Option<RGBPPUnlock>)
    ensures
        unlock.deep_view() == unlock_in_witness(witness@),
{
    match read_witness_lock(witness) {
        Some(data) => RGBPPUnlock::from_slice(data),
        None => None,
    }
}

/// Decodes the lock script arguments `args` as a lock structure; `None` says
/// that they are none.
pub fn decode_lock(args: &[u8]) -> (lock: Option<RGBPPLock>)
    ensures
        lock.deep_view() == lock_in_args(args@),
{
    RGBPPLock::from_slice(args)
}

/// The unlock structures that `witnesses` carry, in the order of the
/// witnesses.
pub fn extract_unlocks(witnesses: &Vec<Vec<u8>>) -> (unlocks: Vec<RGBPPUnlock>)
    ensures
        unlocks.deep_view() == unlocks_of(witnesses.deep_view()),
{
    let mut unlocks: Vec<RGBPPUnlock> = Vec::new();
    let ghost f = |witness: Seq<u8>| unlock_in_witness(witness);
    let mut i: usize = 0;
    while i < witnesses.len()
        invariant
            i <= witnesses@.len(),
            f == |witness: Seq<u8>| unlock_in_witness(witness),
            unlocks.deep_view() == witnesses.deep_view().take(i as int).filter_map(f),
        decreases witnesses@.len() - i,
    {
        let found: Option<RGBPPUnlock> = decode_unlock(witnesses[i].as_slice());
        proof {
            witnesses.deep_view().lemma_filter_map_take_succ(f, i as int);
            assert(witnesses.deep_view()[i as int] == witnesses@[i as int]@);
        }
        if let Some(unlock) = found {
            unlocks.push(unlock);
        }
        i += 1;
    }
    assert(witnesses.deep_view().take(i as int) =~= witnesses.deep_view());
    unlocks
}

/// The lock structures among the lock script arguments of `pre_outputs`, the
/// outputs that a transaction spends, and of `outputs`, those that it makes:
/// one list, the spent outputs first.
pub fn extract_locks(pre_outputs: &Vec<Vec<u8>>, outputs: &Vec<Vec<u8>>) -> (locks: Vec<RGBPPLock>)
    ensures
        locks.deep_view() == locks_of(pre_outputs.deep_view() + outputs.deep_view()),
{
    let mut locks: Vec<RGBPPLock> = Vec::new();
    push_locks(pre_outputs, &mut locks);
    push_locks(outputs, &mut locks);
    proof {
        lemma_filter_map_concat(
            pre_outputs.deep_view(),
            outputs.deep_view(),
            |one: Seq<u8>| lock_in_args(one),
        );
    }
    locks
}

/// The structures of the transaction `tx`, whose inputs spend outputs with
/// the lock script arguments `pre_outputs`, gathered in the order in which
/// they are to be persisted: unlock structures first, then lock structures.
pub fn index_rgbpp_lock(tx: &Transaction, pre_outputs: &Vec<Vec<u8>>) -> (found: VecDeque<Candidate>)
    ensures
        found.deep_view() == candidates(tx@, pre_outputs.deep_view()),
{
    let unlocks: Vec<RGBPPUnlock> = extract_unlocks(&tx.witnesses);
    let locks: Vec<RGBPPLock> = extract_locks(pre_outputs, &tx.outputs);
    let ghost wrap_unlock = |unlock: Seq<u8>| CandidateView::Unlock(unlock);
    let ghost wrap_lock = |lock: Seq<u8>| CandidateView::Lock(lock);
    let ghost unlock_views = unlocks.deep_view();
    let ghost lock_views = locks.deep_view();
    let mut found: VecDeque<Candidate> = VecDeque::new();
    for unlock in iter: unlocks
        invariant
            iter.seq() == unlocks@,
            unlock_views == unlocks.deep_view(),
            wrap_unlock == |unlock: Seq<u8>| CandidateView::Unlock(unlock),
            found.deep_view() == unlock_views.take(iter.index() as int).map_values(wrap_unlock),
    {
        let ghost before = found.deep_view();
        found.push_back(Candidate::Unlock(unlock));
        assert(found.deep_view() =~= before + seq![CandidateView::Unlock(unlock@)]);
    }
    let ghost first = found.deep_view();
    for lock in iter: locks
        invariant
            iter.seq() == locks@,
            lock_views == locks.deep_view(),
            wrap_lock == |lock: Seq<u8>| CandidateView::Lock(lock),
            found.deep_view() == first + lock_views.take(iter.index() as int).map_values(wrap_lock),
    {
        let ghost before = found.deep_view();
        found.push_back(Candidate::Lock(lock));
        assert(found.deep_view() =~= before + seq![CandidateView::Lock(lock@)]);
    }
    found
}

fn push_locks(args: &Vec<Vec<u8>>, locks: &mut Vec<RGBPPLock>)
    ensures
        final(locks).deep_view() == old(locks).deep_view() + locks_of(args.deep_view()),
{
    let ghost f = |one: Seq<u8>| lock_in_args(one);
    let ghost start = locks.deep_view();
    let mut i: usize = 0;
    while i < args.len()
        invariant
            i <= args@.len(),
            f == |one: Seq<u8>| lock_in_args(one),
            locks.deep_view() == start + args.deep_view().take(i as int).filter_map(f),
        decreases args@.len() - i,
    {
        let ghost before = locks.deep_view();
        let found: Option<RGBPPLock> = decode_lock(args[i].as_slice());
        proof {
            args.deep_view().lemma_filter_map_take_succ(f, i as int);
            assert(args.deep_view()[i as int] == args@[i as int]@);
        }
        match found {
            Some(lock) => {
                locks.push(lock);
                assert(locks.deep_view() =~= before + seq![lock@]);
            },
            None => {},
        }
        i += 1;
    }
    assert(args.deep_view().take(i as int) =~= args.deep_view());
}

} // verus!
