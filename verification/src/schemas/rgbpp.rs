//! The lock structure, found in lock script arguments, and the unlock
//! structure, found in witnesses.

use crate::layout::{
    check_bytes, check_table, field, field_start, is_bytes, is_table, lemma_fields_in_range,
    number_at, raw_data, read_number, read_short, short_at, table_field,
};
use vstd::prelude::*;
use vstd::slice::slice_to_vec;

verus! {

/// The size of an encoded lock structure: a four-byte output index and a
/// 32-byte transaction id.
pub const LOCK_SIZE: usize = 36;

/// Whether `s` is an encoded lock structure. The layout is of fixed size and
/// every value of each field is valid, so the length alone decides.
pub open spec fn is_rgbpp_lock(s: Seq<u8>) -> bool {
    s.len() == 36
}

/// The output index that the encoded lock `s` names.
pub open spec fn lock_out_index(s: Seq<u8>) -> int {
    number_at(s, 0)
}

/// The transaction id that the encoded lock `s` names, as it is stored.
pub open spec fn lock_btc_txid(s: Seq<u8>) -> Seq<u8> {
    s.subrange(4, 36)
}

/// Whether `s` is an encoded unlock structure: a table of a two-byte version,
/// two bytes of extra commitment data, and two byte vectors.
pub open spec fn is_rgbpp_unlock(s: Seq<u8>) -> bool {
    &&& is_table(s, 4)
    &&& field(s, 4, 0).len() == 2
    &&& field(s, 4, 1).len() == 2
    &&& is_bytes(field(s, 4, 2))
    &&& is_bytes(field(s, 4, 3))
}

/// The version of the encoded unlock `s`.
pub open spec fn unlock_version(s: Seq<u8>) -> int {
    short_at(field(s, 4, 0), 0)
}

/// The number of inputs that the encoded unlock `s` commits to.
pub open spec fn unlock_input_len(s: Seq<u8>) -> u8 {
    field(s, 4, 1)[0]
}

/// The number of outputs that the encoded unlock `s` commits to.
pub open spec fn unlock_output_len(s: Seq<u8>) -> u8 {
    field(s, 4, 1)[1]
}

/// The `btc_tx` field of the encoded unlock `s`, as it is encoded: a byte
/// vector, count included.
pub open spec fn unlock_btc_tx(s: Seq<u8>) -> Seq<u8> {
    field(s, 4, 2)
}

/// The `btc_tx_proof` field of the encoded unlock `s`, as it is encoded: a
/// byte vector, count included.
pub open spec fn unlock_btc_tx_proof(s: Seq<u8>) -> Seq<u8> {
    field(s, 4, 3)
}

/// In an encoded unlock structure every field has its place: the header of
/// 20 bytes, the version at 20, the extra commitment data at 22, the
/// `btc_tx` field at 24 and the `btc_tx_proof` field right behind it, up to
/// the end, each of the two with its count of four bytes in front of what
/// it holds. So the encoding is fixed by what the fields hold.
pub proof fn law_unlock_layout(s: Seq<u8>)
    requires
        is_rgbpp_unlock(s),
    ensures
        field_start(s, 0) == 20,
        field_start(s, 1) == 22,
        field_start(s, 2) == 24,
        field_start(s, 3) == 28 + number_at(s, 24),
        s.len() == 32 + number_at(s, 24) + number_at(s, 28 + number_at(s, 24)),
        unlock_version(s) == short_at(s, 20),
        unlock_input_len(s) == s[22],
        unlock_output_len(s) == s[23],
        unlock_btc_tx(s) == s.subrange(24, 28 + number_at(s, 24)),
        unlock_btc_tx_proof(s) == s.subrange(28 + number_at(s, 24), s.len() as int),
        raw_data(unlock_btc_tx(s)) == s.subrange(28, 28 + number_at(s, 24)),
        raw_data(unlock_btc_tx_proof(s)) == s.subrange(32 + number_at(s, 24), s.len() as int),
{
    lemma_fields_in_range(s, 4, 0);
    lemma_fields_in_range(s, 4, 1);
    lemma_fields_in_range(s, 4, 2);
    lemma_fields_in_range(s, 4, 3);
}

/// Two encoded unlock structures are equal exactly when their fields are.
pub proof fn law_unlock_equal_by_fields(a: Seq<u8>, b: Seq<u8>)
    requires
        is_rgbpp_unlock(a),
        is_rgbpp_unlock(b),
    ensures
        a == b <==> {
            &&& unlock_version(a) == unlock_version(b)
            &&& unlock_input_len(a) == unlock_input_len(b)
            &&& unlock_output_len(a) == unlock_output_len(b)
            &&& unlock_btc_tx(a) == unlock_btc_tx(b)
            &&& unlock_btc_tx_proof(a) == unlock_btc_tx_proof(b)
        },
{
    if unlock_version(a) == unlock_version(b) && unlock_input_len(a) == unlock_input_len(b)
        && unlock_output_len(a) == unlock_output_len(b) && unlock_btc_tx(a) == unlock_btc_tx(b)
        && unlock_btc_tx_proof(a) == unlock_btc_tx_proof(b) {
        law_unlock_layout(a);
        law_unlock_layout(b);
        lemma_equal_when_laid_out_alike(a, b, 28 + number_at(a, 24));
    }
}

proof fn lemma_equal_when_laid_out_alike(a: Seq<u8>, b: Seq<u8>, middle: int)
    requires
        28 <= middle <= a.len() == b.len(),
        number_at(a, 0) == number_at(b, 0),
        number_at(a, 4) == number_at(b, 4),
        number_at(a, 8) == number_at(b, 8),
        number_at(a, 12) == number_at(b, 12),
        number_at(a, 16) == number_at(b, 16),
        short_at(a, 20) == short_at(b, 20),
        a[22] == b[22],
        a[23] == b[23],
        a.subrange(24, middle) == b.subrange(24, middle),
        a.subrange(middle, a.len() as int) == b.subrange(middle, b.len() as int),
    ensures
        a == b,
{
    lemma_number_decides_bytes(a, b, 0);
    lemma_number_decides_bytes(a, b, 4);
    lemma_number_decides_bytes(a, b, 8);
    lemma_number_decides_bytes(a, b, 12);
    lemma_number_decides_bytes(a, b, 16);
    assert forall|i: int| 0 <= i < a.len() implies a[i] == b[i] by {
        if 24 <= i < middle {
            assert(a[i] == a.subrange(24, middle)[i - 24]);
            assert(b[i] == b.subrange(24, middle)[i - 24]);
        } else if middle <= i {
            assert(a[i] == a.subrange(middle, a.len() as int)[i - middle]);
            assert(b[i] == b.subrange(middle, b.len() as int)[i - middle]);
        }
    }
}

proof fn lemma_number_decides_bytes(a: Seq<u8>, b: Seq<u8>, at: int)
    requires
        number_at(a, at) == number_at(b, at),
    ensures
        a[at] == b[at],
        a[at + 1] == b[at + 1],
        a[at + 2] == b[at + 2],
        a[at + 3] == b[at + 3],
{
}

/// A lock structure. Its view is its encoding.
#[derive(Debug, PartialEq, Eq)]
pub struct RGBPPLock {
    data: Vec<u8>,
}

impl View for RGBPPLock {
    type V = Seq<u8>;

    closed spec fn view(&self) -> Seq<u8> {
        self.data@
    }
}

impl DeepView for RGBPPLock {
    type V = Seq<u8>;

    open spec fn deep_view(&self) -> Seq<u8> {
        self@
    }
}

impl Clone for RGBPPLock {
    fn clone(&self) -> (copy: Self)
        ensures
            copy@ == self@,
    {
        proof {
            use_type_invariant(self);
        }
        RGBPPLock { data: slice_to_vec(self.data.as_slice()) }
    }
}

impl RGBPPLock {
    /// Every lock structure is a valid encoding.
    #[verifier::type_invariant]
    pub open spec fn wf(&self) -> bool {
        is_rgbpp_lock(self@)
    }

    /// Decodes `slice` as a lock structure; `None` says that it is none.
    pub fn from_slice(slice: &[u8]) -> (lock: Option<RGBPPLock>)
        ensures
            lock is Some <==> is_rgbpp_lock(slice@),
            lock matches Some(l) ==> l@ == slice@ && l.wf(),
    {
        if slice.len() == LOCK_SIZE {
            Some(RGBPPLock { data: slice_to_vec(slice) })
        } else {
            None
        }
    }

    /// The encoding.
    pub fn as_bytes(&self) -> (bytes: Vec<u8>)
        ensures
            bytes@ == self@,
            self.wf(),
    {
        proof {
            use_type_invariant(self);
        }
        slice_to_vec(self.data.as_slice())
    }

    /// The index of the bound output.
    pub fn out_index(&self) -> (index: u32)
        ensures
            index as int == lock_out_index(self@),
    {
        proof {
            use_type_invariant(self);
        }
        read_number(self.data.as_slice(), 0)
    }

    /// The id of the bound transaction, in the byte order in which the
    /// structure stores it.
    pub fn btc_txid(&self) -> (txid: Vec<u8>)
        ensures
            txid@ == lock_btc_txid(self@),
            txid@.len() == 32,
    {
        proof {
            use_type_invariant(self);
        }
        slice_to_vec(vstd::slice::slice_subrange(self.data.as_slice(), 4, LOCK_SIZE))
    }
}

/// The extra commitment data of an unlock structure.
#[derive(Clone, Copy, Debug, PartialEq, Eq)]
pub struct ExtraCommitmentData {
    /// The number of inputs committed to.
    pub input_len: u8,
    /// The number of outputs committed to.
    pub output_len: u8,
}

/// An unlock structure. Its view is its encoding.
#[derive(Debug, PartialEq, Eq)]
pub struct RGBPPUnlock {
    data: Vec<u8>,
}

impl View for RGBPPUnlock {
    type V = Seq<u8>;

    closed spec fn view(&self) -> Seq<u8> {
        self.data@
    }
}

impl DeepView for RGBPPUnlock {
    type V = Seq<u8>;

    open spec fn deep_view(&self) -> Seq<u8> {
        self@
    }
}

impl Clone for RGBPPUnlock {
    fn clone(&self) -> (copy: Self)
        ensures
            copy@ == self@,
    {
        proof {
            use_type_invariant(self);
        }
        RGBPPUnlock { data: slice_to_vec(self.data.as_slice()) }
    }
}

impl RGBPPUnlock {
    /// Every unlock structure is a valid encoding.
    #[verifier::type_invariant]
    pub open spec fn wf(&self) -> bool {
        is_rgbpp_unlock(self@)
    }

    /// Decodes `slice` as an unlock structure; `None` says that it is none.
    pub fn from_slice(slice: &[u8]) -> (unlock: Option<RGBPPUnlock>)
        ensures
            unlock is Some <==> is_rgbpp_unlock(slice@),
            unlock matches Some(u) ==> u@ == slice@ && u.wf(),
    {
        if check_table(slice, 4) && table_field(slice, 4, 0).len() == 2 && table_field(
            slice,
            4,
            1,
        ).len() == 2 && check_bytes(table_field(slice, 4, 2)) && check_bytes(
            table_field(slice, 4, 3),
        ) {
            Some(RGBPPUnlock { data: slice_to_vec(slice) })
        } else {
            None
        }
    }

    /// The encoding.
    pub fn as_bytes(&self) -> (bytes: Vec<u8>)
        ensures
            bytes@ == self@,
            self.wf(),
    {
        proof {
            use_type_invariant(self);
        }
        slice_to_vec(self.data.as_slice())
    }

    /// The version.
    pub fn version(&self) -> (version: u16)
        ensures
            version as int == unlock_version(self@),
    {
        proof {
            use_type_invariant(self);
        }
        read_short(table_field(self.data.as_slice(), 4, 0), 0)
    }

    /// The extra commitment data.
    pub fn extra_data(&self) -> (extra: ExtraCommitmentData)
        ensures
            extra.input_len == unlock_input_len(self@),
            extra.output_len == unlock_output_len(self@),
    {
        proof {
            use_type_invariant(self);
        }
        let part: &[u8] = table_field(self.data.as_slice(), 4, 1);
        ExtraCommitmentData { input_len: part[0], output_len: part[1] }
    }

    /// The `btc_tx` field as it is encoded: a byte vector, count included.
    pub fn btc_tx(&self) -> (bytes: Vec<u8>)
        ensures
            bytes@ == unlock_btc_tx(self@),
            is_bytes(bytes@),
    {
        proof {
            use_type_invariant(self);
        }
        slice_to_vec(table_field(self.data.as_slice(), 4, 2))
    }

    /// The `btc_tx_proof` field as it is encoded: a byte vector, count
    /// included.
    pub fn btc_tx_proof(&self) -> (bytes: Vec<u8>)
        ensures
            bytes@ == unlock_btc_tx_proof(self@),
            is_bytes(bytes@),
    {
        proof {
            use_type_invariant(self);
        }
        slice_to_vec(table_field(self.data.as_slice(), 4, 3))
    }
}

} // verus!
