//! The witness wrapper: a table of three optional byte vectors, `lock`,
//! `input_type` and `output_type`.

use crate::layout::{
    check_bytes_opt, check_table, field, is_bytes_opt, is_table, raw_data, raw_data_of, table_field,
};
use vstd::prelude::*;

verus! {

/// Whether `s` is an encoded witness wrapper.
pub open spec fn is_witness_args(s: Seq<u8>) -> bool {
    &&& is_table(s, 3)
    &&& is_bytes_opt(field(s, 3, 0))
    &&& is_bytes_opt(field(s, 3, 1))
    &&& is_bytes_opt(field(s, 3, 2))
}

/// What the `lock` field of the witness `s` carries behind its count: nothing
/// where `s` is no witness wrapper or its `lock` field is absent.
pub open spec fn witness_lock(s: Seq<u8>) -> Option<Seq<u8>> {
    if is_witness_args(s) && field(s, 3, 0).len() > 0 {
        Some(raw_data(field(s, 3, 0)))
    } else {
        None
    }
}

/// Tells whether `witness` is an encoded witness wrapper.
pub fn check_witness_args(witness: &[u8]) -> (ok: bool)
    ensures
        ok == is_witness_args(witness@),
{
    check_table(witness, 3) && check_bytes_opt(table_field(witness, 3, 0)) && check_bytes_opt(
        table_field(witness, 3, 1),
    ) && check_bytes_opt(table_field(witness, 3, 2))
}

/// Decodes `witness` as a witness wrapper and hands out what its `lock` field
/// carries.
pub fn read_witness_lock<'a>(witness: &'a [u8]) -> (lock: Option<&'a [u8]>)
    ensures
        lock is Some <==> witness_lock(witness@) is Some,
        lock matches Some(data) ==> witness_lock(witness@) == Some(data@),
{
    if !check_witness_args(witness) {
        return None;
    }
    let lock: &[u8] = table_field(witness, 3, 0);
    if lock.len() == 0 {
        None
    } else {
        Some(raw_data_of(lock))
    }
}

} // verus!
