//! The molecule wire format, as far as the indexed structures use it:
//! little-endian numbers, byte vectors with a length prefix, and tables with
//! an offset header.

use vstd::prelude::*;

verus! {

/// The number that the two bytes of `s` from `at` on spell, low byte first.
pub open spec fn short_at(s: Seq<u8>, at: int) -> int {
    s[at] as int + 256 * (s[at + 1] as int)
}

/// The number that the four bytes of `s` from `at` on spell, low byte first.
pub open spec fn number_at(s: Seq<u8>, at: int) -> int {
    s[at] as int + 256 * (s[at + 1] as int) + 65536 * (s[at + 2] as int) + 16777216 * (s[at + 3] as int)
}

/// Reads the four-byte little-endian number at `at`: a length, a count or an
/// offset.
pub(crate) fn read_number(data: &[u8], at: usize) -> (n: u32)
    requires
        at + 4 <= data@.len(),
    ensures
        n as int == number_at(data@, at as int),
{
    let first: u32 = data[at] as u32;
    let second: u32 = data[at + 1] as u32;
    let third: u32 = data[at + 2] as u32;
    let fourth: u32 = data[at + 3] as u32;
    first + 256 * second + 65536 * third + 16777216 * fourth
}

/// Reads the two-byte little-endian number at `at`.
pub(crate) fn read_short(data: &[u8], at: usize) -> (n: u16)
    requires
        at + 2 <= data@.len(),
    ensures
        n as int == short_at(data@, at as int),
{
    let low: u16 = data[at] as u16;
    let high: u16 = data[at + 1] as u16;
    low + 256 * high
}

/// Whether `s` is a byte vector: a four-byte count, then exactly that many
/// bytes.
pub open spec fn is_bytes(s: Seq<u8>) -> bool {
    4 <= s.len() && s.len() == 4 + number_at(s, 0)
}

/// Whether `s` is an optional byte vector: nothing at all, or a byte vector.
pub open spec fn is_bytes_opt(s: Seq<u8>) -> bool {
    s.len() == 0 || is_bytes(s)
}

/// What a byte vector holds behind its count.
pub open spec fn raw_data(s: Seq<u8>) -> Seq<u8> {
    s.subrange(4, s.len() as int)
}

/// The size of the header of a table of `fields` fields: the total size and
/// one offset for each field.
pub open spec fn header_size(fields: int) -> int {
    4 * (fields + 1)
}

/// Where field `i` of a table begins, as its header says.
pub open spec fn field_start(s: Seq<u8>, i: int) -> int {
    number_at(s, 4 + 4 * i)
}

/// Where field `i` of a table of `fields` fields ends: where the next field
/// begins, and for the last field where the table ends.
pub open spec fn field_end(s: Seq<u8>, fields: int, i: int) -> int {
    if i + 1 < fields {
        field_start(s, i + 1)
    } else {
        s.len() as int
    }
}

/// Whether `s` is framed as a table of exactly `fields` fields: the first
/// number is the length of `s`, the first field begins right behind the
/// header, and no field ends before it begins. It says nothing of what the
/// fields hold.
pub open spec fn is_table(s: Seq<u8>, fields: int) -> bool {
    &&& header_size(fields) <= s.len()
    &&& number_at(s, 0) == s.len()
    &&& field_start(s, 0) == header_size(fields)
    &&& forall|i: int| 0 <= i < fields ==> field_start(s, i) <= #[trigger] field_end(s, fields, i)
}

/// The bytes of field `i` of a table of `fields` fields.
pub open spec fn field(s: Seq<u8>, fields: int, i: int) -> Seq<u8> {
    s.subrange(field_start(s, i), field_end(s, fields, i))
}

/// Every field of a table lies behind the header and inside the table.
pub proof fn lemma_fields_in_range(s: Seq<u8>, fields: int, i: int)
    requires
        is_table(s, fields),
        0 <= i < fields,
    ensures
        header_size(fields) <= field_start(s, i) <= field_end(s, fields, i) <= s.len(),
{
    lemma_fields_start_in_range(s, fields, i);
    if i + 1 < fields {
        lemma_fields_start_in_range(s, fields, i + 1);
    }
}

proof fn lemma_fields_start_in_range(s: Seq<u8>, fields: int, i: int)
    requires
        is_table(s, fields),
        0 <= i < fields,
    ensures
        header_size(fields) <= field_start(s, i) <= s.len(),
{
    lemma_starts_ascend(s, fields, 0, i);
    lemma_starts_ascend(s, fields, i, fields - 1);
    assert(field_start(s, fields - 1) <= field_end(s, fields, fields - 1));
}

proof fn lemma_starts_ascend(s: Seq<u8>, fields: int, i: int, j: int)
    requires
        is_table(s, fields),
        0 <= i <= j < fields,
    ensures
        field_start(s, i) <= field_start(s, j),
    decreases j - i,
{
    if i < j {
        assert(field_start(s, i) <= field_end(s, fields, i));
        lemma_starts_ascend(s, fields, i + 1, j);
    }
}

/// Tells whether `data` is a byte vector.
pub fn check_bytes(data: &[u8]) -> (ok: bool)
    ensures
        ok == is_bytes(data@),
{
    data.len() >= 4 && data.len() - 4 == read_number(data, 0) as usize
}

/// What the byte vector `data` holds behind its count.
pub fn raw_data_of<'a>(data: &'a [u8]) -> (payload: &'a [u8])
    requires
        is_bytes(data@),
    ensures
        payload@ == raw_data(data@),
{
    vstd::slice::slice_subrange(data, 4, data.len())
}

/// Tells whether `data` is an optional byte vector.
pub fn check_bytes_opt(data: &[u8]) -> (ok: bool)
    ensures
        ok == is_bytes_opt(data@),
{
    data.len() == 0 || check_bytes(data)
}

/// Tells whether `data` is framed as a table of exactly `fields` fields.
pub fn check_table(data: &[u8], fields: usize) -> (ok: bool)
    requires
        0 < fields,
        header_size(fields as int) <= usize::MAX,
    ensures
        ok == is_table(data@, fields as int),
{
    let len: usize = data.len();
    let header: usize = 4 * (fields + 1);
    if len < header {
        return false;
    }
    if read_number(data, 0) as usize != len {
        return false;
    }
    let mut start: usize = read_number(data, 4) as usize;
    if start != header {
        return false;
    }
    let mut i: usize = 0;
    while i < fields
        invariant
            i <= fields,
            len == data@.len(),
            header_size(fields as int) <= len,
            number_at(data@, 0) == len,
            field_start(data@, 0) == header_size(fields as int),
            i < fields ==> start == field_start(data@, i as int),
            forall|j: int|
                0 <= j < i ==> field_start(data@, j) <= #[trigger] field_end(data@, fields as int, j),
        decreases fields - i,
    {
        let end: usize = if i + 1 < fields {
            read_number(data, 8 + 4 * i) as usize
        } else {
            len
        };
        assert(end == field_end(data@, fields as int, i as int));
        if start > end {
            return false;
        }
        start = end;
        i += 1;
    }
    true
}

/// The bytes of field `i` of the table `data`.
pub fn table_field<'a>(data: &'a [u8], fields: usize, i: usize) -> (part: &'a [u8])
    requires
        is_table(data@, fields as int),
        i < fields,
    ensures
        part@ == field(data@, fields as int, i as int),
{
    proof {
        lemma_fields_in_range(data@, fields as int, i as int);
    }
    let start: usize = read_number(data, 4 + 4 * i) as usize;
    let end: usize = if i + 1 < fields {
        read_number(data, 8 + 4 * i) as usize
    } else {
        data.len()
    };
    vstd::slice::slice_subrange(data, start, end)
}

} // verus!
