//! Packed record sequences: the layout shared by the record arena and by the
//! ring region inside an area record.
//!
//! A packed byte range holds zero or more records end-to-end. Each record
//! starts where the previous record's *aligned* size ends, and the last
//! record's aligned size ends exactly at the range's end — there is never
//! partial overlap or a gap.

use vstd::prelude::*;

use crate::item::{wf_record, MAX_RECORD_SIZE};
use crate::wire::{align8, le32_at, lemma_align8, read_u32};

verus! {

/// Offset `o` begins a record slot inside `s`: the header fits, the size
/// field is in range, and both the record and its aligned extent fit in `s`.
pub open spec fn valid_record_at(s: Seq<u8>, o: int) -> bool {
    &&& 0 <= o
    &&& o + 8 <= s.len()
    &&& 8 <= le32_at(s, o) <= MAX_RECORD_SIZE
    &&& o + le32_at(s, o) <= s.len()
    &&& o + align8(le32_at(s, o) as int) <= s.len()
}

/// Where the record starting at `o` ends, padding included: the start of the
/// next record slot.
pub open spec fn next_offset(s: Seq<u8>, o: int) -> int {
    o + align8(le32_at(s, o) as int)
}

/// The unpadded bytes of the record starting at `o`.
pub open spec fn record_at(s: Seq<u8>, o: int) -> Seq<u8> {
    s.subrange(o, o + le32_at(s, o) as int)
}

/// From offset `o` to the end of `s`, the bytes are a gapless sequence of
/// record slots, the last of which ends exactly at `s.len()`.
pub open spec fn wf_packed_from(s: Seq<u8>, o: int) -> bool
    decreases s.len() - o when 0 <= o <= s.len() via wf_packed_from_decreases
{
    if o == s.len() {
        true
    } else if valid_record_at(s, o) {
        wf_packed_from(s, next_offset(s, o))
    } else {
        false
    }
}

#[via_fn]
proof fn wf_packed_from_decreases(s: Seq<u8>, o: int) {
    if o != s.len() && valid_record_at(s, o) {
        lemma_align8(le32_at(s, o) as int);
    }
}

/// The records stored from offset `o` on, in order, each unpadded. The list
/// ends at the first offset that begins no valid record slot.
pub open spec fn records_from(s: Seq<u8>, o: int) -> Seq<Seq<u8>>
    decreases s.len() - o when 0 <= o <= s.len() via records_from_decreases
{
    if valid_record_at(s, o) {
        seq![record_at(s, o)] + records_from(s, next_offset(s, o))
    } else {
        Seq::empty()
    }
}

#[via_fn]
proof fn records_from_decreases(s: Seq<u8>, o: int) {
    if valid_record_at(s, o) {
        lemma_align8(le32_at(s, o) as int);
    }
}

/// Every record listed by [`records_from`] of a well-packed range is a
/// well-formed record.
pub proof fn lemma_packed_records_wf(s: Seq<u8>, o: int)
    requires
        0 <= o <= s.len(),
        wf_packed_from(s, o),
    ensures
        forall|i: int|
            0 <= i < records_from(s, o).len() ==> wf_record(#[trigger] records_from(s, o)[i]),
    decreases s.len() - o,
{
    if o == s.len() {
    } else {
        let size = le32_at(s, o) as int;
        lemma_align8(size);
        assert(record_at(s, o).len() == size);
        assert(le32_at(record_at(s, o), 0) == le32_at(s, o)) by {
            assert(record_at(s, o).subrange(0, 4) =~= s.subrange(o, o + 4));
        }
        lemma_packed_records_wf(s, next_offset(s, o));
        assert forall|i: int| 0 <= i < records_from(s, o).len() implies wf_record(
            #[trigger] records_from(s, o)[i],
        ) by {
            if i > 0 {
                assert(records_from(s, o)[i] == records_from(s, next_offset(s, o))[i - 1]);
            }
        }
    }
}

/// Appending one padded record to a well-packed range keeps it well packed
/// and appends exactly that record to the stored list.
///
/// `p` is the record `r` followed by its padding: `p` starts with `r`'s bytes
/// and is `r`'s length rounded up to the next multiple of 8.
pub proof fn lemma_packed_append(s: Seq<u8>, r: Seq<u8>, p: Seq<u8>, o: int)
    requires
        0 <= o <= s.len(),
        wf_packed_from(s, o),
        wf_record(r),
        p.len() == align8(r.len() as int),
        p.subrange(0, r.len() as int) == r,
    ensures
        wf_packed_from(s + p, o),
        records_from(s + p, o) == records_from(s, o).push(r),
    decreases s.len() - o,
{
    let t = s + p;
    lemma_align8(r.len() as int);
    if o == s.len() {
        assert(t.subrange(o, o + 4) =~= r.subrange(0, 4));
        assert(r.subrange(0, 4) =~= r.subrange(0, r.len() as int).subrange(0, 4));
        assert(le32_at(t, o) == le32_at(r, 0));
        assert(valid_record_at(t, o));
        assert(record_at(t, o) =~= r);
        assert(next_offset(t, o) == t.len());
        assert(!valid_record_at(t, t.len() as int));
        assert(wf_packed_from(t, t.len() as int));
        assert(records_from(t, t.len() as int) =~= Seq::<Seq<u8>>::empty());
        assert(records_from(s, o) =~= Seq::<Seq<u8>>::empty());
        assert(records_from(t, o) =~= records_from(s, o).push(r));
    } else {
        assert(valid_record_at(s, o));
        lemma_align8(le32_at(s, o) as int);
        assert(t.subrange(o, o + 4) =~= s.subrange(o, o + 4));
        assert(le32_at(t, o) == le32_at(s, o));
        assert(valid_record_at(t, o));
        assert(record_at(t, o) =~= record_at(s, o));
        lemma_packed_append(s, r, p, next_offset(s, o));
        assert(records_from(t, o) =~= records_from(s, o).push(r));
    }
}

/// A well-packed range holds records exactly when it has bytes.
pub proof fn lemma_packed_nonempty(s: Seq<u8>, o: int)
    requires
        0 <= o <= s.len(),
        wf_packed_from(s, o),
    ensures
        records_from(s, o).len() == 0 <==> o == s.len(),
{
    if o < s.len() {
        assert(valid_record_at(s, o));
        assert(records_from(s, o).len() >= 1);
    }
}

/// A packed range holds at most one record per 8 bytes: every record slot is
/// at least 8 bytes wide.
pub proof fn lemma_records_count_bound(s: Seq<u8>, o: int)
    requires
        0 <= o <= s.len(),
    ensures
        records_from(s, o).len() * 8 <= s.len() - o,
    decreases s.len() - o,
{
    if valid_record_at(s, o) {
        lemma_align8(le32_at(s, o) as int);
        lemma_records_count_bound(s, next_offset(s, o));
    }
}

/// Reports whether the byte range is a gapless sequence of record slots.
pub fn check_packed(s: &[u8]) -> (r: bool)
    ensures
        r == wf_packed_from(s@, 0),
{
    let n: usize = s.len();
    let mut o: usize = 0;
    loop
        invariant
            o <= n,
            n == s@.len(),
            wf_packed_from(s@, 0) <==> wf_packed_from(s@, o as int),
        decreases n - o,
    {
        if o == n {
            return true;
        }
        if n - o < 8 {
            assert(!valid_record_at(s@, o as int));
            return false;
        }
        let size = read_u32(s, o);
        if size < 8 || size > MAX_RECORD_SIZE {
            assert(!valid_record_at(s@, o as int));
            return false;
        }
        let aligned: usize = (size as usize + 7) / 8 * 8;
        proof {
            lemma_align8(size as int);
        }
        if aligned > n - o {
            assert(!valid_record_at(s@, o as int));
            return false;
        }
        o = o + aligned;
    }
}

} // verus!
