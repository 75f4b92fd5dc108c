//! The record arena: an owned, append-only byte buffer holding a packed
//! sequence of records, each starting at an 8-byte-aligned offset.

use vstd::prelude::*;

use crate::item::{record_kind, Item, ItemType};
use crate::packed::{
    lemma_packed_append, lemma_packed_nonempty, lemma_packed_records_wf, next_offset, record_at,
    records_from, valid_record_at, wf_packed_from,
};
use crate::wire::{align8, append_bytes, le32_at, read_u32};

verus! {

/// Relies on `Vec::capacity`: a vector's capacity is never less than its
/// length.
#[verifier::external_body]
fn vec_capacity(v: &Vec<u8>) -> (r: usize)
    ensures
        r >= v@.len(),
{
    v.capacity()
}

/// Buffer to copy items into.
///
/// Records are appended end-to-end, each padded so that the next one starts
/// at an 8-byte-aligned offset. The buffer's view is the sequence of the
/// unpadded records it holds, in push order.
pub struct ItemBuffer {
    buffer: Vec<u8>,
}

impl View for ItemBuffer {
    type V = Seq<Seq<u8>>;

    closed spec fn view(&self) -> Seq<Seq<u8>> {
        records_from(self.buffer@, 0)
    }
}

impl ItemBuffer {
    #[verifier::type_invariant]
    spec fn inv(self) -> bool {
        wf_packed_from(self.buffer@, 0)
    }

    /// The total number of bytes the buffer holds, padding included.
    pub closed spec fn spec_byte_len(self) -> nat {
        self.buffer@.len()
    }

    /// Construct a new, empty buffer.
    pub fn new() -> (r: Self)
        ensures
            r@ == Seq::<Seq<u8>>::empty(),
            r.spec_byte_len() == 0,
    {
        Self { buffer: Vec::new() }
    }

    /// Constructs a new, empty buffer with at least the specified capacity.
    ///
    /// Note the capacity is in bytes, not in number of items, since items are
    /// all dynamically sized.
    pub fn with_capacity(size: usize) -> (r: Self)
        ensures
            r@ == Seq::<Seq<u8>>::empty(),
            r.spec_byte_len() == 0,
    {
        Self { buffer: Vec::with_capacity(size) }
    }

    /// Appends an item to the back of the buffer: the record's unpadded bytes
    /// are copied in, followed by zero padding up to the record's aligned
    /// size, so the next push again starts at an 8-byte-aligned offset.
    pub fn push(&mut self, item: &Item)
        requires
            old(self).spec_byte_len() + align8(item@.len() as int) <= usize::MAX,
        ensures
            final(self)@ == old(self)@.push(item@),
            final(self).spec_byte_len() == old(self).spec_byte_len() + align8(item@.len() as int),
    {
        proof {
            use_type_invariant(&*self);
            use_type_invariant(item);
        }
        let ghost old_bytes = self.buffer@;
        let aligned: usize = item.aligned_size();

        // Build the padded record slot first, so the arena itself changes in
        // one step.
        let mut slot: Vec<u8> = Vec::new();
        append_bytes(&mut slot, item.as_bytes());
        while slot.len() < aligned
            invariant
                item@.len() <= slot@.len() <= aligned,
                slot@.subrange(0, item@.len() as int) == item@,
            decreases aligned - slot@.len(),
        {
            slot.push(0u8);
            proof {
                assert(slot@.subrange(0, item@.len() as int) =~= item@);
            }
        }

        let mut b: Vec<u8> = Vec::new();
        core::mem::swap(&mut b, &mut self.buffer);
        append_bytes(&mut b, slot.as_slice());
        proof {
            assert(b@ == old_bytes + slot@);
            lemma_packed_append(old_bytes, item@, slot@, 0);
        }
        core::mem::swap(&mut b, &mut self.buffer);
    }

    /// Check whether an item fits into the buffer's remaining space without
    /// reallocating.
    ///
    /// The answer depends on the capacity the allocator granted, so nothing
    /// more is stated of it; consumers use it to pre-size a fixed buffer and
    /// flush when full.
    pub fn fits(&self, item: &Item) -> bool {
        proof {
            use_type_invariant(&*self);
        }
        let cap: usize = vec_capacity(&self.buffer);
        cap - self.buffer.len() >= item.aligned_size()
    }

    /// The total number of bytes the buffer holds, padding included.
    pub fn byte_len(&self) -> (r: usize)
        ensures
            r == self.spec_byte_len(),
    {
        self.buffer.len()
    }

    /// Return true if the buffer contains no items.
    pub fn is_empty(&self) -> (r: bool)
        ensures
            r == (self@.len() == 0),
            r == (self.spec_byte_len() == 0),
    {
        proof {
            use_type_invariant(&*self);
            lemma_packed_nonempty(self.buffer@, 0);
        }
        self.buffer.is_empty()
    }

    /// Clears the whole buffer, removing all items.
    ///
    /// Note that this method has no effect on the allocated capacity.
    pub fn clear(&mut self)
        ensures
            final(self)@ == Seq::<Seq<u8>>::empty(),
            final(self).spec_byte_len() == 0,
    {
        let mut b: Vec<u8> = Vec::new();
        core::mem::swap(&mut b, &mut self.buffer);
        b.clear();
        core::mem::swap(&mut b, &mut self.buffer);
    }

    /// The kinds of the contained items, in storage order: a diagnostic
    /// summary of what the buffer holds.
    pub fn item_types(&self) -> (r: Vec<ItemType>)
        ensures
            r@.len() == self@.len(),
            forall|i: int| 0 <= i < r@.len() ==> #[trigger] r@[i] == record_kind(self@[i]),
    {
        let mut out: Vec<ItemType> = Vec::new();
        let mut it = self.iter();
        loop
            invariant
                out@.len() + it.remaining().len() == self@.len(),
                forall|i: int|
                    0 <= i < out@.len() ==> #[trigger] out@[i] == record_kind(self@[i]),
                it.remaining() == self@.skip(out@.len() as int),
            decreases it.remaining().len(),
        {
            let ghost done = out@.len() as int;
            match it.next() {
                None => {
                    return out;
                },
                Some(item) => {
                    proof {
                        assert(item@ == self@[done]);
                        assert(it.remaining() =~= self@.skip(done + 1));
                    }
                    out.push(item.item_type());
                },
            }
        }
    }

    /// The buffer holds at most one record per 8 bytes.
    pub proof fn lemma_record_count(&self)
        ensures
            self@.len() * 8 <= self.spec_byte_len(),
    {
        crate::packed::lemma_records_count_bound(self.buffer@, 0);
    }

    /// Returns an iterator over the buffer.
    ///
    /// The iterator yields a copy of every record from start to end, in push
    /// order; it can be created anew to restart the walk.
    pub fn iter(&self) -> (r: ItemBufferIterator)
        ensures
            r.remaining() == self@,
    {
        proof {
            use_type_invariant(&*self);
        }
        ItemBufferIterator { buffer: self, index: 0 }
    }
}

/// Immutable [`ItemBuffer`] iterator.
///
/// This struct is created by the [`iter`](ItemBuffer::iter) method. It holds
/// a cursor into the buffer's bytes and steps by each visited record's
/// aligned size until the buffer's length is reached.
pub struct ItemBufferIterator<'b> {
    buffer: &'b ItemBuffer,
    index: usize,
}

impl<'b> ItemBufferIterator<'b> {
    #[verifier::type_invariant]
    spec fn inv(self) -> bool {
        &&& self.index <= self.buffer.buffer@.len()
        &&& wf_packed_from(self.buffer.buffer@, self.index as int)
    }

    /// The records not yet yielded, in the order they will come.
    pub closed spec fn remaining(self) -> Seq<Seq<u8>> {
        records_from(self.buffer.buffer@, self.index as int)
    }

    /// Yields a copy of the next record, or `None` exactly when the cursor
    /// has reached the buffer's end.
    pub fn next(&mut self) -> (r: Option<Item>)
        ensures
            match r {
                Some(item) => {
                    &&& old(self).remaining().len() > 0
                    &&& item@ == old(self).remaining()[0]
                    &&& final(self).remaining() == old(self).remaining().drop_first()
                },
                None => {
                    &&& old(self).remaining().len() == 0
                    &&& final(self).remaining() == old(self).remaining()
                },
            },
    {
        proof {
            use_type_invariant(&*self);
        }
        let ghost s = self.buffer.buffer@;
        let ghost o = self.index as int;
        let bytes: &Vec<u8> = &self.buffer.buffer;
        let n: usize = bytes.len();
        if self.index == n {
            proof {
                lemma_packed_nonempty(s, o);
            }
            return None;
        }
        proof {
            assert(valid_record_at(s, o));
            lemma_packed_records_wf(s, o);
            assert(records_from(s, o)[0] == record_at(s, o));
        }
        let size = read_u32(bytes.as_slice(), self.index);
        let item_bytes: Vec<u8> = vstd::slice::slice_to_vec(
            vstd::slice::slice_subrange(bytes.as_slice(), self.index, self.index + size as usize),
        );
        let item = Item::from_wf_bytes(item_bytes);
        let aligned: usize = (size as usize + 7) / 8 * 8;
        proof {
            crate::wire::lemma_align8(size as int);
            assert(next_offset(s, o) == o + align8(le32_at(s, o) as int));
        }
        self.index = self.index + aligned;
        proof {
            assert(self.index as int == next_offset(s, o));
            assert(records_from(s, o) == seq![record_at(s, o)] + records_from(s, self.index as int));
            assert(records_from(s, self.index as int) =~= records_from(s, o).drop_first());
        }
        Some(item)
    }
}

} // verus!
