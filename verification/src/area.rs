//! An area: a mapped surface derived from a way or from a relation, owning
//! an ordered sequence of outer rings, each with zero or more inner rings
//! "cut out" of it.
//!
//! ## Way or relation?
//! An area is a meta object: it is derived from a single closed way or from
//! a relation of ways. Its identifier is the original object's identifier
//! left-shifted by one bit, with the vacated low bit set to 0 for a
//! way-derived area and 1 for a relation-derived area. Use
//! [`is_from_way`](Area::is_from_way) to check what a given area was derived
//! from and [`original_id`](Area::original_id) to recover the underlying
//! object's id.
//!
//! ## Multipolygon
//! A multipolygon consists of multiple outer rings. Each ring is just a
//! [list of points](crate::node_ref_list::NodeRefList). Use
//! [`outer_rings`](Area::outer_rings) and [`inner_rings`](Area::inner_rings)
//! to access an area's rings, and [`is_multipolygon`](Area::is_multipolygon)
//! and [`num_rings`](Area::num_rings) to check its shape. Most areas are a
//! single outer ring without inner ones.
//!
//! ## Ring storage
//! An area's ring region is a packed sequence of ring records (see
//! [`packed`](crate::packed)): each outer ring record is followed directly
//! by the inner ring records nested within it. Nesting is strictly one level
//! deep — inner rings never have inner rings of their own.

use vstd::prelude::*;
use vstd::slice::slice_subrange;

use crate::item::ItemType;
use crate::node::NodeRef;
use crate::node_ref_list::{node_refs_of, parse_node_refs, NodeRefList};
use crate::object::{ObjectId, OSMObject};
use crate::packed::{next_offset, valid_record_at, wf_packed_from};
use crate::wire::{
    align8, i64_to_u64, le16_at, le32_at, lemma_align8, read_u16, read_u32, u64_to_i64,
};

verus! {

/// The original object's identifier encoded in an area identifier: the flag
/// bit is shifted out (a floor division by two).
pub open spec fn spec_original_id(area_id: int) -> int {
    area_id / 2
}

/// Whether an area identifier marks a way-derived area: its low bit is 0.
pub open spec fn spec_is_from_way(area_id: int) -> bool {
    area_id % 2 == 0
}

/// The area identifier an original object identifier maps to: shifted left
/// by one bit, the vacated bit holding the source flag.
pub open spec fn spec_area_id(original_id: int, from_relation: bool) -> int {
    2 * original_id + if from_relation {
        1int
    } else {
        0int
    }
}

/// Area identifiers round-trip: encoding an original identifier with either
/// source flag and decoding recovers the identifier and the flag.
pub proof fn lemma_area_id_round_trip(original_id: int, from_relation: bool)
    ensures
        spec_original_id(spec_area_id(original_id, from_relation)) == original_id,
        spec_is_from_way(spec_area_id(original_id, from_relation)) == !from_relation,
{
    let a = spec_area_id(original_id, from_relation);
    vstd::arithmetic::div_mod::lemma_fundamental_div_mod(a, 2);
}

/// The kind tag of the record starting at offset `o`.
pub open spec fn code_at(s: Seq<u8>, o: int) -> u16 {
    le16_at(s, o + 4)
}

/// The node references of the ring record starting at offset `o`: its body,
/// read as 16-byte node reference slots.
pub open spec fn ring_refs_at(s: Seq<u8>, o: int) -> Seq<NodeRef> {
    node_refs_of(s.subrange(o + 8, o + le32_at(s, o) as int))
}

/// The node reference lists of all records from offset `o` on whose kind tag
/// equals `code`, in storage order.
pub open spec fn rings_with_code_from(s: Seq<u8>, o: int, code: u16) -> Seq<Seq<NodeRef>>
    decreases s.len() - o when 0 <= o <= s.len() via rings_with_code_from_decreases
{
    if valid_record_at(s, o) {
        let rest = rings_with_code_from(s, next_offset(s, o), code);
        if code_at(s, o) == code {
            seq![ring_refs_at(s, o)] + rest
        } else {
            rest
        }
    } else {
        Seq::empty()
    }
}

#[via_fn]
proof fn rings_with_code_from_decreases(s: Seq<u8>, o: int, code: u16) {
    if valid_record_at(s, o) {
        lemma_align8(le32_at(s, o) as int);
    }
}

/// The maximal run of inner ring records starting exactly at offset `o`: the
/// inner rings nested in the outer ring that ends at `o`.
pub open spec fn inner_run_from(s: Seq<u8>, o: int) -> Seq<Seq<NodeRef>>
    decreases s.len() - o when 0 <= o <= s.len() via inner_run_from_decreases
{
    if valid_record_at(s, o) && code_at(s, o) == ItemType::InnerRing.spec_code() {
        seq![ring_refs_at(s, o)] + inner_run_from(s, next_offset(s, o))
    } else {
        Seq::empty()
    }
}

#[via_fn]
proof fn inner_run_from_decreases(s: Seq<u8>, o: int) {
    if valid_record_at(s, o) && code_at(s, o) == ItemType::InnerRing.spec_code() {
        lemma_align8(le32_at(s, o) as int);
    }
}

/// The inner rings nested in the `i`-th (zero-based) outer ring record at or
/// after offset `o`: the run of inner ring records directly following it.
/// There is no such run when fewer than `i + 1` outer rings remain.
pub open spec fn inner_rings_of_outer(s: Seq<u8>, o: int, i: int) -> Seq<Seq<NodeRef>>
    decreases s.len() - o when 0 <= o <= s.len() via inner_rings_of_outer_decreases
{
    if valid_record_at(s, o) {
        if code_at(s, o) == ItemType::OuterRing.spec_code() {
            if i == 0 {
                inner_run_from(s, next_offset(s, o))
            } else {
                inner_rings_of_outer(s, next_offset(s, o), i - 1)
            }
        } else {
            inner_rings_of_outer(s, next_offset(s, o), i)
        }
    } else {
        Seq::empty()
    }
}

#[via_fn]
proof fn inner_rings_of_outer_decreases(s: Seq<u8>, o: int, i: int) {
    if valid_record_at(s, o) {
        lemma_align8(le32_at(s, o) as int);
    }
}

/// One step of [`rings_with_code_from`] at a valid record slot.
proof fn lemma_rings_step(s: Seq<u8>, o: int, code: u16)
    requires
        valid_record_at(s, o),
    ensures
        rings_with_code_from(s, o, code) == if code_at(s, o) == code {
            seq![ring_refs_at(s, o)] + rings_with_code_from(s, next_offset(s, o), code)
        } else {
            rings_with_code_from(s, next_offset(s, o), code)
        },
{
}

/// One step of [`inner_run_from`] at a valid record slot.
proof fn lemma_inner_run_step(s: Seq<u8>, o: int)
    requires
        valid_record_at(s, o),
    ensures
        inner_run_from(s, o) == if code_at(s, o) == ItemType::InnerRing.spec_code() {
            seq![ring_refs_at(s, o)] + inner_run_from(s, next_offset(s, o))
        } else {
            Seq::<Seq<NodeRef>>::empty()
        },
{
}

/// One step of [`inner_rings_of_outer`] at a valid record slot.
proof fn lemma_inner_of_outer_step(s: Seq<u8>, o: int, i: int)
    requires
        valid_record_at(s, o),
    ensures
        inner_rings_of_outer(s, o, i) == if code_at(s, o) == ItemType::OuterRing.spec_code() {
            if i == 0 {
                inner_run_from(s, next_offset(s, o))
            } else {
                inner_rings_of_outer(s, next_offset(s, o), i - 1)
            }
        } else {
            inner_rings_of_outer(s, next_offset(s, o), i)
        },
{
}

/// An area: tags aside, an identifier plus a packed region of ring records.
pub struct Area {
    object: OSMObject,
    rings: Vec<u8>,
}

impl Area {
    #[verifier::type_invariant]
    spec fn inv(self) -> bool {
        wf_packed_from(self.rings@, 0)
    }

    /// The area's identifier, flag bit included.
    pub closed spec fn spec_id(self) -> ObjectId {
        self.object.id
    }

    /// The bytes of the area's ring region: packed outer and inner ring
    /// records.
    pub closed spec fn spec_rings(self) -> Seq<u8> {
        self.rings@
    }

    /// The area's outer rings, in storage order.
    pub open spec fn spec_outer_rings(self) -> Seq<Seq<NodeRef>> {
        rings_with_code_from(self.spec_rings(), 0, ItemType::OuterRing.spec_code())
    }

    /// All of the area's inner rings, in storage order, across all outer
    /// rings.
    pub open spec fn spec_all_inner_rings(self) -> Seq<Seq<NodeRef>> {
        rings_with_code_from(self.spec_rings(), 0, ItemType::InnerRing.spec_code())
    }

    /// The inner rings nested in the `i`-th outer ring.
    pub open spec fn spec_inner_rings(self, i: int) -> Seq<Seq<NodeRef>> {
        inner_rings_of_outer(self.spec_rings(), 0, i)
    }

    /// Crate-internal constructor from already validated parts.
    pub(crate) fn from_parts(object: OSMObject, rings: Vec<u8>) -> (r: Area)
        requires
            wf_packed_from(rings@, 0),
        ensures
            r.spec_id() == object.id,
            r.spec_rings() == rings@,
    {
        Area { object, rings }
    }

    /// The shared object fields.
    pub fn object(&self) -> (r: OSMObject)
        ensures
            r.id == self.spec_id(),
    {
        self.object
    }

    /// Get the area's identifier, flag bit included.
    pub fn id(&self) -> (r: ObjectId)
        ensures
            r == self.spec_id(),
    {
        self.object.id
    }

    /// Was this area created from a way? (In contrast to areas created from
    /// a relation and its members.)
    pub fn is_from_way(&self) -> (r: bool)
        ensures
            r == spec_is_from_way(self.spec_id() as int),
    {
        let u: u64 = i64_to_u64(self.object.id);
        proof {
            if self.object.id < 0 {
                vstd::arithmetic::div_mod::lemma_mod_multiples_vanish(
                    -0x8000_0000_0000_0000,
                    u as int,
                    2,
                );
            }
        }
        u % 2 == 0
    }

    /// Return the identifier of the way or relation this area was created
    /// from: the area identifier shifted right by one bit, discarding the
    /// source flag.
    pub fn original_id(&self) -> (r: ObjectId)
        ensures
            r as int == spec_original_id(self.spec_id() as int),
    {
        let id = self.object.id;
        let u: u64 = i64_to_u64(id);
        let q: u64 = u / 2;
        if id >= 0 {
            u64_to_i64(q)
        } else {
            proof {
                vstd::arithmetic::div_mod::lemma_fundamental_div_mod(id as int, 2);
                vstd::arithmetic::div_mod::lemma_div_multiples_vanish_fancy(
                    id as int / 2 + 0x8000_0000_0000_0000,
                    id as int % 2,
                    2,
                );
                assert(2 * (id as int / 2 + 0x8000_0000_0000_0000) + id as int % 2 == u as int);
            }
            u64_to_i64(q + 0x8000_0000_0000_0000)
        }
    }

    /// Count the outer and inner rings of this area.
    #[verifier::loop_isolation(false)]
    pub fn num_rings(&self) -> (r: (usize, usize))
        ensures
            r.0 as int == self.spec_outer_rings().len(),
            r.1 as int == self.spec_all_inner_rings().len(),
    {
        proof {
            use_type_invariant(&*self);
        }
        let ghost s = self.rings@;
        let n: usize = self.rings.len();
        let mut outer: usize = 0;
        let mut inner: usize = 0;
        let mut o: usize = 0;
        let outer_code: u16 = ItemType::OuterRing.code();
        let inner_code: u16 = ItemType::InnerRing.code();
        loop
            invariant
                o <= n,
                n == s.len(),
                s == self.rings@,
                wf_packed_from(s, o as int),
                outer <= o,
                inner <= o,
                outer + rings_with_code_from(s, o as int, ItemType::OuterRing.spec_code()).len()
                    == self.spec_outer_rings().len(),
                inner + rings_with_code_from(s, o as int, ItemType::InnerRing.spec_code()).len()
                    == self.spec_all_inner_rings().len(),
            decreases n - o,
        {
            if o == n {
                return (outer, inner);
            }
            proof {
                assert(valid_record_at(s, o as int));
                lemma_align8(le32_at(s, o as int) as int);
            }
            let size = read_u32(self.rings.as_slice(), o);
            let code = read_u16(self.rings.as_slice(), o + 4);
            let aligned: usize = (size as usize + 7) / 8 * 8;
            proof {
                lemma_rings_step(s, o as int, ItemType::OuterRing.spec_code());
                lemma_rings_step(s, o as int, ItemType::InnerRing.spec_code());
                assert(next_offset(s, o as int) == o + aligned);
                assert(code == code_at(s, o as int));
            }
            if code == outer_code {
                outer = outer + 1;
                proof {
                    assert(rings_with_code_from(s, o as int, ItemType::OuterRing.spec_code()).len()
                        == 1 + rings_with_code_from(
                        s,
                        o + aligned,
                        ItemType::OuterRing.spec_code(),
                    ).len());
                    assert(rings_with_code_from(s, o as int, ItemType::InnerRing.spec_code()).len()
                        == rings_with_code_from(
                        s,
                        o + aligned,
                        ItemType::InnerRing.spec_code(),
                    ).len());
                }
            } else if code == inner_code {
                inner = inner + 1;
                proof {
                    assert(rings_with_code_from(s, o as int, ItemType::OuterRing.spec_code()).len()
                        == rings_with_code_from(
                        s,
                        o + aligned,
                        ItemType::OuterRing.spec_code(),
                    ).len());
                    assert(rings_with_code_from(s, o as int, ItemType::InnerRing.spec_code()).len()
                        == 1 + rings_with_code_from(
                        s,
                        o + aligned,
                        ItemType::InnerRing.spec_code(),
                    ).len());
                }
            } else {
                proof {
                    assert(rings_with_code_from(s, o as int, ItemType::OuterRing.spec_code()).len()
                        == rings_with_code_from(
                        s,
                        o + aligned,
                        ItemType::OuterRing.spec_code(),
                    ).len());
                    assert(rings_with_code_from(s, o as int, ItemType::InnerRing.spec_code()).len()
                        == rings_with_code_from(
                        s,
                        o + aligned,
                        ItemType::InnerRing.spec_code(),
                    ).len());
                }
            }
            o = o + aligned;
        }
    }

    /// Check whether this area is a multipolygon, i.e. whether it has more
    /// than one outer ring.
    pub fn is_multipolygon(&self) -> (r: bool)
        ensures
            r == (self.spec_outer_rings().len() > 1),
    {
        let (outer, _inner) = self.num_rings();
        outer > 1
    }

    /// Return an iterator over all outer rings.
    pub fn outer_rings(&self) -> (r: RingIterator)
        ensures
            r.remaining() == self.spec_outer_rings(),
    {
        proof {
            use_type_invariant(&*self);
        }
        RingIterator { area: self, cursor: 0, inner_run: false }
    }

    /// Return an iterator over the inner rings nested in the outer ring with
    /// the given position among the outer rings (zero-based). An index with
    /// no outer ring yields an empty iteration.
    #[verifier::loop_isolation(false)]
    pub fn inner_rings(&self, outer: usize) -> (r: RingIterator)
        ensures
            r.remaining() == self.spec_inner_rings(outer as int),
    {
        proof {
            use_type_invariant(&*self);
        }
        let ghost s = self.rings@;
        let n: usize = self.rings.len();
        let outer_code: u16 = ItemType::OuterRing.code();
        let mut o: usize = 0;
        let mut i: usize = outer;
        loop
            invariant
                o <= n,
                n == s.len(),
                s == self.rings@,
                wf_packed_from(s, o as int),
                inner_rings_of_outer(s, o as int, i as int) == self.spec_inner_rings(outer as int),
            decreases n - o, i,
        {
            if o == n {
                return RingIterator { area: self, cursor: o, inner_run: true };
            }
            proof {
                assert(valid_record_at(s, o as int));
                lemma_align8(le32_at(s, o as int) as int);
            }
            let size = read_u32(self.rings.as_slice(), o);
            let code = read_u16(self.rings.as_slice(), o + 4);
            let aligned: usize = (size as usize + 7) / 8 * 8;
            proof {
                assert(next_offset(s, o as int) == o + aligned);
                lemma_inner_of_outer_step(s, o as int, i as int);
            }
            if code == outer_code {
                if i == 0 {
                    return RingIterator { area: self, cursor: o + aligned, inner_run: true };
                }
                i = i - 1;
            }
            o = o + aligned;
        }
    }
}

/// Cursor-holding iterator over an area's ring records: either over all
/// outer rings, or over the run of inner rings nested in one outer ring.
pub struct RingIterator<'a> {
    area: &'a Area,
    cursor: usize,
    inner_run: bool,
}

impl<'a> RingIterator<'a> {
    #[verifier::type_invariant]
    spec fn inv(self) -> bool {
        &&& self.cursor <= self.area.spec_rings().len()
        &&& wf_packed_from(self.area.spec_rings(), self.cursor as int)
    }

    /// The rings not yet yielded, in the order they will come.
    pub closed spec fn remaining(self) -> Seq<Seq<NodeRef>> {
        if self.inner_run {
            inner_run_from(self.area.spec_rings(), self.cursor as int)
        } else {
            rings_with_code_from(
                self.area.spec_rings(),
                self.cursor as int,
                ItemType::OuterRing.spec_code(),
            )
        }
    }

    /// Yields a copy of the next ring's node references, or `None` exactly
    /// when the iteration is exhausted.
    #[verifier::loop_isolation(false)]
    pub fn next(&mut self) -> (r: Option<NodeRefList>)
        ensures
            match r {
                Some(ring) => {
                    &&& old(self).remaining().len() > 0
                    &&& ring@ == old(self).remaining()[0]
                    &&& final(self).remaining() == old(self).remaining().drop_first()
                },
                None => {
                    &&& old(self).remaining().len() == 0
                    &&& final(self).remaining() == old(self).remaining()
                },
            },
    {
        proof {
            use_type_invariant(&*self);
        }
        let ghost s = self.area.spec_rings();
        let bytes: &Vec<u8> = &self.area.rings;
        let n: usize = bytes.len();
        let outer_code: u16 = ItemType::OuterRing.code();
        let inner_code: u16 = ItemType::InnerRing.code();
        let mut cur: usize = self.cursor;
        loop
            invariant
                cur <= n,
                wf_packed_from(s, cur as int),
                *self == *old(self),
                if self.inner_run {
                    inner_run_from(s, cur as int) == old(self).remaining() && cur == self.cursor
                } else {
                    rings_with_code_from(s, cur as int, ItemType::OuterRing.spec_code()) == old(
                        self,
                    ).remaining()
                },
            decreases n - cur,
        {
            if cur == n {
                self.cursor = cur;
                return None;
            }
            proof {
                assert(valid_record_at(s, cur as int));
                lemma_align8(le32_at(s, cur as int) as int);
            }
            let size = read_u32(bytes.as_slice(), cur);
            let code = read_u16(bytes.as_slice(), cur + 4);
            let aligned: usize = (size as usize + 7) / 8 * 8;
            proof {
                assert(next_offset(s, cur as int) == cur + aligned);
                lemma_rings_step(s, cur as int, ItemType::OuterRing.spec_code());
                lemma_inner_run_step(s, cur as int);
            }
            let wanted: u16 = if self.inner_run {
                inner_code
            } else {
                outer_code
            };
            if code == wanted {
                let body: &[u8] = slice_subrange(bytes.as_slice(), cur + 8, cur + size as usize);
                let refs = parse_node_refs(body);
                let ring = NodeRefList::from_refs(refs);
                proof {
                    assert(body@ =~= s.subrange(cur + 8, cur + le32_at(s, cur as int) as int));
                    assert(ring@ == ring_refs_at(s, cur as int));
                }
                self.cursor = cur + aligned;
                proof {
                    assert(self.remaining() =~= old(self).remaining().drop_first());
                }
                return Some(ring);
            }
            if self.inner_run {
                // The run of nested inner rings ends at the first record of
                // another kind.
                self.cursor = cur;
                return None;
            }
            cur = cur + aligned;
        }
    }
}

} // verus!
