//! Lists of node references: one physical structure used in three logical
//! roles — a way's point sequence, an area's outer rings and their inner
//! rings — distinguished only by the kind tag of the record that wraps them.

use vstd::pervasive::VecAdditionalExecFns;
use vstd::prelude::*;

use crate::location::Location;
use crate::node::NodeRef;
use crate::wire::{le32_at, le64_at, read_u32, read_u64, signed32, signed64, u32_to_i32, u64_to_i64};

verus! {

/// The node reference stored at offset `o`: its id as a 64-bit little-endian
/// two's-complement value, then the location's two raw coordinates as 32-bit
/// little-endian two's-complement values.
pub open spec fn node_ref_at(s: Seq<u8>, o: int) -> NodeRef {
    NodeRef {
        id: signed64(le64_at(s, o)) as i64,
        location: Location {
            raw_x: signed32(le32_at(s, o + 8)) as i32,
            raw_y: signed32(le32_at(s, o + 12)) as i32,
        },
    }
}

/// All node references a byte range holds: one per complete 16-byte slot, in
/// order. A ragged tail shorter than one slot holds no reference.
pub open spec fn node_refs_of(s: Seq<u8>) -> Seq<NodeRef> {
    Seq::new((s.len() / 16) as nat, |i: int| node_ref_at(s, 16 * i))
}

/// Parses every complete 16-byte node reference from the byte range.
pub fn parse_node_refs(s: &[u8]) -> (r: Vec<NodeRef>)
    ensures
        r@ == node_refs_of(s@),
{
    let n: usize = s.len();
    let count: usize = n / 16;
    let mut out: Vec<NodeRef> = Vec::new();
    let mut k: usize = 0;
    while k < count
        invariant
            k <= count,
            count == s@.len() / 16,
            n == s@.len(),
            out@ =~= node_refs_of(s@).take(k as int),
        decreases count - k,
    {
        let o: usize = 16 * k;
        let id = u64_to_i64(read_u64(s, o));
        let raw_x = u32_to_i32(read_u32(s, o + 8));
        let raw_y = u32_to_i32(read_u32(s, o + 12));
        out.push(NodeRef { id, location: Location { raw_x, raw_y } });
        k = k + 1;
        proof {
            assert(out@ =~= node_refs_of(s@).take(k as int));
        }
    }
    proof {
        assert(out@ =~= node_refs_of(s@));
    }
    out
}

/// A contiguous list of [`NodeRef`] values. Its view is the sequence of
/// references it holds.
pub struct NodeRefList {
    refs: Vec<NodeRef>,
}

/// A way's list of nodes.
pub type WayNodeList = NodeRefList;

/// One of an area's outer rings' inner rings: a hole cut out of its outer
/// ring.
pub type InnerRing = NodeRefList;

/// One of an area's outer rings.
pub type OuterRing = NodeRefList;

impl View for NodeRefList {
    type V = Seq<NodeRef>;

    closed spec fn view(&self) -> Seq<NodeRef> {
        self.refs@
    }
}

impl NodeRefList {
    /// Crate-internal constructor from an already parsed reference list.
    pub(crate) fn from_refs(refs: Vec<NodeRef>) -> (r: Self)
        ensures
            r@ == refs@,
    {
        NodeRefList { refs }
    }

    /// The number of node references in the list.
    pub fn len(&self) -> (r: usize)
        ensures
            r == self@.len(),
    {
        self.refs.len()
    }

    /// Whether the list holds no node references.
    pub fn is_empty(&self) -> (r: bool)
        ensures
            r == (self@.len() == 0),
    {
        self.refs.is_empty()
    }

    /// The node reference at position `i`.
    pub fn get(&self, i: usize) -> (r: NodeRef)
        requires
            i < self@.len(),
        ensures
            r == self@[i as int],
    {
        self.refs[i]
    }

    /// Replaces the node reference at position `i`.
    pub fn set(&mut self, i: usize, node: NodeRef)
        requires
            i < old(self)@.len(),
        ensures
            final(self)@ == old(self)@.update(i as int, node),
    {
        self.refs.set(i, node);
    }
}

} // verus!
