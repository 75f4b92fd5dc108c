//! The self-describing record: an 8-byte header holding the record's dynamic
//! size and its kind tag, followed by a kind-specific body.
//!
//! Wire layout of a record, starting at an 8-byte-aligned offset:
//! bytes 0..4 hold the unpadded record size (header included) as a 32-bit
//! little-endian value, bytes 4..6 hold the kind tag as a 16-bit little-endian
//! value and bytes 6..8 are reserved. The *aligned* size — the record size
//! rounded up to the next multiple of 8 — is used only for stepping through
//! an arena, never for interpreting the logical content.

use vstd::bytes::{
    lemma_auto_spec_u16_to_from_le_bytes, lemma_auto_spec_u32_to_from_le_bytes,
    spec_u16_to_le_bytes, spec_u32_to_le_bytes,
};
use vstd::prelude::*;
use vstd::slice::{slice_subrange, slice_to_vec};

use crate::area::Area;
use crate::handler::{Changeset, ChangesetDiscussion, Relation, RelationMemberList};
use crate::location::Location;
use crate::node::Node;
use crate::node_ref_list::{node_refs_of, parse_node_refs, InnerRing, NodeRefList, OuterRing,
    WayNodeList};
use crate::object::OSMObject;
use crate::packed::{check_packed, wf_packed_from};
use crate::tag_list::TagList;
use crate::way::Way;
use crate::wire::{align8, le16_at, le32_at, le64_at, lemma_align8, read_u16, read_u32, read_u64};
use crate::wire::{append_bytes, push_u16_le, push_u32_le, signed32, signed64, u32_to_i32,
    u64_to_i64};

verus! {

/// Memory size of an item.
///
/// Items are dynamically sized and store their size in their first header
/// field, so all of an item's data can live in one contiguous block of
/// memory.
pub type ItemSize = u32;

/// The largest record size (in bytes, header included) a record header can
/// carry while its aligned size still fits the same 32-bit field.
pub const MAX_RECORD_SIZE: u32 = 0xFFFF_FFF8;

/// Enum identifying an item's actual kind.
///
/// Because different items are stored next to each other in memory, they all
/// store their kind as a numeric tag at the beginning, right after the size.
/// A tag value outside the closed set below decodes to [`Unrecognized`]
/// rather than an error, so that streams from newer producers still step
/// correctly over unknown records.
///
/// [`Unrecognized`]: ItemType::Unrecognized
#[derive(Copy, Clone, Debug, PartialEq, Eq, Structural)]
#[allow(missing_docs)]
pub enum ItemType {
    Undefined,
    Node,
    Way,
    Relation,
    Area,
    Changeset,
    TagList,
    WayNodeList,
    RelationMemberList,
    RelationMemberListWithFullMembers,
    OuterRing,
    InnerRing,
    ChangesetDiscussion,
    /// A kind tag outside the recognized set. It has no tag value of its own;
    /// encoding it uses a value that no recognized kind occupies.
    Unrecognized,
}

impl ItemType {
    /// The numeric tag this kind is stored with on the wire.
    pub open spec fn spec_code(self) -> u16 {
        match self {
            ItemType::Undefined => 0x00,
            ItemType::Node => 0x01,
            ItemType::Way => 0x02,
            ItemType::Relation => 0x03,
            ItemType::Area => 0x04,
            ItemType::Changeset => 0x05,
            ItemType::TagList => 0x11,
            ItemType::WayNodeList => 0x12,
            ItemType::RelationMemberList => 0x13,
            ItemType::RelationMemberListWithFullMembers => 0x23,
            ItemType::OuterRing => 0x40,
            ItemType::InnerRing => 0x41,
            ItemType::ChangesetDiscussion => 0x80,
            ItemType::Unrecognized => 0xFFFF,
        }
    }

    /// The kind a numeric tag decodes to; tags outside the recognized set
    /// decode to [`ItemType::Unrecognized`].
    pub open spec fn spec_of_code(code: u16) -> ItemType {
        if code == 0x00 {
            ItemType::Undefined
        } else if code == 0x01 {
            ItemType::Node
        } else if code == 0x02 {
            ItemType::Way
        } else if code == 0x03 {
            ItemType::Relation
        } else if code == 0x04 {
            ItemType::Area
        } else if code == 0x05 {
            ItemType::Changeset
        } else if code == 0x11 {
            ItemType::TagList
        } else if code == 0x12 {
            ItemType::WayNodeList
        } else if code == 0x13 {
            ItemType::RelationMemberList
        } else if code == 0x23 {
            ItemType::RelationMemberListWithFullMembers
        } else if code == 0x40 {
            ItemType::OuterRing
        } else if code == 0x41 {
            ItemType::InnerRing
        } else if code == 0x80 {
            ItemType::ChangesetDiscussion
        } else {
            ItemType::Unrecognized
        }
    }

    /// The numeric tag this kind is stored with on the wire.
    pub fn code(self) -> (r: u16)
        ensures
            r == self.spec_code(),
    {
        match self {
            ItemType::Undefined => 0x00,
            ItemType::Node => 0x01,
            ItemType::Way => 0x02,
            ItemType::Relation => 0x03,
            ItemType::Area => 0x04,
            ItemType::Changeset => 0x05,
            ItemType::TagList => 0x11,
            ItemType::WayNodeList => 0x12,
            ItemType::RelationMemberList => 0x13,
            ItemType::RelationMemberListWithFullMembers => 0x23,
            ItemType::OuterRing => 0x40,
            ItemType::InnerRing => 0x41,
            ItemType::ChangesetDiscussion => 0x80,
            ItemType::Unrecognized => 0xFFFF,
        }
    }

    /// Decodes a numeric kind tag.
    pub fn of_code(code: u16) -> (r: ItemType)
        ensures
            r == ItemType::spec_of_code(code),
    {
        if code == 0x00 {
            ItemType::Undefined
        } else if code == 0x01 {
            ItemType::Node
        } else if code == 0x02 {
            ItemType::Way
        } else if code == 0x03 {
            ItemType::Relation
        } else if code == 0x04 {
            ItemType::Area
        } else if code == 0x05 {
            ItemType::Changeset
        } else if code == 0x11 {
            ItemType::TagList
        } else if code == 0x12 {
            ItemType::WayNodeList
        } else if code == 0x13 {
            ItemType::RelationMemberList
        } else if code == 0x23 {
            ItemType::RelationMemberListWithFullMembers
        } else if code == 0x40 {
            ItemType::OuterRing
        } else if code == 0x41 {
            ItemType::InnerRing
        } else if code == 0x80 {
            ItemType::ChangesetDiscussion
        } else {
            ItemType::Unrecognized
        }
    }
}

/// Decoding the tag a kind is encoded with yields that kind back.
pub proof fn lemma_type_code_round_trip(kind: ItemType)
    ensures
        ItemType::spec_of_code(kind.spec_code()) == kind,
{
}

/// A well-formed record: at least the 8 header bytes, no larger than
/// [`MAX_RECORD_SIZE`], and the size field holds exactly the record's length.
pub open spec fn wf_record(s: Seq<u8>) -> bool {
    &&& 8 <= s.len() <= MAX_RECORD_SIZE
    &&& le32_at(s, 0) as int == s.len()
}

/// The numeric kind tag stored in a record's header.
pub open spec fn record_code(s: Seq<u8>) -> u16 {
    le16_at(s, 4)
}

/// The kind a record's header tag decodes to.
pub open spec fn record_kind(s: Seq<u8>) -> ItemType {
    ItemType::spec_of_code(record_code(s))
}

/// A record's body: everything after the 8 header bytes.
pub open spec fn record_body(s: Seq<u8>) -> Seq<u8> {
    s.subrange(8, s.len() as int)
}

/// One self-describing, variable-length, kind-tagged record.
///
/// An `Item` owns the record's unpadded bytes: the 8-byte header followed by
/// the kind-specific body. Its view is that byte sequence.
pub struct Item {
    bytes: Vec<u8>,
}

impl View for Item {
    type V = Seq<u8>;

    closed spec fn view(&self) -> Seq<u8> {
        self.bytes@
    }
}

impl Item {
    /// Every item holds a well-formed record.
    #[verifier::type_invariant]
    pub open spec fn wf(self) -> bool {
        wf_record(self@)
    }

    /// Takes a fully-formed record's bytes (header and body, unpadded).
    /// Returns `None` exactly when the bytes are not a well-formed record:
    /// shorter than a header, longer than [`MAX_RECORD_SIZE`], or with a size
    /// field that does not match the length.
    pub fn from_bytes(bytes: Vec<u8>) -> (r: Option<Item>)
        ensures
            match r {
                Some(item) => wf_record(bytes@) && item@ == bytes@,
                None => !wf_record(bytes@),
            },
    {
        let n: usize = bytes.len();
        if n < 8 {
            return None;
        }
        if n > MAX_RECORD_SIZE as usize {
            return None;
        }
        let size = read_u32(bytes.as_slice(), 0);
        if size as usize != n {
            return None;
        }
        Some(Item { bytes })
    }

    /// Crate-internal constructor for bytes already known to be well-formed.
    pub(crate) fn from_wf_bytes(bytes: Vec<u8>) -> (r: Item)
        requires
            wf_record(bytes@),
        ensures
            r@ == bytes@,
    {
        Item { bytes }
    }

    /// Assembles a record from a kind and a body: the header is written in
    /// front of a copy of `body`. Returns `None` exactly when the record
    /// would exceed [`MAX_RECORD_SIZE`].
    pub fn new(kind: ItemType, body: &[u8]) -> (r: Option<Item>)
        ensures
            match r {
                Some(item) => {
                    &&& body@.len() + 8 <= MAX_RECORD_SIZE
                    &&& wf_record(item@)
                    &&& item@.len() == body@.len() + 8
                    &&& record_code(item@) == kind.spec_code()
                    &&& record_kind(item@) == kind
                    &&& record_body(item@) == body@
                },
                None => body@.len() + 8 > MAX_RECORD_SIZE,
            },
    {
        let n: usize = body.len();
        if n > (MAX_RECORD_SIZE - 8) as usize {
            return None;
        }
        let size: u32 = (n as u32) + 8;
        let mut bytes: Vec<u8> = Vec::new();
        push_u32_le(&mut bytes, size);
        push_u16_le(&mut bytes, kind.code());
        push_u16_le(&mut bytes, 0);
        append_bytes(&mut bytes, body);
        proof {
            lemma_auto_spec_u32_to_from_le_bytes();
            lemma_auto_spec_u16_to_from_le_bytes();
            assert(bytes@.subrange(0, 4) =~= spec_u32_to_le_bytes(size));
            assert(bytes@.subrange(4, 6) =~= spec_u16_to_le_bytes(kind.spec_code()));
            assert(bytes@.subrange(8, bytes@.len() as int) =~= body@);
            lemma_type_code_round_trip(kind);
        }
        Some(Item { bytes })
    }

    /// Get the item's data as a byte slice: the unpadded record, header
    /// included.
    pub fn as_bytes(&self) -> (r: &[u8])
        ensures
            r@ == self@,
    {
        self.bytes.as_slice()
    }

    /// Get the item's dynamic size: the unpadded record length in bytes,
    /// header included.
    pub fn byte_size(&self) -> (r: ItemSize)
        ensures
            r as int == self@.len(),
    {
        proof {
            use_type_invariant(&*self);
        }
        self.bytes.len() as u32
    }

    /// Get the item's dynamic size aligned to the next multiple of 8: the
    /// step width used when records are packed into an arena.
    pub fn aligned_size(&self) -> (r: usize)
        ensures
            r as int == align8(self@.len() as int),
            r % 8 == 0,
            self@.len() <= r < self@.len() + 8,
    {
        proof {
            use_type_invariant(&*self);
        }
        let n: usize = self.bytes.len();
        proof {
            lemma_align8(n as int);
        }
        (n + 7) / 8 * 8
    }

    /// Get the item's kind, decoded from the header's tag field.
    pub fn item_type(&self) -> (r: ItemType)
        ensures
            r == record_kind(self@),
    {
        proof {
            use_type_invariant(&*self);
        }
        ItemType::of_code(read_u16(self.bytes.as_slice(), 4))
    }

    /// Convert an item into a typed view of its actual kind.
    ///
    /// This is a logical downcast over the header's kind tag, and it fails
    /// closed: a record whose tag is unrecognized (or `Undefined`), or whose
    /// body is too short or ill-shaped for its kind, yields `None` rather
    /// than a guessed layout. Nothing past the record's size is ever read.
    pub fn cast(&self) -> (r: Option<ItemRef>)
        ensures
            match r {
                None => !spec_castable(self@),
                Some(ir) => spec_castable(self@) && spec_cast_matches(self@, ir),
            },
    {
        proof {
            use_type_invariant(&*self);
        }
        let bytes: &[u8] = self.bytes.as_slice();
        let n: usize = self.bytes.len();
        match self.item_type() {
            ItemType::Node => {
                if n < 24 {
                    return None;
                }
                let id = u64_to_i64(read_u64(bytes, 8));
                let raw_x = u32_to_i32(read_u32(bytes, 16));
                let raw_y = u32_to_i32(read_u32(bytes, 20));
                Some(
                    ItemRef::Node(
                        Node { object: OSMObject { id }, location: Location { raw_x, raw_y } },
                    ),
                )
            },
            ItemType::Way => {
                if n < 16 {
                    return None;
                }
                if (n - 16) % 16 != 0 {
                    return None;
                }
                let id = u64_to_i64(read_u64(bytes, 8));
                let refs = parse_node_refs(slice_subrange(bytes, 16, n));
                Some(
                    ItemRef::Way(
                        Way { object: OSMObject { id }, nodes: NodeRefList::from_refs(refs) },
                    ),
                )
            },
            ItemType::Relation => {
                if n < 16 {
                    return None;
                }
                let id = u64_to_i64(read_u64(bytes, 8));
                let body: Vec<u8> = slice_to_vec(slice_subrange(bytes, 16, n));
                Some(ItemRef::Relation(Relation { object: OSMObject { id }, body }))
            },
            ItemType::Area => {
                if n < 16 {
                    return None;
                }
                let region: &[u8] = slice_subrange(bytes, 16, n);
                if !check_packed(region) {
                    return None;
                }
                let id = u64_to_i64(read_u64(bytes, 8));
                let area = Area::from_parts(OSMObject { id }, slice_to_vec(region));
                Some(ItemRef::Area(area))
            },
            ItemType::Changeset => {
                let body: Vec<u8> = slice_to_vec(slice_subrange(bytes, 8, n));
                Some(ItemRef::Changeset(Changeset { body }))
            },
            ItemType::TagList => {
                let body: Vec<u8> = slice_to_vec(slice_subrange(bytes, 8, n));
                Some(ItemRef::TagList(TagList { bytes: body }))
            },
            ItemType::WayNodeList => {
                if (n - 8) % 16 != 0 {
                    return None;
                }
                let refs = parse_node_refs(slice_subrange(bytes, 8, n));
                Some(ItemRef::WayNodeList(NodeRefList::from_refs(refs)))
            },
            ItemType::RelationMemberList | ItemType::RelationMemberListWithFullMembers => {
                let body: Vec<u8> = slice_to_vec(slice_subrange(bytes, 8, n));
                Some(ItemRef::RelationMemberList(RelationMemberList { body }))
            },
            ItemType::OuterRing => {
                if (n - 8) % 16 != 0 {
                    return None;
                }
                let refs = parse_node_refs(slice_subrange(bytes, 8, n));
                Some(ItemRef::OuterRing(NodeRefList::from_refs(refs)))
            },
            ItemType::InnerRing => {
                if (n - 8) % 16 != 0 {
                    return None;
                }
                let refs = parse_node_refs(slice_subrange(bytes, 8, n));
                Some(ItemRef::InnerRing(NodeRefList::from_refs(refs)))
            },
            ItemType::ChangesetDiscussion => {
                let body: Vec<u8> = slice_to_vec(slice_subrange(bytes, 8, n));
                Some(ItemRef::ChangesetDiscussion(ChangesetDiscussion { body }))
            },
            ItemType::Undefined => None,
            ItemType::Unrecognized => None,
        }
    }
}

/// The object identifier stored right after an object record's header.
pub open spec fn record_object_id(s: Seq<u8>) -> int {
    signed64(le64_at(s, 8))
}

/// The ring region of an area record: everything after the header and the
/// object identifier.
pub open spec fn area_rings_region(s: Seq<u8>) -> Seq<u8> {
    s.subrange(16, s.len() as int)
}

/// Whether a record casts to a typed view: its kind tag is recognized and
/// its body is long enough, and well shaped, for that kind.
pub open spec fn spec_castable(s: Seq<u8>) -> bool {
    match record_kind(s) {
        ItemType::Undefined => false,
        ItemType::Node => record_body(s).len() >= 16,
        ItemType::Way => record_body(s).len() >= 8 && (record_body(s).len() - 8) % 16 == 0,
        ItemType::Relation => record_body(s).len() >= 8,
        ItemType::Area => record_body(s).len() >= 8 && wf_packed_from(area_rings_region(s), 0),
        ItemType::Changeset => true,
        ItemType::TagList => true,
        ItemType::WayNodeList => record_body(s).len() % 16 == 0,
        ItemType::RelationMemberList => true,
        ItemType::RelationMemberListWithFullMembers => true,
        ItemType::OuterRing => record_body(s).len() % 16 == 0,
        ItemType::InnerRing => record_body(s).len() % 16 == 0,
        ItemType::ChangesetDiscussion => true,
        ItemType::Unrecognized => false,
    }
}

/// What each typed view holds of the record it was cast from.
pub open spec fn spec_cast_matches(s: Seq<u8>, ir: ItemRef) -> bool {
    match ir {
        ItemRef::Node(n) => {
            &&& record_kind(s) == ItemType::Node
            &&& n.object.id as int == record_object_id(s)
            &&& n.location.raw_x as int == signed32(le32_at(s, 16))
            &&& n.location.raw_y as int == signed32(le32_at(s, 20))
        },
        ItemRef::Way(w) => {
            &&& record_kind(s) == ItemType::Way
            &&& w.object.id as int == record_object_id(s)
            &&& w.nodes@ == node_refs_of(s.subrange(16, s.len() as int))
        },
        ItemRef::Relation(rel) => {
            &&& record_kind(s) == ItemType::Relation
            &&& rel.object.id as int == record_object_id(s)
            &&& rel.body@ == s.subrange(16, s.len() as int)
        },
        ItemRef::Area(a) => {
            &&& record_kind(s) == ItemType::Area
            &&& a.spec_id() as int == record_object_id(s)
            &&& a.spec_rings() == area_rings_region(s)
        },
        ItemRef::Changeset(c) => {
            &&& record_kind(s) == ItemType::Changeset
            &&& c.body@ == record_body(s)
        },
        ItemRef::TagList(t) => {
            &&& record_kind(s) == ItemType::TagList
            &&& t@ == record_body(s)
        },
        ItemRef::WayNodeList(l) => {
            &&& record_kind(s) == ItemType::WayNodeList
            &&& l@ == node_refs_of(record_body(s))
        },
        ItemRef::RelationMemberList(l) => {
            &&& (record_kind(s) == ItemType::RelationMemberList || record_kind(s)
                == ItemType::RelationMemberListWithFullMembers)
            &&& l.body@ == record_body(s)
        },
        ItemRef::OuterRing(l) => {
            &&& record_kind(s) == ItemType::OuterRing
            &&& l@ == node_refs_of(record_body(s))
        },
        ItemRef::InnerRing(l) => {
            &&& record_kind(s) == ItemType::InnerRing
            &&& l@ == node_refs_of(record_body(s))
        },
        ItemRef::ChangesetDiscussion(d) => {
            &&& record_kind(s) == ItemType::ChangesetDiscussion
            &&& d.body@ == record_body(s)
        },
    }
}

/// Enum for converting an [`Item`] into a typed view of its actual kind.
pub enum ItemRef {
    /// A [`Node`] view.
    Node(Node),
    /// A [`Way`] view.
    Way(Way),
    /// A [`Relation`] view.
    Relation(Relation),
    /// An [`Area`] view.
    Area(Area),
    /// A [`Changeset`] view.
    Changeset(Changeset),
    /// A [`TagList`] view.
    TagList(TagList),
    /// A [`WayNodeList`] view.
    WayNodeList(WayNodeList),
    /// A [`RelationMemberList`] view, also used for the fully resolved
    /// member list kind, which decodes identically.
    RelationMemberList(RelationMemberList),
    /// An [`OuterRing`] view.
    OuterRing(OuterRing),
    /// An [`InnerRing`] view.
    InnerRing(InnerRing),
    /// A [`ChangesetDiscussion`] view.
    ChangesetDiscussion(ChangesetDiscussion),
}

} // verus!
