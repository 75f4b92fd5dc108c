//! The dispatch boundary: one callback slot per record kind, invoked as a
//! source streams records, plus a `flush` callback after the last record.
//!
//! A consumer implements [`Handler`], overriding only the slots it cares
//! about — an unset slot is a no-op, not an error. [`dispatch`] hands one
//! record to its matching slot; [`apply_buffer`] walks a whole
//! [`ItemBuffer`], dispatches every record in order, one at a time, and
//! calls `flush` once at the end. A dispatched view is only lent to the
//! callback for that one invocation; a consumer that wants to retain a
//! record copies it out, typically via [`ItemBuffer::push`].

use vstd::prelude::*;

use crate::area::Area;
use crate::buffer::ItemBuffer;
use crate::item::{spec_castable, Item, ItemRef};
use crate::node::Node;
use crate::node_ref_list::{InnerRing, OuterRing, WayNodeList};
use crate::object::OSMObject;
use crate::tag_list::TagList;
use crate::way::Way;

verus! {

/// A changeset record. Its body is carried but not yet interpreted.
pub struct Changeset {
    /// The record's body bytes.
    pub body: Vec<u8>,
}

/// A changeset discussion record. Its body is carried but not yet
/// interpreted.
pub struct ChangesetDiscussion {
    /// The record's body bytes.
    pub body: Vec<u8>,
}

/// A relation's member list record. Its body is carried but not yet
/// interpreted.
pub struct RelationMemberList {
    /// The record's body bytes.
    pub body: Vec<u8>,
}

/// A relation record: the shared object fields, the rest of the body
/// carried but not yet interpreted.
pub struct Relation {
    /// The shared object fields.
    pub object: OSMObject,

    /// The body bytes after the object identifier.
    pub body: Vec<u8>,
}

/// A handler takes a stream of records, one callback per record kind.
///
/// For every record kind there is an associated method which takes a single
/// record of this kind. When implementing a handler, these are the methods
/// to override; the default for each does nothing, i.e. ignores its kind.
///
/// [`flush`](Handler::flush) is called at least once, after the final record
/// has been processed, to finalize any retained or lazy state.
pub trait Handler {
    /// Process an [`Area`].
    fn area(&mut self, area: &Area) {
    }

    /// Process a [`Changeset`].
    fn changeset(&mut self, changeset: &Changeset) {
    }

    /// Process a [`ChangesetDiscussion`].
    fn changeset_discussion(&mut self, changeset_discussion: &ChangesetDiscussion) {
    }

    /// Process an [`InnerRing`].
    fn inner_ring(&mut self, inner_ring: &InnerRing) {
    }

    /// Process a [`Node`].
    fn node(&mut self, node: &Node) {
    }

    /// Process an [`OSMObject`]: called for every object-kind record (node,
    /// way, relation, area) before its specific slot.
    fn osm_object(&mut self, object: &OSMObject) {
    }

    /// Process an [`OuterRing`].
    fn outer_ring(&mut self, outer_ring: &OuterRing) {
    }

    /// Process a [`Relation`].
    fn relation(&mut self, relation: &Relation) {
    }

    /// Process a [`RelationMemberList`].
    fn relation_member_list(&mut self, relation_member_list: &RelationMemberList) {
    }

    /// Process a [`TagList`].
    fn tag_list(&mut self, tag_list: &TagList) {
    }

    /// Process a [`Way`].
    fn way(&mut self, way: &Way) {
    }

    /// Process a [`WayNodeList`].
    fn way_node_list(&mut self, way_node_list: &WayNodeList) {
    }

    /// Finalize temporary or lazy data.
    fn flush(&mut self) {
    }
}

/// Hands one record to the handler slot matching its kind. Returns whether a
/// slot was invoked: false exactly when the record casts to no typed view
/// (an unrecognized or malformed record), which is recovered, never an
/// error.
pub fn dispatch<H: Handler>(handler: &mut H, item: &Item) -> (r: bool)
    ensures
        r == spec_castable(item@),
{
    match item.cast() {
        None => false,
        Some(ir) => {
            match ir {
                ItemRef::Node(n) => {
                    handler.osm_object(&n.object);
                    handler.node(&n);
                },
                ItemRef::Way(w) => {
                    handler.osm_object(&w.object);
                    handler.way(&w);
                },
                ItemRef::Relation(rel) => {
                    handler.osm_object(&rel.object);
                    handler.relation(&rel);
                },
                ItemRef::Area(a) => {
                    let object = a.object();
                    handler.osm_object(&object);
                    handler.area(&a);
                },
                ItemRef::Changeset(c) => {
                    handler.changeset(&c);
                },
                ItemRef::TagList(t) => {
                    handler.tag_list(&t);
                },
                ItemRef::WayNodeList(l) => {
                    handler.way_node_list(&l);
                },
                ItemRef::RelationMemberList(l) => {
                    handler.relation_member_list(&l);
                },
                ItemRef::OuterRing(l) => {
                    handler.outer_ring(&l);
                },
                ItemRef::InnerRing(l) => {
                    handler.inner_ring(&l);
                },
                ItemRef::ChangesetDiscussion(d) => {
                    handler.changeset_discussion(&d);
                },
            }
            true
        },
    }
}

/// How many of the records cast to a typed view.
pub open spec fn castable_count(records: Seq<Seq<u8>>) -> int
    decreases records.len(),
{
    if records.len() == 0 {
        0
    } else {
        (if spec_castable(records[0]) {
            1int
        } else {
            0int
        }) + castable_count(records.drop_first())
    }
}

/// The number of castable records never exceeds the number of records.
proof fn lemma_castable_count_bound(records: Seq<Seq<u8>>)
    ensures
        0 <= castable_count(records) <= records.len(),
    decreases records.len(),
{
    if records.len() > 0 {
        lemma_castable_count_bound(records.drop_first());
    }
}

/// Streams every record of the buffer through the handler, in storage order,
/// strictly one at a time, then calls `flush` once. Returns how many records
/// were dispatched to a slot and how many cast to no typed view.
#[verifier::loop_isolation(false)]
pub fn apply_buffer<H: Handler>(handler: &mut H, buffer: &ItemBuffer) -> (r: (usize, usize))
    ensures
        r.0 as int == castable_count(buffer@),
        r.0 + r.1 == buffer@.len(),
{
    let ghost records = buffer@;
    proof {
        buffer.lemma_record_count();
    }
    let total_bytes: usize = buffer.byte_len();
    let mut dispatched: usize = 0;
    let mut skipped: usize = 0;
    let mut it = buffer.iter();
    loop
        invariant
            it.remaining().len() <= records.len(),
            dispatched + skipped + it.remaining().len() == records.len(),
            dispatched as int == castable_count(records.take(
                records.len() - it.remaining().len(),
            )),
            records.skip(records.len() - it.remaining().len()) == it.remaining(),
        decreases it.remaining().len(),
    {
        let ghost done = records.len() - it.remaining().len();
        match it.next() {
            None => {
                proof {
                    assert(records.take(records.len() as int) =~= records);
                }
                handler.flush();
                return (dispatched, skipped);
            },
            Some(item) => {
                proof {
                    assert(item@ == records[done]);
                    assert(records.take(done + 1) =~= records.take(done).push(records[done]));
                    lemma_castable_count_push(records.take(done), records[done]);
                    assert(records.skip(done + 1) =~= records.skip(done).drop_first());
                }
                if dispatch(handler, &item) {
                    dispatched = dispatched + 1;
                } else {
                    skipped = skipped + 1;
                }
            },
        }
    }
}

/// Appending one record adds one to the castable count exactly when it
/// casts.
proof fn lemma_castable_count_push(records: Seq<Seq<u8>>, record: Seq<u8>)
    ensures
        castable_count(records.push(record)) == castable_count(records) + (if spec_castable(
            record,
        ) {
            1int
        } else {
            0int
        }),
    decreases records.len(),
{
    if records.len() == 0 {
        assert(records.push(record)[0] == record);
        assert(records.push(record).drop_first() =~= Seq::<Seq<u8>>::empty());
        assert(castable_count(Seq::<Seq<u8>>::empty()) == 0);
    } else {
        assert(records.push(record)[0] == records[0]);
        assert(records.push(record).drop_first() =~= records.drop_first().push(record));
        lemma_castable_count_push(records.drop_first(), record);
    }
}

} // verus!
