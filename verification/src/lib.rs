//! An in-memory record protocol for streams of heterogeneous, variable-length
//! map-data records (points, ways, relations, areas, tag lists, node-reference
//! lists) packed contiguously in memory.
//!
//! The crate covers the self-describing record header, the alignment and
//! packing rules of the record arena ([`ItemBuffer`]), the casting rules that
//! let a generic record ([`Item`]) be reinterpreted as its specific kind, the
//! compact key/value tag encoding ([`tag_list`]), the fixed-point geographic
//! coordinate encoding ([`Location`]), and the callback dispatch used to hand
//! records to a consumer one at a time ([`handler`]).

mod location;
pub use location::dec_str;
pub use location::digit_char;
pub use location::lemma_valid_implies_defined;
pub use location::Location;
pub use location::PRECISION;
pub use location::UNDEFINED_COORDINATE;

mod object;
pub use object::OSMObject;
pub use object::ObjectId;
pub use object::ObjectVersion;
pub use object::Timestamp;
pub use object::UnsignedObjectId;
pub use object::UserId;

mod node;
pub use node::Node;
pub use node::NodeRef;

pub mod node_ref_list;

mod way;
pub use way::Way;

pub mod tag_list;

mod area;
pub use area::code_at;
pub use area::inner_rings_of_outer;
pub use area::inner_run_from;
pub use area::lemma_area_id_round_trip;
pub use area::ring_refs_at;
pub use area::rings_with_code_from;
pub use area::spec_area_id;
pub use area::spec_is_from_way;
pub use area::spec_original_id;
pub use area::Area;
pub use area::RingIterator;

pub mod handler;
pub use handler::Handler;

pub mod wire;

pub mod packed;

mod buffer;
pub use buffer::ItemBuffer;
pub use buffer::ItemBufferIterator;

mod item;
pub use item::area_rings_region;
pub use item::lemma_type_code_round_trip;
pub use item::record_object_id;
pub use item::Item;
pub use item::ItemRef;
pub use item::ItemSize;
pub use item::ItemType;
pub use item::spec_cast_matches;
pub use item::spec_castable;
pub use item::MAX_RECORD_SIZE;
pub use item::record_body;
pub use item::record_code;
pub use item::record_kind;
pub use item::wf_record;
