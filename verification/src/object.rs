//! The accessor object shared by map objects (nodes, ways, relations,
//! areas): the fields every such object carries, exposed by composition
//! rather than by a class hierarchy.

use vstd::prelude::*;

verus! {

/// Type for map user IDs.
pub type UserId = u32;

/// Type for map object (node, way, or relation) IDs.
pub type ObjectId = i64;

/// Type for map object IDs where only non-negative values occur.
pub type UnsignedObjectId = u64;

/// Type for map object version numbers.
pub type ObjectVersion = u32;

/// A timestamp: seconds since epoch as an unsigned 32-bit integer.
pub type Timestamp = u32;

/// The shared part of the map object kinds. Concrete record types (node,
/// way, relation, area) hold one of these rather than inheriting from it.
#[derive(Copy, Clone, Debug, PartialEq, Eq, Structural)]
pub struct OSMObject {
    /// The object's identifier.
    pub id: ObjectId,
}

impl OSMObject {
    /// Get the ID of this object.
    pub fn id(&self) -> (r: ObjectId)
        ensures
            r == self.id,
    {
        self.id
    }

    /// Get the absolute value of the ID of this object.
    pub fn positive_id(&self) -> (r: UnsignedObjectId)
        ensures
            r as int == if self.id < 0 {
                -(self.id as int)
            } else {
                self.id as int
            },
    {
        if self.id >= 0 {
            self.id as u64
        } else {
            let p: u64 = (-(self.id + 1)) as u64;
            p + 1
        }
    }
}

} // verus!
