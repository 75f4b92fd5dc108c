//! Nodes and node references: points on the map and the compact references
//! to them stored inside ways and rings.

use vstd::prelude::*;

use crate::location::Location;
use crate::object::{ObjectId, OSMObject};

verus! {

/// Reference to a [`Node`].
///
/// This is basically just the node's id, so it can be looked up if all nodes
/// are cached. The location slot is always present in the representation but
/// is only semantically valid when the coordinate passes the validity check.
#[derive(Copy, Clone, Debug, PartialEq, Eq, Structural)]
pub struct NodeRef {
    /// The referenced node's id.
    pub id: ObjectId,

    /// The referenced node's location, if it so happens to be known.
    pub location: Location,
}

impl NodeRef {
    /// Check if a valid location is set and return it.
    pub fn get_location(&self) -> (r: Option<Location>)
        ensures
            r == if self.location.spec_is_valid() {
                Some(self.location)
            } else {
                None::<Location>
            },
    {
        if self.location.is_valid() {
            Some(self.location)
        } else {
            None
        }
    }
}

/// A node is some point on the map.
#[derive(Copy, Clone, Debug, PartialEq, Eq, Structural)]
pub struct Node {
    /// The shared object fields.
    pub object: OSMObject,

    /// Where the point sits.
    pub location: Location,
}

impl Node {
    /// Get the node's location.
    pub fn location(&self) -> (r: Location)
        ensures
            r == self.location,
    {
        self.location
    }

    /// Set the node's location.
    pub fn set_location(&mut self, location: &Location)
        ensures
            final(self).location == *location,
            final(self).object == old(self).object,
    {
        self.location = *location;
    }
}

} // verus!
