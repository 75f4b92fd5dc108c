//! A way: a list of nodes forming a path on the map.

use vstd::prelude::*;

use crate::node::NodeRef;
use crate::node_ref_list::WayNodeList;
use crate::object::OSMObject;

verus! {

/// A way is a list of nodes.
pub struct Way {
    /// The shared object fields.
    pub object: OSMObject,

    /// The way's point sequence.
    pub nodes: WayNodeList,
}

impl Way {
    /// Get the way's nodes.
    pub fn nodes(&self) -> (r: &WayNodeList)
        ensures
            r@ == self.nodes@,
    {
        &self.nodes
    }

    /// Replaces the node reference at position `i`, for consumers that fill
    /// in looked-up locations.
    pub fn set_node(&mut self, i: usize, node: NodeRef)
        requires
            i < old(self).nodes@.len(),
        ensures
            final(self).nodes@ == old(self).nodes@.update(i as int, node),
            final(self).object == old(self).object,
    {
        self.nodes.set(i, node);
    }
}

} // verus!
