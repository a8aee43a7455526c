//! The surface every node role shares: identity, the neighbor table, and a
//! random generator. The routing operations built on it live in the routing
//! module.

use vstd::prelude::*;
use crate::neighbors::NeighborTable;
use crate::types::NodeId;

verus! {

/// What every node role offers: its identity, the send endpoints of its
/// neighbors, and its own random generator.
pub trait NetworkUtils {
    /// The node's identifier, as a specification-level value.
    spec fn spec_node_id(&self) -> NodeId;

    /// The node's identifier.
    fn get_id(&self) -> (r: NodeId)
        ensures
            r == self.spec_node_id(),
    ;

    /// The neighbor table.
    fn get_packet_senders(&self) -> &NeighborTable;

    /// The node's own random generator.
    fn get_random_generator(&mut self) -> &mut rand::rngs::StdRng;
}

} // verus!
