//! Core data model of the network: node identifiers, the source-routing
//! header, and the packet variants exchanged between nodes.

use vstd::prelude::*;

verus! {

/// Identifier of a node, unique across the whole network.
pub type NodeId = u8;

/// Number of payload bytes carried by every message fragment.
pub const FRAGMENT_DSIZE: usize = 128;

/// A source route: the ordered list of nodes a packet must visit, together
/// with the zero-based index of the node expected to currently hold it.
/// `hop_index == hops.len()` means the packet reached its final named node.
pub struct SourceRoutingHeader {
    pub hops: Vec<NodeId>,
    pub hop_index: usize,
}

/// Role of a node, as recorded in flood path traces.
#[derive(Clone, Copy, PartialEq, Eq, Structural, Debug)]
pub enum NodeType {
    Client,
    Drone,
    Server,
}

/// Payload unit: opaque bytes of fixed size.
#[derive(Clone, Copy, Debug)]
pub struct Fragment {
    pub fragment_index: u64,
    pub total_n_fragments: u64,
    pub length: u8,
    pub data: [u8; FRAGMENT_DSIZE],
}

/// Positive acknowledgment for a received fragment.
#[derive(Clone, Copy, PartialEq, Eq, Structural, Debug)]
pub struct Ack {
    pub fragment_index: u64,
}

/// Reason a packet was answered with a negative acknowledgment.
#[derive(Clone, Copy, PartialEq, Eq, Structural, Debug)]
pub enum NackType {
    ErrorInRouting(NodeId),
    DestinationIsDrone,
    Dropped,
    UnexpectedRecipient(NodeId),
}

/// Negative acknowledgment, sent back along the reversed route prefix.
#[derive(Clone, Copy, PartialEq, Eq, Structural, Debug)]
pub struct Nack {
    pub fragment_index: u64,
    pub nack_type: NackType,
}

/// Topology-discovery request; disseminated by flooding, not routed by hops.
pub struct FloodRequest {
    pub flood_id: u64,
    pub initiator_id: NodeId,
    pub path_trace: Vec<(NodeId, NodeType)>,
}

/// Reply to a flood request, routed back along the reversed path trace.
pub struct FloodResponse {
    pub flood_id: u64,
    pub path_trace: Vec<(NodeId, NodeType)>,
}

/// The tagged union of everything a packet can carry.
pub enum PacketType {
    MsgFragment(Fragment),
    Ack(Ack),
    Nack(Nack),
    FloodRequest(FloodRequest),
    FloodResponse(FloodResponse),
}

/// A message in transit: payload, source route, and an opaque correlation tag.
pub struct Packet {
    pub pack_type: PacketType,
    pub routing_header: SourceRoutingHeader,
    pub session_id: u64,
}

/// The fragment index a negative acknowledgment reports: the index of the
/// fragment being answered, or zero when the packet is not a fragment.
pub open spec fn nack_fragment_index(pt: PacketType) -> u64 {
    match pt {
        PacketType::MsgFragment(f) => f.fragment_index,
        _ => 0,
    }
}

impl Packet {
    /// The route the packet follows.
    pub open spec fn hops(&self) -> Seq<NodeId> {
        self.routing_header.hops@
    }

    /// The current position on the route.
    pub open spec fn hop_index(&self) -> int {
        self.routing_header.hop_index as int
    }
}

} // verus!
