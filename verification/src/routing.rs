//! Shared routing utilities used by every node role: forwarding along the
//! source route, reversing a traveled route prefix for replies, and building
//! acknowledgment, negative-acknowledgment and flood-response packets.

use vstd::prelude::*;
use crate::neighbors::NeighborTable;
use crate::types::Ack;
use crate::types::FloodResponse;
use crate::types::Nack;
use crate::types::NackType;
use crate::types::NodeId;
use crate::types::NodeType;
use crate::types::Packet;
use crate::types::PacketType;
use crate::types::SourceRoutingHeader;
use crate::types::nack_fragment_index;

verus! {

/// The route a reply follows when an error is detected at position `k` of
/// `hops`: the inclusive prefix ending at `k`, reversed.
pub open spec fn reversed_prefix(hops: Seq<NodeId>, k: int) -> Seq<NodeId> {
    hops.take(k + 1).reverse()
}

/// The node identifiers of a path trace, in trace order.
pub open spec fn trace_ids(trace: Seq<(NodeId, NodeType)>) -> Seq<NodeId> {
    trace.map_values(|e: (NodeId, NodeType)| e.0)
}

/// Reverse-route correctness: a reply built at position `k` of `hops`
/// follows exactly `hops[k], hops[k-1], ..., hops[0]` and ends at `hops[0]`,
/// the original initiator.
pub proof fn lemma_reverse_route_walks_back(hops: Seq<NodeId>, k: int)
    requires
        0 <= k < hops.len(),
    ensures
        reversed_prefix(hops, k).len() == k + 1,
        forall|i: int| 0 <= i <= k ==> reversed_prefix(hops, k)[i] == hops[k - i],
        reversed_prefix(hops, k).last() == hops[0],
{
    assert(hops.take(k + 1).len() == k + 1);
}

/// Two packets carry the same contents, route and correlation tag.
pub open spec fn packet_eq(a: Packet, b: Packet) -> bool {
    &&& pack_type_eq(a.pack_type, b.pack_type)
    &&& a.routing_header.hops@ == b.routing_header.hops@
    &&& a.routing_header.hop_index == b.routing_header.hop_index
    &&& a.session_id == b.session_id
}

/// Two payloads are the same.
pub open spec fn pack_type_eq(a: PacketType, b: PacketType) -> bool {
    match (a, b) {
        (PacketType::MsgFragment(x), PacketType::MsgFragment(y)) => x == y,
        (PacketType::Ack(x), PacketType::Ack(y)) => x == y,
        (PacketType::Nack(x), PacketType::Nack(y)) => x == y,
        (PacketType::FloodRequest(x), PacketType::FloodRequest(y)) => {
            &&& x.flood_id == y.flood_id
            &&& x.initiator_id == y.initiator_id
            &&& x.path_trace@ == y.path_trace@
        },
        (PacketType::FloodResponse(x), PacketType::FloodResponse(y)) => {
            &&& x.flood_id == y.flood_id
            &&& x.path_trace@ == y.path_trace@
        },
        _ => false,
    }
}

/// `r` is the reply to `p` that carries `nt`, reported from position `k` of
/// `p`'s route: a negative acknowledgment for the fragment `p` carried (or
/// fragment zero for control traffic), routed back along the reversed
/// inclusive prefix of the route ending at `k`, under `p`'s correlation tag.
pub open spec fn nack_reply(p: Packet, k: int, nt: NackType, r: Packet) -> bool {
    &&& r.pack_type matches PacketType::Nack(n) && n == (Nack {
        fragment_index: nack_fragment_index(p.pack_type),
        nack_type: nt,
    })
    &&& r.routing_header.hops@ == reversed_prefix(p.hops(), k)
    &&& r.routing_header.hop_index == 1
    &&& r.session_id == p.session_id
}

/// `r` is the acknowledgment of the fragment `p` carries, routed back along
/// the reversed inclusive prefix ending at `p`'s current position.
pub open spec fn ack_reply(p: Packet, r: Packet) -> bool {
    &&& r.pack_type matches PacketType::Ack(a) && a == (Ack {
        fragment_index: nack_fragment_index(p.pack_type),
    })
    &&& r.routing_header.hops@ == reversed_prefix(p.hops(), p.hop_index())
    &&& r.routing_header.hop_index == 1
    &&& r.session_id == p.session_id
}

/// Reverse-route correctness for negative acknowledgments: a reply built at
/// position `k` of the answered packet's route follows exactly
/// `hops[k], hops[k-1], ..., hops[0]` and its final named node is `hops[0]`,
/// the node the route began at.
pub proof fn lemma_nack_reply_reaches_initiator(p: Packet, k: int, nt: NackType, r: Packet)
    requires
        0 <= k < p.hops().len(),
        nack_reply(p, k, nt, r),
    ensures
        r.routing_header.hops@.len() == k + 1,
        forall|i: int| 0 <= i <= k ==> r.routing_header.hops@[i] == p.hops()[k - i],
        r.routing_header.hops@.last() == p.hops()[0],
{
    lemma_reverse_route_walks_back(p.hops(), k);
}

/// Reverse-route correctness for acknowledgments: the acknowledgment of a
/// fragment received at position `k` of its route follows exactly
/// `hops[k], hops[k-1], ..., hops[0]` and its final named node is `hops[0]`.
pub proof fn lemma_ack_reply_reaches_initiator(p: Packet, r: Packet)
    requires
        0 <= p.hop_index() < p.hops().len(),
        ack_reply(p, r),
    ensures
        r.routing_header.hops@.len() == p.hop_index() + 1,
        forall|i: int|
            0 <= i <= p.hop_index() ==> r.routing_header.hops@[i] == p.hops()[p.hop_index() - i],
        r.routing_header.hops@.last() == p.hops()[0],
{
    lemma_reverse_route_walks_back(p.hops(), p.hop_index());
}

/// Builds the header of a reply detected at position `k` of `hops`: the
/// inclusive prefix ending at `k`, reversed, with the next hop at index one.
pub fn reversed_header(hops: &Vec<NodeId>, k: usize) -> (r: SourceRoutingHeader)
    requires
        k < hops@.len(),
    ensures
        r.hop_index == 1,
        r.hops@ == reversed_prefix(hops@, k as int),
{
    let n = hops.len();
    let end = k + 1;
    let mut back: Vec<NodeId> = Vec::new();
    let mut i: usize = 0;
    while i < end
        invariant
            i <= end,
            end == k + 1,
            k < n,
            n == hops@.len(),
            back@.len() == i,
            forall|j: int| 0 <= j < i ==> back@[j] == hops@[k - j],
        decreases end - i,
    {
        back.push(hops[k - i]);
        i = i + 1;
    }
    assert(back@ =~= reversed_prefix(hops@, k as int));
    SourceRoutingHeader { hops: back, hop_index: 1 }
}

/// Builds the negative acknowledgment answering `packet`, reported from
/// position `detected_at` of its route.
pub fn build_nack(packet: &Packet, detected_at: usize, nack_type: NackType) -> (r: Packet)
    requires
        detected_at < packet.hops().len(),
    ensures
        nack_reply(*packet, detected_at as int, nack_type, r),
{
    let fragment_index = match &packet.pack_type {
        PacketType::MsgFragment(f) => f.fragment_index,
        _ => 0,
    };
    Packet {
        pack_type: PacketType::Nack(Nack { fragment_index, nack_type }),
        routing_header: reversed_header(&packet.routing_header.hops, detected_at),
        session_id: packet.session_id,
    }
}

/// Builds the acknowledgment answering the fragment `packet` carries.
pub fn build_ack(packet: &Packet) -> (r: Packet)
    requires
        packet.pack_type is MsgFragment,
        packet.hop_index() < packet.hops().len(),
    ensures
        ack_reply(*packet, r),
{
    let fragment_index = match &packet.pack_type {
        PacketType::MsgFragment(f) => f.fragment_index,
        _ => 0,
    };
    Packet {
        pack_type: PacketType::Ack(Ack { fragment_index }),
        routing_header: reversed_header(
            &packet.routing_header.hops,
            packet.routing_header.hop_index,
        ),
        session_id: packet.session_id,
    }
}

/// Builds the response to a flood request: it carries the completed path
/// trace and travels back along the trace's node identifiers, reversed, as a
/// normally routed packet under a fresh correlation tag.
pub fn build_flood_response(
    flood_id: u64,
    path_trace: Vec<(NodeId, NodeType)>,
    session_id: u64,
) -> (r: Packet)
    ensures
        r.pack_type matches PacketType::FloodResponse(fr) && fr.flood_id == flood_id
            && fr.path_trace@ == path_trace@,
        r.routing_header.hops@ == trace_ids(path_trace@).reverse(),
        r.routing_header.hop_index == 1,
        r.session_id == session_id,
{
    let n = path_trace.len();
    let mut back: Vec<NodeId> = Vec::new();
    let mut i: usize = 0;
    while i < n
        invariant
            i <= n,
            n == path_trace@.len(),
            back@.len() == i,
            forall|j: int| 0 <= j < i ==> back@[j] == path_trace@[n - 1 - j].0,
        decreases n - i,
    {
        back.push(path_trace[n - 1 - i].0);
        i = i + 1;
    }
    assert(back@ =~= trace_ids(path_trace@).reverse());
    Packet {
        pack_type: PacketType::FloodResponse(FloodResponse { flood_id, path_trace }),
        routing_header: SourceRoutingHeader { hops: back, hop_index: 1 },
        session_id,
    }
}

/// Sends `packet` to the node its route names at the current position.
/// Reports whether a channel for that node exists and accepted it; a packet
/// whose position lies outside its route is dropped.
pub fn forward_packet(table: &NeighborTable, packet: Packet) -> (accepted: bool)
    ensures
        accepted ==> packet.hop_index() < packet.hops().len() && table.has(
            packet.hops()[packet.hop_index()],
        ),
{
    let hi = packet.routing_header.hop_index;
    if hi < packet.routing_header.hops.len() {
        let next = packet.routing_header.hops[hi];
        table.send_to(next, packet)
    } else {
        false
    }
}

/// Copies a list of node identifiers.
pub fn copy_node_ids(v: &Vec<NodeId>) -> (r: Vec<NodeId>)
    ensures
        r@ == v@,
{
    let n = v.len();
    let mut out: Vec<NodeId> = Vec::new();
    let mut i: usize = 0;
    while i < n
        invariant
            i <= n,
            n == v@.len(),
            out@ == v@.take(i as int),
        decreases n - i,
    {
        out.push(v[i]);
        assert(out@ =~= v@.take(i + 1));
        i = i + 1;
    }
    assert(v@.take(n as int) =~= v@);
    out
}

/// Copies a path trace.
pub fn copy_trace(v: &Vec<(NodeId, NodeType)>) -> (r: Vec<(NodeId, NodeType)>)
    ensures
        r@ == v@,
{
    let n = v.len();
    let mut out: Vec<(NodeId, NodeType)> = Vec::new();
    let mut i: usize = 0;
    while i < n
        invariant
            i <= n,
            n == v@.len(),
            out@ == v@.take(i as int),
        decreases n - i,
    {
        out.push(v[i]);
        assert(out@ =~= v@.take(i + 1));
        i = i + 1;
    }
    assert(v@.take(n as int) =~= v@);
    out
}

/// Copies a packet, fields and route alike.
pub fn clone_packet(p: &Packet) -> (r: Packet)
    ensures
        packet_eq(*p, r),
{
    let pack_type = match &p.pack_type {
        PacketType::MsgFragment(f) => PacketType::MsgFragment(*f),
        PacketType::Ack(a) => PacketType::Ack(*a),
        PacketType::Nack(n) => PacketType::Nack(*n),
        PacketType::FloodRequest(fr) => PacketType::FloodRequest(
            crate::types::FloodRequest {
                flood_id: fr.flood_id,
                initiator_id: fr.initiator_id,
                path_trace: copy_trace(&fr.path_trace),
            },
        ),
        PacketType::FloodResponse(fr) => PacketType::FloodResponse(
            FloodResponse { flood_id: fr.flood_id, path_trace: copy_trace(&fr.path_trace) },
        ),
    };
    Packet {
        pack_type,
        routing_header: SourceRoutingHeader {
            hops: copy_node_ids(&p.routing_header.hops),
            hop_index: p.routing_header.hop_index,
        },
        session_id: p.session_id,
    }
}

} // verus!
