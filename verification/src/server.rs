//! The server runtime: an edge node that terminates application traffic,
//! acknowledging received fragments and answering flood requests.

use vstd::prelude::*;
use crate::channel::channel_recv;
use crate::controller::DroneEvent;
use crate::neighbors::NeighborTable;
use crate::rng::new_rng;
use crate::rng::random_u64;
use crate::routing::build_ack;
use crate::routing::build_flood_response;
use crate::routing::forward_packet;
use crate::types::NodeId;
use crate::types::NodeType;
use crate::types::Packet;
use crate::types::PacketType;

verus! {

/// An edge node that terminates application traffic.
pub struct ServerNode {
    id: NodeId,
    sim_contr_send: crossbeam_channel::Sender<DroneEvent>,
    packet_recv: crossbeam_channel::Receiver<Packet>,
    packet_send: NeighborTable,
    random_generator: rand::rngs::StdRng,
}

impl ServerNode {
    /// This server's identifier.
    pub closed spec fn spec_id(&self) -> NodeId {
        self.id
    }

    /// The identifiers of the current neighbors, in insertion order.
    pub closed spec fn neighbor_ids(&self) -> Seq<NodeId> {
        self.packet_send.ids()
    }

    /// Well-formedness: the neighbor table holds each neighbor once.
    pub closed spec fn inv(&self) -> bool {
        self.packet_send.wf()
    }

    /// Creates a server.
    pub fn new(
        id: NodeId,
        controller_send: crossbeam_channel::Sender<DroneEvent>,
        packet_recv: crossbeam_channel::Receiver<Packet>,
        packet_send: NeighborTable,
    ) -> (r: Self)
        requires
            packet_send.wf(),
        ensures
            r.inv(),
            r.spec_id() == id,
            r.neighbor_ids() == packet_send.ids(),
    {
        ServerNode {
            id,
            sim_contr_send: controller_send,
            packet_recv,
            packet_send,
            random_generator: new_rng(),
        }
    }

    /// One turn of the server's event loop: waits for the next packet and
    /// handles it. Reports whether the loop should go on; it stops only once
    /// the packet channel is closed.
    pub fn step(&mut self) -> (go_on: bool)
        requires
            old(self).inv(),
        ensures
            final(self).inv(),
            final(self).spec_id() == old(self).spec_id(),
            final(self).neighbor_ids() == old(self).neighbor_ids(),
    {
        let next = channel_recv(&self.packet_recv);
        match next {
            Some(packet) => {
                self.handle_packet(packet);
                true
            },
            None => false,
        }
    }

    /// Handles one received packet: fragments are acknowledged and flood
    /// requests answered; acknowledgments of either kind are surfaced to an
    /// upper layer, and flood responses are not a server's to consume; none
    /// of them changes anything here.
    pub fn handle_packet(&mut self, packet: Packet)
        requires
            old(self).inv(),
        ensures
            final(self).inv(),
            final(self).spec_id() == old(self).spec_id(),
            final(self).neighbor_ids() == old(self).neighbor_ids(),
    {
        let kind = match &packet.pack_type {
            PacketType::Nack(_) => 0u8,
            PacketType::Ack(_) => 0u8,
            PacketType::MsgFragment(_) => 1u8,
            PacketType::FloodRequest(_) => 2u8,
            PacketType::FloodResponse(_) => 0u8,
        };
        if kind == 1 {
            self.handle_fragment(packet);
        } else if kind == 2 {
            self.handle_flood_request(packet);
        }
    }

    /// Answers a flood request: an edge node is always terminal — it appends
    /// itself to the path trace, never re-broadcasts, and sends the response
    /// back along the reversed trace.
    pub fn handle_flood_request(&mut self, packet: Packet)
        requires
            old(self).inv(),
        ensures
            final(self).inv(),
            final(self).spec_id() == old(self).spec_id(),
            final(self).neighbor_ids() == old(self).neighbor_ids(),
    {
        let Packet { pack_type, routing_header: _, session_id: _ } = packet;
        match pack_type {
            PacketType::FloodRequest(mut req) => {
                req.path_trace.push((self.id, NodeType::Server));
                let response_session = random_u64(&mut self.random_generator);
                let response = build_flood_response(
                    req.flood_id,
                    req.path_trace,
                    response_session,
                );
                let _ = forward_packet(&self.packet_send, response);
            },
            _ => {},
        }
    }

    /// Acknowledges a received fragment: the acknowledgment carries the
    /// fragment's index and travels the reversed route up through the
    /// current position. A packet that is no fragment, or whose position
    /// lies outside its route, is dropped rather than a programmer error.
    pub fn handle_fragment(&self, packet: Packet) {
        let is_fragment = match &packet.pack_type {
            PacketType::MsgFragment(_) => true,
            _ => false,
        };
        if is_fragment && packet.routing_header.hop_index < packet.routing_header.hops.len() {
            let ack = build_ack(&packet);
            let _ = forward_packet(&self.packet_send, ack);
        }
    }
}

impl crate::utils::NetworkUtils for ServerNode {
    closed spec fn spec_node_id(&self) -> NodeId {
        self.id
    }

    fn get_id(&self) -> (r: NodeId) {
        self.id
    }

    fn get_packet_senders(&self) -> &NeighborTable {
        &self.packet_send
    }

    fn get_random_generator(&mut self) -> &mut rand::rngs::StdRng {
        &mut self.random_generator
    }
}

} // verus!
