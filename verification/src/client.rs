//! The client runtime: an edge node that initiates flood discovery,
//! assembles a topology view from flood responses, and acknowledges received
//! fragments.

use vstd::prelude::*;
use crate::channel::BiasedRecv;
use crate::channel::channel_recv_biased;
use crate::config::Client;
use crate::config::Config;
use crate::config::Drone;
use crate::config::links;
use crate::controller::DroneEvent;
use crate::flood_ids::FloodIdSet;
use crate::flood_ids::flood_id_seq;
use crate::flood_ids::flood_ids_contains;
use crate::flood_ids::flood_ids_insert;
use crate::flood_ids::flood_ids_last;
use crate::flood_ids::flood_ids_new;
use crate::neighbors::NeighborTable;
use crate::rng::new_rng;
use crate::rng::random_u64;
use crate::routing::build_ack;
use crate::routing::build_flood_response;
use crate::routing::clone_packet;
use crate::routing::forward_packet;
use crate::topology::PROVISIONAL_PDR;
use crate::topology::connection_lists_distinct;
use crate::topology::distinct_ids;
use crate::topology::lemma_seeded_topology_symmetric;
use crate::topology::lemma_topology_symmetric_after_merge;
use crate::topology::topology_symmetric;
use crate::topology::trace_adjacent;
use crate::topology::update_topology_with_response;
use crate::types::FloodRequest;
use crate::types::NodeId;
use crate::types::NodeType;
use crate::types::Packet;
use crate::types::PacketType;
use crate::types::SourceRoutingHeader;

verus! {

broadcast use vstd::seq_lib::lemma_seq_contains_after_push;

/// Commands a client accepts from the controller. Unknown variants of a
/// future, wider set are ignored, never fatal.
pub enum ClientCommand {
    GetFilesList,
}

/// What handling a flood response did to the topology view.
#[derive(Clone, Copy, PartialEq, Eq, Structural, Debug)]
pub enum TopologyUpdate {
    /// The response answered the newest flood; its trace was merged.
    Merged,
    /// The response named a flood this node never started: a protocol
    /// violation; the packet is dropped.
    UnknownFlood,
    /// The response answered an earlier flood; it is ignored.
    Stale,
    /// No topology view was seeded yet; the packet is dropped.
    NoTopology,
    /// The packet was not a flood response.
    NotAResponse,
}

/// What one handled packet does to a client's topology view: a flood
/// response answering the newest issued flood is merged into the seeded view
/// — the new view records exactly the old edges plus the trace's adjacencies
/// in both directions — and every other packet leaves the view unchanged.
pub open spec fn view_after_packet(
    seen: Seq<u64>,
    before: Option<Config>,
    packet: Packet,
    after: Option<Config>,
) -> bool {
    match packet.pack_type {
        PacketType::FloodResponse(fr) => {
            if seen.contains(fr.flood_id) && seen.last() == fr.flood_id {
                match before {
                    None => after is None,
                    Some(t0) => after matches Some(t1) && (forall|x: NodeId, y: NodeId| #[trigger]
                        links(t1, x, y) <==> (links(t0, x, y) || trace_adjacent(
                            fr.path_trace@,
                            x,
                            y,
                        ))),
                }
            } else {
                after == before
            }
        },
        _ => after == before,
    }
}

/// An edge node that initiates traffic and flood discovery.
pub struct ClientNode {
    id: NodeId,
    sim_contr_send: crossbeam_channel::Sender<DroneEvent>,
    sim_contr_recv: crossbeam_channel::Receiver<ClientCommand>,
    packet_recv: crossbeam_channel::Receiver<Packet>,
    packet_send: NeighborTable,
    seen_flood_ids: FloodIdSet,
    topology: Option<Config>,
    random_generator: rand::rngs::StdRng,
}

impl ClientNode {
    /// This client's identifier.
    pub closed spec fn spec_id(&self) -> NodeId {
        self.id
    }

    /// The identifiers of the current neighbors, in insertion order.
    pub closed spec fn neighbor_ids(&self) -> Seq<NodeId> {
        self.packet_send.ids()
    }

    /// The flood ids this client has issued, in insertion order.
    pub closed spec fn seen(&self) -> Seq<u64> {
        flood_id_seq(self.seen_flood_ids)
    }

    /// The topology view, once seeded.
    pub closed spec fn spec_topology(&self) -> Option<Config> {
        self.topology
    }

    /// The topology view, where seeded, records every edge both ways.
    pub open spec fn topology_view_symmetric(&self) -> bool {
        match self.spec_topology() {
            Some(t) => topology_symmetric(t),
            None => true,
        }
    }

    /// The topology view, where seeded, holds duplicate-free connection
    /// lists: edges are recorded as sets, so merges are idempotent.
    pub open spec fn topology_view_distinct(&self) -> bool {
        match self.spec_topology() {
            Some(t) => connection_lists_distinct(t),
            None => true,
        }
    }

    /// Well-formedness: the neighbor table holds each neighbor once, and the
    /// topology view is symmetric — whenever one node appears as a neighbor
    /// of another in the view, the converse is recorded too — with
    /// duplicate-free connection lists.
    pub closed spec fn inv(&self) -> bool {
        self.packet_send.wf() && self.topology_view_symmetric() && self.topology_view_distinct()
    }

    /// Creates a client with no topology view and no floods issued.
    pub fn new(
        id: NodeId,
        controller_send: crossbeam_channel::Sender<DroneEvent>,
        controller_recv: crossbeam_channel::Receiver<ClientCommand>,
        packet_recv: crossbeam_channel::Receiver<Packet>,
        packet_send: NeighborTable,
    ) -> (r: Self)
        requires
            packet_send.wf(),
        ensures
            r.inv(),
            r.spec_id() == id,
            r.neighbor_ids() == packet_send.ids(),
            r.seen() == Seq::<u64>::empty(),
            r.spec_topology() is None,
    {
        ClientNode {
            id,
            sim_contr_send: controller_send,
            sim_contr_recv: controller_recv,
            packet_recv,
            packet_send,
            seen_flood_ids: flood_ids_new(),
            topology: None,
            random_generator: new_rng(),
        }
    }

    /// The topology view, for inspection.
    pub fn topology(&self) -> (r: &Option<Config>)
        ensures
            *r == self.spec_topology(),
    {
        &self.topology
    }

    /// Prepares the client for service: seeds the topology view with its own
    /// direct neighbors as provisional edges, then initiates a flood.
    /// Returns the flood id issued.
    pub fn start(&mut self) -> (flood_id: u64)
        requires
            old(self).inv(),
        ensures
            final(self).inv(),
            final(self).spec_id() == old(self).spec_id(),
            final(self).neighbor_ids() == old(self).neighbor_ids(),
            final(self).seen().contains(flood_id),
            final(self).spec_topology() matches Some(t) && forall|x: NodeId, y: NodeId| #[trigger]
                links(t, x, y) <==> ((x == old(self).spec_id() && old(self).neighbor_ids().contains(
                    y,
                )) || (old(self).neighbor_ids().contains(x) && y == old(self).spec_id())),
    {
        self.initialize_topology();
        self.send_flood_request()
    }

    /// One turn of the client's event loop: waits for the next command or
    /// packet and handles it, preferring commands when both are ready.
    /// Reports whether the loop should go on; it stops only once both
    /// channels are closed.
    pub fn step(&mut self) -> (go_on: bool)
        requires
            old(self).inv(),
        ensures
            final(self).inv(),
            final(self).spec_id() == old(self).spec_id(),
            final(self).neighbor_ids() == old(self).neighbor_ids(),
    {
        let input = channel_recv_biased(&self.sim_contr_recv, &self.packet_recv);
        match input {
            BiasedRecv::First(command) => {
                self.handle_command(command);
                true
            },
            BiasedRecv::Second(packet) => {
                self.handle_packet(packet);
                true
            },
            BiasedRecv::Closed => false,
        }
    }

    /// Handles one controller command. The only current command asks for an
    /// application-level file listing, which the core only surfaces; no state
    /// changes.
    pub fn handle_command(&mut self, command: ClientCommand)
        requires
            old(self).inv(),
        ensures
            *final(self) == *old(self),
    {
        match command {
            ClientCommand::GetFilesList => {},
        }
    }

    /// Handles one received packet: fragments are acknowledged, flood
    /// requests answered, flood responses merged into the topology view;
    /// acknowledgments of either kind are surfaced to an upper layer and
    /// change nothing here. The topology view changes exactly as one merge
    /// of the response's trace, and only for a response answering the newest
    /// issued flood over a seeded view.
    pub fn handle_packet(&mut self, packet: Packet)
        requires
            old(self).inv(),
        ensures
            final(self).inv(),
            final(self).spec_id() == old(self).spec_id(),
            final(self).neighbor_ids() == old(self).neighbor_ids(),
            final(self).seen() == old(self).seen(),
            view_after_packet(
                old(self).seen(),
                old(self).spec_topology(),
                packet,
                final(self).spec_topology(),
            ),
    {
        let kind = match &packet.pack_type {
            PacketType::Nack(_) => 0u8,
            PacketType::Ack(_) => 0u8,
            PacketType::MsgFragment(_) => 1u8,
            PacketType::FloodRequest(_) => 2u8,
            PacketType::FloodResponse(_) => 3u8,
        };
        if kind == 1 {
            self.handle_fragment(packet);
        } else if kind == 2 {
            self.handle_flood_request(packet);
        } else if kind == 3 {
            let _ = self.update_topology(packet);
        }
    }

    /// Issues a new flood: records a fresh random flood id as its own, then
    /// broadcasts the request, with this node as the whole trace and route,
    /// to every neighbor. Returns the flood id.
    pub fn send_flood_request(&mut self) -> (flood_id: u64)
        requires
            old(self).inv(),
        ensures
            final(self).inv(),
            final(self).spec_id() == old(self).spec_id(),
            final(self).neighbor_ids() == old(self).neighbor_ids(),
            final(self).spec_topology() == old(self).spec_topology(),
            final(self).seen() == if old(self).seen().contains(flood_id) {
                old(self).seen()
            } else {
                old(self).seen().push(flood_id)
            },
            final(self).seen().contains(flood_id),
    {
        let flood_id = random_u64(&mut self.random_generator);
        let session_id = random_u64(&mut self.random_generator);
        let _ = flood_ids_insert(&mut self.seen_flood_ids, flood_id);
        let mut trace: Vec<(NodeId, NodeType)> = Vec::new();
        trace.push((self.id, NodeType::Client));
        let mut hops: Vec<NodeId> = Vec::new();
        hops.push(self.id);
        let request = Packet {
            pack_type: PacketType::FloodRequest(
                FloodRequest { flood_id, initiator_id: self.id, path_trace: trace },
            ),
            routing_header: SourceRoutingHeader { hops, hop_index: 0 },
            session_id,
        };
        let n = self.packet_send.len();
        let mut i: usize = 0;
        while i < n
            invariant
                i <= n,
                n == self.packet_send.ids().len(),
            decreases n - i,
        {
            let copy = clone_packet(&request);
            let _ = self.packet_send.send_at(i, copy);
            i = i + 1;
        }
        flood_id
    }

    /// Answers a flood request: an edge node is always terminal — it appends
    /// itself to the path trace, never re-broadcasts, and sends the response
    /// back along the reversed trace.
    pub fn handle_flood_request(&mut self, packet: Packet)
        requires
            old(self).inv(),
        ensures
            final(self).inv(),
            final(self).spec_id() == old(self).spec_id(),
            final(self).neighbor_ids() == old(self).neighbor_ids(),
            final(self).seen() == old(self).seen(),
            final(self).spec_topology() == old(self).spec_topology(),
    {
        let Packet { pack_type, routing_header: _, session_id: _ } = packet;
        match pack_type {
            PacketType::FloodRequest(mut req) => {
                req.path_trace.push((self.id, NodeType::Client));
                let response_session = random_u64(&mut self.random_generator);
                let response = build_flood_response(
                    req.flood_id,
                    req.path_trace,
                    response_session,
                );
                let _ = forward_packet(&self.packet_send, response);
            },
            _ => {},
        }
    }

    /// Acknowledges a received fragment: the acknowledgment carries the
    /// fragment's index and travels the reversed route up through the
    /// current position. A packet that is no fragment, or whose position
    /// lies outside its route, is dropped.
    pub fn handle_fragment(&self, packet: Packet) {
        let is_fragment = match &packet.pack_type {
            PacketType::MsgFragment(_) => true,
            _ => false,
        };
        if is_fragment && packet.routing_header.hop_index < packet.routing_header.hops.len() {
            let ack = build_ack(&packet);
            let _ = forward_packet(&self.packet_send, ack);
        }
    }

    /// Seeds the topology view: this client linked, both ways, with each of
    /// its direct neighbors, which are recorded as drones with a provisional
    /// drop rate.
    pub fn initialize_topology(&mut self)
        requires
            old(self).inv(),
        ensures
            final(self).inv(),
            final(self).spec_id() == old(self).spec_id(),
            final(self).neighbor_ids() == old(self).neighbor_ids(),
            final(self).seen() == old(self).seen(),
            final(self).spec_topology() matches Some(t) && forall|x: NodeId, y: NodeId| #[trigger]
                links(t, x, y) <==> ((x == old(self).spec_id() && old(self).neighbor_ids().contains(
                    y,
                )) || (old(self).neighbor_ids().contains(x) && y == old(self).spec_id())),
    {
        let n = self.packet_send.len();
        let mut neighbour_ids: Vec<NodeId> = Vec::new();
        let mut drones: Vec<Drone> = Vec::new();
        let mut i: usize = 0;
        while i < n
            invariant
                i <= n,
                n == self.packet_send.ids().len(),
                neighbour_ids@ =~= self.packet_send.ids().take(i as int),
                drones@.len() == i,
                forall|j: int|
                    0 <= j < i ==> (#[trigger] drones@[j].id == self.packet_send.ids()[j]
                        && drones@[j].connected_node_ids@ =~= seq![self.spec_id()]),
            decreases n - i,
        {
            let nid = self.packet_send.id_at(i);
            neighbour_ids.push(nid);
            assert(neighbour_ids@ =~= self.packet_send.ids().take(i + 1));
            let mut single: Vec<NodeId> = Vec::new();
            single.push(self.id);
            drones.push(Drone { id: nid, connected_node_ids: single, pdr: PROVISIONAL_PDR });
            i = i + 1;
        }
        assert(neighbour_ids@ =~= self.packet_send.ids());
        let this_client = Client { id: self.id, connected_drone_ids: neighbour_ids };
        let mut clients: Vec<Client> = Vec::new();
        clients.push(this_client);
        let servers: Vec<crate::config::Server> = Vec::new();
        let view = Config { drone: drones, client: clients, server: servers };
        proof {
            let own = self.spec_id();
            let nbrs = self.packet_send.ids();
            assert forall|x: NodeId, y: NodeId| #[trigger]
                links(view, x, y) <==> ((x == own && nbrs.contains(y)) || (nbrs.contains(x) && y
                    == own)) by {
                if links(view, x, y) {
                    if crate::config::client_links(view, x, y) {
                        let k = choose|k: int|
                            0 <= k < view.client@.len() && view.client@[k].id == x
                                && view.client@[k].connected_drone_ids@.contains(y);
                        assert(k == 0);
                        assert(x == own && nbrs.contains(y));
                    } else if crate::config::drone_links(view, x, y) {
                        let k = choose|k: int|
                            0 <= k < view.drone@.len() && view.drone@[k].id == x
                                && view.drone@[k].connected_node_ids@.contains(y);
                        assert(nbrs.contains(x));
                        let w = choose|w: int|
                            0 <= w < view.drone@[k].connected_node_ids@.len()
                                && view.drone@[k].connected_node_ids@[w] == y;
                        assert(y == own);
                    } else {
                        let k = choose|k: int|
                            0 <= k < view.server@.len() && view.server@[k].id == x
                                && view.server@[k].connected_drone_ids@.contains(y);
                        assert(false);
                    }
                }
                if x == own && nbrs.contains(y) {
                    assert(view.client@[0].id == x && view.client@[0].connected_drone_ids@.contains(
                        y,
                    ));
                    assert(crate::config::client_links(view, x, y));
                }
                if nbrs.contains(x) && y == own {
                    let k = choose|k: int| 0 <= k < nbrs.len() && nbrs[k] == x;
                    assert(view.drone@[k].id == x);
                    assert(view.drone@[k].connected_node_ids@[0] == y);
                    assert(view.drone@[k].connected_node_ids@.contains(y));
                    assert(crate::config::drone_links(view, x, y));
                }
            }
            lemma_seeded_topology_symmetric(view, own, nbrs);
            assert(view.client@[0].connected_drone_ids@ == nbrs);
            assert(distinct_ids(nbrs));
            assert forall|j: int|
                0 <= j < view.drone@.len() implies distinct_ids(
                #[trigger] view.drone@[j].connected_node_ids@,
            ) by {
                assert(view.drone@[j].id == nbrs[j]);
                assert(view.drone@[j].connected_node_ids@ =~= seq![own]);
            }
            assert(connection_lists_distinct(view));
        }
        self.topology = Some(view);
    }

    /// Merges a flood response into the topology view. A response for a
    /// flood this node never started is a protocol violation and is dropped;
    /// a response for any flood but the newest is stale and ignored;
    /// otherwise every pair of adjacent trace entries is recorded as a
    /// bidirectional edge, idempotently.
    pub fn update_topology(&mut self, packet: Packet) -> (status: TopologyUpdate)
        requires
            old(self).inv(),
        ensures
            final(self).inv(),
            final(self).spec_id() == old(self).spec_id(),
            final(self).neighbor_ids() == old(self).neighbor_ids(),
            final(self).seen() == old(self).seen(),
            match packet.pack_type {
                PacketType::FloodResponse(fr) => {
                    &&& !old(self).seen().contains(fr.flood_id) ==> (status
                        == TopologyUpdate::UnknownFlood
                        && final(self).spec_topology() == old(self).spec_topology())
                    &&& (old(self).seen().contains(fr.flood_id) && old(self).seen().last()
                        != fr.flood_id) ==> (status == TopologyUpdate::Stale
                        && final(self).spec_topology() == old(self).spec_topology())
                    &&& (old(self).seen().contains(fr.flood_id) && old(self).seen().last()
                        == fr.flood_id) ==> (match old(self).spec_topology() {
                        None => status == TopologyUpdate::NoTopology && final(self).spec_topology()
                            is None,
                        Some(t0) => status == TopologyUpdate::Merged && (final(
                            self).spec_topology() matches Some(t1) && forall|x: NodeId, y: NodeId|
                            #[trigger] links(t1, x, y) <==> (links(t0, x, y) || trace_adjacent(
                                fr.path_trace@,
                                x,
                                y,
                            ))),
                    })
                },
                _ => status == TopologyUpdate::NotAResponse
                    && final(self).spec_topology() == old(self).spec_topology(),
            },
    {
        match packet.pack_type {
            PacketType::FloodResponse(fr) => {
                if !flood_ids_contains(&self.seen_flood_ids, fr.flood_id) {
                    return TopologyUpdate::UnknownFlood;
                }
                let newest = flood_ids_last(&self.seen_flood_ids);
                let is_current = match newest {
                    Some(v) => v == fr.flood_id,
                    None => false,
                };
                if !is_current {
                    return TopologyUpdate::Stale;
                }
                match &mut self.topology {
                    Some(t) => {
                        let ghost before = *t;
                        update_topology_with_response(t, &fr.path_trace);
                        proof {
                            lemma_topology_symmetric_after_merge(before, *t, fr.path_trace@);
                        }
                        TopologyUpdate::Merged
                    },
                    None => TopologyUpdate::NoTopology,
                }
            },
            _ => TopologyUpdate::NotAResponse,
        }
    }
}

impl crate::utils::NetworkUtils for ClientNode {
    closed spec fn spec_node_id(&self) -> NodeId {
        self.id
    }

    fn get_id(&self) -> (r: NodeId) {
        self.id
    }

    fn get_packet_senders(&self) -> &NeighborTable {
        &self.packet_send
    }

    fn get_random_generator(&mut self) -> &mut rand::rngs::StdRng {
        &mut self.random_generator
    }
}

} // verus!
