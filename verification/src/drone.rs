//! The drone runtime: the forwarding and flooding state machine of an
//! interior node, and the control-plane commands that mutate it.

use vstd::prelude::*;
use crate::channel::BiasedRecv;
use crate::channel::channel_drain;
use crate::channel::channel_recv_biased;
use crate::controller::DroneCommand;
use crate::controller::DroneEvent;
use crate::controller::clamp_drop_rate;
use crate::flood_ids::FloodIdSet;
use crate::flood_ids::flood_id_seq;
use crate::flood_ids::flood_ids_contains;
use crate::flood_ids::flood_ids_insert;
use crate::flood_ids::flood_ids_new;
use crate::neighbors::NeighborTable;
use crate::rng::new_rng;
use crate::rng::random_percent;
use crate::rng::random_u64;
use crate::routing::build_flood_response;
use crate::routing::build_nack;
use crate::routing::clone_packet;
use crate::routing::forward_packet;
use crate::routing::nack_reply;
use crate::types::NackType;
use crate::types::NodeId;
use crate::types::NodeType;
use crate::types::Packet;
use crate::types::PacketType;

verus! {

/// A drone answers a flood request (rather than re-broadcasting it) when it
/// has already handled that flood id, or when its only neighbor is the one
/// the request came from, so there is nowhere left to forward.
pub open spec fn drone_answers_flood(seen: Seq<u64>, n_neighbors: int, flood_id: u64) -> bool {
    seen.contains(flood_id) || n_neighbors == 1
}

/// The flood ids a drone has handled after one flood request: unchanged when
/// it answers, extended by the new id when it re-broadcasts.
pub open spec fn seen_after_flood(seen: Seq<u64>, n_neighbors: int, flood_id: u64) -> Seq<u64> {
    if drone_answers_flood(seen, n_neighbors, flood_id) {
        seen
    } else {
        seen.push(flood_id)
    }
}

/// Flood loop-freedom: a drone broadcasts a given flood id at most once.
/// Once it has handled a request it did not answer, the id is recorded, and
/// any later request with the same id is answered, whatever the neighbor set
/// has become in the meantime.
pub proof fn lemma_flood_broadcast_at_most_once(
    seen: Seq<u64>,
    n_first: int,
    n_later: int,
    flood_id: u64,
)
    ensures
        !drone_answers_flood(seen, n_first, flood_id) ==> drone_answers_flood(
            seen_after_flood(seen, n_first, flood_id),
            n_later,
            flood_id,
        ),
{
    if !drone_answers_flood(seen, n_first, flood_id) {
        assert(seen.push(flood_id)[seen.len() as int] == flood_id);
        assert(seen.push(flood_id).contains(flood_id));
    }
}

/// Drop-rate boundaries: with rate zero no sample drops a fragment, with the
/// full rate every sample does.
pub proof fn lemma_drop_rate_boundaries(pdr: u8, sample: u8)
    requires
        sample < 100,
    ensures
        pdr == 0 ==> !(sample < pdr),
        pdr == 100 ==> sample < pdr,
{
}

/// `q` is `p` forwarded one hop: same payload, route and correlation tag,
/// with the position advanced by exactly one.
pub open spec fn forwarded_one_hop(p: Packet, q: Packet) -> bool {
    &&& q.pack_type == p.pack_type
    &&& q.hops() == p.hops()
    &&& q.hop_index() == p.hop_index() + 1
    &&& q.session_id == p.session_id
}

/// An interior node of the network: it forwards routed packets, drops
/// fragments with its configured probability, answers routing errors with
/// negative acknowledgments, and takes part in flood discovery.
#[allow(non_camel_case_types)]
pub struct Dr_One {
    id: NodeId,
    sim_contr_send: crossbeam_channel::Sender<DroneEvent>,
    sim_contr_recv: crossbeam_channel::Receiver<DroneCommand>,
    packet_recv: crossbeam_channel::Receiver<Packet>,
    packet_send: NeighborTable,
    pdr: u8,
    seen_flood_ids: FloodIdSet,
    random_generator: rand::rngs::StdRng,
    should_exit: bool,
}

impl Dr_One {
    /// This drone's identifier.
    pub closed spec fn spec_id(&self) -> NodeId {
        self.id
    }

    /// The drop rate, in hundredths.
    pub closed spec fn spec_pdr(&self) -> u8 {
        self.pdr
    }

    /// The identifiers of the current neighbors, in insertion order.
    pub closed spec fn neighbor_ids(&self) -> Seq<NodeId> {
        self.packet_send.ids()
    }

    /// Whether `x` is a current neighbor.
    pub open spec fn has_neighbor(&self, x: NodeId) -> bool {
        self.neighbor_ids().contains(x)
    }

    /// The flood ids this drone has handled, in insertion order.
    pub closed spec fn seen(&self) -> Seq<u64> {
        flood_id_seq(self.seen_flood_ids)
    }

    /// Whether the drone has left (or is about to leave) its run loop.
    pub closed spec fn exiting(&self) -> bool {
        self.should_exit
    }

    /// Well-formedness: the drop rate is a probability in hundredths and the
    /// neighbor table holds each neighbor once.
    pub closed spec fn inv(&self) -> bool {
        self.pdr <= 100 && self.packet_send.wf()
    }

    /// Creates a drone. Drop rates above one hundred hundredths are clamped.
    pub fn new(
        id: NodeId,
        controller_send: crossbeam_channel::Sender<DroneEvent>,
        controller_recv: crossbeam_channel::Receiver<DroneCommand>,
        packet_recv: crossbeam_channel::Receiver<Packet>,
        packet_send: NeighborTable,
        pdr: u8,
    ) -> (r: Self)
        requires
            packet_send.wf(),
        ensures
            r.inv(),
            r.spec_id() == id,
            r.spec_pdr() == clamp_drop_rate(pdr),
            r.neighbor_ids() == packet_send.ids(),
            r.seen() == Seq::<u64>::empty(),
            !r.exiting(),
    {
        Dr_One {
            id,
            sim_contr_send: controller_send,
            sim_contr_recv: controller_recv,
            packet_recv,
            packet_send,
            pdr: if pdr > 100 {
                100
            } else {
                pdr
            },
            seen_flood_ids: flood_ids_new(),
            random_generator: new_rng(),
            should_exit: false,
        }
    }

    /// Whether the drone has been told to leave its run loop.
    pub fn has_exited(&self) -> (r: bool)
        ensures
            r == self.exiting(),
    {
        self.should_exit
    }

    /// One turn of the drone's event loop: waits for the next command or
    /// packet and handles it. When both channels hold a message the command
    /// is taken first, so control actions are never starved by a packet
    /// burst. Reports whether the loop should go on; the caller repeats the
    /// call until it reports false. The loop ends once a crash command has
    /// drained the drone — the control plane's only cancellation — and also,
    /// beyond that, when both inbound channels are closed, since nothing can
    /// ever arrive again; a drone that has exited does nothing.
    pub fn step(&mut self) -> (go_on: bool)
        requires
            old(self).inv(),
        ensures
            final(self).inv(),
            go_on == !final(self).exiting(),
            old(self).exiting() ==> *final(self) == *old(self),
    {
        if self.should_exit {
            return false;
        }
        let input = channel_recv_biased(&self.sim_contr_recv, &self.packet_recv);
        match input {
            BiasedRecv::First(command) => self.handle_command(command),
            BiasedRecv::Second(packet) => self.handle_packet(packet),
            BiasedRecv::Closed => {
                self.should_exit = true;
            },
        }
        !self.should_exit
    }

    /// Handles one received packet: flood requests fan out, everything else
    /// follows the source route. A flood request's id is recorded exactly
    /// when the drone re-broadcasts it; no other packet touches the set of
    /// handled flood ids.
    pub fn handle_packet(&mut self, packet: Packet)
        requires
            old(self).inv(),
        ensures
            final(self).inv(),
            final(self).spec_id() == old(self).spec_id(),
            final(self).spec_pdr() == old(self).spec_pdr(),
            final(self).neighbor_ids() == old(self).neighbor_ids(),
            final(self).exiting() == old(self).exiting(),
            match packet.pack_type {
                PacketType::FloodRequest(req) => final(self).seen() == seen_after_flood(
                    old(self).seen(),
                    old(self).neighbor_ids().len() as int,
                    req.flood_id,
                ),
                _ => final(self).seen() == old(self).seen(),
            },
            old(self).seen().is_prefix_of(final(self).seen()),
    {
        let is_flood_request = match &packet.pack_type {
            PacketType::FloodRequest(_) => true,
            _ => false,
        };
        if is_flood_request {
            self.handle_flood_request(packet);
            proof {
                let pre = old(self).seen();
                let post = self.seen();
                if post != pre {
                    assert(post.take(pre.len() as int) =~= pre);
                }
            }
        } else {
            self.handle_routed_packet(packet);
            assert(old(self).seen().take(old(self).seen().len() as int) =~= old(self).seen());
        }
    }

    /// Handles one control-plane command.
    pub fn handle_command(&mut self, command: DroneCommand)
        requires
            old(self).inv(),
        ensures
            final(self).inv(),
            final(self).spec_id() == old(self).spec_id(),
            match command {
                DroneCommand::AddSender(node_id, _) => {
                    &&& final(self).neighbor_ids() == if old(self).has_neighbor(node_id) {
                        old(self).neighbor_ids()
                    } else {
                        old(self).neighbor_ids().push(node_id)
                    }
                    &&& final(self).spec_pdr() == old(self).spec_pdr()
                    &&& final(self).seen() == old(self).seen()
                    &&& final(self).exiting() == old(self).exiting()
                },
                DroneCommand::RemoveSender(node_id) => {
                    &&& forall|x: NodeId|
                        final(self).has_neighbor(x) == (old(self).has_neighbor(x) && x != node_id)
                    &&& final(self).spec_pdr() == old(self).spec_pdr()
                    &&& final(self).seen() == old(self).seen()
                    &&& final(self).exiting() == old(self).exiting()
                },
                DroneCommand::SetPacketDropRate(rate) => {
                    &&& final(self).spec_pdr() == clamp_drop_rate(rate)
                    &&& final(self).neighbor_ids() == old(self).neighbor_ids()
                    &&& final(self).seen() == old(self).seen()
                    &&& final(self).exiting() == old(self).exiting()
                },
                DroneCommand::Crash => {
                    &&& final(self).exiting()
                    &&& final(self).spec_pdr() == old(self).spec_pdr()
                    &&& final(self).neighbor_ids() == old(self).neighbor_ids()
                    &&& old(self).seen().is_prefix_of(final(self).seen())
                },
            },
    {
        match command {
            DroneCommand::AddSender(node_id, sender) => self.add_channel(node_id, sender),
            DroneCommand::SetPacketDropRate(rate) => self.set_pdr(rate),
            DroneCommand::Crash => self.crash(),
            DroneCommand::RemoveSender(node_id) => self.remove_channel(node_id),
        }
    }

    /// Registers a neighbor's packet channel; an existing entry is replaced.
    fn add_channel(&mut self, id: NodeId, sender: crossbeam_channel::Sender<Packet>)
        requires
            old(self).inv(),
        ensures
            final(self).inv(),
            final(self).spec_id() == old(self).spec_id(),
            final(self).spec_pdr() == old(self).spec_pdr(),
            final(self).seen() == old(self).seen(),
            final(self).exiting() == old(self).exiting(),
            final(self).neighbor_ids() == if old(self).has_neighbor(id) {
                old(self).neighbor_ids()
            } else {
                old(self).neighbor_ids().push(id)
            },
    {
        self.packet_send.insert(id, sender);
    }

    /// Unregisters a neighbor. An absent identifier is a non-fatal error and
    /// is ignored.
    fn remove_channel(&mut self, id: NodeId)
        requires
            old(self).inv(),
        ensures
            final(self).inv(),
            final(self).spec_id() == old(self).spec_id(),
            final(self).spec_pdr() == old(self).spec_pdr(),
            final(self).seen() == old(self).seen(),
            final(self).exiting() == old(self).exiting(),
            forall|x: NodeId|
                final(self).has_neighbor(x) == (old(self).has_neighbor(x) && x != id),
    {
        let _ = self.packet_send.remove(id);
        assert forall|x: NodeId|
            self.has_neighbor(x) == (old(self).has_neighbor(x) && x != id) by {
            assert(self.packet_send.has(x) == (old(self).packet_send.has(x) && x != id));
        }
    }

    /// Updates the drop rate, clamping values above one hundred hundredths.
    fn set_pdr(&mut self, new_pdr: u8)
        requires
            old(self).inv(),
        ensures
            final(self).inv(),
            final(self).spec_id() == old(self).spec_id(),
            final(self).spec_pdr() == clamp_drop_rate(new_pdr),
            final(self).neighbor_ids() == old(self).neighbor_ids(),
            final(self).seen() == old(self).seen(),
            final(self).exiting() == old(self).exiting(),
    {
        self.pdr = if new_pdr > 100 {
            100
        } else {
            new_pdr
        };
    }

    /// Enters the drain state: processes every packet already queued on the
    /// inbound channel under the normal rules, then leaves the run loop.
    fn crash(&mut self)
        requires
            old(self).inv(),
        ensures
            final(self).inv(),
            final(self).spec_id() == old(self).spec_id(),
            final(self).spec_pdr() == old(self).spec_pdr(),
            final(self).neighbor_ids() == old(self).neighbor_ids(),
            old(self).seen().is_prefix_of(final(self).seen()),
            final(self).exiting(),
    {
        let mut queued = channel_drain(&self.packet_recv);
        while queued.len() > 0
            invariant
                self.inv(),
                self.spec_id() == old(self).spec_id(),
                self.spec_pdr() == old(self).spec_pdr(),
                self.neighbor_ids() == old(self).neighbor_ids(),
                old(self).seen().is_prefix_of(self.seen()),
            decreases queued.len(),
        {
            let packet = queued.remove(0);
            let ghost mid = self.seen();
            self.handle_packet(packet);
            proof {
                lemma_prefix_transitive(old(self).seen(), mid, self.seen());
            }
        }
        self.should_exit = true;
    }

    /// Whether this drone is the intended current holder of `packet`: its
    /// route must name this drone at the current position.
    pub fn verify_routing(&self, packet: &Packet) -> (ok: bool)
        ensures
            ok == (packet.hop_index() < packet.hops().len() && packet.hops()[packet.hop_index()]
                == self.spec_id()),
    {
        let hi = packet.routing_header.hop_index;
        hi < packet.routing_header.hops.len() && packet.routing_header.hops[hi] == self.id
    }

    /// Whether a fragment is dropped for the drawn `sample`: exactly when the
    /// sample falls below the drop rate, so rate zero never drops and the
    /// full rate always does.
    pub fn should_drop_packet(&self, sample: u8) -> (drop: bool)
        ensures
            drop == (sample < self.spec_pdr()),
    {
        sample < self.pdr
    }

    /// Whether a flood request with `flood_id` is answered rather than
    /// re-broadcast: when the id was already handled, or when this drone's
    /// single neighbor is the one the request came from.
    pub fn should_respond_to_flood(&self, flood_id: u64) -> (respond: bool)
        ensures
            respond == drone_answers_flood(
                self.seen(),
                self.neighbor_ids().len() as int,
                flood_id,
            ),
    {
        flood_ids_contains(&self.seen_flood_ids, flood_id) || self.packet_send.len() == 1
    }

    /// Decides what one routed (non-flood-request) packet becomes, given the
    /// drawn `sample`. On every successful forward the position advances by
    /// exactly one and the route is not changed; every rejection yields the
    /// negative acknowledgment named for the failure, routed back along the
    /// reversed prefix of the route ending at this drone's position; a
    /// packet whose position lies outside its route is dropped.
    pub fn route_packet(&self, packet: Packet, sample: u8) -> (r: Option<Packet>)
        requires
            !(packet.pack_type is FloodRequest),
        ensures
            ({
                let hops = packet.hops();
                let k = packet.hop_index();
                let in_bounds = k < hops.len();
                let mine = in_bounds && hops[k] == self.spec_id();
                let at_end = mine && k + 1 == hops.len();
                let next_known = mine && k + 1 < hops.len() && self.has_neighbor(hops[k + 1]);
                let next_unknown = mine && k + 1 < hops.len() && !self.has_neighbor(hops[k + 1]);
                let is_fragment = packet.pack_type is MsgFragment;
                let dropped = is_fragment && sample < self.spec_pdr();
                &&& !in_bounds ==> r is None
                &&& (in_bounds && !mine) ==> (r matches Some(q) && nack_reply(
                    packet,
                    k,
                    NackType::UnexpectedRecipient(self.spec_id()),
                    q,
                ))
                &&& at_end ==> (r matches Some(q) && nack_reply(
                    packet,
                    k,
                    NackType::DestinationIsDrone,
                    q,
                ))
                &&& next_unknown ==> (r matches Some(q) && nack_reply(
                    packet,
                    k,
                    NackType::ErrorInRouting(hops[k + 1]),
                    q,
                ))
                &&& (next_known && dropped) ==> (r matches Some(q) && nack_reply(
                    packet,
                    k,
                    NackType::Dropped,
                    q,
                ))
                &&& (next_known && !dropped) ==> (r matches Some(q) && forwarded_one_hop(packet, q))
            }),
    {
        let hops_len = packet.routing_header.hops.len();
        let k = packet.routing_header.hop_index;
        if !self.verify_routing(&packet) {
            if k >= hops_len {
                // A malformed packet: its position lies outside its route.
                return None;
            }
            return Some(build_nack(&packet, k, NackType::UnexpectedRecipient(self.id)));
        }
        if k + 1 == hops_len {
            return Some(build_nack(&packet, k, NackType::DestinationIsDrone));
        }
        let next = packet.routing_header.hops[k + 1];
        if !self.packet_send.contains(next) {
            return Some(build_nack(&packet, k, NackType::ErrorInRouting(next)));
        }
        let is_fragment = match &packet.pack_type {
            PacketType::MsgFragment(_) => true,
            _ => false,
        };
        if is_fragment && self.should_drop_packet(sample) {
            return Some(build_nack(&packet, k, NackType::Dropped));
        }
        let mut out = packet;
        out.routing_header.hop_index = k + 1;
        Some(out)
    }

    /// Handles a routed packet: draws a drop sample, decides, and sends the
    /// outcome to the node its route names next (for a reply, the previous
    /// hop). Only the generator's state changes.
    pub fn handle_routed_packet(&mut self, packet: Packet)
        requires
            old(self).inv(),
            !(packet.pack_type is FloodRequest),
        ensures
            final(self).inv(),
            final(self).spec_id() == old(self).spec_id(),
            final(self).spec_pdr() == old(self).spec_pdr(),
            final(self).neighbor_ids() == old(self).neighbor_ids(),
            final(self).seen() == old(self).seen(),
            final(self).exiting() == old(self).exiting(),
    {
        let sample = random_percent(&mut self.random_generator);
        let outcome = self.route_packet(packet, sample);
        match outcome {
            Some(out) => {
                let _ = forward_packet(&self.packet_send, out);
            },
            None => {},
        }
    }

    /// Handles a flood request: appends itself to the path trace, answers
    /// with a flood response when it has seen the flood id before or has
    /// nowhere to forward, and otherwise records the id and re-broadcasts
    /// the request to every neighbor but the sender.
    pub fn handle_flood_request(&mut self, packet: Packet)
        requires
            old(self).inv(),
        ensures
            final(self).inv(),
            final(self).spec_id() == old(self).spec_id(),
            final(self).spec_pdr() == old(self).spec_pdr(),
            final(self).neighbor_ids() == old(self).neighbor_ids(),
            final(self).exiting() == old(self).exiting(),
            match packet.pack_type {
                PacketType::FloodRequest(req) => final(self).seen() == seen_after_flood(
                    old(self).seen(),
                    old(self).neighbor_ids().len() as int,
                    req.flood_id,
                ),
                _ => final(self).seen() == old(self).seen(),
            },
    {
        let Packet { pack_type, routing_header, session_id } = packet;
        match pack_type {
            PacketType::FloodRequest(mut req) => {
                let trace_len = req.path_trace.len();
                let sender_id: NodeId = if trace_len > 0 {
                    req.path_trace[trace_len - 1].0
                } else {
                    req.initiator_id
                };
                req.path_trace.push((self.id, NodeType::Drone));
                if self.should_respond_to_flood(req.flood_id) {
                    let response_session = random_u64(&mut self.random_generator);
                    let response = build_flood_response(
                        req.flood_id,
                        req.path_trace,
                        response_session,
                    );
                    let _ = forward_packet(&self.packet_send, response);
                } else {
                    let _ = flood_ids_insert(&mut self.seen_flood_ids, req.flood_id);
                    let updated = Packet {
                        pack_type: PacketType::FloodRequest(req),
                        routing_header,
                        session_id,
                    };
                    self.broadcast_packet(&updated, sender_id);
                }
            },
            _ => {},
        }
    }

    /// Sends a copy of `packet` to every neighbor except `exclude_id`.
    pub fn broadcast_packet(&self, packet: &Packet, exclude_id: NodeId) {
        let n = self.packet_send.len();
        let mut i: usize = 0;
        while i < n
            invariant
                i <= n,
                n == self.neighbor_ids().len(),
            decreases n - i,
        {
            if self.packet_send.id_at(i) != exclude_id {
                let copy = clone_packet(packet);
                let _ = self.packet_send.send_at(i, copy);
            }
            i = i + 1;
        }
    }
}

impl crate::utils::NetworkUtils for Dr_One {
    closed spec fn spec_node_id(&self) -> NodeId {
        self.id
    }

    fn get_id(&self) -> (r: NodeId) {
        self.id
    }

    fn get_packet_senders(&self) -> &NeighborTable {
        &self.packet_send
    }

    fn get_random_generator(&mut self) -> &mut rand::rngs::StdRng {
        &mut self.random_generator
    }
}

/// Prefix growth is transitive.
proof fn lemma_prefix_transitive(a: Seq<u64>, b: Seq<u64>, c: Seq<u64>)
    requires
        a.is_prefix_of(b),
        b.is_prefix_of(c),
    ensures
        a.is_prefix_of(c),
{
    assert(c.take(a.len() as int) =~= b.take(a.len() as int));
}

} // verus!
