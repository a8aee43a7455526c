use crossbeam_channel::unbounded;
use crossbeam_channel::Receiver;
use crossbeam_channel::Sender;
use dr_ones::controller::DroneCommand;
use dr_ones::controller::DroneEvent;
use dr_ones::drone::Dr_One;
use dr_ones::neighbors::NeighborTable;
use dr_ones::types::FloodRequest;
use dr_ones::types::Fragment;
use dr_ones::types::NackType;
use dr_ones::types::NodeType;
use dr_ones::types::Packet;
use dr_ones::types::PacketType;
use dr_ones::types::SourceRoutingHeader;
use dr_ones::types::FRAGMENT_DSIZE;

struct DroneHarness {
    drone: Dr_One,
    _command_send: Sender<DroneCommand>,
    _event_recv: Receiver<DroneEvent>,
    packet_send: Sender<Packet>,
}

fn make_drone(id: u8, neighbors: Vec<(u8, Sender<Packet>)>, pdr: u8) -> DroneHarness {
    let (event_send, event_recv) = unbounded::<DroneEvent>();
    let (command_send, command_recv) = unbounded::<DroneCommand>();
    let (packet_send, packet_recv) = unbounded::<Packet>();
    let mut table = NeighborTable::new();
    for (nid, sender) in neighbors {
        table.insert(nid, sender);
    }
    DroneHarness {
        drone: Dr_One::new(id, event_send, command_recv, packet_recv, table, pdr),
        _command_send: command_send,
        _event_recv: event_recv,
        packet_send,
    }
}

fn fragment_packet(hops: Vec<u8>, hop_index: usize, fragment_index: u64) -> Packet {
    Packet {
        pack_type: PacketType::MsgFragment(Fragment {
            fragment_index,
            total_n_fragments: 1,
            length: 0,
            data: [0; FRAGMENT_DSIZE],
        }),
        routing_header: SourceRoutingHeader { hops, hop_index },
        session_id: 0,
    }
}

fn flood_request_packet(flood_id: u64, initiator: u8, trace: Vec<(u8, NodeType)>) -> Packet {
    Packet {
        pack_type: PacketType::FloodRequest(FloodRequest {
            flood_id,
            initiator_id: initiator,
            path_trace: trace,
        }),
        routing_header: SourceRoutingHeader { hops: vec![initiator], hop_index: 0 },
        session_id: 0,
    }
}

fn expect_nack(packet: Packet) -> (u64, NackType, Vec<u8>, usize) {
    match packet.pack_type {
        PacketType::Nack(n) => (
            n.fragment_index,
            n.nack_type,
            packet.routing_header.hops,
            packet.routing_header.hop_index,
        ),
        _ => panic!("expected a negative acknowledgment"),
    }
}

#[test]
fn fragment_forward_advances_hop_index_by_one() {
    let (to_thirty, at_thirty) = unbounded::<Packet>();
    let mut h = make_drone(20, vec![(30, to_thirty)], 0);
    h.drone.handle_packet(fragment_packet(vec![10, 20, 30], 1, 4));
    let out = at_thirty.try_recv().expect("the fragment should be forwarded");
    assert_eq!(out.routing_header.hops, vec![10, 20, 30]);
    assert_eq!(out.routing_header.hop_index, 2);
    match out.pack_type {
        PacketType::MsgFragment(f) => assert_eq!(f.fragment_index, 4),
        _ => panic!("expected the same fragment"),
    }
}

#[test]
fn unknown_next_hop_answers_error_in_routing() {
    let (to_twenty, at_twenty) = unbounded::<Packet>();
    let mut h = make_drone(30, vec![(20, to_twenty)], 0);
    h.drone.handle_packet(fragment_packet(vec![10, 20, 30, 40], 2, 0));
    let (_, kind, hops, hop_index) = expect_nack(at_twenty.try_recv().expect("a reply is owed"));
    assert_eq!(kind, NackType::ErrorInRouting(40));
    assert_eq!(hops, vec![30, 20, 10]);
    assert_eq!(hop_index, 1);
}

#[test]
fn unexpected_recipient_answers_with_own_id() {
    let (to_twenty, at_twenty) = unbounded::<Packet>();
    let mut h = make_drone(30, vec![(20, to_twenty)], 0);
    h.drone.handle_packet(fragment_packet(vec![10, 20, 99, 40], 2, 0));
    let (_, kind, hops, hop_index) = expect_nack(at_twenty.try_recv().expect("a reply is owed"));
    assert_eq!(kind, NackType::UnexpectedRecipient(30));
    assert_eq!(hops, vec![99, 20, 10]);
    assert_eq!(hop_index, 1);
}

#[test]
fn route_ending_on_drone_answers_destination_is_drone() {
    let (to_twenty, at_twenty) = unbounded::<Packet>();
    let mut h = make_drone(30, vec![(20, to_twenty)], 0);
    h.drone.handle_packet(fragment_packet(vec![10, 20, 30], 2, 0));
    let (_, kind, hops, _) = expect_nack(at_twenty.try_recv().expect("a reply is owed"));
    assert_eq!(kind, NackType::DestinationIsDrone);
    assert_eq!(hops, vec![30, 20, 10]);
}

#[test]
fn full_drop_rate_drops_every_fragment() {
    let (to_one, at_one) = unbounded::<Packet>();
    let (to_twelve, at_twelve) = unbounded::<Packet>();
    let mut h = make_drone(11, vec![(1, to_one), (12, to_twelve)], 100);
    for i in 0..20 {
        h.drone.handle_packet(fragment_packet(vec![1, 11, 12, 21], 1, i));
        let (frag, kind, hops, _) = expect_nack(at_one.try_recv().expect("a drop is owed"));
        assert_eq!(frag, i);
        assert_eq!(kind, NackType::Dropped);
        assert_eq!(hops, vec![11, 1]);
    }
    assert!(at_twelve.try_recv().is_err(), "nothing may pass a full drop rate");
}

#[test]
fn zero_drop_rate_forwards_every_fragment() {
    let (to_one, at_one) = unbounded::<Packet>();
    let (to_twelve, at_twelve) = unbounded::<Packet>();
    let mut h = make_drone(11, vec![(1, to_one), (12, to_twelve)], 0);
    for i in 0..20 {
        h.drone.handle_packet(fragment_packet(vec![1, 11, 12, 21], 1, i));
    }
    for _ in 0..20 {
        let out = at_twelve.try_recv().expect("every fragment should pass");
        assert_eq!(out.routing_header.hop_index, 2);
    }
    assert!(at_one.try_recv().is_err(), "a zero drop rate never answers with a drop");
}

#[test]
fn drop_rate_updates_are_clamped() {
    let (to_forty, at_forty) = unbounded::<Packet>();
    let (to_ten, at_ten) = unbounded::<Packet>();
    let mut h = make_drone(30, vec![(40, to_forty), (10, to_ten)], 0);
    h.drone.handle_command(DroneCommand::SetPacketDropRate(255));
    h.drone.handle_packet(fragment_packet(vec![10, 30, 40], 1, 0));
    let (_, kind, _, _) = expect_nack(at_ten.try_recv().expect("a drop is owed"));
    assert_eq!(kind, NackType::Dropped);
    h.drone.handle_command(DroneCommand::SetPacketDropRate(0));
    h.drone.handle_packet(fragment_packet(vec![10, 30, 40], 1, 1));
    assert!(at_forty.try_recv().is_ok(), "rate zero must forward");
}

#[test]
fn add_and_remove_sender_change_the_neighbor_set() {
    let (to_ten, at_ten) = unbounded::<Packet>();
    let mut h = make_drone(30, vec![(10, to_ten)], 0);

    // 40 is no neighbor yet: routing there fails.
    h.drone.handle_packet(fragment_packet(vec![10, 30, 40], 1, 0));
    let (_, kind, _, _) = expect_nack(at_ten.try_recv().expect("a reply is owed"));
    assert_eq!(kind, NackType::ErrorInRouting(40));

    let (to_forty, at_forty) = unbounded::<Packet>();
    h.drone.handle_command(DroneCommand::AddSender(40, to_forty));
    h.drone.handle_packet(fragment_packet(vec![10, 30, 40], 1, 1));
    assert!(at_forty.try_recv().is_ok(), "the new neighbor should receive");

    h.drone.handle_command(DroneCommand::RemoveSender(40));
    // Removing an absent neighbor is ignored.
    h.drone.handle_command(DroneCommand::RemoveSender(77));
    h.drone.handle_packet(fragment_packet(vec![10, 30, 40], 1, 2));
    let (_, kind, _, _) = expect_nack(at_ten.try_recv().expect("a reply is owed"));
    assert_eq!(kind, NackType::ErrorInRouting(40));
    assert!(at_forty.try_recv().is_err());
}

#[test]
fn crash_drains_queued_packets_then_exits() {
    let (to_twenty, _at_twenty) = unbounded::<Packet>();
    let (to_forty, at_forty) = unbounded::<Packet>();
    let mut h = make_drone(30, vec![(20, to_twenty), (40, to_forty)], 0);
    assert!(!h.drone.has_exited());
    for i in 0..3 {
        h.packet_send
            .send(fragment_packet(vec![10, 20, 30, 40], 2, i))
            .expect("queueing must succeed");
    }
    h.drone.handle_command(DroneCommand::Crash);
    for i in 0..3 {
        let out = at_forty.try_recv().expect("queued fragments are processed before exit");
        assert_eq!(out.routing_header.hop_index, 3);
        match out.pack_type {
            PacketType::MsgFragment(f) => assert_eq!(f.fragment_index, i),
            _ => panic!("expected the queued fragment"),
        }
    }
    assert!(h.drone.has_exited());
}

#[test]
fn flood_request_is_broadcast_once_then_answered() {
    let (to_one, at_one) = unbounded::<Packet>();
    let (to_three, at_three) = unbounded::<Packet>();
    let mut h = make_drone(2, vec![(1, to_one), (3, to_three)], 0);

    // First copy: recorded and re-broadcast to everyone but the sender.
    h.drone.handle_packet(flood_request_packet(77, 1, vec![(1, NodeType::Client)]));
    let relayed = at_three.try_recv().expect("the request fans out");
    match relayed.pack_type {
        PacketType::FloodRequest(fr) => {
            assert_eq!(fr.flood_id, 77);
            assert_eq!(fr.path_trace, vec![(1, NodeType::Client), (2, NodeType::Drone)]);
        }
        _ => panic!("expected the flood request"),
    }
    assert!(at_one.try_recv().is_err(), "the sender must not get an echo");

    // Second copy of the same flood: answered, never broadcast again.
    h.drone.handle_packet(flood_request_packet(77, 1, vec![(1, NodeType::Client)]));
    let answer = at_one.try_recv().expect("a response is owed");
    match answer.pack_type {
        PacketType::FloodResponse(fr) => {
            assert_eq!(fr.flood_id, 77);
            assert_eq!(fr.path_trace, vec![(1, NodeType::Client), (2, NodeType::Drone)]);
        }
        _ => panic!("expected a flood response"),
    }
    assert_eq!(answer.routing_header.hops, vec![2, 1]);
    assert_eq!(answer.routing_header.hop_index, 1);
    assert!(at_three.try_recv().is_err(), "no second broadcast for a seen flood");
}

#[test]
fn single_neighbor_drone_answers_immediately() {
    let (to_four, at_four) = unbounded::<Packet>();
    let mut h = make_drone(5, vec![(4, to_four)], 0);
    h.drone.handle_packet(flood_request_packet(
        9,
        1,
        vec![(1, NodeType::Client), (4, NodeType::Drone)],
    ));
    let answer = at_four.try_recv().expect("a response is owed");
    match answer.pack_type {
        PacketType::FloodResponse(fr) => assert_eq!(fr.flood_id, 9),
        _ => panic!("expected a flood response"),
    }
    assert_eq!(answer.routing_header.hops, vec![5, 4, 1]);
}

#[test]
fn control_traffic_is_never_dropped_by_rate() {
    let (to_forty, at_forty) = unbounded::<Packet>();
    let (to_ten, at_ten) = unbounded::<Packet>();
    let mut h = make_drone(30, vec![(40, to_forty), (10, to_ten)], 100);
    let ack = Packet {
        pack_type: PacketType::Ack(dr_ones::types::Ack { fragment_index: 3 }),
        routing_header: SourceRoutingHeader { hops: vec![10, 30, 40], hop_index: 1 },
        session_id: 0,
    };
    h.drone.handle_packet(ack);
    let out = at_forty.try_recv().expect("control traffic passes a full drop rate");
    assert_eq!(out.routing_header.hop_index, 2);
    assert!(at_ten.try_recv().is_err());
}
