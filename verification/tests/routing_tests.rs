use crossbeam_channel::unbounded;
use dr_ones::neighbors::NeighborTable;
use dr_ones::routing::build_ack;
use dr_ones::routing::build_flood_response;
use dr_ones::routing::build_nack;
use dr_ones::routing::clone_packet;
use dr_ones::routing::forward_packet;
use dr_ones::types::Ack;
use dr_ones::types::Fragment;
use dr_ones::types::NackType;
use dr_ones::types::NodeType;
use dr_ones::types::Packet;
use dr_ones::types::PacketType;
use dr_ones::types::SourceRoutingHeader;
use dr_ones::types::FRAGMENT_DSIZE;

fn fragment_packet(hops: Vec<u8>, hop_index: usize, fragment_index: u64, session_id: u64) -> Packet {
    Packet {
        pack_type: PacketType::MsgFragment(Fragment {
            fragment_index,
            total_n_fragments: 1,
            length: 0,
            data: [0; FRAGMENT_DSIZE],
        }),
        routing_header: SourceRoutingHeader { hops, hop_index },
        session_id,
    }
}

#[test]
fn build_nack_reverses_inclusive_prefix() {
    let packet = fragment_packet(vec![10, 20, 30, 40], 2, 7, 99);
    let nack = build_nack(&packet, 2, NackType::Dropped);
    match nack.pack_type {
        PacketType::Nack(n) => {
            assert_eq!(n.fragment_index, 7);
            assert_eq!(n.nack_type, NackType::Dropped);
        }
        _ => panic!("expected a negative acknowledgment"),
    }
    assert_eq!(nack.routing_header.hops, vec![30, 20, 10]);
    assert_eq!(nack.routing_header.hop_index, 1);
    assert_eq!(nack.session_id, 99);
}

#[test]
fn build_nack_on_control_packet_reports_fragment_zero() {
    let packet = Packet {
        pack_type: PacketType::Ack(Ack { fragment_index: 5 }),
        routing_header: SourceRoutingHeader { hops: vec![1, 2, 3], hop_index: 1 },
        session_id: 4,
    };
    let nack = build_nack(&packet, 1, NackType::ErrorInRouting(3));
    match nack.pack_type {
        PacketType::Nack(n) => {
            assert_eq!(n.fragment_index, 0);
            assert_eq!(n.nack_type, NackType::ErrorInRouting(3));
        }
        _ => panic!("expected a negative acknowledgment"),
    }
    assert_eq!(nack.routing_header.hops, vec![2, 1]);
}

#[test]
fn build_ack_reverses_full_route() {
    let packet = fragment_packet(vec![10, 20, 30, 40], 3, 12, 5);
    let ack = build_ack(&packet);
    match ack.pack_type {
        PacketType::Ack(a) => assert_eq!(a.fragment_index, 12),
        _ => panic!("expected an acknowledgment"),
    }
    assert_eq!(ack.routing_header.hops, vec![40, 30, 20, 10]);
    assert_eq!(ack.routing_header.hop_index, 1);
    assert_eq!(ack.session_id, 5);
}

#[test]
fn build_flood_response_reverses_trace() {
    let trace = vec![
        (1u8, NodeType::Client),
        (2u8, NodeType::Drone),
        (7u8, NodeType::Server),
    ];
    let response = build_flood_response(42, trace, 1000);
    match response.pack_type {
        PacketType::FloodResponse(fr) => {
            assert_eq!(fr.flood_id, 42);
            assert_eq!(fr.path_trace.len(), 3);
            assert_eq!(fr.path_trace[0], (1, NodeType::Client));
            assert_eq!(fr.path_trace[2], (7, NodeType::Server));
        }
        _ => panic!("expected a flood response"),
    }
    assert_eq!(response.routing_header.hops, vec![7, 2, 1]);
    assert_eq!(response.routing_header.hop_index, 1);
    assert_eq!(response.session_id, 1000);
}

#[test]
fn forward_packet_sends_to_named_hop() {
    let (to_twenty, at_twenty) = unbounded::<Packet>();
    let mut table = NeighborTable::new();
    table.insert(20, to_twenty);

    let packet = fragment_packet(vec![10, 20], 1, 0, 0);
    assert!(forward_packet(&table, packet));
    let arrived = at_twenty.try_recv().expect("the packet should arrive");
    assert_eq!(arrived.routing_header.hops, vec![10, 20]);

    let stray = fragment_packet(vec![10, 99], 1, 0, 0);
    assert!(!forward_packet(&table, stray));
    assert!(at_twenty.try_recv().is_err());

    let malformed = fragment_packet(vec![10, 20], 2, 0, 0);
    assert!(!forward_packet(&table, malformed));
    assert!(at_twenty.try_recv().is_err());
}

#[test]
fn clone_packet_copies_route_and_payload() {
    let packet = fragment_packet(vec![3, 4, 5], 1, 9, 77);
    let copy = clone_packet(&packet);
    assert_eq!(copy.routing_header.hops, vec![3, 4, 5]);
    assert_eq!(copy.routing_header.hop_index, 1);
    assert_eq!(copy.session_id, 77);
    match copy.pack_type {
        PacketType::MsgFragment(f) => assert_eq!(f.fragment_index, 9),
        _ => panic!("expected a fragment"),
    }
}
