use crossbeam_channel::unbounded;
use dr_ones::cli::display_help;
use dr_ones::cli::HELP_TEXT;
use dr_ones::neighbors::NeighborTable;
use dr_ones::network_initializer::NetworkInitializer;
use dr_ones::types::Ack;
use dr_ones::types::Packet;
use dr_ones::types::PacketType;
use dr_ones::types::SourceRoutingHeader;

fn ack_packet(session_id: u64) -> Packet {
    Packet {
        pack_type: PacketType::Ack(Ack { fragment_index: 0 }),
        routing_header: SourceRoutingHeader { hops: vec![1, 2], hop_index: 1 },
        session_id,
    }
}

#[test]
fn help_text_lists_every_command() {
    let text = display_help();
    assert_eq!(text, HELP_TEXT);
    assert!(text.contains("help"));
    assert!(text.contains("crash <node_id>"));
    assert!(text.contains("spawn <comma_separated_connected_node_ids>"));
    assert!(text.contains("exit"));
}

#[test]
fn network_initializer_can_be_created() {
    let _initializer = NetworkInitializer::new();
}

#[test]
fn neighbor_table_tracks_membership() {
    let (s1, _r1) = unbounded::<Packet>();
    let (s2, _r2) = unbounded::<Packet>();
    let mut t = NeighborTable::new();
    assert_eq!(t.len(), 0);
    assert!(!t.contains(1));
    t.insert(1, s1);
    t.insert(2, s2);
    assert_eq!(t.len(), 2);
    assert!(t.contains(1));
    assert!(t.contains(2));
    assert!(t.remove(1));
    assert!(!t.remove(1));
    assert!(!t.contains(1));
    assert!(t.contains(2));
    assert_eq!(t.len(), 1);
}

#[test]
fn neighbor_table_insert_replaces_the_endpoint() {
    let (s_old, r_old) = unbounded::<Packet>();
    let (s_new, r_new) = unbounded::<Packet>();
    let mut t = NeighborTable::new();
    t.insert(5, s_old);
    t.insert(5, s_new);
    assert_eq!(t.len(), 1, "the identifier is registered once");
    assert!(t.send_to(5, ack_packet(7)));
    assert!(r_old.try_recv().is_err(), "the replaced endpoint is gone");
    let arrived = r_new.try_recv().expect("the latest endpoint wins");
    assert_eq!(arrived.session_id, 7);
}

#[test]
fn neighbor_table_send_to_unknown_id_reports_failure() {
    let t = NeighborTable::new();
    assert!(!t.send_to(9, ack_packet(0)));
}
