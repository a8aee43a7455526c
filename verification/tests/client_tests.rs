use crossbeam_channel::unbounded;
use crossbeam_channel::Receiver;
use crossbeam_channel::Sender;
use dr_ones::client::ClientCommand;
use dr_ones::client::ClientNode;
use dr_ones::client::TopologyUpdate;
use dr_ones::config::Config;
use dr_ones::controller::DroneEvent;
use dr_ones::drone::Dr_One;
use dr_ones::neighbors::NeighborTable;
use dr_ones::server::ServerNode;
use dr_ones::types::FloodRequest;
use dr_ones::types::FloodResponse;
use dr_ones::types::Fragment;
use dr_ones::types::NodeType;
use dr_ones::types::Packet;
use dr_ones::types::PacketType;
use dr_ones::types::SourceRoutingHeader;
use dr_ones::types::FRAGMENT_DSIZE;

fn table(neighbors: Vec<(u8, Sender<Packet>)>) -> NeighborTable {
    let mut t = NeighborTable::new();
    for (nid, sender) in neighbors {
        t.insert(nid, sender);
    }
    t
}

fn make_client(id: u8, neighbors: Vec<(u8, Sender<Packet>)>) -> (ClientNode, Sender<Packet>, Receiver<Packet>) {
    let (event_send, event_recv) = unbounded::<DroneEvent>();
    let (_command_send, command_recv) = unbounded::<ClientCommand>();
    let (packet_send, packet_recv) = unbounded::<Packet>();
    std::mem::forget(event_recv);
    std::mem::forget(_command_send);
    let client = ClientNode::new(id, event_send, command_recv, packet_recv.clone(), table(neighbors));
    (client, packet_send, packet_recv)
}

fn fragment_packet(hops: Vec<u8>, hop_index: usize, fragment_index: u64) -> Packet {
    Packet {
        pack_type: PacketType::MsgFragment(Fragment {
            fragment_index,
            total_n_fragments: 1,
            length: 0,
            data: [0; FRAGMENT_DSIZE],
        }),
        routing_header: SourceRoutingHeader { hops, hop_index },
        session_id: 0,
    }
}

/// The neighbors recorded for `id` in the view, sorted.
fn neighbors_of(config: &Config, id: u8) -> Vec<u8> {
    let mut out: Vec<u8> = Vec::new();
    for d in &config.drone {
        if d.id == id {
            out.extend_from_slice(&d.connected_node_ids);
        }
    }
    for c in &config.client {
        if c.id == id {
            out.extend_from_slice(&c.connected_drone_ids);
        }
    }
    for s in &config.server {
        if s.id == id {
            out.extend_from_slice(&s.connected_drone_ids);
        }
    }
    out.sort();
    out
}

#[test]
fn ack_round_trip_over_two_drones() {
    // The chain 10 - 20 - 30 - 40: channels first, then the nodes.
    let (to_10, client_recv) = unbounded::<Packet>();
    let (to_20, d20_recv) = unbounded::<Packet>();
    let (to_30, d30_recv) = unbounded::<Packet>();
    let (to_40, s40_recv) = unbounded::<Packet>();

    let (event_send, event_recv) = unbounded::<DroneEvent>();
    std::mem::forget(event_recv);
    let (command_send, command_recv) = unbounded::<ClientCommand>();
    std::mem::forget(command_send);
    let (d20_cmd, d20_cmd_recv) = unbounded::<dr_ones::controller::DroneCommand>();
    std::mem::forget(d20_cmd);
    let (d30_cmd, d30_cmd_recv) = unbounded::<dr_ones::controller::DroneCommand>();
    std::mem::forget(d30_cmd);

    let mut client = ClientNode::new(
        10,
        event_send.clone(),
        command_recv,
        client_recv.clone(),
        table(vec![(20, to_20.clone())]),
    );
    let mut d20 = Dr_One::new(
        20,
        event_send.clone(),
        d20_cmd_recv,
        d20_recv.clone(),
        table(vec![(10, to_10.clone()), (30, to_30.clone())]),
        0,
    );
    let mut d30 = Dr_One::new(
        30,
        event_send.clone(),
        d30_cmd_recv,
        d30_recv.clone(),
        table(vec![(20, to_20.clone()), (40, to_40.clone())]),
        0,
    );
    let mut s40 = ServerNode::new(
        40,
        event_send.clone(),
        s40_recv.clone(),
        table(vec![(30, to_30.clone())]),
    );

    // The client emits a fragment along 10 -> 20 -> 30 -> 40.
    d20.handle_packet(fragment_packet(vec![10, 20, 30, 40], 1, 6));
    let at_30 = d30_recv.try_recv().expect("the fragment reaches the second drone");
    assert_eq!(at_30.routing_header.hop_index, 2);
    d30.handle_packet(at_30);
    let at_40 = s40_recv.try_recv().expect("the fragment reaches the server");
    assert_eq!(at_40.routing_header.hop_index, 3);
    s40.handle_packet(at_40);

    // The server answers with an acknowledgment on the reversed route.
    let ack_at_30 = d30_recv.try_recv().expect("the acknowledgment is owed");
    assert_eq!(ack_at_30.routing_header.hops, vec![40, 30, 20, 10]);
    assert_eq!(ack_at_30.routing_header.hop_index, 1);
    match &ack_at_30.pack_type {
        PacketType::Ack(a) => assert_eq!(a.fragment_index, 6),
        _ => panic!("expected an acknowledgment"),
    }
    d30.handle_packet(ack_at_30);
    let ack_at_20 = d20_recv.try_recv().expect("the acknowledgment travels back");
    assert_eq!(ack_at_20.routing_header.hop_index, 2);
    d20.handle_packet(ack_at_20);
    let ack_at_client = client_recv.try_recv().expect("the acknowledgment arrives");
    assert_eq!(ack_at_client.routing_header.hops, vec![40, 30, 20, 10]);
    assert_eq!(ack_at_client.routing_header.hop_index, 3);
    client.handle_packet(ack_at_client);
}

#[test]
fn client_acknowledges_received_fragment() {
    let (to_twenty, at_twenty) = unbounded::<Packet>();
    let (client, _send, _recv) = make_client(10, vec![(20, to_twenty)]);
    client.handle_fragment(fragment_packet(vec![40, 30, 20, 10], 3, 2));
    let ack = at_twenty.try_recv().expect("an acknowledgment is owed");
    assert_eq!(ack.routing_header.hops, vec![10, 20, 30, 40]);
    assert_eq!(ack.routing_header.hop_index, 1);
    match ack.pack_type {
        PacketType::Ack(a) => assert_eq!(a.fragment_index, 2),
        _ => panic!("expected an acknowledgment"),
    }
}

#[test]
fn client_answers_flood_request_without_rebroadcast() {
    let (to_two, at_two) = unbounded::<Packet>();
    let (mut client, _send, _recv) = make_client(10, vec![(2, to_two)]);
    client.handle_packet(Packet {
        pack_type: PacketType::FloodRequest(FloodRequest {
            flood_id: 5,
            initiator_id: 7,
            path_trace: vec![(7, NodeType::Server), (2, NodeType::Drone)],
        }),
        routing_header: SourceRoutingHeader { hops: vec![7], hop_index: 0 },
        session_id: 0,
    });
    let answer = at_two.try_recv().expect("an edge node always answers");
    match answer.pack_type {
        PacketType::FloodResponse(fr) => {
            assert_eq!(fr.flood_id, 5);
            assert_eq!(
                fr.path_trace,
                vec![(7, NodeType::Server), (2, NodeType::Drone), (10, NodeType::Client)],
            );
        }
        _ => panic!("expected a flood response"),
    }
    assert_eq!(answer.routing_header.hops, vec![10, 2, 7]);
    assert!(at_two.try_recv().is_err(), "edge nodes never re-broadcast");
}

#[test]
fn flood_response_for_unknown_flood_is_dropped() {
    let (mut client, _send, _recv) = make_client(10, Vec::new());
    let status = client.update_topology(Packet {
        pack_type: PacketType::FloodResponse(FloodResponse { flood_id: 9, path_trace: Vec::new() }),
        routing_header: SourceRoutingHeader { hops: Vec::new(), hop_index: 0 },
        session_id: 0,
    });
    assert_eq!(status, TopologyUpdate::UnknownFlood);
    assert!(client.topology().is_none());
}

#[test]
fn flood_response_for_old_flood_is_stale() {
    let (mut client, _send, _recv) = make_client(10, Vec::new());
    let first = client.start();
    let second = client.send_flood_request();
    assert_ne!(first, second, "two issued floods should differ");
    let status = client.update_topology(Packet {
        pack_type: PacketType::FloodResponse(FloodResponse {
            flood_id: first,
            path_trace: Vec::new(),
        }),
        routing_header: SourceRoutingHeader { hops: Vec::new(), hop_index: 0 },
        session_id: 0,
    });
    assert_eq!(status, TopologyUpdate::Stale);
}

#[test]
fn flood_on_a_diamond_assembles_the_whole_topology() {
    // Client 1, drones 2..=6, server 7,
    // edges {1-2, 1-4, 2-3, 2-6, 3-7, 4-5, 4-6, 5-7}.
    let (s1, r1) = unbounded::<Packet>();
    let (s2, r2) = unbounded::<Packet>();
    let (s3, r3) = unbounded::<Packet>();
    let (s4, r4) = unbounded::<Packet>();
    let (s5, r5) = unbounded::<Packet>();
    let (s6, r6) = unbounded::<Packet>();
    let (s7, r7) = unbounded::<Packet>();

    let (event_send, event_recv) = unbounded::<DroneEvent>();
    std::mem::forget(event_recv);
    let (command_send, command_recv) = unbounded::<ClientCommand>();
    std::mem::forget(command_send);

    let mut client = ClientNode::new(
        1,
        event_send.clone(),
        command_recv,
        r1.clone(),
        table(vec![(2, s2.clone()), (4, s4.clone())]),
    );
    let mut drones: Vec<Dr_One> = Vec::new();
    let drone_wiring: Vec<(u8, Vec<(u8, Sender<Packet>)>, Receiver<Packet>)> = vec![
        (2, vec![(1, s1.clone()), (3, s3.clone()), (6, s6.clone())], r2.clone()),
        (3, vec![(2, s2.clone()), (7, s7.clone())], r3.clone()),
        (4, vec![(1, s1.clone()), (5, s5.clone()), (6, s6.clone())], r4.clone()),
        (5, vec![(4, s4.clone()), (7, s7.clone())], r5.clone()),
        (6, vec![(2, s2.clone()), (4, s4.clone())], r6.clone()),
    ];
    for (id, wiring, recv) in drone_wiring {
        let (cmd_send, cmd_recv) = unbounded::<dr_ones::controller::DroneCommand>();
        std::mem::forget(cmd_send);
        drones.push(Dr_One::new(id, event_send.clone(), cmd_recv, recv, table(wiring), 0));
    }
    let mut server = ServerNode::new(
        7,
        event_send.clone(),
        r7.clone(),
        table(vec![(3, s3.clone()), (5, s5.clone())]),
    );

    client.start();

    let receivers = [r2, r3, r4, r5, r6];
    let mut rounds: u32 = 0;
    loop {
        let mut progress = false;
        rounds += 1;
        assert!(rounds < 1000, "the flood must settle");
        for (k, recv) in receivers.iter().enumerate() {
            while let Ok(p) = recv.try_recv() {
                drones[k].handle_packet(p);
                progress = true;
            }
        }
        while let Ok(p) = r7.try_recv() {
            server.handle_packet(p);
            progress = true;
        }
        while let Ok(p) = r1.try_recv() {
            progress = true;
            match &p.pack_type {
                PacketType::FloodResponse(_) => {
                    let status = client.update_topology(p);
                    assert_eq!(status, TopologyUpdate::Merged, "no stale or unknown responses");
                }
                _ => client.handle_packet(p),
            }
        }
        if !progress {
            break;
        }
    }

    let view = client.topology().as_ref().expect("the view is seeded").clone();
    assert_eq!(neighbors_of(&view, 1), vec![2, 4]);
    assert_eq!(neighbors_of(&view, 2), vec![1, 3, 6]);
    assert_eq!(neighbors_of(&view, 3), vec![2, 7]);
    assert_eq!(neighbors_of(&view, 4), vec![1, 5, 6]);
    assert_eq!(neighbors_of(&view, 5), vec![4, 7]);
    assert_eq!(neighbors_of(&view, 6), vec![2, 4]);
    assert_eq!(neighbors_of(&view, 7), vec![3, 5]);

    // The kinds are recorded as the trace names them.
    assert!(view.client.iter().any(|c| c.id == 1));
    for id in 2..=6u8 {
        assert!(view.drone.iter().any(|d| d.id == id));
    }
    assert!(view.server.iter().any(|s| s.id == 7));
}

#[test]
fn flood_response_before_seeding_is_dropped() {
    let (mut client, _send, _recv) = make_client(10, Vec::new());
    let flood_id = client.send_flood_request();
    let status = client.update_topology(Packet {
        pack_type: PacketType::FloodResponse(FloodResponse { flood_id, path_trace: Vec::new() }),
        routing_header: SourceRoutingHeader { hops: Vec::new(), hop_index: 0 },
        session_id: 0,
    });
    assert_eq!(status, TopologyUpdate::NoTopology);
    assert!(client.topology().is_none());
}

#[test]
fn non_response_packets_do_not_touch_the_topology() {
    let (mut client, _send, _recv) = make_client(10, Vec::new());
    let status = client.update_topology(fragment_packet(vec![20, 10], 1, 0));
    assert_eq!(status, TopologyUpdate::NotAResponse);
    assert!(client.topology().is_none());
}

#[test]
fn merging_the_same_response_twice_changes_nothing() {
    let (to_two, _at_two) = unbounded::<Packet>();
    let (mut client, _send, _recv) = make_client(1, vec![(2, to_two)]);
    let flood_id = client.start();
    let response = |session_id: u64| Packet {
        pack_type: PacketType::FloodResponse(FloodResponse {
            flood_id,
            path_trace: vec![
                (1, NodeType::Client),
                (2, NodeType::Drone),
                (3, NodeType::Drone),
            ],
        }),
        routing_header: SourceRoutingHeader { hops: vec![1, 2], hop_index: 1 },
        session_id,
    };

    assert_eq!(client.update_topology(response(1)), TopologyUpdate::Merged);
    let once = client.topology().as_ref().expect("the view is seeded").clone();

    assert_eq!(client.update_topology(response(2)), TopologyUpdate::Merged);
    let twice = client.topology().as_ref().expect("the view is seeded").clone();

    for id in 1..=3u8 {
        let first = neighbors_of(&once, id);
        let second = neighbors_of(&twice, id);
        assert_eq!(first, second, "a repeated merge adds nothing");
        for pair in first.windows(2) {
            assert_ne!(pair[0], pair[1], "connection lists stay duplicate-free");
        }
    }
    assert_eq!(neighbors_of(&twice, 1), vec![2]);
    assert_eq!(neighbors_of(&twice, 2), vec![1, 3]);
    assert_eq!(neighbors_of(&twice, 3), vec![2]);
}
