use dr_ones::config::Client;
use dr_ones::config::Config;
use dr_ones::config::ConfigError;
use dr_ones::config::Drone;
use dr_ones::config::Server;
use dr_ones::config::find_client_by_node_id;
use dr_ones::config::find_drone_by_node_id;
use dr_ones::config::find_server_by_node_id;
use dr_ones::config::validate_config;

fn diamond_config() -> Config {
    Config {
        drone: vec![
            Drone { id: 2, connected_node_ids: vec![1, 3, 6], pdr: 0 },
            Drone { id: 3, connected_node_ids: vec![2, 7], pdr: 5 },
            Drone { id: 4, connected_node_ids: vec![1, 5, 6], pdr: 0 },
            Drone { id: 5, connected_node_ids: vec![4, 7], pdr: 10 },
            Drone { id: 6, connected_node_ids: vec![2, 4], pdr: 0 },
        ],
        client: vec![Client { id: 1, connected_drone_ids: vec![2, 4] }],
        server: vec![Server { id: 7, connected_drone_ids: vec![3, 5] }],
    }
}

#[test]
fn test_find_nodes() {
    let config = Config {
        drone: vec![Drone {
            id: 1,
            connected_node_ids: vec![],
            pdr: 0,
        }],
        client: vec![Client {
            id: 2,
            connected_drone_ids: vec![],
        }],
        server: vec![Server {
            id: 3,
            connected_drone_ids: vec![],
        }],
    };

    assert!(find_drone_by_node_id(&1, &config).is_some());
    assert!(find_client_by_node_id(&2, &config).is_some());
    assert!(find_server_by_node_id(&3, &config).is_some());
    assert!(find_drone_by_node_id(&4, &config).is_none());
}

#[test]
fn validation_accepts_a_reciprocal_configuration() {
    assert!(validate_config(&diamond_config()).is_ok());
}

#[test]
fn validation_rejects_a_reference_to_a_missing_node() {
    let mut config = diamond_config();
    config.drone[0].connected_node_ids.push(9);
    assert_eq!(
        validate_config(&config),
        Err(ConfigError::UnknownNode { referrer: 2, missing: 9 }),
    );
}

#[test]
fn validation_rejects_a_one_sided_edge() {
    let mut config = diamond_config();
    config.drone[0].connected_node_ids.push(5);
    assert_eq!(
        validate_config(&config),
        Err(ConfigError::NotReciprocal { node: 2, peer: 5 }),
    );
}

#[test]
fn validation_rejects_a_duplicate_identifier() {
    let mut config = diamond_config();
    config.server.push(Server { id: 2, connected_drone_ids: vec![] });
    assert_eq!(validate_config(&config), Err(ConfigError::DuplicateId { id: 2 }));
}

#[test]
fn validation_rejects_a_client_linked_to_an_edge_node() {
    let config = Config {
        drone: vec![Drone { id: 2, connected_node_ids: vec![1], pdr: 0 }],
        client: vec![Client { id: 1, connected_drone_ids: vec![2, 7] }],
        server: vec![Server { id: 7, connected_drone_ids: vec![] }],
    };
    assert_eq!(
        validate_config(&config),
        Err(ConfigError::UnknownDrone { referrer: 1, missing: 7 }),
    );
}
