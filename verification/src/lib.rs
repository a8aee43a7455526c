//! A simulated packet-switched overlay network of drones, clients and
//! servers: source-routed fragment forwarding with probabilistic drop,
//! negative acknowledgments on the reversed route prefix, loop-free flood
//! discovery of the topology, and a control plane that mutates running
//! drones.

pub mod channel;
pub mod cli;
pub mod client;
pub mod config;
pub mod controller;
pub mod drone;
pub mod flood_ids;
pub mod neighbors;
pub mod network_initializer;
pub mod rng;
pub mod routing;
pub mod server;
pub mod topology;
pub mod types;
pub mod utils;
