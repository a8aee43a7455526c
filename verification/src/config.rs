//! The network configuration: the records the topology file declares, and
//! the validation pass that admits a configuration only when every
//! referenced node exists, every declared edge is reciprocal, clients and
//! servers link only to drones, and identifiers are unique.

use vstd::prelude::*;
use crate::types::NodeId;

verus! {

/// A drone record: its identifier, the nodes it links to, and its packet
/// drop rate in hundredths.
#[derive(Clone, Debug)]
pub struct Drone {
    pub id: NodeId,
    pub connected_node_ids: Vec<NodeId>,
    pub pdr: u8,
}

/// A client record: its identifier and the drones it links to.
#[derive(Clone, Debug)]
pub struct Client {
    pub id: NodeId,
    pub connected_drone_ids: Vec<NodeId>,
}

/// A server record: its identifier and the drones it links to.
#[derive(Clone, Debug)]
pub struct Server {
    pub id: NodeId,
    pub connected_drone_ids: Vec<NodeId>,
}

/// A whole network configuration. It doubles as the topology view a flood
/// initiator assembles from flood responses.
#[derive(Clone, Debug)]
pub struct Config {
    pub drone: Vec<Drone>,
    pub client: Vec<Client>,
    pub server: Vec<Server>,
}

/// Why a configuration was rejected.
#[derive(Clone, Copy, PartialEq, Eq, Structural, Debug)]
pub enum ConfigError {
    /// Two records carry the same identifier.
    DuplicateId { id: NodeId },
    /// A drone links to an identifier no record declares.
    UnknownNode { referrer: NodeId, missing: NodeId },
    /// A client or server links to an identifier no drone record declares.
    UnknownDrone { referrer: NodeId, missing: NodeId },
    /// `node` links to `peer`, but `peer` does not link back.
    NotReciprocal { node: NodeId, peer: NodeId },
}

/// The identifiers of the drone records, in order.
pub open spec fn drone_ids(c: Config) -> Seq<NodeId> {
    c.drone@.map_values(|d: Drone| d.id)
}

/// The identifiers of the client records, in order.
pub open spec fn client_ids(c: Config) -> Seq<NodeId> {
    c.client@.map_values(|d: Client| d.id)
}

/// The identifiers of the server records, in order.
pub open spec fn server_ids(c: Config) -> Seq<NodeId> {
    c.server@.map_values(|d: Server| d.id)
}

/// Every identifier any record declares: drones, then clients, then servers.
pub open spec fn all_ids(c: Config) -> Seq<NodeId> {
    drone_ids(c) + client_ids(c) + server_ids(c)
}

/// Whether a drone record declares `x`.
pub open spec fn is_drone(c: Config, x: NodeId) -> bool {
    drone_ids(c).contains(x)
}

/// Whether a client record declares `x`.
pub open spec fn is_client(c: Config, x: NodeId) -> bool {
    client_ids(c).contains(x)
}

/// Whether a server record declares `x`.
pub open spec fn is_server(c: Config, x: NodeId) -> bool {
    server_ids(c).contains(x)
}

/// Whether any record declares `x`.
pub open spec fn node_exists(c: Config, x: NodeId) -> bool {
    is_drone(c, x) || is_client(c, x) || is_server(c, x)
}

/// Some drone record with identifier `x` lists `y`.
pub open spec fn drone_links(c: Config, x: NodeId, y: NodeId) -> bool {
    exists|i: int|
        0 <= i < c.drone@.len() && c.drone@[i].id == x && c.drone@[i].connected_node_ids@.contains(
            y,
        )
}

/// Some client record with identifier `x` lists `y`.
pub open spec fn client_links(c: Config, x: NodeId, y: NodeId) -> bool {
    exists|i: int|
        0 <= i < c.client@.len() && c.client@[i].id == x
            && c.client@[i].connected_drone_ids@.contains(y)
}

/// Some server record with identifier `x` lists `y`.
pub open spec fn server_links(c: Config, x: NodeId, y: NodeId) -> bool {
    exists|i: int|
        0 <= i < c.server@.len() && c.server@[i].id == x
            && c.server@[i].connected_drone_ids@.contains(y)
}

/// Some record with identifier `x` lists `y`.
pub open spec fn links(c: Config, x: NodeId, y: NodeId) -> bool {
    drone_links(c, x, y) || client_links(c, x, y) || server_links(c, x, y)
}

/// No identifier is declared twice.
pub open spec fn unique_ids(c: Config) -> bool {
    forall|i: int, j: int|
        0 <= i < j < all_ids(c).len() ==> all_ids(c)[i] != all_ids(c)[j]
}

/// A reference `y` of drone `x` is in order: the node exists and links back.
pub open spec fn drone_ref_ok(c: Config, x: NodeId, y: NodeId) -> bool {
    node_exists(c, y) && links(c, y, x)
}

/// A reference `y` of client or server `x` is in order: a drone record
/// declares `y`, and some drone record with identifier `y` links back.
pub open spec fn edge_ref_ok(c: Config, x: NodeId, y: NodeId) -> bool {
    is_drone(c, y) && drone_links(c, y, x)
}

/// A configuration is valid when identifiers are unique, every node a drone
/// links to exists and links back, and every node a client or server links
/// to is a drone that links back.
pub open spec fn config_valid(c: Config) -> bool {
    &&& unique_ids(c)
    &&& forall|i: int, j: int|
        0 <= i < c.drone@.len() && 0 <= j < c.drone@[i].connected_node_ids@.len()
            ==> drone_ref_ok(c, c.drone@[i].id, c.drone@[i].connected_node_ids@[j])
    &&& forall|i: int, j: int|
        0 <= i < c.client@.len() && 0 <= j < c.client@[i].connected_drone_ids@.len()
            ==> edge_ref_ok(c, c.client@[i].id, c.client@[i].connected_drone_ids@[j])
    &&& forall|i: int, j: int|
        0 <= i < c.server@.len() && 0 <= j < c.server@[i].connected_drone_ids@.len()
            ==> edge_ref_ok(c, c.server@[i].id, c.server@[i].connected_drone_ids@[j])
}

/// The rejection a validation error reports really holds of the
/// configuration.
pub open spec fn error_witness(c: Config, e: ConfigError) -> bool {
    match e {
        ConfigError::DuplicateId { id } => exists|i: int, j: int|
            0 <= i < j < all_ids(c).len() && all_ids(c)[i] == id && all_ids(c)[j] == id,
        ConfigError::UnknownNode { referrer, missing } => drone_links(c, referrer, missing)
            && !node_exists(c, missing),
        ConfigError::UnknownDrone { referrer, missing } => (client_links(c, referrer, missing)
            || server_links(c, referrer, missing)) && !is_drone(c, missing),
        ConfigError::NotReciprocal { node, peer } => links(c, node, peer) && !links(c, peer, node),
    }
}

/// Finds the first client record declaring `node_id`.
pub fn find_client_by_node_id<'a>(node_id: &NodeId, config: &'a Config) -> (r: Option<&'a Client>)
    ensures
        r is Some <==> is_client(*config, *node_id),
        match r {
            Some(cl) => cl.id == *node_id && exists|i: int|
                0 <= i < config.client@.len() && config.client@[i] == *cl,
            None => true,
        },
{
    let n = config.client.len();
    for i in 0..n
        invariant
            n == config.client@.len(),
            forall|j: int| 0 <= j < i ==> config.client@[j].id != *node_id,
    {
        if config.client[i].id == *node_id {
            assert(client_ids(*config)[i as int] == *node_id);
            return Some(&config.client[i]);
        }
    }
    assert(forall|j: int|
        0 <= j < client_ids(*config).len() ==> client_ids(*config)[j] != *node_id);
    None
}

/// Finds the first server record declaring `node_id`.
pub fn find_server_by_node_id<'a>(node_id: &NodeId, config: &'a Config) -> (r: Option<&'a Server>)
    ensures
        r is Some <==> is_server(*config, *node_id),
        match r {
            Some(s) => s.id == *node_id && exists|i: int|
                0 <= i < config.server@.len() && config.server@[i] == *s,
            None => true,
        },
{
    let n = config.server.len();
    for i in 0..n
        invariant
            n == config.server@.len(),
            forall|j: int| 0 <= j < i ==> config.server@[j].id != *node_id,
    {
        if config.server[i].id == *node_id {
            assert(server_ids(*config)[i as int] == *node_id);
            return Some(&config.server[i]);
        }
    }
    assert(forall|j: int|
        0 <= j < server_ids(*config).len() ==> server_ids(*config)[j] != *node_id);
    None
}

/// Finds the first drone record declaring `node_id`.
pub fn find_drone_by_node_id<'a>(node_id: &NodeId, config: &'a Config) -> (r: Option<&'a Drone>)
    ensures
        r is Some <==> is_drone(*config, *node_id),
        match r {
            Some(d) => d.id == *node_id && exists|i: int|
                0 <= i < config.drone@.len() && config.drone@[i] == *d,
            None => true,
        },
{
    let n = config.drone.len();
    for i in 0..n
        invariant
            n == config.drone@.len(),
            forall|j: int| 0 <= j < i ==> config.drone@[j].id != *node_id,
    {
        if config.drone[i].id == *node_id {
            assert(drone_ids(*config)[i as int] == *node_id);
            return Some(&config.drone[i]);
        }
    }
    assert(forall|j: int|
        0 <= j < drone_ids(*config).len() ==> drone_ids(*config)[j] != *node_id);
    None
}

/// Whether `v` holds `x`.
fn contains_id(v: &Vec<NodeId>, x: NodeId) -> (r: bool)
    ensures
        r == v@.contains(x),
{
    let n = v.len();
    for i in 0..n
        invariant
            n == v@.len(),
            forall|j: int| 0 <= j < i ==> v@[j] != x,
    {
        if v[i] == x {
            return true;
        }
    }
    false
}

/// A record that links is declared: links of each kind come from a record of
/// that kind.
proof fn lemma_links_imply_kind(c: Config)
    ensures
        forall|x: NodeId, y: NodeId| #[trigger] drone_links(c, x, y) ==> is_drone(c, x),
        forall|x: NodeId, y: NodeId| #[trigger] client_links(c, x, y) ==> is_client(c, x),
        forall|x: NodeId, y: NodeId| #[trigger] server_links(c, x, y) ==> is_server(c, x),
{
    assert forall|x: NodeId, y: NodeId| #[trigger] drone_links(c, x, y) implies is_drone(
        c,
        x,
    ) by {
        let i = choose|i: int|
            0 <= i < c.drone@.len() && c.drone@[i].id == x
                && c.drone@[i].connected_node_ids@.contains(y);
        assert(drone_ids(c)[i] == x);
    }
    assert forall|x: NodeId, y: NodeId| #[trigger] client_links(c, x, y) implies is_client(
        c,
        x,
    ) by {
        let i = choose|i: int|
            0 <= i < c.client@.len() && c.client@[i].id == x
                && c.client@[i].connected_drone_ids@.contains(y);
        assert(client_ids(c)[i] == x);
    }
    assert forall|x: NodeId, y: NodeId| #[trigger] server_links(c, x, y) implies is_server(
        c,
        x,
    ) by {
        let i = choose|i: int|
            0 <= i < c.server@.len() && c.server@[i].id == x
                && c.server@[i].connected_drone_ids@.contains(y);
        assert(server_ids(c)[i] == x);
    }
}

/// With unique identifiers, no identifier is declared by two kinds, nor
/// twice within one kind.
proof fn lemma_kind_positions(c: Config)
    requires
        unique_ids(c),
    ensures
        forall|x: NodeId| !(is_drone(c, x) && is_client(c, x)),
        forall|x: NodeId| !(is_drone(c, x) && is_server(c, x)),
        forall|x: NodeId| !(is_client(c, x) && is_server(c, x)),
        forall|i: int, j: int|
            0 <= i < j < c.drone@.len() ==> c.drone@[i].id != c.drone@[j].id,
        forall|i: int, j: int|
            0 <= i < j < c.client@.len() ==> c.client@[i].id != c.client@[j].id,
        forall|i: int, j: int|
            0 <= i < j < c.server@.len() ==> c.server@[i].id != c.server@[j].id,
{
    let dl = drone_ids(c).len() as int;
    let cl = client_ids(c).len() as int;
    assert forall|x: NodeId| !(is_drone(c, x) && is_client(c, x)) by {
        if is_drone(c, x) && is_client(c, x) {
            let i = choose|i: int| 0 <= i < drone_ids(c).len() && drone_ids(c)[i] == x;
            let j = choose|j: int| 0 <= j < client_ids(c).len() && client_ids(c)[j] == x;
            assert(all_ids(c)[i] == x);
            assert(all_ids(c)[dl + j] == x);
        }
    }
    assert forall|x: NodeId| !(is_drone(c, x) && is_server(c, x)) by {
        if is_drone(c, x) && is_server(c, x) {
            let i = choose|i: int| 0 <= i < drone_ids(c).len() && drone_ids(c)[i] == x;
            let j = choose|j: int| 0 <= j < server_ids(c).len() && server_ids(c)[j] == x;
            assert(all_ids(c)[i] == x);
            assert(all_ids(c)[dl + cl + j] == x);
        }
    }
    assert forall|x: NodeId| !(is_client(c, x) && is_server(c, x)) by {
        if is_client(c, x) && is_server(c, x) {
            let i = choose|i: int| 0 <= i < client_ids(c).len() && client_ids(c)[i] == x;
            let j = choose|j: int| 0 <= j < server_ids(c).len() && server_ids(c)[j] == x;
            assert(all_ids(c)[dl + i] == x);
            assert(all_ids(c)[dl + cl + j] == x);
        }
    }
    assert forall|i: int, j: int|
        0 <= i < j < c.drone@.len() implies c.drone@[i].id != c.drone@[j].id by {
        assert(all_ids(c)[i] == c.drone@[i].id);
        assert(all_ids(c)[j] == c.drone@[j].id);
    }
    assert forall|i: int, j: int|
        0 <= i < j < c.client@.len() implies c.client@[i].id != c.client@[j].id by {
        assert(all_ids(c)[dl + i] == c.client@[i].id);
        assert(all_ids(c)[dl + j] == c.client@[j].id);
    }
    assert forall|i: int, j: int|
        0 <= i < j < c.server@.len() implies c.server@[i].id != c.server@[j].id by {
        assert(all_ids(c)[dl + cl + i] == c.server@[i].id);
        assert(all_ids(c)[dl + cl + j] == c.server@[j].id);
    }
}

/// With unique identifiers, a drone record is the only source of drone links
/// from its identifier.
proof fn lemma_no_other_drone_links(c: Config, d: Drone, x: NodeId)
    requires
        unique_ids(c),
        exists|i: int| 0 <= i < c.drone@.len() && c.drone@[i] == d,
        !d.connected_node_ids@.contains(x),
    ensures
        !drone_links(c, d.id, x),
{
    lemma_kind_positions(c);
    if drone_links(c, d.id, x) {
        let i = choose|i: int|
            0 <= i < c.drone@.len() && c.drone@[i].id == d.id
                && c.drone@[i].connected_node_ids@.contains(x);
        let i0 = choose|i0: int| 0 <= i0 < c.drone@.len() && c.drone@[i0] == d;
        if i != i0 {
            assert(c.drone@[i].id != c.drone@[i0].id);
        }
        assert(false);
    }
}

/// With unique identifiers, a client record is the only source of client
/// links from its identifier.
proof fn lemma_no_other_client_links(c: Config, cl: Client, x: NodeId)
    requires
        unique_ids(c),
        exists|i: int| 0 <= i < c.client@.len() && c.client@[i] == cl,
        !cl.connected_drone_ids@.contains(x),
    ensures
        !client_links(c, cl.id, x),
{
    lemma_kind_positions(c);
    if client_links(c, cl.id, x) {
        let i = choose|i: int|
            0 <= i < c.client@.len() && c.client@[i].id == cl.id
                && c.client@[i].connected_drone_ids@.contains(x);
        let i0 = choose|i0: int| 0 <= i0 < c.client@.len() && c.client@[i0] == cl;
        if i != i0 {
            assert(c.client@[i].id != c.client@[i0].id);
        }
        assert(false);
    }
}

/// With unique identifiers, a server record is the only source of server
/// links from its identifier.
proof fn lemma_no_other_server_links(c: Config, s: Server, x: NodeId)
    requires
        unique_ids(c),
        exists|i: int| 0 <= i < c.server@.len() && c.server@[i] == s,
        !s.connected_drone_ids@.contains(x),
    ensures
        !server_links(c, s.id, x),
{
    lemma_kind_positions(c);
    if server_links(c, s.id, x) {
        let i = choose|i: int|
            0 <= i < c.server@.len() && c.server@[i].id == s.id
                && c.server@[i].connected_drone_ids@.contains(x);
        let i0 = choose|i0: int| 0 <= i0 < c.server@.len() && c.server@[i0] == s;
        if i != i0 {
            assert(c.server@[i].id != c.server@[i0].id);
        }
        assert(false);
    }
}

/// Validates the references of one drone record: every node it links to must
/// exist and link back.
fn validate_drone_connections(drone: &Drone, config: &Config) -> (r: Result<(), ConfigError>)
    requires
        unique_ids(*config),
        exists|i: int| 0 <= i < config.drone@.len() && config.drone@[i] == *drone,
    ensures
        r is Ok <==> forall|j: int|
            0 <= j < drone.connected_node_ids@.len() ==> drone_ref_ok(
                *config,
                drone.id,
                drone.connected_node_ids@[j],
            ),
        r matches Err(e) ==> error_witness(*config, e),
{
    let n = drone.connected_node_ids.len();
    for j in 0..n
        invariant
            n == drone.connected_node_ids@.len(),
            unique_ids(*config),
            exists|i: int| 0 <= i < config.drone@.len() && config.drone@[i] == *drone,
            forall|t: int|
                0 <= t < j ==> drone_ref_ok(*config, drone.id, drone.connected_node_ids@[t]),
    {
        let y = drone.connected_node_ids[j];
        proof {
            assert(drone.connected_node_ids@.contains(y));
            assert(drone_links(*config, drone.id, y));
            lemma_links_imply_kind(*config);
            lemma_kind_positions(*config);
        }
        if let Some(d2) = find_drone_by_node_id(&y, config) {
            if !contains_id(&d2.connected_node_ids, drone.id) {
                proof {
                    lemma_no_other_drone_links(*config, *d2, drone.id);
                }
                return Err(ConfigError::NotReciprocal { node: drone.id, peer: y });
            }
            proof {
                assert(drone_links(*config, y, drone.id));
            }
        } else if let Some(s2) = find_server_by_node_id(&y, config) {
            if !contains_id(&s2.connected_drone_ids, drone.id) {
                proof {
                    lemma_no_other_server_links(*config, *s2, drone.id);
                }
                return Err(ConfigError::NotReciprocal { node: drone.id, peer: y });
            }
            proof {
                assert(server_links(*config, y, drone.id));
            }
        } else if let Some(c2) = find_client_by_node_id(&y, config) {
            if !contains_id(&c2.connected_drone_ids, drone.id) {
                proof {
                    lemma_no_other_client_links(*config, *c2, drone.id);
                }
                return Err(ConfigError::NotReciprocal { node: drone.id, peer: y });
            }
            proof {
                assert(client_links(*config, y, drone.id));
            }
        } else {
            return Err(ConfigError::UnknownNode { referrer: drone.id, missing: y });
        }
    }
    Ok(())
}

/// Validates the references of one client record: every node it links to
/// must be a drone that links back.
fn validate_client_connections(client: &Client, config: &Config) -> (r: Result<(), ConfigError>)
    requires
        unique_ids(*config),
        exists|i: int| 0 <= i < config.client@.len() && config.client@[i] == *client,
    ensures
        r is Ok <==> forall|j: int|
            0 <= j < client.connected_drone_ids@.len() ==> edge_ref_ok(
                *config,
                client.id,
                client.connected_drone_ids@[j],
            ),
        r matches Err(e) ==> error_witness(*config, e),
{
    let n = client.connected_drone_ids.len();
    for j in 0..n
        invariant
            n == client.connected_drone_ids@.len(),
            unique_ids(*config),
            exists|i: int| 0 <= i < config.client@.len() && config.client@[i] == *client,
            forall|t: int|
                0 <= t < j ==> edge_ref_ok(*config, client.id, client.connected_drone_ids@[t]),
    {
        let y = client.connected_drone_ids[j];
        proof {
            assert(client.connected_drone_ids@.contains(y));
            assert(client_links(*config, client.id, y));
            lemma_links_imply_kind(*config);
            lemma_kind_positions(*config);
        }
        if let Some(d2) = find_drone_by_node_id(&y, config) {
            if !contains_id(&d2.connected_node_ids, client.id) {
                proof {
                    lemma_no_other_drone_links(*config, *d2, client.id);
                }
                return Err(ConfigError::NotReciprocal { node: client.id, peer: y });
            }
            proof {
                assert(drone_links(*config, y, client.id));
            }
        } else {
            return Err(ConfigError::UnknownDrone { referrer: client.id, missing: y });
        }
    }
    Ok(())
}

/// Validates the references of one server record: every node it links to
/// must be a drone that links back.
fn validate_server_connections(server: &Server, config: &Config) -> (r: Result<(), ConfigError>)
    requires
        unique_ids(*config),
        exists|i: int| 0 <= i < config.server@.len() && config.server@[i] == *server,
    ensures
        r is Ok <==> forall|j: int|
            0 <= j < server.connected_drone_ids@.len() ==> edge_ref_ok(
                *config,
                server.id,
                server.connected_drone_ids@[j],
            ),
        r matches Err(e) ==> error_witness(*config, e),
{
    let n = server.connected_drone_ids.len();
    for j in 0..n
        invariant
            n == server.connected_drone_ids@.len(),
            unique_ids(*config),
            exists|i: int| 0 <= i < config.server@.len() && config.server@[i] == *server,
            forall|t: int|
                0 <= t < j ==> edge_ref_ok(*config, server.id, server.connected_drone_ids@[t]),
    {
        let y = server.connected_drone_ids[j];
        proof {
            assert(server.connected_drone_ids@.contains(y));
            assert(server_links(*config, server.id, y));
            lemma_links_imply_kind(*config);
            lemma_kind_positions(*config);
        }
        if let Some(d2) = find_drone_by_node_id(&y, config) {
            if !contains_id(&d2.connected_node_ids, server.id) {
                proof {
                    lemma_no_other_drone_links(*config, *d2, server.id);
                }
                return Err(ConfigError::NotReciprocal { node: server.id, peer: y });
            }
            proof {
                assert(drone_links(*config, y, server.id));
            }
        } else {
            return Err(ConfigError::UnknownDrone { referrer: server.id, missing: y });
        }
    }
    Ok(())
}

/// Collects every declared identifier: drones, then clients, then servers.
fn collect_ids(config: &Config) -> (r: Vec<NodeId>)
    ensures
        r@ == all_ids(*config),
{
    let mut out: Vec<NodeId> = Vec::new();
    let nd = config.drone.len();
    for i in 0..nd
        invariant
            nd == config.drone@.len(),
            out@ =~= drone_ids(*config).take(i as int),
    {
        out.push(config.drone[i].id);
        assert(out@ =~= drone_ids(*config).take(i + 1));
    }
    assert(out@ =~= drone_ids(*config));
    let nc = config.client.len();
    for i in 0..nc
        invariant
            nc == config.client@.len(),
            out@ =~= drone_ids(*config) + client_ids(*config).take(i as int),
    {
        out.push(config.client[i].id);
        assert(out@ =~= drone_ids(*config) + client_ids(*config).take(i + 1));
    }
    assert(out@ =~= drone_ids(*config) + client_ids(*config));
    let ns = config.server.len();
    for i in 0..ns
        invariant
            ns == config.server@.len(),
            out@ =~= drone_ids(*config) + client_ids(*config) + server_ids(*config).take(i as int),
    {
        out.push(config.server[i].id);
        assert(out@ =~= drone_ids(*config) + client_ids(*config) + server_ids(*config).take(
            i + 1,
        ));
    }
    assert(out@ =~= all_ids(*config));
    out
}

/// Finds an identifier that occurs twice, if any.
fn find_duplicate(ids: &Vec<NodeId>) -> (r: Option<NodeId>)
    ensures
        match r {
            None => forall|i: int, j: int| 0 <= i < j < ids@.len() ==> ids@[i] != ids@[j],
            Some(x) => exists|i: int, j: int|
                0 <= i < j < ids@.len() && ids@[i] == x && ids@[j] == x,
        },
{
    let n = ids.len();
    for i in 0..n
        invariant
            n == ids@.len(),
            forall|a: int, b: int| 0 <= a < b < n && a < i ==> ids@[a] != ids@[b],
    {
        let x = ids[i];
        let start = i + 1;
        for j in start..n
            invariant
                n == ids@.len(),
                start == i + 1,
                i < n,
                x == ids@[i as int],
                forall|b: int| i < b < j ==> ids@[b] != x,
        {
            if ids[j] == x {
                return Some(x);
            }
        }
    }
    None
}

/// An error a validation pass reports refutes the configuration.
proof fn lemma_witness_refutes(c: Config, e: ConfigError)
    requires
        error_witness(c, e),
    ensures
        !config_valid(c),
{
    if config_valid(c) {
        match e {
            ConfigError::DuplicateId { id } => {
                assert(false);
            },
            ConfigError::UnknownNode { referrer, missing } => {
                let i = choose|i: int|
                    0 <= i < c.drone@.len() && c.drone@[i].id == referrer
                        && c.drone@[i].connected_node_ids@.contains(missing);
                let j = choose|j: int|
                    0 <= j < c.drone@[i].connected_node_ids@.len()
                        && c.drone@[i].connected_node_ids@[j] == missing;
                assert(drone_ref_ok(c, c.drone@[i].id, c.drone@[i].connected_node_ids@[j]));
                assert(false);
            },
            ConfigError::UnknownDrone { referrer, missing } => {
                if client_links(c, referrer, missing) {
                    let i = choose|i: int|
                        0 <= i < c.client@.len() && c.client@[i].id == referrer
                            && c.client@[i].connected_drone_ids@.contains(missing);
                    let j = choose|j: int|
                        0 <= j < c.client@[i].connected_drone_ids@.len()
                            && c.client@[i].connected_drone_ids@[j] == missing;
                    assert(edge_ref_ok(c, c.client@[i].id, c.client@[i].connected_drone_ids@[j]));
                } else {
                    let i = choose|i: int|
                        0 <= i < c.server@.len() && c.server@[i].id == referrer
                            && c.server@[i].connected_drone_ids@.contains(missing);
                    let j = choose|j: int|
                        0 <= j < c.server@[i].connected_drone_ids@.len()
                            && c.server@[i].connected_drone_ids@[j] == missing;
                    assert(edge_ref_ok(c, c.server@[i].id, c.server@[i].connected_drone_ids@[j]));
                }
                assert(false);
            },
            ConfigError::NotReciprocal { node, peer } => {
                if drone_links(c, node, peer) {
                    let i = choose|i: int|
                        0 <= i < c.drone@.len() && c.drone@[i].id == node
                            && c.drone@[i].connected_node_ids@.contains(peer);
                    let j = choose|j: int|
                        0 <= j < c.drone@[i].connected_node_ids@.len()
                            && c.drone@[i].connected_node_ids@[j] == peer;
                    assert(drone_ref_ok(c, c.drone@[i].id, c.drone@[i].connected_node_ids@[j]));
                } else if client_links(c, node, peer) {
                    let i = choose|i: int|
                        0 <= i < c.client@.len() && c.client@[i].id == node
                            && c.client@[i].connected_drone_ids@.contains(peer);
                    let j = choose|j: int|
                        0 <= j < c.client@[i].connected_drone_ids@.len()
                            && c.client@[i].connected_drone_ids@[j] == peer;
                    assert(edge_ref_ok(c, c.client@[i].id, c.client@[i].connected_drone_ids@[j]));
                } else {
                    let i = choose|i: int|
                        0 <= i < c.server@.len() && c.server@[i].id == node
                            && c.server@[i].connected_drone_ids@.contains(peer);
                    let j = choose|j: int|
                        0 <= j < c.server@[i].connected_drone_ids@.len()
                            && c.server@[i].connected_drone_ids@[j] == peer;
                    assert(edge_ref_ok(c, c.server@[i].id, c.server@[i].connected_drone_ids@[j]));
                }
                assert(false);
            },
        }
    }
}

/// Validates a whole configuration: accepts it exactly when identifiers are
/// unique, every node a drone links to exists and links back, and every node
/// a client or server links to is a drone that links back. A rejection
/// carries a violation that really holds of the configuration.
pub fn validate_config(config: &Config) -> (r: Result<(), ConfigError>)
    ensures
        r is Ok <==> config_valid(*config),
        r matches Err(e) ==> error_witness(*config, e),
{
    let ids = collect_ids(config);
    if let Some(x) = find_duplicate(&ids) {
        proof {
            lemma_witness_refutes(*config, ConfigError::DuplicateId { id: x });
        }
        return Err(ConfigError::DuplicateId { id: x });
    }
    let nd = config.drone.len();
    for i in 0..nd
        invariant
            nd == config.drone@.len(),
            unique_ids(*config),
            forall|a: int, j: int|
                0 <= a < i && 0 <= j < config.drone@[a].connected_node_ids@.len()
                    ==> drone_ref_ok(
                    *config,
                    config.drone@[a].id,
                    config.drone@[a].connected_node_ids@[j],
                ),
    {
        let checked = validate_drone_connections(&config.drone[i], config);
        if let Err(e) = checked {
            proof {
                lemma_witness_refutes(*config, e);
            }
            return Err(e);
        }
    }
    let nc = config.client.len();
    for i in 0..nc
        invariant
            nc == config.client@.len(),
            nd == config.drone@.len(),
            unique_ids(*config),
            forall|a: int, j: int|
                0 <= a < nd && 0 <= j < config.drone@[a].connected_node_ids@.len()
                    ==> drone_ref_ok(
                    *config,
                    config.drone@[a].id,
                    config.drone@[a].connected_node_ids@[j],
                ),
            forall|a: int, j: int|
                0 <= a < i && 0 <= j < config.client@[a].connected_drone_ids@.len()
                    ==> edge_ref_ok(
                    *config,
                    config.client@[a].id,
                    config.client@[a].connected_drone_ids@[j],
                ),
    {
        let checked = validate_client_connections(&config.client[i], config);
        if let Err(e) = checked {
            proof {
                lemma_witness_refutes(*config, e);
            }
            return Err(e);
        }
    }
    let ns = config.server.len();
    for i in 0..ns
        invariant
            ns == config.server@.len(),
            nc == config.client@.len(),
            nd == config.drone@.len(),
            unique_ids(*config),
            forall|a: int, j: int|
                0 <= a < nd && 0 <= j < config.drone@[a].connected_node_ids@.len()
                    ==> drone_ref_ok(
                    *config,
                    config.drone@[a].id,
                    config.drone@[a].connected_node_ids@[j],
                ),
            forall|a: int, j: int|
                0 <= a < nc && 0 <= j < config.client@[a].connected_drone_ids@.len()
                    ==> edge_ref_ok(
                    *config,
                    config.client@[a].id,
                    config.client@[a].connected_drone_ids@[j],
                ),
            forall|a: int, j: int|
                0 <= a < i && 0 <= j < config.server@[a].connected_drone_ids@.len()
                    ==> edge_ref_ok(
                    *config,
                    config.server@[a].id,
                    config.server@[a].connected_drone_ids@[j],
                ),
    {
        let checked = validate_server_connections(&config.server[i], config);
        if let Err(e) = checked {
            proof {
                lemma_witness_refutes(*config, e);
            }
            return Err(e);
        }
    }
    Ok(())
}

} // verus!
