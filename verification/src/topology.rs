//! Assembly of a flood initiator's topology view: flood responses carry a
//! path trace whose adjacent entries are directly connected, and each such
//! pair is merged into the view as a bidirectional edge, idempotently.

use vstd::prelude::*;
use vstd::std_specs::vec::vec_index_mut;
use crate::config::Client;
use crate::config::Config;
use crate::config::Drone;
use crate::config::Server;
use crate::config::client_links;
use crate::config::drone_links;
use crate::config::links;
use crate::config::server_links;
use crate::types::NodeId;
use crate::types::NodeType;

verus! {

broadcast use vstd::seq_lib::lemma_seq_contains_after_push;

/// The drop rate recorded for a drone discovered by flooding, before any
/// measurement replaces it. An artifact of the view; never consulted.
pub const PROVISIONAL_PDR: u8 = 27;

/// A topology view is symmetric: every recorded edge is recorded both ways.
pub open spec fn topology_symmetric(c: Config) -> bool {
    forall|x: NodeId, y: NodeId| #[trigger] links(c, x, y) ==> links(c, y, x)
}

/// `x` and `y` stand next to each other, in either order, somewhere in the
/// path trace.
pub open spec fn trace_adjacent(t: Seq<(NodeId, NodeType)>, x: NodeId, y: NodeId) -> bool {
    exists|i: int| #![trigger t[i]]
        0 <= i && i + 1 < t.len() && ((t[i].0 == x && t[i + 1].0 == y) || (t[i].0 == y && t[i + 1].0
            == x))
}

/// `x` and `y` stand next to each other among the first `m` pairs of the
/// path trace.
pub open spec fn trace_adjacent_upto(
    t: Seq<(NodeId, NodeType)>,
    m: int,
    x: NodeId,
    y: NodeId,
) -> bool {
    exists|i: int| #![trigger t[i]]
        0 <= i < m && i + 1 < t.len() && ((t[i].0 == x && t[i + 1].0 == y) || (t[i].0 == y && t[i
            + 1].0 == x))
}

/// A sequence of identifiers holds no identifier twice.
pub open spec fn distinct_ids(s: Seq<NodeId>) -> bool {
    forall|i: int, j: int| 0 <= i < j < s.len() ==> s[i] != s[j]
}

/// Every connection list of the view is duplicate-free: the view records
/// neighbor sets, not lists, so merging an edge twice cannot grow a list.
pub open spec fn connection_lists_distinct(c: Config) -> bool {
    &&& forall|i: int|
        0 <= i < c.drone@.len() ==> distinct_ids(#[trigger] c.drone@[i].connected_node_ids@)
    &&& forall|i: int|
        0 <= i < c.client@.len() ==> distinct_ids(#[trigger] c.client@[i].connected_drone_ids@)
    &&& forall|i: int|
        0 <= i < c.server@.len() ==> distinct_ids(#[trigger] c.server@[i].connected_drone_ids@)
}

/// Appending an identifier a duplicate-free sequence lacks keeps it
/// duplicate-free.
proof fn lemma_distinct_push(s: Seq<NodeId>, v: NodeId)
    requires
        distinct_ids(s),
        !s.contains(v),
    ensures
        distinct_ids(s.push(v)),
{
    assert forall|i: int, j: int|
        0 <= i < j < s.push(v).len() implies s.push(v)[i] != s.push(v)[j] by {
        if j == s.len() {
            if s.push(v)[i] == v {
                assert(s[i] == v);
                assert(s.contains(v));
            }
        }
    }
}

/// Topology symmetry after a flood: merging a path trace into a symmetric
/// view leaves it symmetric — whenever one node appears as a neighbor of
/// another, the converse is recorded too.
pub proof fn lemma_topology_symmetric_after_merge(
    before: Config,
    after: Config,
    trace: Seq<(NodeId, NodeType)>,
)
    requires
        topology_symmetric(before),
        forall|x: NodeId, y: NodeId| #[trigger]
            links(after, x, y) <==> (links(before, x, y) || trace_adjacent(trace, x, y)),
    ensures
        topology_symmetric(after),
{
    assert forall|x: NodeId, y: NodeId| #[trigger] links(after, x, y) implies links(
        after,
        y,
        x,
    ) by {
        if links(before, x, y) {
            assert(links(before, y, x));
        } else {
            let i = choose|i: int| #![trigger trace[i]]
                0 <= i && i + 1 < trace.len() && ((trace[i].0 == x && trace[i + 1].0 == y) || (
                trace[i].0 == y && trace[i + 1].0 == x));
            assert(trace_adjacent(trace, y, x));
        }
    }
}

/// A freshly seeded topology view is symmetric: it records exactly the
/// initiator's own provisional edges, both ways.
pub proof fn lemma_seeded_topology_symmetric(c: Config, own: NodeId, nbrs: Seq<NodeId>)
    requires
        forall|x: NodeId, y: NodeId| #[trigger]
            links(c, x, y) <==> ((x == own && nbrs.contains(y)) || (nbrs.contains(x) && y == own)),
    ensures
        topology_symmetric(c),
{
}

/// Drone links of equal drone records are the same relation.
proof fn lemma_drone_links_eq(c1: Config, c2: Config)
    requires
        c1.drone@ == c2.drone@,
    ensures
        forall|x: NodeId, y: NodeId| drone_links(c1, x, y) == drone_links(c2, x, y),
{
    assert forall|x: NodeId, y: NodeId|
        drone_links(c1, x, y) == drone_links(c2, x, y) by {
        if drone_links(c1, x, y) {
            let i = choose|i: int|
                0 <= i < c1.drone@.len() && c1.drone@[i].id == x
                    && c1.drone@[i].connected_node_ids@.contains(y);
            assert(c2.drone@[i].id == x && c2.drone@[i].connected_node_ids@.contains(y));
        }
        if drone_links(c2, x, y) {
            let i = choose|i: int|
                0 <= i < c2.drone@.len() && c2.drone@[i].id == x
                    && c2.drone@[i].connected_node_ids@.contains(y);
            assert(c1.drone@[i].id == x && c1.drone@[i].connected_node_ids@.contains(y));
        }
    }
}

/// Client links of equal client records are the same relation.
proof fn lemma_client_links_eq(c1: Config, c2: Config)
    requires
        c1.client@ == c2.client@,
    ensures
        forall|x: NodeId, y: NodeId| client_links(c1, x, y) == client_links(c2, x, y),
{
    assert forall|x: NodeId, y: NodeId|
        client_links(c1, x, y) == client_links(c2, x, y) by {
        if client_links(c1, x, y) {
            let i = choose|i: int|
                0 <= i < c1.client@.len() && c1.client@[i].id == x
                    && c1.client@[i].connected_drone_ids@.contains(y);
            assert(c2.client@[i].id == x && c2.client@[i].connected_drone_ids@.contains(y));
        }
        if client_links(c2, x, y) {
            let i = choose|i: int|
                0 <= i < c2.client@.len() && c2.client@[i].id == x
                    && c2.client@[i].connected_drone_ids@.contains(y);
            assert(c1.client@[i].id == x && c1.client@[i].connected_drone_ids@.contains(y));
        }
    }
}

/// Server links of equal server records are the same relation.
proof fn lemma_server_links_eq(c1: Config, c2: Config)
    requires
        c1.server@ == c2.server@,
    ensures
        forall|x: NodeId, y: NodeId| server_links(c1, x, y) == server_links(c2, x, y),
{
    assert forall|x: NodeId, y: NodeId|
        server_links(c1, x, y) == server_links(c2, x, y) by {
        if server_links(c1, x, y) {
            let i = choose|i: int|
                0 <= i < c1.server@.len() && c1.server@[i].id == x
                    && c1.server@[i].connected_drone_ids@.contains(y);
            assert(c2.server@[i].id == x && c2.server@[i].connected_drone_ids@.contains(y));
        }
        if server_links(c2, x, y) {
            let i = choose|i: int|
                0 <= i < c2.server@.len() && c2.server@[i].id == x
                    && c2.server@[i].connected_drone_ids@.contains(y);
            assert(c1.server@[i].id == x && c1.server@[i].connected_drone_ids@.contains(y));
        }
    }
}

/// The position of the first drone record declaring `id`, if any.
fn find_drone_index(v: &Vec<Drone>, id: NodeId) -> (r: Option<usize>)
    ensures
        match r {
            Some(i) => i < v@.len() && v@[i as int].id == id,
            None => forall|j: int| 0 <= j < v@.len() ==> v@[j].id != id,
        },
{
    let n = v.len();
    for i in 0..n
        invariant
            n == v@.len(),
            forall|j: int| 0 <= j < i ==> v@[j].id != id,
    {
        if v[i].id == id {
            return Some(i);
        }
    }
    None
}

/// The position of the first client record declaring `id`, if any.
fn find_client_index(v: &Vec<Client>, id: NodeId) -> (r: Option<usize>)
    ensures
        match r {
            Some(i) => i < v@.len() && v@[i as int].id == id,
            None => forall|j: int| 0 <= j < v@.len() ==> v@[j].id != id,
        },
{
    let n = v.len();
    for i in 0..n
        invariant
            n == v@.len(),
            forall|j: int| 0 <= j < i ==> v@[j].id != id,
    {
        if v[i].id == id {
            return Some(i);
        }
    }
    None
}

/// The position of the first server record declaring `id`, if any.
fn find_server_index(v: &Vec<Server>, id: NodeId) -> (r: Option<usize>)
    ensures
        match r {
            Some(i) => i < v@.len() && v@[i as int].id == id,
            None => forall|j: int| 0 <= j < v@.len() ==> v@[j].id != id,
        },
{
    let n = v.len();
    for i in 0..n
        invariant
            n == v@.len(),
            forall|j: int| 0 <= j < i ==> v@[j].id != id,
    {
        if v[i].id == id {
            return Some(i);
        }
    }
    None
}

/// Whether `v` holds `x`.
fn holds_id(v: &Vec<NodeId>, x: NodeId) -> (r: bool)
    ensures
        r == v@.contains(x),
{
    let n = v.len();
    for i in 0..n
        invariant
            n == v@.len(),
            forall|j: int| 0 <= j < i ==> v@[j] != x,
    {
        if v[i] == x {
            return true;
        }
    }
    false
}

/// Records `peer` as a neighbor of drone `drone_id` in the view,
/// idempotently, creating the record when the drone is new: afterwards the
/// view records exactly its old edges plus this one.
pub fn update_drone_connections(topology: &mut Config, drone_id: NodeId, peer: NodeId)
    ensures
        forall|x: NodeId, y: NodeId| #[trigger]
            links(*final(topology), x, y) <==> (links(*old(topology), x, y) || (x == drone_id && y
                == peer)),
        connection_lists_distinct(*old(topology)) ==> connection_lists_distinct(*final(topology)),
{
    let found = find_drone_index(&topology.drone, drone_id);
    match found {
        Some(i) => {
            let already = holds_id(&topology.drone[i].connected_node_ids, peer);
            if !already {
                let entry = vec_index_mut(&mut topology.drone, i);
                entry.connected_node_ids.push(peer);
            }
            proof {
                let pre = old(topology).drone@;
                let post = topology.drone@;
                lemma_client_links_eq(*old(topology), *topology);
                lemma_server_links_eq(*old(topology), *topology);
                assert forall|x: NodeId, y: NodeId|
                    drone_links(*topology, x, y) == (drone_links(*old(topology), x, y) || (x
                        == drone_id && y == peer)) by {
                    if drone_links(*topology, x, y) {
                        let kk = choose|kk: int|
                            0 <= kk < post.len() && post[kk].id == x
                                && post[kk].connected_node_ids@.contains(y);
                        if kk == i && !already {
                            if y != peer {
                                assert(pre[kk].connected_node_ids@.contains(y));
                                assert(drone_links(*old(topology), x, y));
                            }
                        } else {
                            assert(post[kk] == pre[kk]);
                            assert(drone_links(*old(topology), x, y));
                        }
                    }
                    if drone_links(*old(topology), x, y) {
                        let kk = choose|kk: int|
                            0 <= kk < pre.len() && pre[kk].id == x
                                && pre[kk].connected_node_ids@.contains(y);
                        assert(post[kk].id == x && post[kk].connected_node_ids@.contains(y));
                    }
                    if x == drone_id && y == peer {
                        assert(post[i as int].connected_node_ids@.contains(peer));
                        assert(drone_links(*topology, x, y));
                    }
                }
                if connection_lists_distinct(*old(topology)) {
                    assert forall|kk: int|
                        0 <= kk < post.len() implies distinct_ids(
                        #[trigger] post[kk].connected_node_ids@,
                    ) by {
                        if kk == i as int {
                            if !already {
                                lemma_distinct_push(pre[kk].connected_node_ids@, peer);
                            }
                        } else {
                            assert(post[kk] == pre[kk]);
                        }
                    }
                }
            }
        },
        None => {
            let mut fresh_ids: Vec<NodeId> = Vec::new();
            fresh_ids.push(peer);
            topology.drone.push(
                Drone { id: drone_id, connected_node_ids: fresh_ids, pdr: PROVISIONAL_PDR },
            );
            proof {
                let pre = old(topology).drone@;
                let post = topology.drone@;
                lemma_client_links_eq(*old(topology), *topology);
                lemma_server_links_eq(*old(topology), *topology);
                assert forall|x: NodeId, y: NodeId|
                    drone_links(*topology, x, y) == (drone_links(*old(topology), x, y) || (x
                        == drone_id && y == peer)) by {
                    if drone_links(*topology, x, y) {
                        let kk = choose|kk: int|
                            0 <= kk < post.len() && post[kk].id == x
                                && post[kk].connected_node_ids@.contains(y);
                        if kk == pre.len() {
                            assert(post[kk].connected_node_ids@[0] == peer);
                            assert(x == drone_id && y == peer);
                        } else {
                            assert(post[kk] == pre[kk]);
                            assert(drone_links(*old(topology), x, y));
                        }
                    }
                    if drone_links(*old(topology), x, y) {
                        let kk = choose|kk: int|
                            0 <= kk < pre.len() && pre[kk].id == x
                                && pre[kk].connected_node_ids@.contains(y);
                        assert(post[kk].id == x && post[kk].connected_node_ids@.contains(y));
                    }
                    if x == drone_id && y == peer {
                        assert(post[pre.len() as int].connected_node_ids@.contains(peer));
                    }
                }
                if connection_lists_distinct(*old(topology)) {
                    assert forall|kk: int|
                        0 <= kk < post.len() implies distinct_ids(
                        #[trigger] post[kk].connected_node_ids@,
                    ) by {
                        if kk != pre.len() as int {
                            assert(post[kk] == pre[kk]);
                        }
                    }
                }
            }
        },
    }
}

/// Records `peer` as a neighbor of client `client_id` in the view,
/// idempotently, creating the record when the client is new.
pub fn update_client_connections(topology: &mut Config, client_id: NodeId, peer: NodeId)
    ensures
        forall|x: NodeId, y: NodeId| #[trigger]
            links(*final(topology), x, y) <==> (links(*old(topology), x, y) || (x == client_id && y
                == peer)),
        connection_lists_distinct(*old(topology)) ==> connection_lists_distinct(*final(topology)),
{
    let found = find_client_index(&topology.client, client_id);
    match found {
        Some(i) => {
            let already = holds_id(&topology.client[i].connected_drone_ids, peer);
            if !already {
                let entry = vec_index_mut(&mut topology.client, i);
                entry.connected_drone_ids.push(peer);
            }
            proof {
                let pre = old(topology).client@;
                let post = topology.client@;
                lemma_drone_links_eq(*old(topology), *topology);
                lemma_server_links_eq(*old(topology), *topology);
                assert forall|x: NodeId, y: NodeId|
                    client_links(*topology, x, y) == (client_links(*old(topology), x, y) || (x
                        == client_id && y == peer)) by {
                    if client_links(*topology, x, y) {
                        let kk = choose|kk: int|
                            0 <= kk < post.len() && post[kk].id == x
                                && post[kk].connected_drone_ids@.contains(y);
                        if kk == i && !already {
                            if y != peer {
                                assert(pre[kk].connected_drone_ids@.contains(y));
                                assert(client_links(*old(topology), x, y));
                            }
                        } else {
                            assert(post[kk] == pre[kk]);
                            assert(client_links(*old(topology), x, y));
                        }
                    }
                    if client_links(*old(topology), x, y) {
                        let kk = choose|kk: int|
                            0 <= kk < pre.len() && pre[kk].id == x
                                && pre[kk].connected_drone_ids@.contains(y);
                        assert(post[kk].id == x && post[kk].connected_drone_ids@.contains(y));
                    }
                    if x == client_id && y == peer {
                        assert(post[i as int].connected_drone_ids@.contains(peer));
                        assert(client_links(*topology, x, y));
                    }
                }
                if connection_lists_distinct(*old(topology)) {
                    assert forall|kk: int|
                        0 <= kk < post.len() implies distinct_ids(
                        #[trigger] post[kk].connected_drone_ids@,
                    ) by {
                        if kk == i as int {
                            if !already {
                                lemma_distinct_push(pre[kk].connected_drone_ids@, peer);
                            }
                        } else {
                            assert(post[kk] == pre[kk]);
                        }
                    }
                }
            }
        },
        None => {
            let mut fresh_ids: Vec<NodeId> = Vec::new();
            fresh_ids.push(peer);
            topology.client.push(Client { id: client_id, connected_drone_ids: fresh_ids });
            proof {
                let pre = old(topology).client@;
                let post = topology.client@;
                lemma_drone_links_eq(*old(topology), *topology);
                lemma_server_links_eq(*old(topology), *topology);
                assert forall|x: NodeId, y: NodeId|
                    client_links(*topology, x, y) == (client_links(*old(topology), x, y) || (x
                        == client_id && y == peer)) by {
                    if client_links(*topology, x, y) {
                        let kk = choose|kk: int|
                            0 <= kk < post.len() && post[kk].id == x
                                && post[kk].connected_drone_ids@.contains(y);
                        if kk == pre.len() {
                            assert(post[kk].connected_drone_ids@[0] == peer);
                            assert(x == client_id && y == peer);
                        } else {
                            assert(post[kk] == pre[kk]);
                            assert(client_links(*old(topology), x, y));
                        }
                    }
                    if client_links(*old(topology), x, y) {
                        let kk = choose|kk: int|
                            0 <= kk < pre.len() && pre[kk].id == x
                                && pre[kk].connected_drone_ids@.contains(y);
                        assert(post[kk].id == x && post[kk].connected_drone_ids@.contains(y));
                    }
                    if x == client_id && y == peer {
                        assert(post[pre.len() as int].connected_drone_ids@.contains(peer));
                    }
                }
                if connection_lists_distinct(*old(topology)) {
                    assert forall|kk: int|
                        0 <= kk < post.len() implies distinct_ids(
                        #[trigger] post[kk].connected_drone_ids@,
                    ) by {
                        if kk != pre.len() as int {
                            assert(post[kk] == pre[kk]);
                        }
                    }
                }
            }
        },
    }
}

/// Records `peer` as a neighbor of server `server_id` in the view,
/// idempotently, creating the record when the server is new.
pub fn update_server_connections(topology: &mut Config, server_id: NodeId, peer: NodeId)
    ensures
        forall|x: NodeId, y: NodeId| #[trigger]
            links(*final(topology), x, y) <==> (links(*old(topology), x, y) || (x == server_id && y
                == peer)),
        connection_lists_distinct(*old(topology)) ==> connection_lists_distinct(*final(topology)),
{
    let found = find_server_index(&topology.server, server_id);
    match found {
        Some(i) => {
            let already = holds_id(&topology.server[i].connected_drone_ids, peer);
            if !already {
                let entry = vec_index_mut(&mut topology.server, i);
                entry.connected_drone_ids.push(peer);
            }
            proof {
                let pre = old(topology).server@;
                let post = topology.server@;
                lemma_drone_links_eq(*old(topology), *topology);
                lemma_client_links_eq(*old(topology), *topology);
                assert forall|x: NodeId, y: NodeId|
                    server_links(*topology, x, y) == (server_links(*old(topology), x, y) || (x
                        == server_id && y == peer)) by {
                    if server_links(*topology, x, y) {
                        let kk = choose|kk: int|
                            0 <= kk < post.len() && post[kk].id == x
                                && post[kk].connected_drone_ids@.contains(y);
                        if kk == i && !already {
                            if y != peer {
                                assert(pre[kk].connected_drone_ids@.contains(y));
                                assert(server_links(*old(topology), x, y));
                            }
                        } else {
                            assert(post[kk] == pre[kk]);
                            assert(server_links(*old(topology), x, y));
                        }
                    }
                    if server_links(*old(topology), x, y) {
                        let kk = choose|kk: int|
                            0 <= kk < pre.len() && pre[kk].id == x
                                && pre[kk].connected_drone_ids@.contains(y);
                        assert(post[kk].id == x && post[kk].connected_drone_ids@.contains(y));
                    }
                    if x == server_id && y == peer {
                        assert(post[i as int].connected_drone_ids@.contains(peer));
                        assert(server_links(*topology, x, y));
                    }
                }
                if connection_lists_distinct(*old(topology)) {
                    assert forall|kk: int|
                        0 <= kk < post.len() implies distinct_ids(
                        #[trigger] post[kk].connected_drone_ids@,
                    ) by {
                        if kk == i as int {
                            if !already {
                                lemma_distinct_push(pre[kk].connected_drone_ids@, peer);
                            }
                        } else {
                            assert(post[kk] == pre[kk]);
                        }
                    }
                }
            }
        },
        None => {
            let mut fresh_ids: Vec<NodeId> = Vec::new();
            fresh_ids.push(peer);
            topology.server.push(Server { id: server_id, connected_drone_ids: fresh_ids });
            proof {
                let pre = old(topology).server@;
                let post = topology.server@;
                lemma_drone_links_eq(*old(topology), *topology);
                lemma_client_links_eq(*old(topology), *topology);
                assert forall|x: NodeId, y: NodeId|
                    server_links(*topology, x, y) == (server_links(*old(topology), x, y) || (x
                        == server_id && y == peer)) by {
                    if server_links(*topology, x, y) {
                        let kk = choose|kk: int|
                            0 <= kk < post.len() && post[kk].id == x
                                && post[kk].connected_drone_ids@.contains(y);
                        if kk == pre.len() {
                            assert(post[kk].connected_drone_ids@[0] == peer);
                            assert(x == server_id && y == peer);
                        } else {
                            assert(post[kk] == pre[kk]);
                            assert(server_links(*old(topology), x, y));
                        }
                    }
                    if server_links(*old(topology), x, y) {
                        let kk = choose|kk: int|
                            0 <= kk < pre.len() && pre[kk].id == x
                                && pre[kk].connected_drone_ids@.contains(y);
                        assert(post[kk].id == x && post[kk].connected_drone_ids@.contains(y));
                    }
                    if x == server_id && y == peer {
                        assert(post[pre.len() as int].connected_drone_ids@.contains(peer));
                    }
                }
                if connection_lists_distinct(*old(topology)) {
                    assert forall|kk: int|
                        0 <= kk < post.len() implies distinct_ids(
                        #[trigger] post[kk].connected_drone_ids@,
                    ) by {
                        if kk != pre.len() as int {
                            assert(post[kk] == pre[kk]);
                        }
                    }
                }
            }
        },
    }
}

/// Records `peer` as a neighbor of `node` in the view, under `node`'s kind.
pub fn record_link(topology: &mut Config, node: NodeId, kind: NodeType, peer: NodeId)
    ensures
        forall|x: NodeId, y: NodeId| #[trigger]
            links(*final(topology), x, y) <==> (links(*old(topology), x, y) || (x == node && y
                == peer)),
        connection_lists_distinct(*old(topology)) ==> connection_lists_distinct(*final(topology)),
{
    match kind {
        NodeType::Client => update_client_connections(topology, node, peer),
        NodeType::Server => update_server_connections(topology, node, peer),
        NodeType::Drone => update_drone_connections(topology, node, peer),
    }
}

/// Merges a flood response's path trace into the view: afterwards the view
/// records exactly its old edges plus, in both directions, every pair of
/// adjacent trace entries.
pub fn update_topology_with_response(topology: &mut Config, path_trace: &Vec<(NodeId, NodeType)>)
    ensures
        forall|x: NodeId, y: NodeId| #[trigger]
            links(*final(topology), x, y) <==> (links(*old(topology), x, y) || trace_adjacent(
                path_trace@,
                x,
                y,
            )),
        connection_lists_distinct(*old(topology)) ==> connection_lists_distinct(*final(topology)),
{
    let n = path_trace.len();
    if n == 0 {
        return;
    }
    let pairs = n - 1;
    let mut i: usize = 0;
    while i < pairs
        invariant
            i <= pairs,
            pairs == n - 1,
            n == path_trace@.len(),
            n >= 1,
            forall|x: NodeId, y: NodeId| #[trigger]
                links(*topology, x, y) <==> (links(*old(topology), x, y) || trace_adjacent_upto(
                    path_trace@,
                    i as int,
                    x,
                    y,
                )),
            connection_lists_distinct(*old(topology)) ==> connection_lists_distinct(*topology),
        decreases pairs - i,
    {
        let a = path_trace[i];
        let b = path_trace[i + 1];
        let ghost mid0 = *topology;
        record_link(topology, a.0, a.1, b.0);
        let ghost mid1 = *topology;
        record_link(topology, b.0, b.1, a.0);
        proof {
            assert forall|x: NodeId, y: NodeId| #[trigger]
                links(*topology, x, y) <==> (links(*old(topology), x, y) || trace_adjacent_upto(
                    path_trace@,
                    i + 1,
                    x,
                    y,
                )) by {
                let t = path_trace@;
                if links(*topology, x, y) {
                    if links(mid1, x, y) {
                        if links(mid0, x, y) {
                            if !links(*old(topology), x, y) {
                                let w = choose|w: int| #![trigger t[w]]
                                    0 <= w < i && w + 1 < t.len() && ((t[w].0 == x && t[w + 1].0
                                        == y) || (t[w].0 == y && t[w + 1].0 == x));
                                assert(trace_adjacent_upto(t, i + 1, x, y));
                            }
                        } else {
                            assert(x == a.0 && y == b.0);
                            assert(t[i as int].0 == x && t[i + 1].0 == y);
                            assert(trace_adjacent_upto(t, i + 1, x, y));
                        }
                    } else {
                        assert(x == b.0 && y == a.0);
                        assert(t[i as int].0 == y && t[i + 1].0 == x);
                        assert(trace_adjacent_upto(t, i + 1, x, y));
                    }
                }
                if links(*old(topology), x, y) {
                    assert(links(mid0, x, y));
                    assert(links(mid1, x, y));
                    assert(links(*topology, x, y));
                }
                if trace_adjacent_upto(t, i + 1, x, y) {
                    let w = choose|w: int| #![trigger t[w]]
                        0 <= w < i + 1 && w + 1 < t.len() && ((t[w].0 == x && t[w + 1].0 == y) || (
                        t[w].0 == y && t[w + 1].0 == x));
                    if w < i {
                        assert(trace_adjacent_upto(t, i as int, x, y));
                        assert(links(mid0, x, y));
                        assert(links(*topology, x, y));
                    } else {
                        assert(w == i);
                        if t[w].0 == x && t[w + 1].0 == y {
                            assert(links(mid1, x, y));
                            assert(links(*topology, x, y));
                        } else {
                            assert(links(*topology, x, y));
                        }
                    }
                }
            }
        }
        i = i + 1;
    }
    proof {
        assert forall|x: NodeId, y: NodeId| #[trigger]
            trace_adjacent(path_trace@, x, y) == trace_adjacent_upto(
                path_trace@,
                pairs as int,
                x,
                y,
            ) by {
            let t = path_trace@;
            if trace_adjacent(t, x, y) {
                let w = choose|w: int| #![trigger t[w]]
                    0 <= w && w + 1 < t.len() && ((t[w].0 == x && t[w + 1].0 == y) || (t[w].0 == y
                        && t[w + 1].0 == x));
                assert(w < pairs);
                assert(trace_adjacent_upto(t, pairs as int, x, y));
            }
            if trace_adjacent_upto(t, pairs as int, x, y) {
                let w = choose|w: int| #![trigger t[w]]
                    0 <= w < pairs && w + 1 < t.len() && ((t[w].0 == x && t[w + 1].0 == y) || (
                    t[w].0 == y && t[w + 1].0 == x));
                assert(trace_adjacent(t, x, y));
            }
        }
    }
}

} // verus!
