//! The neighbor table of a node: the outbound packet channel of each
//! directly connected node, keyed by its identifier. Keys are unique and
//! kept in insertion order.

use vstd::prelude::*;
use crate::channel::channel_send;
use crate::types::NodeId;
use crate::types::Packet;

verus! {

/// Maps each neighbor's identifier to the send endpoint of its packet
/// channel. The channel endpoints themselves are opaque; the table is
/// specified through the sequence of its keys.
pub struct NeighborTable {
    entries: Vec<(NodeId, crossbeam_channel::Sender<Packet>)>,
}

impl NeighborTable {
    /// The neighbor identifiers, in insertion order.
    pub closed spec fn ids(&self) -> Seq<NodeId> {
        self.entries@.map_values(|e: (NodeId, crossbeam_channel::Sender<Packet>)| e.0)
    }

    /// Whether `id` is a current neighbor.
    pub open spec fn has(&self, id: NodeId) -> bool {
        self.ids().contains(id)
    }

    /// Each neighbor appears once.
    pub open spec fn wf(&self) -> bool {
        forall|i: int, j: int|
            0 <= i < j < self.ids().len() ==> self.ids()[i] != self.ids()[j]
    }

    /// An empty table.
    pub fn new() -> (r: Self)
        ensures
            r.ids() == Seq::<NodeId>::empty(),
            r.wf(),
    {
        let r = NeighborTable { entries: Vec::new() };
        assert(r.ids() =~= Seq::<NodeId>::empty());
        r
    }

    /// The number of neighbors.
    pub fn len(&self) -> (n: usize)
        ensures
            n == self.ids().len(),
    {
        self.entries.len()
    }

    /// The position of `id` in the table, if present.
    fn find(&self, id: NodeId) -> (r: Option<usize>)
        ensures
            match r {
                Some(i) => i < self.ids().len() && self.ids()[i as int] == id,
                None => !self.has(id),
            },
    {
        let n = self.entries.len();
        for i in 0..n
            invariant
                n == self.ids().len(),
                forall|j: int| 0 <= j < i ==> self.ids()[j] != id,
        {
            if self.entries[i].0 == id {
                return Some(i);
            }
        }
        assert(!self.ids().contains(id));
        None
    }

    /// Whether `id` is a current neighbor.
    pub fn contains(&self, id: NodeId) -> (r: bool)
        ensures
            r == self.has(id),
    {
        self.find(id).is_some()
    }

    /// Registers a neighbor. When the identifier is already present the new
    /// endpoint replaces the old one and the key order is unchanged.
    pub fn insert(&mut self, id: NodeId, sender: crossbeam_channel::Sender<Packet>)
        requires
            old(self).wf(),
        ensures
            final(self).wf(),
            final(self).ids() == if old(self).has(id) {
                old(self).ids()
            } else {
                old(self).ids().push(id)
            },
            final(self).has(id),
    {
        let found = self.find(id);
        match found {
            Some(i) => {
                self.entries[i] = (id, sender);
                assert(self.ids() =~= old(self).ids());
            },
            None => {
                self.entries.push((id, sender));
                assert(self.ids() =~= old(self).ids().push(id));
            },
        }
        assert(self.ids().last() == id || self.ids().contains(id));
    }

    /// Unregisters a neighbor; reports whether it was present.
    pub fn remove(&mut self, id: NodeId) -> (removed: bool)
        requires
            old(self).wf(),
        ensures
            final(self).wf(),
            removed == old(self).has(id),
            forall|x: NodeId| final(self).has(x) == (old(self).has(x) && x != id),
            final(self).ids().len() == old(self).ids().len() - (if old(self).has(id) {
                1int
            } else {
                0int
            }),
    {
        let found = self.find(id);
        match found {
            Some(i) => {
                let ghost pre = self.ids();
                self.entries.remove(i);
                assert(self.ids() =~= pre.remove(i as int));
                proof {
                    let post = self.ids();
                    assert forall|x: NodeId| post.contains(x) == (pre.contains(x) && x != id) by {
                        if post.contains(x) {
                            let j = choose|j: int| 0 <= j < post.len() && post[j] == x;
                            if j < i {
                                assert(pre[j] == x);
                            } else {
                                assert(pre[j + 1] == x);
                            }
                            assert(pre.contains(x));
                            assert(x != id);
                        }
                        if pre.contains(x) && x != id {
                            let j = choose|j: int| 0 <= j < pre.len() && pre[j] == x;
                            if j < i {
                                assert(post[j] == x);
                            } else {
                                assert(j != i);
                                assert(post[j - 1] == x);
                            }
                            assert(post.contains(x));
                        }
                    }
                }
                true
            },
            None => {
                false
            },
        }
    }

    /// The send endpoint of a neighbor's packet channel.
    pub fn get(&self, id: NodeId) -> (r: Option<&crossbeam_channel::Sender<Packet>>)
        ensures
            r.is_some() == self.has(id),
    {
        let found = self.find(id);
        match found {
            Some(i) => Some(&self.entries[i].1),
            None => None,
        }
    }

    /// The identifier at position `i` of the key order.
    pub fn id_at(&self, i: usize) -> (r: NodeId)
        requires
            i < self.ids().len(),
        ensures
            r == self.ids()[i as int],
    {
        self.entries[i].0
    }

    /// Sends `packet` to the neighbor at position `i` of the key order;
    /// reports whether its channel accepted it.
    pub fn send_at(&self, i: usize, packet: Packet) -> (accepted: bool)
        requires
            i < self.ids().len(),
    {
        channel_send(&self.entries[i].1, packet)
    }

    /// Sends `packet` to neighbor `id`; reports whether a channel for `id`
    /// exists and accepted it.
    pub fn send_to(&self, id: NodeId, packet: Packet) -> (accepted: bool)
        ensures
            accepted ==> self.has(id),
    {
        let found = self.find(id);
        match found {
            Some(i) => channel_send(&self.entries[i].1, packet),
            None => false,
        }
    }
}

} // verus!
