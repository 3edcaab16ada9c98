use vstd::prelude::*;
use crate::model::{
    connect_model, connect_result, deliver_one, deliver_upto, drop_target, frob_model, has_node,
    ids_ascending, lemma_deliver_frame, lemma_drop_target_clears, lemma_drop_target_single_writer,
    lemma_index_unique, lemma_purge_single_writer, lemma_same_ids_lookup, node_index, node_of,
    purge_invalid, remove_model, resample_all, resample_one, same_ids, same_target, single_writer,
    step_model, targets, update_all, ConnectionError, ContextModel, WireConnection,
};
use crate::node::{AnyNode, WireNode};
use crate::value::WireValue;

verus! {

/// Owns the nodes of a graph and the connections between them, and advances
/// the graph one tick at a time.
pub struct WireContext {
    nodes: Vec<(u32, AnyNode)>,
    connections: Vec<WireConnection>,
    next_id: u32,
}

impl View for WireContext {
    type V = ContextModel;

    closed spec fn view(&self) -> ContextModel {
        ContextModel { nodes: self.nodes@, connections: self.connections@, next_id: self.next_id }
    }
}

impl WireContext {
    pub fn new() -> (r: WireContext)
        ensures
            r@.wf(),
            r@.nodes.len() == 0,
            r@.connections.len() == 0,
            r@.next_id == 0,
    {
        WireContext { nodes: Vec::new(), connections: Vec::new(), next_id: 0 }
    }

    /// Binary search for the stored position of a node.
    fn find_node(&self, id: u32) -> (r: Option<usize>)
        requires
            self@.wf(),
        ensures
            match r {
                Some(i) => i < self@.nodes.len() && self@.nodes[i as int].0 == id
                    && has_node(self@.nodes, id) && node_index(self@.nodes, id) == i,
                None => !has_node(self@.nodes, id),
            },
    {
        let mut lo: usize = 0;
        let mut hi: usize = self.nodes.len();
        while lo < hi
            invariant
                self@.wf(),
                lo <= hi <= self.nodes@.len(),
                forall|k: int| 0 <= k < lo ==> self.nodes@[k].0 < id,
                forall|k: int| hi <= k < self.nodes@.len() ==> self.nodes@[k].0 > id,
            decreases hi - lo,
        {
            let mid = lo + (hi - lo) / 2;
            let k = self.nodes[mid].0;
            if k == id {
                proof {
                    lemma_index_unique(self@.nodes, mid as int);
                }
                return Some(mid);
            } else if k < id {
                lo = mid + 1;
            } else {
                hi = mid;
            }
        }
        None
    }

    /// Adds a node under the next identifier and returns that identifier.
    pub fn add_node(&mut self, node: AnyNode) -> (r: u32)
        requires
            old(self)@.wf(),
            old(self)@.next_id < u32::MAX,
        ensures
            final(self)@.wf(),
            r == old(self)@.next_id,
            final(self)@.next_id == old(self)@.next_id + 1,
            final(self)@.nodes == old(self)@.nodes.push((r, node)),
            final(self)@.connections == old(self)@.connections,
            node_of(final(self)@.nodes, r) == Some(node),
            forall|id: u32| id != r ==> #[trigger] node_of(final(self)@.nodes, id) == node_of(old(self)@.nodes, id),
    {
        let id = self.next_id;
        self.next_id = self.next_id + 1;
        self.nodes.push((id, node));
        proof {
            let n = self@.nodes;
            let o = old(self)@.nodes;
            lemma_index_unique(n, o.len() as int);
            assert forall|other: u32| other != id implies #[trigger] node_of(n, other) == node_of(o, other) by {
                if has_node(o, other) {
                    let i = node_index(o, other);
                    assert(n[i] == o[i]);
                    lemma_index_unique(n, i);
                }
                if has_node(n, other) {
                    let i = node_index(n, other);
                    assert(i < o.len());
                    assert(o[i] == n[i]);
                }
            }
        }
        id
    }

    /// Removes the node with the given identifier, if there is one. Its
    /// connections stay until the next ticks clear them.
    pub fn remove_node(&mut self, node_id: u32)
        requires
            old(self)@.wf(),
        ensures
            final(self)@.wf(),
            final(self)@ == remove_model(old(self)@, node_id),
            node_of(final(self)@.nodes, node_id) is None,
            forall|id: u32| id != node_id ==> #[trigger] node_of(final(self)@.nodes, id) == node_of(old(self)@.nodes, id),
    {
        match self.find_node(node_id) {
            Some(i) => {
                self.nodes.remove(i);
                assert(ids_ascending(self@.nodes)) by {
                    assert forall|a: int, b: int| 0 <= a < b < self@.nodes.len() implies
                        self@.nodes[a].0 < self@.nodes[b].0 by {
                        let o = old(self)@.nodes;
                        let a0 = if a < i { a } else { a + 1 };
                        let b0 = if b < i { b } else { b + 1 };
                        assert(self@.nodes[a] == o[a0]);
                        assert(self@.nodes[b] == o[b0]);
                    }
                }
                assert(forall|k: int| 0 <= k < self@.nodes.len() ==> self@.nodes[k] == old(self)@.nodes[if k < i { k } else { k + 1 }]);
                proof {
                    let n = self@.nodes;
                    let o = old(self)@.nodes;
                    assert forall|id: u32| #[trigger] node_of(n, id) == (if id == node_id { None } else { node_of(o, id) }) by {
                        if has_node(n, id) {
                            let k = node_index(n, id);
                            let k0 = if k < i { k } else { k + 1 };
                            assert(n[k] == o[k0]);
                            lemma_index_unique(o, k0);
                            lemma_index_unique(n, k);
                        }
                        if has_node(o, id) && id != node_id {
                            let k0 = node_index(o, id);
                            assert(k0 != i);
                            let k = if k0 < i { k0 } else { k0 - 1 };
                            assert(n[k] == o[k0]);
                            lemma_index_unique(n, k);
                        }
                    }
                }
            },
            None => {},
        }
    }

    pub fn get_node(&self, node_id: u32) -> (r: Option<&AnyNode>)
        requires
            self@.wf(),
        ensures
            r matches Some(n) ==> node_of(self@.nodes, node_id) == Some(*n),
            r is None ==> node_of(self@.nodes, node_id) is None,
    {
        match self.find_node(node_id) {
            Some(i) => Some(&self.nodes[i].1),
            None => None,
        }
    }

    /// Connects output port `from_node.1` of node `from_node.0` to input port
    /// `to_node.1` of node `to_node.0`, replacing whatever fed that input.
    /// Nothing changes when the request is refused.
    pub fn add_connection(&mut self, from_node: (u32, u32), to_node: (u32, u32)) -> (r: Result<(), ConnectionError>)
        requires
            old(self)@.wf(),
        ensures
            final(self)@.wf(),
            r == connect_result(old(self)@, from_node, to_node),
            final(self)@ == connect_model(old(self)@, from_node, to_node),
    {
        let src = match self.find_node(from_node.0) {
            Some(i) => i,
            None => return Err(ConnectionError::UnknownNode { id: from_node.0 }),
        };
        let dst = match self.find_node(to_node.0) {
            Some(i) => i,
            None => return Err(ConnectionError::UnknownNode { id: to_node.0 }),
        };
        if from_node.1 >= self.nodes[src].1.get_num_outputs() {
            return Err(ConnectionError::InvalidSourcePort { id: from_node.0, port: from_node.1 });
        }
        if to_node.1 >= self.nodes[dst].1.get_num_inputs() {
            return Err(ConnectionError::InvalidDestPort { id: to_node.0, port: to_node.1 });
        }
        let mut kept: Vec<WireConnection> = Vec::new();
        let mut i: usize = 0;
        while i < self.connections.len()
            invariant
                i <= self.connections@.len(),
                kept@ == drop_target(self.connections@.take(i as int), to_node.0, to_node.1),
            decreases self.connections@.len() - i,
        {
            let c = self.connections[i];
            if !(c.output_node == to_node.0 && c.output_port == to_node.1) {
                kept.push(c);
            }
            assert(self.connections@.take(i + 1).drop_last() =~= self.connections@.take(i as int));
            i = i + 1;
        }
        assert(self.connections@.take(i as int) =~= self.connections@);
        proof {
            lemma_drop_target_single_writer(self.connections@, to_node.0, to_node.1);
            lemma_drop_target_clears(self.connections@, to_node.0, to_node.1);
        }
        let ghost before_push = kept@;
        kept.push(
            WireConnection {
                input_node: from_node.0,
                output_node: to_node.0,
                input_port: from_node.1,
                output_port: to_node.1,
                value: WireValue::Null,
                changed: false,
                invalid: false,
            },
        );
        assert(single_writer(kept@)) by {
            assert forall|a: int, b: int| 0 <= a < b < kept@.len()
                implies !same_target(#[trigger] kept@[a], #[trigger] kept@[b]) by {
                if b == before_push.len() {
                    assert(!targets(before_push[a], to_node.0, to_node.1));
                } else {
                    assert(kept@[a] == before_push[a] && kept@[b] == before_push[b]);
                }
            }
        }
        self.connections = kept;
        Ok(())
    }

    /// Hands a manual stimulus to the node with the given identifier, if there
    /// is one. Connected nodes see its effect from the next tick on.
    pub fn frob(&mut self, node_id: u32)
        requires
            old(self)@.wf(),
        ensures
            final(self)@.wf(),
            final(self)@ == frob_model(old(self)@, node_id),
    {
        match self.find_node(node_id) {
            Some(i) => {
                self.nodes[i].1.on_frob();
                assert(self@.nodes =~= frob_model(old(self)@, node_id).nodes);
            },
            None => {},
        }
    }

    /// Advances the graph by one tick.
    ///
    /// First every connection with a pending value delivers it, and those
    /// whose destination has gone are dropped; then every node takes its own
    /// tick, in ascending identifier order; then every connection samples its
    /// source again and marks a new value for delivery on the next tick.
    pub fn step(&mut self)
        requires
            old(self)@.wf(),
        ensures
            final(self)@.wf(),
            final(self)@ == step_model(old(self)@),
            forall|id: u32| #[trigger] has_node(final(self)@.nodes, id) == has_node(old(self)@.nodes, id),
    {
        let ghost n0 = self@.nodes;
        let ghost c0 = self@.connections;
        let len = self.connections.len();
        let mut i: usize = 0;
        proof {
            lemma_deliver_frame(n0, c0, 0);
        }
        while i < len
            invariant
                i <= len,
                len == c0.len(),
                ids_ascending(n0),
                self@.wf(),
                self@.next_id == old(self)@.next_id,
                deliver_upto(n0, c0, i as nat) == (self@.nodes, self@.connections),
            decreases len - i,
        {
            proof {
                lemma_deliver_frame(n0, c0, i as nat);
            }
            let c = self.connections[i];
            let ghost before = self@.nodes;
            let ghost before_conns = self@.connections;
            match self.find_node(c.output_node) {
                Some(j) => {
                    if c.changed {
                        self.nodes[j].1.on_input_changed(c.output_port, c.value);
                        self.connections[i] = WireConnection { changed: false, ..c };
                    }
                },
                None => {
                    self.connections[i] = WireConnection { invalid: true, ..c };
                },
            }
            assert(self@.nodes =~= deliver_one(before, c).0);
            assert(single_writer(self@.connections)) by {
                assert forall|a: int, b: int| 0 <= a < b < self@.connections.len()
                    implies !same_target(#[trigger] self@.connections[a], #[trigger] self@.connections[b]) by {
                    assert(same_target(self@.connections[a], before_conns[a]));
                    assert(same_target(self@.connections[b], before_conns[b]));
                }
            }
            proof {
                lemma_deliver_frame(n0, c0, (i + 1) as nat);
            }
            i = i + 1;
        }
        let mut kept: Vec<WireConnection> = Vec::new();
        let mut i: usize = 0;
        while i < self.connections.len()
            invariant
                i <= self.connections@.len(),
                kept@ == purge_invalid(self.connections@.take(i as int)),
            decreases self.connections@.len() - i,
        {
            let c = self.connections[i];
            if !c.invalid {
                kept.push(c);
            }
            assert(self.connections@.take(i + 1).drop_last() =~= self.connections@.take(i as int));
            i = i + 1;
        }
        assert(self.connections@.take(i as int) =~= self.connections@);
        proof {
            lemma_purge_single_writer(self.connections@);
        }
        self.connections = kept;
        let ghost n1 = self@.nodes;
        let ghost cp = self@.connections;
        let mut j: usize = 0;
        while j < self.nodes.len()
            invariant
                self@.connections == cp,
                self@.next_id == old(self)@.next_id,
                (ContextModel { nodes: n1, connections: cp, next_id: self@.next_id }).wf(),
                j <= self.nodes@.len(),
                self.nodes@.len() == n1.len(),
                forall|k: int| 0 <= k < j ==> self.nodes@[k] == (n1[k].0, n1[k].1.spec_updated()),
                forall|k: int| j <= k < n1.len() ==> self.nodes@[k] == n1[k],
            decreases n1.len() - j,
        {
            self.nodes[j].1.update();
            j = j + 1;
        }
        assert(self@.nodes =~= update_all(n1));
        assert(same_ids(n1, self@.nodes));
        let ghost n2 = self@.nodes;
        let ghost c1 = self@.connections;
        let mut i: usize = 0;
        while i < self.connections.len()
            invariant
                self@.wf(),
                self@.next_id == old(self)@.next_id,
                self@.nodes == n2,
                i <= self.connections@.len(),
                self.connections@.len() == c1.len(),
                forall|k: int| 0 <= k < i ==> self.connections@[k] == resample_one(n2, c1[k]),
                forall|k: int| i <= k < c1.len() ==> self.connections@[k] == c1[k],
            decreases c1.len() - i,
        {
            let c = self.connections[i];
            let ghost before_conns = self@.connections;
            match self.find_node(c.input_node) {
                Some(j) => {
                    let v = self.nodes[j].1.get_output(c.input_port);
                    if v != c.value {
                        self.connections[i] = WireConnection { value: v, changed: true, ..c };
                    }
                },
                None => {
                    if !c.value.is_null() {
                        self.connections[i] = WireConnection {
                            value: WireValue::Null,
                            changed: true,
                            invalid: true,
                            ..c
                        };
                    }
                },
            }
            assert(single_writer(self@.connections)) by {
                assert forall|a: int, b: int| 0 <= a < b < self@.connections.len()
                    implies !same_target(#[trigger] self@.connections[a], #[trigger] self@.connections[b]) by {
                    assert(same_target(self@.connections[a], before_conns[a]));
                    assert(same_target(self@.connections[b], before_conns[b]));
                }
            }
            i = i + 1;
        }
        assert(self@.connections =~= resample_all(n2, c1));
        assert(n1 == deliver_upto(n0, c0, c0.len()).0);
        assert(c1 == purge_invalid(deliver_upto(n0, c0, c0.len()).1));
        assert(n2 == update_all(n1));
        proof {
            lemma_deliver_frame(n0, c0, c0.len());
            assert forall|id: u32| #[trigger] has_node(self@.nodes, id) == has_node(n0, id) by {
                lemma_same_ids_lookup(n0, self@.nodes, id);
            }
        }
    }

    /// Gives mutable access to the node with the given identifier, if there
    /// is one; whatever is done through it lands at that node's place.
    pub fn get_node_mut(&mut self, node_id: u32) -> (r: Option<&mut AnyNode>)
        requires
            old(self)@.wf(),
        ensures
            r matches Some(n) ==> {
                &&& node_of(old(self)@.nodes, node_id) == Some(*n)
                &&& final(self)@ == (ContextModel {
                    nodes: old(self)@.nodes.update(
                        node_index(old(self)@.nodes, node_id),
                        (node_id, *final(n)),
                    ),
                    ..old(self)@
                })
            },
            r is None ==> node_of(old(self)@.nodes, node_id) is None && final(self)@ == old(self)@,
    {
        match self.find_node(node_id) {
            Some(i) => Some(&mut self.nodes[i].1),
            None => None,
        }
    }

    /// The connections, in table order.
    pub fn connections(&self) -> (r: &Vec<WireConnection>)
        ensures
            r@ == self@.connections,
    {
        &self.connections
    }

    pub fn next_id(&self) -> (r: u32)
        ensures
            r == self@.next_id,
    {
        self.next_id
    }
}

} // verus!
