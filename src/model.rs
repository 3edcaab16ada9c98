use vstd::prelude::*;
use crate::node::{AnyNode, WireNode};
use crate::value::WireValue;

verus! {

/// A directed edge from an output port of one node to an input port of another,
/// with the value last sampled from the source.
///
/// `changed` says that `value` has not been delivered yet; `invalid` says that
/// an endpoint has gone and the edge waits to be purged.
#[derive(Copy, Clone, Debug, PartialEq, Eq, Structural)]
pub struct WireConnection {
    pub input_node: u32,
    pub output_node: u32,
    pub input_port: u32,
    pub output_port: u32,
    pub value: WireValue,
    pub changed: bool,
    pub invalid: bool,
}

/// Why a connection could not be made.
#[derive(Copy, Clone, Debug, PartialEq, Eq, Structural)]
pub enum ConnectionError {
    UnknownNode { id: u32 },
    InvalidSourcePort { id: u32, port: u32 },
    InvalidDestPort { id: u32, port: u32 },
}

/// The whole state of a graph: its nodes in storage order, its connections
/// in table order, and the next identifier to hand out.
pub ghost struct ContextModel {
    pub nodes: Seq<(u32, AnyNode)>,
    pub connections: Seq<WireConnection>,
    pub next_id: u32,
}

pub open spec fn has_node(nodes: Seq<(u32, AnyNode)>, id: u32) -> bool {
    exists|i: int| 0 <= i < nodes.len() && nodes[i].0 == id
}

/// Where the node with identifier `id` is stored (meaningful when it exists).
pub open spec fn node_index(nodes: Seq<(u32, AnyNode)>, id: u32) -> int {
    choose|i: int| 0 <= i < nodes.len() && nodes[i].0 == id
}

/// The node with identifier `id`, if there is one.
pub open spec fn node_of(nodes: Seq<(u32, AnyNode)>, id: u32) -> Option<AnyNode> {
    if has_node(nodes, id) {
        Some(nodes[node_index(nodes, id)].1)
    } else {
        None
    }
}

pub open spec fn ids_ascending(nodes: Seq<(u32, AnyNode)>) -> bool {
    forall|i: int, j: int| 0 <= i < j < nodes.len() ==> nodes[i].0 < nodes[j].0
}

pub open spec fn same_ids(a: Seq<(u32, AnyNode)>, b: Seq<(u32, AnyNode)>) -> bool {
    a.len() == b.len() && forall|i: int| 0 <= i < a.len() ==> a[i].0 == b[i].0
}

pub open spec fn targets(c: WireConnection, node: u32, port: u32) -> bool {
    c.output_node == node && c.output_port == port
}

/// Two connections that feed the same input port.
pub open spec fn same_target(a: WireConnection, b: WireConnection) -> bool {
    a.output_node == b.output_node && a.output_port == b.output_port
}

/// No input port is fed by more than one connection.
pub open spec fn single_writer(s: Seq<WireConnection>) -> bool {
    forall|i: int, j: int| 0 <= i < j < s.len() ==> !same_target(#[trigger] s[i], #[trigger] s[j])
}

impl ContextModel {
    /// Identifiers are stored in ascending order and all lie below `next_id`,
    /// and each input port has at most one writer.
    pub open spec fn wf(self) -> bool {
        &&& ids_ascending(self.nodes)
        &&& single_writer(self.connections)
        &&& forall|i: int| 0 <= i < self.nodes.len() ==> self.nodes[i].0 < self.next_id
    }
}

// ---- delivery ----

pub open spec fn with_invalid(c: WireConnection) -> WireConnection {
    WireConnection { invalid: true, ..c }
}

pub open spec fn delivered(c: WireConnection) -> WireConnection {
    WireConnection { changed: false, ..c }
}

/// Delivery of one connection: mark it invalid when its destination has
/// gone, otherwise hand over a pending value.
pub open spec fn deliver_one(nodes: Seq<(u32, AnyNode)>, c: WireConnection) -> (Seq<(u32, AnyNode)>, WireConnection) {
    if !has_node(nodes, c.output_node) {
        (nodes, with_invalid(c))
    } else if c.changed {
        let i = node_index(nodes, c.output_node);
        (nodes.update(i, (nodes[i].0, nodes[i].1.spec_input_changed(c.output_port, c.value))), delivered(c))
    } else {
        (nodes, c)
    }
}

/// The state after delivery over the first `k` connections, in table order.
pub open spec fn deliver_upto(nodes: Seq<(u32, AnyNode)>, conns: Seq<WireConnection>, k: nat) -> (Seq<(u32, AnyNode)>, Seq<WireConnection>)
    decreases k,
{
    if k == 0 || k > conns.len() {
        (nodes, conns)
    } else {
        let prev = deliver_upto(nodes, conns, (k - 1) as nat);
        let r = deliver_one(prev.0, prev.1[k - 1]);
        (r.0, prev.1.update(k - 1, r.1))
    }
}

/// The connections that are not marked invalid, in their order.
pub open spec fn purge_invalid(s: Seq<WireConnection>) -> Seq<WireConnection>
    decreases s.len(),
{
    if s.len() == 0 {
        s
    } else {
        let rest = purge_invalid(s.drop_last());
        if s.last().invalid {
            rest
        } else {
            rest.push(s.last())
        }
    }
}

/// Every node after its own tick.
pub open spec fn update_all(nodes: Seq<(u32, AnyNode)>) -> Seq<(u32, AnyNode)> {
    nodes.map_values(|p: (u32, AnyNode)| (p.0, p.1.spec_updated()))
}

/// A connection after its source has been sampled again.
pub open spec fn resample_one(nodes: Seq<(u32, AnyNode)>, c: WireConnection) -> WireConnection {
    if !has_node(nodes, c.input_node) {
        if c.value != WireValue::Null {
            WireConnection { value: WireValue::Null, changed: true, invalid: true, ..c }
        } else {
            c
        }
    } else {
        let v = nodes[node_index(nodes, c.input_node)].1.spec_output(c.input_port);
        if v != c.value {
            WireConnection { value: v, changed: true, ..c }
        } else {
            c
        }
    }
}

pub open spec fn resample_all(nodes: Seq<(u32, AnyNode)>, conns: Seq<WireConnection>) -> Seq<WireConnection> {
    conns.map_values(|c: WireConnection| resample_one(nodes, c))
}

/// One tick: deliver, purge, update, resample.
pub open spec fn step_model(m: ContextModel) -> ContextModel {
    let d = deliver_upto(m.nodes, m.connections, m.connections.len());
    let nodes = update_all(d.0);
    ContextModel {
        nodes,
        connections: resample_all(nodes, purge_invalid(d.1)),
        next_id: m.next_id,
    }
}

/// The state after `n` ticks.
pub open spec fn steps(m: ContextModel, n: nat) -> ContextModel
    decreases n,
{
    if n == 0 {
        m
    } else {
        step_model(steps(m, (n - 1) as nat))
    }
}

// ---- topology changes ----

/// The connections that do not end at the given input port, in their order.
pub open spec fn drop_target(s: Seq<WireConnection>, node: u32, port: u32) -> Seq<WireConnection>
    decreases s.len(),
{
    if s.len() == 0 {
        s
    } else {
        let rest = drop_target(s.drop_last(), node, port);
        if targets(s.last(), node, port) {
            rest
        } else {
            rest.push(s.last())
        }
    }
}

pub open spec fn fresh_connection(from: (u32, u32), to: (u32, u32)) -> WireConnection {
    WireConnection {
        input_node: from.0,
        output_node: to.0,
        input_port: from.1,
        output_port: to.1,
        value: WireValue::Null,
        changed: false,
        invalid: false,
    }
}

/// The outcome of asking for a connection from `from` to `to`.
pub open spec fn connect_result(m: ContextModel, from: (u32, u32), to: (u32, u32)) -> Result<(), ConnectionError> {
    if !has_node(m.nodes, from.0) {
        Err(ConnectionError::UnknownNode { id: from.0 })
    } else if !has_node(m.nodes, to.0) {
        Err(ConnectionError::UnknownNode { id: to.0 })
    } else if from.1 as nat >= node_of(m.nodes, from.0).unwrap().spec_num_outputs() {
        Err(ConnectionError::InvalidSourcePort { id: from.0, port: from.1 })
    } else if to.1 as nat >= node_of(m.nodes, to.0).unwrap().spec_num_inputs() {
        Err(ConnectionError::InvalidDestPort { id: to.0, port: to.1 })
    } else {
        Ok(())
    }
}

/// The state after asking for a connection from `from` to `to`: unchanged
/// on failure, otherwise the old writer of `to` replaced by the new edge.
pub open spec fn connect_model(m: ContextModel, from: (u32, u32), to: (u32, u32)) -> ContextModel {
    if connect_result(m, from, to).is_ok() {
        ContextModel {
            connections: drop_target(m.connections, to.0, to.1).push(fresh_connection(from, to)),
            ..m
        }
    } else {
        m
    }
}

pub open spec fn remove_model(m: ContextModel, id: u32) -> ContextModel {
    if has_node(m.nodes, id) {
        ContextModel { nodes: m.nodes.remove(node_index(m.nodes, id)), ..m }
    } else {
        m
    }
}

pub open spec fn frob_model(m: ContextModel, id: u32) -> ContextModel {
    if has_node(m.nodes, id) {
        let i = node_index(m.nodes, id);
        ContextModel { nodes: m.nodes.update(i, (id, m.nodes[i].1.spec_frobbed())), ..m }
    } else {
        m
    }
}

// ---- lemmas ----

/// With ascending identifiers, the stored position of an identifier is unique.
pub proof fn lemma_index_unique(nodes: Seq<(u32, AnyNode)>, i: int)
    requires
        ids_ascending(nodes),
        0 <= i < nodes.len(),
    ensures
        has_node(nodes, nodes[i].0),
        node_index(nodes, nodes[i].0) == i,
{
    let id = nodes[i].0;
    assert(nodes[i].0 == id);
    let j = node_index(nodes, id);
    if j < i {
        assert(nodes[j].0 < nodes[i].0);
    } else if j > i {
        assert(nodes[i].0 < nodes[j].0);
    }
}

/// Lookup depends on the identifiers alone.
pub proof fn lemma_same_ids_lookup(a: Seq<(u32, AnyNode)>, b: Seq<(u32, AnyNode)>, id: u32)
    requires
        ids_ascending(a),
        same_ids(a, b),
    ensures
        ids_ascending(b),
        has_node(a, id) == has_node(b, id),
        has_node(a, id) ==> node_index(a, id) == node_index(b, id),
{
    if has_node(a, id) {
        let i = node_index(a, id);
        assert(b[i].0 == id);
        lemma_index_unique(b, i);
    }
    if has_node(b, id) {
        let i = node_index(b, id);
        assert(a[i].0 == id);
    }
}

/// Delivery keeps the identifiers of the nodes and leaves the connections
/// from position `k` on as they were.
pub proof fn lemma_deliver_frame(nodes: Seq<(u32, AnyNode)>, conns: Seq<WireConnection>, k: nat)
    requires
        ids_ascending(nodes),
        k <= conns.len(),
    ensures
        same_ids(nodes, deliver_upto(nodes, conns, k).0),
        deliver_upto(nodes, conns, k).1.len() == conns.len(),
        forall|j: int| k <= j < conns.len() ==> deliver_upto(nodes, conns, k).1[j] == conns[j],
    decreases k,
{
    if k > 0 {
        lemma_deliver_frame(nodes, conns, (k - 1) as nat);
        let prev = deliver_upto(nodes, conns, (k - 1) as nat);
        let c = prev.1[k - 1];
        if has_node(prev.0, c.output_node) {
            let i = node_index(prev.0, c.output_node);
            assert(0 <= i < prev.0.len());
        }
    }
}

/// Every connection kept by the purge is a valid one of the input.
pub proof fn lemma_purge_members(s: Seq<WireConnection>)
    ensures
        forall|k: int| 0 <= k < purge_invalid(s).len() ==> exists|j: int|
            0 <= j < s.len() && #[trigger] purge_invalid(s)[k] == s[j] && !s[j].invalid,
    decreases s.len(),
{
    if s.len() > 0 {
        let rest = s.drop_last();
        lemma_purge_members(rest);
        assert forall|k: int| 0 <= k < purge_invalid(s).len() implies exists|j: int|
            0 <= j < s.len() && #[trigger] purge_invalid(s)[k] == s[j] && !s[j].invalid by {
            if k < purge_invalid(rest).len() {
                let j = choose|j: int| 0 <= j < rest.len() && purge_invalid(rest)[k] == rest[j] && !rest[j].invalid;
                assert(s[j] == rest[j]);
            } else {
                assert(purge_invalid(s)[k] == s[s.len() - 1]);
            }
        }
    }
}

/// After delivery over the first `k` connections, each of them either still
/// has its destination or is marked invalid; endpoints never change.
pub proof fn lemma_deliver_marks(nodes: Seq<(u32, AnyNode)>, conns: Seq<WireConnection>, k: nat)
    requires
        ids_ascending(nodes),
        k <= conns.len(),
    ensures
        forall|j: int| 0 <= j < conns.len() ==> {
            let d = #[trigger] deliver_upto(nodes, conns, k).1[j];
            &&& d.output_node == conns[j].output_node
            &&& d.output_port == conns[j].output_port
            &&& d.input_node == conns[j].input_node
            &&& (j < k && !has_node(nodes, d.output_node)) ==> d.invalid
        },
    decreases k,
{
    lemma_deliver_frame(nodes, conns, k);
    if k > 0 {
        lemma_deliver_marks(nodes, conns, (k - 1) as nat);
        lemma_deliver_frame(nodes, conns, (k - 1) as nat);
        let prev = deliver_upto(nodes, conns, (k - 1) as nat);
        lemma_same_ids_has(nodes, prev.0, prev.1[k - 1].output_node);
    }
}

/// Whether a node exists depends on the identifiers alone.
pub proof fn lemma_same_ids_has(a: Seq<(u32, AnyNode)>, b: Seq<(u32, AnyNode)>, id: u32)
    requires
        same_ids(a, b),
    ensures
        has_node(a, id) == has_node(b, id),
{
    if has_node(a, id) {
        let i = node_index(a, id);
        assert(b[i].0 == id);
    }
    if has_node(b, id) {
        let i = node_index(b, id);
        assert(a[i].0 == id);
    }
}


/// Every connection kept by dropping the writers of a port is one of the input.
pub proof fn lemma_drop_target_members(s: Seq<WireConnection>, node: u32, port: u32)
    ensures
        forall|k: int| 0 <= k < drop_target(s, node, port).len() ==> exists|j: int|
            0 <= j < s.len() && #[trigger] drop_target(s, node, port)[k] == s[j]
                && !targets(s[j], node, port),
    decreases s.len(),
{
    if s.len() > 0 {
        let rest = s.drop_last();
        lemma_drop_target_members(rest, node, port);
        assert forall|k: int| 0 <= k < drop_target(s, node, port).len() implies exists|j: int|
            0 <= j < s.len() && #[trigger] drop_target(s, node, port)[k] == s[j]
                && !targets(s[j], node, port) by {
            if k < drop_target(rest, node, port).len() {
                let j = choose|j: int| 0 <= j < rest.len() && drop_target(rest, node, port)[k] == rest[j]
                    && !targets(rest[j], node, port);
                assert(s[j] == rest[j]);
            } else {
                assert(drop_target(s, node, port)[k] == s[s.len() - 1]);
            }
        }
    }
}

/// Dropping the writers of a port leaves none for that port.
pub proof fn lemma_drop_target_clears(s: Seq<WireConnection>, node: u32, port: u32)
    ensures
        forall|k: int| 0 <= k < drop_target(s, node, port).len()
            ==> !targets(#[trigger] drop_target(s, node, port)[k], node, port),
    decreases s.len(),
{
    if s.len() > 0 {
        let rest = drop_target(s.drop_last(), node, port);
        lemma_drop_target_clears(s.drop_last(), node, port);
        assert forall|k: int| 0 <= k < drop_target(s, node, port).len()
            implies !targets(#[trigger] drop_target(s, node, port)[k], node, port) by {
            if k < rest.len() {
                assert(drop_target(s, node, port)[k] == rest[k]);
            }
        }
    }
}

/// Dropping the writers of a port keeps at most one writer per port.
pub proof fn lemma_drop_target_single_writer(s: Seq<WireConnection>, node: u32, port: u32)
    requires
        single_writer(s),
    ensures
        single_writer(drop_target(s, node, port)),
    decreases s.len(),
{
    lemma_drop_target_members(s, node, port);
    if s.len() > 0 {
        let rest = s.drop_last();
        assert(single_writer(rest)) by {
            assert forall|i: int, j: int| 0 <= i < j < rest.len() implies !same_target(#[trigger] rest[i], #[trigger] rest[j]) by {
                assert(rest[i] == s[i] && rest[j] == s[j]);
            }
        }
        lemma_drop_target_single_writer(rest, node, port);
        lemma_drop_target_members(rest, node, port);
        let d = drop_target(rest, node, port);
        if !targets(s.last(), node, port) {
            assert forall|i: int, j: int| 0 <= i < j < drop_target(s, node, port).len()
                implies !same_target(#[trigger] drop_target(s, node, port)[i], #[trigger] drop_target(s, node, port)[j]) by {
                if j == d.len() {
                    let k = choose|k: int| 0 <= k < rest.len() && d[i] == rest[k] && !targets(rest[k], node, port);
                    assert(s[k] == rest[k]);
                } else {
                    assert(drop_target(s, node, port)[i] == d[i]);
                    assert(drop_target(s, node, port)[j] == d[j]);
                }
            }
        }
    }
}

/// Purging keeps at most one writer per port.
pub proof fn lemma_purge_single_writer(s: Seq<WireConnection>)
    requires
        single_writer(s),
    ensures
        single_writer(purge_invalid(s)),
    decreases s.len(),
{
    if s.len() > 0 {
        let rest = s.drop_last();
        assert(single_writer(rest)) by {
            assert forall|i: int, j: int| 0 <= i < j < rest.len() implies !same_target(#[trigger] rest[i], #[trigger] rest[j]) by {
                assert(rest[i] == s[i] && rest[j] == s[j]);
            }
        }
        lemma_purge_single_writer(rest);
        lemma_purge_members(rest);
        let d = purge_invalid(rest);
        if !s.last().invalid {
            assert forall|i: int, j: int| 0 <= i < j < purge_invalid(s).len()
                implies !same_target(#[trigger] purge_invalid(s)[i], #[trigger] purge_invalid(s)[j]) by {
                if j == d.len() {
                    let k = choose|k: int| 0 <= k < rest.len() && d[i] == rest[k] && !rest[k].invalid;
                    assert(s[k] == rest[k]);
                } else {
                    assert(purge_invalid(s)[i] == d[i]);
                    assert(purge_invalid(s)[j] == d[j]);
                }
            }
        }
    }
}

} // verus!
