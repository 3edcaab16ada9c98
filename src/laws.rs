use vstd::prelude::*;
use crate::basic::CounterNode;
use crate::model::{
    connect_model, connect_result, deliver_upto, fresh_connection, frob_model, has_node,
    ids_ascending, lemma_deliver_frame, lemma_deliver_marks, lemma_drop_target_clears,
    lemma_index_unique, lemma_purge_members, lemma_purge_single_writer, lemma_same_ids_has,
    lemma_same_ids_lookup, node_index, node_of, purge_invalid, remove_model, same_ids, same_target,
    single_writer, step_model, steps, targets, ConnectionError, ContextModel, WireConnection,
};
use crate::node::{AnyNode, WireNode};
use crate::value::WireValue;

verus! {

// ---- helpers ----

/// A tick keeps the identifiers of the nodes, and so well-formedness.
pub proof fn lemma_step_keeps_ids(m: ContextModel)
    requires
        m.wf(),
    ensures
        same_ids(m.nodes, step_model(m).nodes),
        step_model(m).wf(),
{
    let d = deliver_upto(m.nodes, m.connections, m.connections.len());
    lemma_deliver_frame(m.nodes, m.connections, m.connections.len());
    lemma_deliver_marks(m.nodes, m.connections, m.connections.len());
    assert(single_writer(d.1)) by {
        assert forall|a: int, b: int| 0 <= a < b < d.1.len() implies !same_target(#[trigger] d.1[a], #[trigger] d.1[b]) by {
            assert(same_target(d.1[a], m.connections[a]));
            assert(same_target(d.1[b], m.connections[b]));
        }
    }
    lemma_purge_single_writer(d.1);
    let p = purge_invalid(d.1);
    let r = step_model(m).connections;
    assert forall|a: int, b: int| 0 <= a < b < r.len() implies !same_target(#[trigger] r[a], #[trigger] r[b]) by {
        assert(same_target(r[a], p[a]));
        assert(same_target(r[b], p[b]));
    }
}

/// Delivery never changes a counter: it has no inputs.
proof fn lemma_deliver_keeps_counter(nodes: Seq<(u32, AnyNode)>, conns: Seq<WireConnection>, k: nat, i: int)
    requires
        ids_ascending(nodes),
        k <= conns.len(),
        0 <= i < nodes.len(),
        nodes[i].1 is Counter,
    ensures
        deliver_upto(nodes, conns, k).0[i] == nodes[i],
    decreases k,
{
    if k > 0 {
        lemma_deliver_keeps_counter(nodes, conns, (k - 1) as nat, i);
        lemma_deliver_frame(nodes, conns, (k - 1) as nat);
    }
}

// ---- laws ----

/// A tick, and a manual stimulus, depend on nothing but the state they start
/// from: equal states stay equal under the same sequence of ticks.
pub proof fn law_deterministic(a: ContextModel, b: ContextModel, id: u32, n: nat)
    requires
        a == b,
    ensures
        step_model(a) == step_model(b),
        frob_model(a, id) == frob_model(b, id),
        steps(a, n) == steps(b, n),
{
}

/// Connecting two sources to the same input port, one after the other,
/// leaves exactly one connection into that port: the one from the second
/// source.
pub proof fn law_single_writer(m: ContextModel, a: (u32, u32), b: (u32, u32), x: (u32, u32))
    requires
        m.wf(),
        connect_result(connect_model(m, a, x), b, x) is Ok,
    ensures
        ({
            let c = connect_model(connect_model(m, a, x), b, x).connections;
            &&& c.last() == fresh_connection(b, x)
            &&& forall|k: int| 0 <= k < c.len() && targets(#[trigger] c[k], x.0, x.1) ==> k == c.len() - 1
        }),
{
    let m1 = connect_model(m, a, x);
    lemma_drop_target_clears(m1.connections, x.0, x.1);
}

/// After a tick, every connection ends at a node that exists.
pub proof fn law_no_dangling_after_step(m: ContextModel)
    requires
        m.wf(),
    ensures
        forall|k: int| 0 <= k < step_model(m).connections.len()
            ==> has_node(step_model(m).nodes, #[trigger] step_model(m).connections[k].output_node),
{
    let d = deliver_upto(m.nodes, m.connections, m.connections.len());
    lemma_deliver_frame(m.nodes, m.connections, m.connections.len());
    lemma_deliver_marks(m.nodes, m.connections, m.connections.len());
    lemma_purge_members(d.1);
    lemma_step_keeps_ids(m);
    let p = purge_invalid(d.1);
    let s = step_model(m);
    assert forall|k: int| 0 <= k < s.connections.len()
        implies has_node(s.nodes, #[trigger] s.connections[k].output_node) by {
        let j = choose|j: int| 0 <= j < d.1.len() && p[k] == d.1[j] && !d.1[j].invalid;
        lemma_same_ids_has(m.nodes, s.nodes, p[k].output_node);
    }
}

/// Removing a node and then ticking once leaves no connection that ends at
/// the removed node.
pub proof fn law_dangling_cleanup(m: ContextModel, id: u32)
    requires
        m.wf(),
    ensures
        forall|k: int| 0 <= k < step_model(remove_model(m, id)).connections.len()
            ==> (#[trigger] step_model(remove_model(m, id)).connections[k]).output_node != id,
{
    let r = remove_model(m, id);
    assert(r.wf()) by {
        if has_node(m.nodes, id) {
            let i = node_index(m.nodes, id);
            assert forall|a: int, b: int| 0 <= a < b < r.nodes.len() implies r.nodes[a].0 < r.nodes[b].0 by {
                let a0 = if a < i { a } else { a + 1 };
                let b0 = if b < i { b } else { b + 1 };
                assert(r.nodes[a] == m.nodes[a0]);
                assert(r.nodes[b] == m.nodes[b0]);
            }
            assert forall|a: int| 0 <= a < r.nodes.len() implies r.nodes[a].0 < r.next_id by {
                let a0 = if a < i { a } else { a + 1 };
                assert(r.nodes[a] == m.nodes[a0]);
            }
        }
    }
    assert(!has_node(r.nodes, id)) by {
        if has_node(r.nodes, id) {
            let i = node_index(m.nodes, id);
            let j = node_index(r.nodes, id);
            let j0 = if j < i { j } else { j + 1 };
            assert(r.nodes[j] == m.nodes[j0]);
            lemma_index_unique(m.nodes, j0);
        }
    }
    law_no_dangling_after_step(r);
    lemma_step_keeps_ids(r);
    lemma_same_ids_has(r.nodes, step_model(r).nodes, id);
}

/// A request whose source port is out of range is refused as such and
/// leaves the state, connection table included, exactly as it was.
pub proof fn law_bounds_rejection(m: ContextModel, from: (u32, u32), to: (u32, u32))
    requires
        has_node(m.nodes, from.0),
        has_node(m.nodes, to.0),
        from.1 as nat >= node_of(m.nodes, from.0).unwrap().spec_num_outputs(),
    ensures
        connect_result(m, from, to) == Err::<(), ConnectionError>(
            ConnectionError::InvalidSourcePort { id: from.0, port: from.1 },
        ),
        connect_model(m, from, to) == m,
{
}

/// A counter that starts at zero shows `n` on its output after `n` ticks.
pub proof fn law_counter_counts(m: ContextModel, id: u32, n: nat)
    requires
        m.wf(),
        node_of(m.nodes, id) == Some(AnyNode::Counter(CounterNode { count: 0 })),
        n <= i32::MAX,
    ensures
        steps(m, n).wf(),
        node_of(steps(m, n).nodes, id) == Some(AnyNode::Counter(CounterNode { count: n as i32 })),
        node_of(steps(m, n).nodes, id).unwrap().spec_output(0) == WireValue::Int(n as i32),
    decreases n,
{
    if n > 0 {
        law_counter_counts(m, id, (n - 1) as nat);
        let p = steps(m, (n - 1) as nat);
        lemma_step_keeps_ids(p);
        let i = node_index(p.nodes, id);
        lemma_same_ids_lookup(p.nodes, step_model(p).nodes, id);
        lemma_deliver_keeps_counter(p.nodes, p.connections, p.connections.len(), i);
        lemma_deliver_frame(p.nodes, p.connections, p.connections.len());
    }
}

} // verus!
