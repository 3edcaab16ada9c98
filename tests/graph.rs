use wire::basic::{AddNode, AndNode, BufferNode, ConstantNode, CounterNode, OutputNode};
use wire::context::WireContext;
use wire::io::{ButtonNode, ToggleNode};
use wire::model::{ConnectionError, WireConnection};
use wire::{AnyNode, WireNode, WireValue};

fn output_of(ctx: &WireContext, id: u32) -> WireValue {
    ctx.get_node(id).unwrap().get_output(0)
}

fn targeting(ctx: &WireContext, node: u32, port: u32) -> Vec<WireConnection> {
    ctx.connections()
        .iter()
        .filter(|c| c.output_node == node && c.output_port == port)
        .cloned()
        .collect()
}

#[test]
fn ids_start_at_zero_and_are_never_reused() {
    let mut ctx = WireContext::new();
    let a = ctx.add_node(AnyNode::Constant(ConstantNode { value: 1 }));
    let b = ctx.add_node(AnyNode::Buffer(BufferNode::new()));
    assert_eq!(a, 0);
    assert_eq!(b, 1);
    ctx.remove_node(b);
    let c = ctx.add_node(AnyNode::Counter(CounterNode::new()));
    assert_eq!(c, 2);
    assert!(ctx.get_node(b).is_none());
    assert!(ctx.get_node(c).is_some());
    assert_eq!(ctx.next_id(), 3);
}

#[test]
fn removing_unknown_node_is_a_no_op() {
    let mut ctx = WireContext::new();
    let a = ctx.add_node(AnyNode::Constant(ConstantNode { value: 1 }));
    ctx.remove_node(42);
    assert!(ctx.get_node(a).is_some());
    assert!(ctx.get_node(42).is_none());
}

#[test]
fn one_tick_latency_through_buffer() {
    let mut ctx = WireContext::new();
    let k = ctx.add_node(AnyNode::Constant(ConstantNode { value: 5 }));
    let b = ctx.add_node(AnyNode::Buffer(BufferNode::new()));
    assert_eq!(ctx.add_connection((k, 0), (b, 0)), Ok(()));
    ctx.step();
    assert_eq!(output_of(&ctx, b), WireValue::Null);
    ctx.step();
    assert_eq!(output_of(&ctx, b), WireValue::Int(5));
}

#[test]
fn single_writer_per_input_port() {
    let mut ctx = WireContext::new();
    let a = ctx.add_node(AnyNode::Constant(ConstantNode { value: 5 }));
    let b = ctx.add_node(AnyNode::Constant(ConstantNode { value: 7 }));
    let x = ctx.add_node(AnyNode::Buffer(BufferNode::new()));
    assert_eq!(ctx.add_connection((a, 0), (x, 0)), Ok(()));
    assert_eq!(ctx.add_connection((b, 0), (x, 0)), Ok(()));
    let into_x = targeting(&ctx, x, 0);
    assert_eq!(into_x.len(), 1);
    assert_eq!(into_x[0].input_node, b);
    ctx.step();
    ctx.step();
    assert_eq!(output_of(&ctx, x), WireValue::Int(7));
}

#[test]
fn feedback_loop_as_wired_settles_at_zero() {
    let mut ctx = WireContext::new();
    let k = ctx.add_node(AnyNode::Constant(ConstantNode { value: 1 }));
    let add = ctx.add_node(AnyNode::Add(AddNode::new()));
    let buf = ctx.add_node(AnyNode::Buffer(BufferNode::new()));
    assert_eq!(ctx.add_connection((k, 0), (add, 0)), Ok(()));
    assert_eq!(ctx.add_connection((add, 0), (buf, 0)), Ok(()));
    assert_eq!(ctx.add_connection((buf, 0), (add, 1)), Ok(()));
    assert_eq!(ctx.add_connection((add, 0), (add, 0)), Ok(()));
    // The self-loop replaced the constant as the writer of the first input.
    assert_eq!(targeting(&ctx, add, 0)[0].input_node, add);
    let mut seen = Vec::new();
    for _ in 0..5 {
        ctx.step();
        seen.push(output_of(&ctx, add));
    }
    assert_eq!(seen, vec![WireValue::Int(0); 5]);
}

#[test]
fn feedback_loop_through_buffer_accumulates() {
    let mut ctx = WireContext::new();
    let k = ctx.add_node(AnyNode::Constant(ConstantNode { value: 1 }));
    let add = ctx.add_node(AnyNode::Add(AddNode::new()));
    let buf = ctx.add_node(AnyNode::Buffer(BufferNode::new()));
    assert_eq!(ctx.add_connection((k, 0), (add, 0)), Ok(()));
    assert_eq!(ctx.add_connection((add, 0), (buf, 0)), Ok(()));
    assert_eq!(ctx.add_connection((buf, 0), (add, 1)), Ok(()));
    let mut seen = Vec::new();
    for _ in 0..7 {
        ctx.step();
        seen.push(output_of(&ctx, add));
    }
    let expected: Vec<WireValue> = [0, 1, 1, 2, 2, 3, 3].iter().map(|v| WireValue::Int(*v)).collect();
    assert_eq!(seen, expected);
}

#[test]
fn dangling_destination_is_purged() {
    let mut ctx = WireContext::new();
    let k = ctx.add_node(AnyNode::Constant(ConstantNode { value: 3 }));
    let b = ctx.add_node(AnyNode::Buffer(BufferNode::new()));
    assert_eq!(ctx.add_connection((k, 0), (b, 0)), Ok(()));
    ctx.step();
    assert_eq!(ctx.connections().len(), 1);
    ctx.remove_node(b);
    assert_eq!(ctx.connections().len(), 1);
    ctx.step();
    assert_eq!(ctx.connections().len(), 0);
}

#[test]
fn dangling_source_delivers_null_then_is_purged() {
    let mut ctx = WireContext::new();
    let k = ctx.add_node(AnyNode::Constant(ConstantNode { value: 3 }));
    let b = ctx.add_node(AnyNode::Buffer(BufferNode::new()));
    assert_eq!(ctx.add_connection((k, 0), (b, 0)), Ok(()));
    ctx.step();
    ctx.step();
    assert_eq!(output_of(&ctx, b), WireValue::Int(3));
    ctx.remove_node(k);
    ctx.step();
    assert_eq!(ctx.connections().len(), 1);
    assert!(ctx.connections()[0].invalid);
    assert_eq!(ctx.connections()[0].value, WireValue::Null);
    ctx.step();
    assert_eq!(output_of(&ctx, b), WireValue::Null);
    assert_eq!(ctx.connections().len(), 0);
}

#[test]
fn source_port_out_of_range_is_rejected() {
    let mut ctx = WireContext::new();
    let k = ctx.add_node(AnyNode::Constant(ConstantNode { value: 3 }));
    let b = ctx.add_node(AnyNode::Buffer(BufferNode::new()));
    let c = ctx.add_node(AnyNode::Buffer(BufferNode::new()));
    assert_eq!(ctx.add_connection((k, 0), (b, 0)), Ok(()));
    let before = ctx.connections().clone();
    assert_eq!(
        ctx.add_connection((k, 1), (c, 0)),
        Err(ConnectionError::InvalidSourcePort { id: k, port: 1 })
    );
    assert_eq!(ctx.connections(), &before);
    // A refused request does not displace the current writer either.
    assert_eq!(
        ctx.add_connection((k, 1), (b, 0)),
        Err(ConnectionError::InvalidSourcePort { id: k, port: 1 })
    );
    assert_eq!(ctx.connections(), &before);
}

#[test]
fn dest_port_out_of_range_is_rejected() {
    let mut ctx = WireContext::new();
    let k = ctx.add_node(AnyNode::Constant(ConstantNode { value: 3 }));
    let add = ctx.add_node(AnyNode::Add(AddNode::new()));
    assert_eq!(
        ctx.add_connection((k, 0), (add, 2)),
        Err(ConnectionError::InvalidDestPort { id: add, port: 2 })
    );
    assert_eq!(
        ctx.add_connection((add, 0), (k, 0)),
        Err(ConnectionError::InvalidDestPort { id: k, port: 0 })
    );
    assert!(ctx.connections().is_empty());
}

#[test]
fn unknown_node_is_rejected_source_first() {
    let mut ctx = WireContext::new();
    let b = ctx.add_node(AnyNode::Buffer(BufferNode::new()));
    assert_eq!(
        ctx.add_connection((9, 0), (b, 0)),
        Err(ConnectionError::UnknownNode { id: 9 })
    );
    assert_eq!(
        ctx.add_connection((b, 0), (8, 0)),
        Err(ConnectionError::UnknownNode { id: 8 })
    );
    assert_eq!(
        ctx.add_connection((9, 0), (8, 0)),
        Err(ConnectionError::UnknownNode { id: 9 })
    );
    assert!(ctx.connections().is_empty());
}

#[test]
fn counter_reports_number_of_steps() {
    let mut ctx = WireContext::new();
    let c = ctx.add_node(AnyNode::Counter(CounterNode::new()));
    assert_eq!(output_of(&ctx, c), WireValue::Int(0));
    for _ in 0..10 {
        ctx.step();
    }
    assert_eq!(output_of(&ctx, c), WireValue::Int(10));
}

fn build_demo() -> (WireContext, u32, u32, u32) {
    let mut ctx = WireContext::new();
    let t = ctx.add_node(AnyNode::Toggle(ToggleNode::new()));
    let btn = ctx.add_node(AnyNode::Button(ButtonNode::new()));
    let and = ctx.add_node(AnyNode::And(AndNode::new()));
    let out = ctx.add_node(AnyNode::Output(OutputNode::new("lamp")));
    assert_eq!(ctx.add_connection((t, 0), (and, 0)), Ok(()));
    assert_eq!(ctx.add_connection((btn, 0), (and, 1)), Ok(()));
    assert_eq!(ctx.add_connection((and, 0), (out, 0)), Ok(()));
    (ctx, t, btn, out)
}

fn lamp(ctx: &WireContext, out: u32) -> WireValue {
    match ctx.get_node(out).unwrap() {
        AnyNode::Output(o) => o.value,
        _ => panic!("not an output node"),
    }
}

#[test]
fn identical_runs_give_identical_states() {
    let (mut a, ta, ba, oa) = build_demo();
    let (mut b, tb, bb, ob) = build_demo();
    for i in 0..8 {
        if i == 1 {
            a.frob(ta);
            b.frob(tb);
        }
        if i == 3 {
            a.frob(ba);
            b.frob(bb);
        }
        a.step();
        b.step();
        assert_eq!(a.connections(), b.connections());
        assert_eq!(lamp(&a, oa), lamp(&b, ob));
    }
}

#[test]
fn frob_effects_reach_neighbours_on_later_ticks() {
    let (mut ctx, t, btn, out) = build_demo();
    ctx.step();
    ctx.step();
    ctx.step();
    assert_eq!(lamp(&ctx, out), WireValue::Bool(false));
    ctx.frob(t);
    ctx.frob(btn);
    assert_eq!(lamp(&ctx, out), WireValue::Bool(false));
    ctx.step();
    ctx.step();
    assert_eq!(lamp(&ctx, out), WireValue::Bool(false));
    ctx.step();
    assert_eq!(lamp(&ctx, out), WireValue::Bool(true));
}

#[test]
fn get_node_mut_changes_the_stored_node() {
    let mut ctx = WireContext::new();
    let t = ctx.add_node(AnyNode::Toggle(ToggleNode::new()));
    ctx.get_node_mut(t).unwrap().on_frob();
    assert_eq!(output_of(&ctx, t), WireValue::Bool(true));
    assert!(ctx.get_node_mut(t + 1).is_none());
}

#[test]
fn value_is_null() {
    assert!(WireValue::Null.is_null());
    assert!(!WireValue::Int(0).is_null());
    assert!(!WireValue::Bool(false).is_null());
}
