use wire::basic::{AddNode, AndNode, BufferNode, ConstantNode, CounterNode, OutputNode};
use wire::io::{ButtonNode, ToggleNode};
use wire::{WireNode, WireValue};

#[test]
fn constant_offers_its_value_on_port_zero_only() {
    let k = ConstantNode { value: -4 };
    assert_eq!(k.get_num_inputs(), 0);
    assert_eq!(k.get_num_outputs(), 1);
    assert_eq!(k.get_output(0), WireValue::Int(-4));
    assert_eq!(k.get_output(1), WireValue::Null);
}

#[test]
fn adder_sums_on_update_and_ignores_non_integers() {
    let mut a = AddNode::new();
    assert_eq!(a.get_num_inputs(), 2);
    a.on_input_changed(0, WireValue::Int(3));
    a.on_input_changed(1, WireValue::Int(4));
    assert_eq!(a.get_output(0), WireValue::Int(0));
    a.update();
    assert_eq!(a.get_output(0), WireValue::Int(7));
    a.on_input_changed(1, WireValue::Bool(true));
    a.on_input_changed(1, WireValue::Null);
    a.on_input_changed(5, WireValue::Int(100));
    a.update();
    assert_eq!(a.get_output(0), WireValue::Int(7));
    assert_eq!(a.get_output(1), WireValue::Null);
}

#[test]
fn adder_wraps_around() {
    let mut a = AddNode::new();
    a.on_input_changed(0, WireValue::Int(i32::MAX));
    a.on_input_changed(1, WireValue::Int(1));
    a.update();
    assert_eq!(a.get_output(0), WireValue::Int(i32::MIN));
}

#[test]
fn counter_wraps_around() {
    let mut c = CounterNode { count: i32::MAX };
    c.update();
    assert_eq!(c.get_output(0), WireValue::Int(i32::MIN));
    assert_eq!(c.get_output(1), WireValue::Null);
}

#[test]
fn and_gate_combines_booleans() {
    let mut g = AndNode::new();
    assert_eq!(g.get_output(0), WireValue::Bool(false));
    g.on_input_changed(0, WireValue::Bool(true));
    assert_eq!(g.get_output(0), WireValue::Bool(false));
    g.on_input_changed(1, WireValue::Bool(true));
    assert_eq!(g.get_output(0), WireValue::Bool(true));
    g.on_input_changed(1, WireValue::Int(0));
    assert_eq!(g.get_output(0), WireValue::Bool(true));
    assert_eq!(g.get_output(1), WireValue::Null);
}

#[test]
fn buffer_repeats_last_input() {
    let mut b = BufferNode::new();
    assert_eq!(b.get_output(0), WireValue::Null);
    b.on_input_changed(0, WireValue::Bool(true));
    assert_eq!(b.get_output(0), WireValue::Bool(true));
}

#[test]
fn output_node_records_port_zero() {
    let mut o = OutputNode::new("out");
    assert_eq!(o.name, "out");
    o.on_input_changed(1, WireValue::Int(2));
    assert_eq!(o.value, WireValue::Null);
    o.on_input_changed(0, WireValue::Int(2));
    assert_eq!(o.value, WireValue::Int(2));
    assert_eq!(o.get_num_inputs(), 1);
    assert_eq!(o.get_num_outputs(), 0);
}

#[test]
fn button_stays_pressed_for_two_ticks() {
    let mut b = ButtonNode::new();
    assert_eq!(b.get_output(0), WireValue::Bool(false));
    b.on_frob();
    assert_eq!(b.get_output(0), WireValue::Bool(true));
    b.update();
    assert_eq!(b.get_output(0), WireValue::Bool(true));
    b.update();
    assert_eq!(b.get_output(0), WireValue::Bool(false));
    b.update();
    assert_eq!(b.get_output(0), WireValue::Bool(false));
}

#[test]
fn toggle_flips_on_each_press() {
    let mut t = ToggleNode::new();
    assert_eq!(t.get_output(0), WireValue::Bool(false));
    t.on_frob();
    assert_eq!(t.get_output(0), WireValue::Bool(true));
    t.update();
    assert_eq!(t.get_output(0), WireValue::Bool(true));
    t.on_frob();
    assert_eq!(t.get_output(0), WireValue::Bool(false));
}
