use wire::basic::{AddNode, AndNode, BufferNode, ConstantNode, CounterNode, OutputNode};
use wire::context::WireContext;
use wire::io::{ButtonNode, ToggleNode};
use wire::{AnyNode, WireNode, WireValue};

#[test]
fn constant_label() {
    assert_eq!(ConstantNode { value: 5 }.get_label(), "Constant(5)");
    assert_eq!(ConstantNode { value: -120 }.get_label(), "Constant(-120)");
    assert_eq!(ConstantNode { value: 0 }.get_label(), "Constant(0)");
}

#[test]
fn counter_label_covers_the_extremes() {
    assert_eq!(CounterNode::new().get_label(), "0");
    assert_eq!(CounterNode { count: i32::MIN }.get_label(), "-2147483648");
    assert_eq!(CounterNode { count: i32::MAX }.get_label(), "2147483647");
    assert_eq!(CounterNode { count: 1090 }.get_label(), "1090");
}

#[test]
fn adder_label_shows_operands() {
    let mut a = AddNode::new();
    a.on_input_changed(0, WireValue::Int(3));
    a.on_input_changed(1, WireValue::Int(-40));
    assert_eq!(a.get_label(), "3 + -40");
}

#[test]
fn gate_label_shows_operands() {
    let mut g = AndNode::new();
    g.on_input_changed(0, WireValue::Bool(true));
    assert_eq!(g.get_label(), "true and false");
}

#[test]
fn output_label_shows_name_and_value() {
    let mut o = OutputNode::new("lamp");
    assert_eq!(o.get_label(), "lamp:Null");
    o.on_input_changed(0, WireValue::Int(5));
    assert_eq!(o.get_label(), "lamp:Int(5)");
    o.on_input_changed(0, WireValue::Bool(true));
    assert_eq!(o.get_label(), "lamp:Bool(true)");
}

#[test]
fn button_toggle_and_buffer_labels() {
    let mut b = ButtonNode::new();
    assert_eq!(b.get_label(), "");
    b.on_frob();
    assert_eq!(b.get_label(), "click");
    let mut t = ToggleNode::new();
    assert_eq!(t.get_label(), "off");
    t.on_frob();
    assert_eq!(t.get_label(), "on");
    assert_eq!(BufferNode::new().get_label(), "");
}

#[test]
fn label_through_the_registry() {
    let mut ctx = WireContext::new();
    let c = ctx.add_node(AnyNode::Counter(CounterNode::new()));
    ctx.step();
    ctx.step();
    assert_eq!(ctx.get_node(c).unwrap().get_label(), "2");
}
