use wire::basic::{AddNode, ConstantNode};
use wire::context::WireContext;
use wire::editor::{item_node, Editor, Key, ITEM_COUNT};
use wire::{AnyNode, WireNode, WireValue};

#[test]
fn items_cycle_both_ways() {
    let mut e = Editor::new();
    assert_eq!(e.current_item, 0);
    e.prev_item();
    assert_eq!(e.current_item, ITEM_COUNT - 1);
    e.next_item();
    assert_eq!(e.current_item, 0);
    e.next_item();
    e.next_item();
    assert_eq!(e.current_item, 2);
}

#[test]
fn key_states_are_kept_per_key() {
    let mut e = Editor::new();
    e.set_key_state(Key::Left, true);
    e.set_key_state(Key::Back, true);
    e.set_key_state(Key::Back, false);
    assert!(!e.get_key_state(Key::Forward));
    assert!(e.get_key_state(Key::Left));
    assert!(!e.get_key_state(Key::Right));
    assert!(!e.get_key_state(Key::Back));
}

#[test]
fn port_cursor_stays_within_the_hovered_node() {
    let mut ctx = WireContext::new();
    let k = ctx.add_node(AnyNode::Constant(ConstantNode { value: 1 }));
    let add = ctx.add_node(AnyNode::Add(AddNode::new()));
    let mut e = Editor::new();
    e.set_hovered(Some(add));
    e.next_port(&ctx);
    // Not drawing a wire: the adder has a single output.
    assert_eq!(e.hovered_port, 0);
    e.connecting_node = Some((k, 0));
    e.next_port(&ctx);
    assert_eq!(e.hovered_port, 1);
    e.next_port(&ctx);
    assert_eq!(e.hovered_port, 1);
    e.prev_port(&ctx);
    assert_eq!(e.hovered_port, 0);
    e.prev_port(&ctx);
    assert_eq!(e.hovered_port, 0);
    // A constant has no inputs, so the cursor does not move.
    e.hovered_port = 1;
    e.set_hovered(Some(k));
    e.prev_port(&ctx);
    assert_eq!(e.hovered_port, 1);
}

#[test]
fn hovering_after_nothing_resets_the_port() {
    let mut e = Editor::new();
    e.hovered_port = 3;
    e.set_hovered(Some(7));
    assert_eq!(e.hovered_port, 0);
    e.hovered_port = 2;
    e.set_hovered(Some(8));
    assert_eq!(e.hovered_port, 2);
    e.set_hovered(None);
    assert_eq!(e.hovered_node, None);
}

#[test]
fn click_places_the_selected_item() {
    let mut ctx = WireContext::new();
    let mut e = Editor::new();
    let a = e.on_click(&mut ctx);
    e.next_item();
    let b = e.on_click(&mut ctx);
    e.next_item();
    let c = e.on_click(&mut ctx);
    assert_eq!(ctx.get_node(a).unwrap().get_output(0), WireValue::Int(5));
    assert_eq!(ctx.get_node(b).unwrap().get_num_inputs(), 2);
    assert_eq!(ctx.get_node(c).unwrap().get_label(), "output:Null");
    assert!(matches!(item_node(3), AnyNode::Counter(_)));
}

#[test]
fn right_clicks_draw_a_wire() {
    let mut ctx = WireContext::new();
    let k = ctx.add_node(AnyNode::Constant(ConstantNode { value: 4 }));
    let add = ctx.add_node(AnyNode::Add(AddNode::new()));
    let mut e = Editor::new();
    e.set_hovered(Some(k));
    e.on_rclick(&mut ctx);
    assert_eq!(e.connecting_node, Some((k, 0)));
    e.set_hovered(None);
    e.set_hovered(Some(add));
    e.next_port(&ctx);
    e.on_rclick(&mut ctx);
    assert_eq!(e.connecting_node, None);
    assert_eq!(ctx.connections().len(), 1);
    assert_eq!(ctx.connections()[0].input_node, k);
    assert_eq!(ctx.connections()[0].output_node, add);
    assert_eq!(ctx.connections()[0].output_port, 1);
}

#[test]
fn right_click_on_missing_port_drops_the_wire() {
    let mut ctx = WireContext::new();
    let k = ctx.add_node(AnyNode::Constant(ConstantNode { value: 4 }));
    let other = ctx.add_node(AnyNode::Constant(ConstantNode { value: 2 }));
    let mut e = Editor::new();
    e.set_hovered(Some(k));
    e.on_rclick(&mut ctx);
    e.set_hovered(Some(other));
    e.on_rclick(&mut ctx);
    assert_eq!(e.connecting_node, None);
    assert!(ctx.connections().is_empty());
    // Nothing hovered: no wire is started.
    e.set_hovered(None);
    e.on_rclick(&mut ctx);
    assert_eq!(e.connecting_node, None);
}
