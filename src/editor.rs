use vstd::prelude::*;
use crate::basic::{AddNode, ConstantNode, CounterNode, OutputNode};
use crate::context::WireContext;
use crate::model::{connect_model, node_of, ContextModel};
use crate::node::{AnyNode, WireNode};
use crate::value::WireValue;

verus! {

/// The movement keys a player can hold.
#[derive(Copy, Clone, Debug, PartialEq, Eq, Structural)]
pub enum Key {
    Forward,
    Left,
    Right,
    Back,
}

/// Where the state of a key is kept.
pub open spec fn key_slot(key: Key) -> int {
    match key {
        Key::Forward => 0,
        Key::Left => 1,
        Key::Right => 2,
        Key::Back => 3,
    }
}

/// The number of kinds of node a player can place.
pub const ITEM_COUNT: usize = 4;

/// Whether `n` is the fresh node that the item at `index` places: a constant
/// five, an adder, an output named "output", or a counter.
pub open spec fn is_item_node(index: int, n: AnyNode) -> bool {
    if index == 0 {
        n == AnyNode::Constant(ConstantNode { value: 5 })
    } else if index == 1 {
        &&& n is Add
        &&& n->Add_0.inputs@ == seq![0i32, 0i32]
        &&& n->Add_0.value == 0
    } else if index == 2 {
        &&& n is Output
        &&& n->Output_0.name@ == seq!['o', 'u', 't', 'p', 'u', 't']
        &&& n->Output_0.value == WireValue::Null
    } else {
        n == AnyNode::Counter(CounterNode { count: 0 })
    }
}

/// The fresh node that the item at `index` places.
pub fn item_node(index: usize) -> (r: AnyNode)
    requires
        index < ITEM_COUNT,
    ensures
        is_item_node(index as int, r),
{
    if index == 0 {
        AnyNode::Constant(ConstantNode { value: 5 })
    } else if index == 1 {
        AnyNode::Add(AddNode::new())
    } else if index == 2 {
        let o = OutputNode::new("output");
        proof {
            reveal_strlit("output");
        }
        assert(o.name@ =~= seq!['o', 'u', 't', 'p', 'u', 't']);
        AnyNode::Output(o)
    } else {
        AnyNode::Counter(CounterNode::new())
    }
}

/// What a player is pointing at, wiring and holding: the part of the editing
/// session that decides how the graph changes.
pub struct Editor {
    pub hovered_node: Option<u32>,
    pub hovered_port: u32,
    pub connecting_node: Option<(u32, u32)>,
    pub key_states: [bool; 4],
    pub current_item: usize,
}

/// The number of ports of the hovered node that a click would use: its inputs
/// while a wire is being drawn, else its outputs.
pub open spec fn port_count(node: AnyNode, connecting: bool) -> nat {
    if connecting {
        node.spec_num_inputs()
    } else {
        node.spec_num_outputs()
    }
}

/// The hovered node, if there is one and it still exists.
pub open spec fn hovered(m: ContextModel, hovered_node: Option<u32>) -> Option<AnyNode> {
    match hovered_node {
        Some(id) => node_of(m.nodes, id),
        None => None,
    }
}

/// Whether an existing node `dst` has no input port `port`.
pub open spec fn lacks_input(m: ContextModel, dst: u32, port: u32) -> bool {
    match node_of(m.nodes, dst) {
        Some(n) => n.spec_num_inputs() <= port,
        None => false,
    }
}

/// Whether node `id` exists and has output port `port`.
pub open spec fn offers_output(m: ContextModel, id: u32, port: u32) -> bool {
    match node_of(m.nodes, id) {
        Some(n) => port < n.spec_num_outputs(),
        None => false,
    }
}

impl Editor {
    pub open spec fn wf(&self) -> bool {
        self.current_item < ITEM_COUNT
    }

    pub fn new() -> (r: Editor)
        ensures
            r.wf(),
            r.hovered_node is None,
            r.hovered_port == 0,
            r.connecting_node is None,
            r.key_states@ == seq![false, false, false, false],
            r.current_item == 0,
    {
        Editor {
            hovered_node: None,
            hovered_port: 0,
            connecting_node: None,
            key_states: [false, false, false, false],
            current_item: 0,
        }
    }

    pub fn get_key_state(&self, key: Key) -> (r: bool)
        ensures
            r == self.key_states@[key_slot(key)],
    {
        match key {
            Key::Forward => self.key_states[0],
            Key::Left => self.key_states[1],
            Key::Right => self.key_states[2],
            Key::Back => self.key_states[3],
        }
    }

    pub fn set_key_state(&mut self, key: Key, down: bool)
        ensures
            final(self).key_states@ == old(self).key_states@.update(key_slot(key), down),
            final(self).hovered_node == old(self).hovered_node,
            final(self).hovered_port == old(self).hovered_port,
            final(self).connecting_node == old(self).connecting_node,
            final(self).current_item == old(self).current_item,
    {
        let k = &self.key_states;
        let mut s: [bool; 4] = [k[0], k[1], k[2], k[3]];
        match key {
            Key::Forward => s = [down, k[1], k[2], k[3]],
            Key::Left => s = [k[0], down, k[2], k[3]],
            Key::Right => s = [k[0], k[1], down, k[3]],
            Key::Back => s = [k[0], k[1], k[2], down],
        }
        self.key_states = s;
        assert(self.key_states@ =~= old(self).key_states@.update(key_slot(key), down));
    }
    /// Selects the previous item, wrapping around to the last.
    pub fn prev_item(&mut self)
        requires
            old(self).wf(),
        ensures
            final(self).wf(),
            final(self).current_item == if old(self).current_item == 0 {
                ITEM_COUNT - 1
            } else {
                old(self).current_item - 1
            },
            final(self).hovered_node == old(self).hovered_node,
            final(self).hovered_port == old(self).hovered_port,
            final(self).connecting_node == old(self).connecting_node,
            final(self).key_states == old(self).key_states,
    {
        if self.current_item == 0 {
            self.current_item = ITEM_COUNT - 1;
        } else {
            self.current_item = self.current_item - 1;
        }
    }

    /// Selects the next item, wrapping around to the first.
    pub fn next_item(&mut self)
        requires
            old(self).wf(),
        ensures
            final(self).wf(),
            final(self).current_item == if old(self).current_item + 1 == ITEM_COUNT {
                0
            } else {
                old(self).current_item + 1
            },
            final(self).hovered_node == old(self).hovered_node,
            final(self).hovered_port == old(self).hovered_port,
            final(self).connecting_node == old(self).connecting_node,
            final(self).key_states == old(self).key_states,
    {
        if self.current_item + 1 == ITEM_COUNT {
            self.current_item = 0;
        } else {
            self.current_item = self.current_item + 1;
        }
    }

    /// Moves the port cursor down by one, unless the hovered node has no
    /// port of the kind in use.
    pub fn prev_port(&mut self, ctx: &WireContext)
        requires
            ctx@.wf(),
        ensures
            final(self).hovered_port == match hovered(ctx@, old(self).hovered_node) {
                Some(n) if port_count(n, old(self).connecting_node is Some) == 0 => old(self).hovered_port,
                _ => if old(self).hovered_port > 0 {
                    (old(self).hovered_port - 1) as u32
                } else {
                    0
                },
            },
            final(self).hovered_node == old(self).hovered_node,
            final(self).connecting_node == old(self).connecting_node,
            final(self).key_states == old(self).key_states,
            final(self).current_item == old(self).current_item,
    {
        let connecting = self.connecting_node.is_some();
        if let Some(id) = self.hovered_node {
            if let Some(node) = ctx.get_node(id) {
                let count = if connecting {
                    node.get_num_inputs()
                } else {
                    node.get_num_outputs()
                };
                if count == 0 {
                    return;
                }
            }
        }
        if self.hovered_port > 0 {
            self.hovered_port = self.hovered_port - 1;
        }
    }

    /// Moves the port cursor up by one, stopping at the last port of the kind
    /// in use; does nothing unless an existing node with such ports is hovered.
    pub fn next_port(&mut self, ctx: &WireContext)
        requires
            ctx@.wf(),
        ensures
            final(self).hovered_port == match hovered(ctx@, old(self).hovered_node) {
                Some(n) if port_count(n, old(self).connecting_node is Some) > 0 => {
                    let count = port_count(n, old(self).connecting_node is Some);
                    if old(self).hovered_port + 1 >= count {
                        (count - 1) as u32
                    } else {
                        (old(self).hovered_port + 1) as u32
                    }
                },
                _ => old(self).hovered_port,
            },
            final(self).hovered_node == old(self).hovered_node,
            final(self).connecting_node == old(self).connecting_node,
            final(self).key_states == old(self).key_states,
            final(self).current_item == old(self).current_item,
    {
        let connecting = self.connecting_node.is_some();
        let mut count: u32 = 0;
        if let Some(id) = self.hovered_node {
            if let Some(node) = ctx.get_node(id) {
                count = if connecting {
                    node.get_num_inputs()
                } else {
                    node.get_num_outputs()
                };
            }
        }
        if count == 0 {
            return;
        }
        if self.hovered_port >= count - 1 {
            self.hovered_port = count - 1;
        } else {
            self.hovered_port = self.hovered_port + 1;
        }
    }

    /// Records which node is now pointed at; the port cursor starts again at
    /// zero when a node comes under the pointer after none was.
    pub fn set_hovered(&mut self, node: Option<u32>)
        ensures
            final(self).hovered_node == node,
            final(self).hovered_port == if old(self).hovered_node is None && node is Some {
                0
            } else {
                old(self).hovered_port
            },
            final(self).connecting_node == old(self).connecting_node,
            final(self).key_states == old(self).key_states,
            final(self).current_item == old(self).current_item,
    {
        let was_hovering = self.hovered_node.is_some();
        self.hovered_node = node;
        if !was_hovering && node.is_some() {
            self.hovered_port = 0;
        }
    }

    /// Places a fresh node of the selected item and returns its identifier.
    pub fn on_click(&self, ctx: &mut WireContext) -> (r: u32)
        requires
            self.wf(),
            old(ctx)@.wf(),
            old(ctx)@.next_id < u32::MAX,
        ensures
            final(ctx)@.wf(),
            r == old(ctx)@.next_id,
            final(ctx)@.next_id == old(ctx)@.next_id + 1,
            final(ctx)@.connections == old(ctx)@.connections,
            final(ctx)@.nodes.len() == old(ctx)@.nodes.len() + 1,
            final(ctx)@.nodes.drop_last() == old(ctx)@.nodes,
            final(ctx)@.nodes.last().0 == r,
            is_item_node(self.current_item as int, final(ctx)@.nodes.last().1),
    {
        let node = item_node(self.current_item);
        let r = ctx.add_node(node);
        assert(ctx@.nodes.drop_last() =~= old(ctx)@.nodes);
        r
    }

    /// The secondary action: while a wire is being drawn, finish it at the
    /// hovered input port; otherwise start one at the hovered output port.
    pub fn on_rclick(&mut self, ctx: &mut WireContext)
        requires
            old(ctx)@.wf(),
        ensures
            final(ctx)@.wf(),
            match old(self).connecting_node {
                Some(src) => {
                    &&& final(self).connecting_node is None
                    &&& final(ctx)@ == match old(self).hovered_node {
                        Some(dst) if !lacks_input(old(ctx)@, dst, old(self).hovered_port) =>
                            connect_model(old(ctx)@, src, (dst, old(self).hovered_port)),
                        _ => old(ctx)@,
                    }
                },
                None => {
                    &&& final(ctx)@ == old(ctx)@
                    &&& final(self).connecting_node == match old(self).hovered_node {
                        Some(id) if offers_output(old(ctx)@, id, old(self).hovered_port) =>
                            Some((id, old(self).hovered_port)),
                        _ => None,
                    }
                },
            },
            final(self).hovered_node == old(self).hovered_node,
            final(self).hovered_port == old(self).hovered_port,
            final(self).key_states == old(self).key_states,
            final(self).current_item == old(self).current_item,
    {
        if let Some(src) = self.connecting_node {
            self.connecting_node = None;
            if let Some(dst) = self.hovered_node {
                if let Some(node) = ctx.get_node(dst) {
                    if node.get_num_inputs() <= self.hovered_port {
                        return;
                    }
                }
                let _ = ctx.add_connection(src, (dst, self.hovered_port));
            }
        } else if let Some(id) = self.hovered_node {
            if let Some(node) = ctx.get_node(id) {
                if node.get_num_outputs() > self.hovered_port {
                    self.connecting_node = Some((id, self.hovered_port));
                }
            }
        }
    }
}

} // verus!
