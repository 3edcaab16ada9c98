use vstd::prelude::*;
use crate::value::WireValue;
use crate::basic::{AddNode, AndNode, BufferNode, ConstantNode, CounterNode, OutputNode};
use crate::io::{ButtonNode, ToggleNode};

verus! {

/// What every computation unit of a wire graph offers.
///
/// Each method is tied to a spec function, so that the behaviour of a whole
/// graph can be stated from the behaviour of its nodes.
pub trait WireNode: Sized {
    /// Number of input ports.
    spec fn spec_num_inputs(&self) -> nat;

    /// Number of output ports.
    spec fn spec_num_outputs(&self) -> nat;

    /// The value currently offered on an output port.
    spec fn spec_output(&self, port: u32) -> WireValue;

    /// The node after a value arrives on an input port.
    spec fn spec_input_changed(&self, port: u32, value: WireValue) -> Self;

    /// The node after one tick of its own.
    spec fn spec_updated(&self) -> Self;

    /// The node after a manual stimulus.
    spec fn spec_frobbed(&self) -> Self;

    /// A human-readable rendering of the current state.
    spec fn spec_label(&self) -> Seq<char>;

    fn get_num_inputs(&self) -> (r: u32)
        ensures
            r as nat == self.spec_num_inputs(),
    ;

    fn get_num_outputs(&self) -> (r: u32)
        ensures
            r as nat == self.spec_num_outputs(),
    ;

    fn on_input_changed(&mut self, port: u32, value: WireValue)
        ensures
            *final(self) == old(self).spec_input_changed(port, value),
    ;

    fn on_frob(&mut self)
        ensures
            *final(self) == old(self).spec_frobbed(),
    ;

    fn get_output(&self, port: u32) -> (r: WireValue)
        ensures
            r == self.spec_output(port),
    ;

    fn update(&mut self)
        ensures
            *final(self) == old(self).spec_updated(),
    ;

    fn get_label(&self) -> (r: String)
        ensures
            r@ == self.spec_label(),
    ;
}

/// Every kind of node that a graph can hold.
pub enum AnyNode {
    Constant(ConstantNode),
    Output(OutputNode),
    Counter(CounterNode),
    Buffer(BufferNode),
    Add(AddNode),
    And(AndNode),
    Button(ButtonNode),
    Toggle(ToggleNode),
}

impl WireNode for AnyNode {
    open spec fn spec_num_inputs(&self) -> nat {
        match self {
            AnyNode::Constant(n) => n.spec_num_inputs(),
            AnyNode::Output(n) => n.spec_num_inputs(),
            AnyNode::Counter(n) => n.spec_num_inputs(),
            AnyNode::Buffer(n) => n.spec_num_inputs(),
            AnyNode::Add(n) => n.spec_num_inputs(),
            AnyNode::And(n) => n.spec_num_inputs(),
            AnyNode::Button(n) => n.spec_num_inputs(),
            AnyNode::Toggle(n) => n.spec_num_inputs(),
        }
    }

    open spec fn spec_num_outputs(&self) -> nat {
        match self {
            AnyNode::Constant(n) => n.spec_num_outputs(),
            AnyNode::Output(n) => n.spec_num_outputs(),
            AnyNode::Counter(n) => n.spec_num_outputs(),
            AnyNode::Buffer(n) => n.spec_num_outputs(),
            AnyNode::Add(n) => n.spec_num_outputs(),
            AnyNode::And(n) => n.spec_num_outputs(),
            AnyNode::Button(n) => n.spec_num_outputs(),
            AnyNode::Toggle(n) => n.spec_num_outputs(),
        }
    }

    open spec fn spec_output(&self, port: u32) -> WireValue {
        match self {
            AnyNode::Constant(n) => n.spec_output(port),
            AnyNode::Output(n) => n.spec_output(port),
            AnyNode::Counter(n) => n.spec_output(port),
            AnyNode::Buffer(n) => n.spec_output(port),
            AnyNode::Add(n) => n.spec_output(port),
            AnyNode::And(n) => n.spec_output(port),
            AnyNode::Button(n) => n.spec_output(port),
            AnyNode::Toggle(n) => n.spec_output(port),
        }
    }

    open spec fn spec_input_changed(&self, port: u32, value: WireValue) -> Self {
        match self {
            AnyNode::Constant(n) => AnyNode::Constant(n.spec_input_changed(port, value)),
            AnyNode::Output(n) => AnyNode::Output(n.spec_input_changed(port, value)),
            AnyNode::Counter(n) => AnyNode::Counter(n.spec_input_changed(port, value)),
            AnyNode::Buffer(n) => AnyNode::Buffer(n.spec_input_changed(port, value)),
            AnyNode::Add(n) => AnyNode::Add(n.spec_input_changed(port, value)),
            AnyNode::And(n) => AnyNode::And(n.spec_input_changed(port, value)),
            AnyNode::Button(n) => AnyNode::Button(n.spec_input_changed(port, value)),
            AnyNode::Toggle(n) => AnyNode::Toggle(n.spec_input_changed(port, value)),
        }
    }

    open spec fn spec_updated(&self) -> Self {
        match self {
            AnyNode::Constant(n) => AnyNode::Constant(n.spec_updated()),
            AnyNode::Output(n) => AnyNode::Output(n.spec_updated()),
            AnyNode::Counter(n) => AnyNode::Counter(n.spec_updated()),
            AnyNode::Buffer(n) => AnyNode::Buffer(n.spec_updated()),
            AnyNode::Add(n) => AnyNode::Add(n.spec_updated()),
            AnyNode::And(n) => AnyNode::And(n.spec_updated()),
            AnyNode::Button(n) => AnyNode::Button(n.spec_updated()),
            AnyNode::Toggle(n) => AnyNode::Toggle(n.spec_updated()),
        }
    }

    open spec fn spec_frobbed(&self) -> Self {
        match self {
            AnyNode::Constant(n) => AnyNode::Constant(n.spec_frobbed()),
            AnyNode::Output(n) => AnyNode::Output(n.spec_frobbed()),
            AnyNode::Counter(n) => AnyNode::Counter(n.spec_frobbed()),
            AnyNode::Buffer(n) => AnyNode::Buffer(n.spec_frobbed()),
            AnyNode::Add(n) => AnyNode::Add(n.spec_frobbed()),
            AnyNode::And(n) => AnyNode::And(n.spec_frobbed()),
            AnyNode::Button(n) => AnyNode::Button(n.spec_frobbed()),
            AnyNode::Toggle(n) => AnyNode::Toggle(n.spec_frobbed()),
        }
    }

    open spec fn spec_label(&self) -> Seq<char> {
        match self {
            AnyNode::Constant(n) => n.spec_label(),
            AnyNode::Output(n) => n.spec_label(),
            AnyNode::Counter(n) => n.spec_label(),
            AnyNode::Buffer(n) => n.spec_label(),
            AnyNode::Add(n) => n.spec_label(),
            AnyNode::And(n) => n.spec_label(),
            AnyNode::Button(n) => n.spec_label(),
            AnyNode::Toggle(n) => n.spec_label(),
        }
    }

    fn get_label(&self) -> (r: String) {
        match self {
            AnyNode::Constant(n) => n.get_label(),
            AnyNode::Output(n) => n.get_label(),
            AnyNode::Counter(n) => n.get_label(),
            AnyNode::Buffer(n) => n.get_label(),
            AnyNode::Add(n) => n.get_label(),
            AnyNode::And(n) => n.get_label(),
            AnyNode::Button(n) => n.get_label(),
            AnyNode::Toggle(n) => n.get_label(),
        }
    }

    fn get_num_inputs(&self) -> (r: u32) {
        match self {
            AnyNode::Constant(n) => n.get_num_inputs(),
            AnyNode::Output(n) => n.get_num_inputs(),
            AnyNode::Counter(n) => n.get_num_inputs(),
            AnyNode::Buffer(n) => n.get_num_inputs(),
            AnyNode::Add(n) => n.get_num_inputs(),
            AnyNode::And(n) => n.get_num_inputs(),
            AnyNode::Button(n) => n.get_num_inputs(),
            AnyNode::Toggle(n) => n.get_num_inputs(),
        }
    }

    fn get_num_outputs(&self) -> (r: u32) {
        match self {
            AnyNode::Constant(n) => n.get_num_outputs(),
            AnyNode::Output(n) => n.get_num_outputs(),
            AnyNode::Counter(n) => n.get_num_outputs(),
            AnyNode::Buffer(n) => n.get_num_outputs(),
            AnyNode::Add(n) => n.get_num_outputs(),
            AnyNode::And(n) => n.get_num_outputs(),
            AnyNode::Button(n) => n.get_num_outputs(),
            AnyNode::Toggle(n) => n.get_num_outputs(),
        }
    }

    fn on_input_changed(&mut self, port: u32, value: WireValue) {
        match self {
            AnyNode::Constant(n) => n.on_input_changed(port, value),
            AnyNode::Output(n) => n.on_input_changed(port, value),
            AnyNode::Counter(n) => n.on_input_changed(port, value),
            AnyNode::Buffer(n) => n.on_input_changed(port, value),
            AnyNode::Add(n) => n.on_input_changed(port, value),
            AnyNode::And(n) => n.on_input_changed(port, value),
            AnyNode::Button(n) => n.on_input_changed(port, value),
            AnyNode::Toggle(n) => n.on_input_changed(port, value),
        }
    }

    fn on_frob(&mut self) {
        match self {
            AnyNode::Constant(n) => n.on_frob(),
            AnyNode::Output(n) => n.on_frob(),
            AnyNode::Counter(n) => n.on_frob(),
            AnyNode::Buffer(n) => n.on_frob(),
            AnyNode::Add(n) => n.on_frob(),
            AnyNode::And(n) => n.on_frob(),
            AnyNode::Button(n) => n.on_frob(),
            AnyNode::Toggle(n) => n.on_frob(),
        }
    }

    fn get_output(&self, port: u32) -> (r: WireValue) {
        match self {
            AnyNode::Constant(n) => n.get_output(port),
            AnyNode::Output(n) => n.get_output(port),
            AnyNode::Counter(n) => n.get_output(port),
            AnyNode::Buffer(n) => n.get_output(port),
            AnyNode::Add(n) => n.get_output(port),
            AnyNode::And(n) => n.get_output(port),
            AnyNode::Button(n) => n.get_output(port),
            AnyNode::Toggle(n) => n.get_output(port),
        }
    }

    fn update(&mut self) {
        match self {
            AnyNode::Constant(n) => n.update(),
            AnyNode::Output(n) => n.update(),
            AnyNode::Counter(n) => n.update(),
            AnyNode::Buffer(n) => n.update(),
            AnyNode::Add(n) => n.update(),
            AnyNode::And(n) => n.update(),
            AnyNode::Button(n) => n.update(),
            AnyNode::Toggle(n) => n.update(),
        }
    }
}

} // verus!
