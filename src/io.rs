use vstd::prelude::*;
use crate::node::WireNode;
use crate::value::WireValue;
use vstd::string::StringExecFns;

verus! {

/// Reports `true` for two ticks after it was pressed.
pub struct ButtonNode {
    pub pressed_ticks: u32,
}

impl ButtonNode {
    pub fn new() -> (r: ButtonNode)
        ensures
            r.pressed_ticks == 0,
    {
        ButtonNode { pressed_ticks: 0 }
    }
}

impl WireNode for ButtonNode {
    open spec fn spec_label(&self) -> Seq<char> {
        if self.pressed_ticks > 0 {
            seq!['c', 'l', 'i', 'c', 'k']
        } else {
            Seq::empty()
        }
    }

    open spec fn spec_num_inputs(&self) -> nat {
        0
    }

    open spec fn spec_num_outputs(&self) -> nat {
        1
    }

    open spec fn spec_output(&self, port: u32) -> WireValue {
        WireValue::Bool(self.pressed_ticks > 0)
    }

    open spec fn spec_input_changed(&self, port: u32, value: WireValue) -> Self {
        ButtonNode { pressed_ticks: self.pressed_ticks }
    }

    open spec fn spec_updated(&self) -> Self {
        ButtonNode {
            pressed_ticks: if self.pressed_ticks > 0 {
                (self.pressed_ticks - 1) as u32
            } else {
                0
            },
        }
    }

    open spec fn spec_frobbed(&self) -> Self {
        ButtonNode { pressed_ticks: 2 }
    }

    fn get_num_inputs(&self) -> (r: u32) {
        0
    }

    fn get_num_outputs(&self) -> (r: u32) {
        1
    }

    fn on_input_changed(&mut self, port: u32, value: WireValue) {
    }

    fn on_frob(&mut self) {
        self.pressed_ticks = 2;
    }

    fn get_output(&self, port: u32) -> (r: WireValue) {
        WireValue::Bool(self.pressed_ticks > 0)
    }

    fn update(&mut self) {
        if self.pressed_ticks > 0 {
            self.pressed_ticks = self.pressed_ticks - 1;
        }
    }

    fn get_label(&self) -> (r: String) {
        let mut s = String::new();
        if self.pressed_ticks > 0 {
            proof {
                reveal_strlit("click");
            }
            s.append("click");
        }
        assert(s@ =~= self.spec_label());
        s
    }
}

/// Flips between `false` and `true` each time it is pressed.
pub struct ToggleNode {
    pub state: bool,
}

impl ToggleNode {
    pub fn new() -> (r: ToggleNode)
        ensures
            !r.state,
    {
        ToggleNode { state: false }
    }
}

impl WireNode for ToggleNode {
    open spec fn spec_label(&self) -> Seq<char> {
        if self.state {
            seq!['o', 'n']
        } else {
            seq!['o', 'f', 'f']
        }
    }

    open spec fn spec_num_inputs(&self) -> nat {
        0
    }

    open spec fn spec_num_outputs(&self) -> nat {
        1
    }

    open spec fn spec_output(&self, port: u32) -> WireValue {
        WireValue::Bool(self.state)
    }

    open spec fn spec_input_changed(&self, port: u32, value: WireValue) -> Self {
        ToggleNode { state: self.state }
    }

    open spec fn spec_updated(&self) -> Self {
        ToggleNode { state: self.state }
    }

    open spec fn spec_frobbed(&self) -> Self {
        ToggleNode { state: !self.state }
    }

    fn get_num_inputs(&self) -> (r: u32) {
        0
    }

    fn get_num_outputs(&self) -> (r: u32) {
        1
    }

    fn on_input_changed(&mut self, port: u32, value: WireValue) {
    }

    fn on_frob(&mut self) {
        self.state = !self.state;
    }

    fn get_output(&self, port: u32) -> (r: WireValue) {
        WireValue::Bool(self.state)
    }

    fn update(&mut self) {
    }

    fn get_label(&self) -> (r: String) {
        let mut s = String::new();
        if self.state {
            proof {
                reveal_strlit("on");
            }
            s.append("on");
        } else {
            proof {
                reveal_strlit("off");
            }
            s.append("off");
        }
        assert(s@ =~= self.spec_label());
        s
    }
}

} // verus!
