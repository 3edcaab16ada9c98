use vstd::prelude::*;
use crate::node::WireNode;
use crate::value::WireValue;
use crate::label::{bool_text, decimal, push_bool, push_decimal, push_value, value_text};
use vstd::string::StringExecFns;

verus! {

/// Offers a fixed integer on its single output.
pub struct ConstantNode {
    pub value: i32,
}

impl WireNode for ConstantNode {
    open spec fn spec_label(&self) -> Seq<char> {
        seq!['C', 'o', 'n', 's', 't', 'a', 'n', 't', '('] + decimal(self.value as int) + seq![')']
    }

    open spec fn spec_num_inputs(&self) -> nat {
        0
    }

    open spec fn spec_num_outputs(&self) -> nat {
        1
    }

    open spec fn spec_output(&self, port: u32) -> WireValue {
        if port == 0 {
            WireValue::Int(self.value)
        } else {
            WireValue::Null
        }
    }

    open spec fn spec_input_changed(&self, port: u32, value: WireValue) -> Self {
        ConstantNode { value: self.value }
    }

    open spec fn spec_updated(&self) -> Self {
        ConstantNode { value: self.value }
    }

    open spec fn spec_frobbed(&self) -> Self {
        ConstantNode { value: self.value }
    }

    fn get_num_inputs(&self) -> (r: u32) {
        0
    }

    fn get_num_outputs(&self) -> (r: u32) {
        1
    }

    fn on_input_changed(&mut self, port: u32, value: WireValue) {
    }

    fn on_frob(&mut self) {
    }

    fn get_output(&self, port: u32) -> (r: WireValue) {
        if port == 0 {
            WireValue::Int(self.value)
        } else {
            WireValue::Null
        }
    }

    fn update(&mut self) {
    }

    fn get_label(&self) -> (r: String) {
        let mut s = String::new();
        proof {
            reveal_strlit("Constant(");
        }
        s.append("Constant(");
        push_decimal(&mut s, self.value);
        proof {
            reveal_strlit(")");
        }
        s.append(")");
        assert(s@ =~= self.spec_label());
        s
    }
}

/// A sink that remembers the last value it received, under a name.
pub struct OutputNode {
    pub name: String,
    pub value: WireValue,
}

impl OutputNode {
    pub fn new(name: &str) -> (r: OutputNode)
        ensures
            r.name@ == name@,
            r.value == WireValue::Null,
    {
        OutputNode { name: name.to_owned(), value: WireValue::Null }
    }
}

impl WireNode for OutputNode {
    open spec fn spec_label(&self) -> Seq<char> {
        self.name@ + seq![':'] + value_text(self.value)
    }

    open spec fn spec_num_inputs(&self) -> nat {
        1
    }

    open spec fn spec_num_outputs(&self) -> nat {
        0
    }

    open spec fn spec_output(&self, port: u32) -> WireValue {
        WireValue::Null
    }

    open spec fn spec_input_changed(&self, port: u32, value: WireValue) -> Self {
        if port == 0 {
            OutputNode { name: self.name, value }
        } else {
            OutputNode { name: self.name, value: self.value }
        }
    }

    open spec fn spec_updated(&self) -> Self {
        OutputNode { name: self.name, value: self.value }
    }

    open spec fn spec_frobbed(&self) -> Self {
        OutputNode { name: self.name, value: self.value }
    }

    fn get_num_inputs(&self) -> (r: u32) {
        1
    }

    fn get_num_outputs(&self) -> (r: u32) {
        0
    }

    fn on_input_changed(&mut self, port: u32, value: WireValue) {
        if port == 0 {
            self.value = value;
        }
    }

    fn on_frob(&mut self) {
    }

    fn get_output(&self, port: u32) -> (r: WireValue) {
        WireValue::Null
    }

    fn update(&mut self) {
    }

    fn get_label(&self) -> (r: String) {
        let mut s = self.name.clone();
        proof {
            reveal_strlit(":");
        }
        s.append(":");
        push_value(&mut s, self.value);
        assert(s@ =~= self.spec_label());
        s
    }
}

/// Counts the ticks it has seen, starting from zero.
pub struct CounterNode {
    pub count: i32,
}

impl CounterNode {
    pub fn new() -> (r: CounterNode)
        ensures
            r.count == 0,
    {
        CounterNode { count: 0 }
    }
}

impl WireNode for CounterNode {
    open spec fn spec_label(&self) -> Seq<char> {
        decimal(self.count as int)
    }

    open spec fn spec_num_inputs(&self) -> nat {
        0
    }

    open spec fn spec_num_outputs(&self) -> nat {
        1
    }

    open spec fn spec_output(&self, port: u32) -> WireValue {
        if port == 0 {
            WireValue::Int(self.count)
        } else {
            WireValue::Null
        }
    }

    open spec fn spec_input_changed(&self, port: u32, value: WireValue) -> Self {
        CounterNode { count: self.count }
    }

    /// The count wraps around at the end of the `i32` range.
    open spec fn spec_updated(&self) -> Self {
        CounterNode {
            count: if self.count == i32::MAX {
                i32::MIN
            } else {
                (self.count + 1) as i32
            },
        }
    }

    open spec fn spec_frobbed(&self) -> Self {
        CounterNode { count: self.count }
    }

    fn get_num_inputs(&self) -> (r: u32) {
        0
    }

    fn get_num_outputs(&self) -> (r: u32) {
        1
    }

    fn on_input_changed(&mut self, port: u32, value: WireValue) {
    }

    fn on_frob(&mut self) {
    }

    fn get_output(&self, port: u32) -> (r: WireValue) {
        if port == 0 {
            WireValue::Int(self.count)
        } else {
            WireValue::Null
        }
    }

    fn update(&mut self) {
        if self.count == i32::MAX {
            self.count = i32::MIN;
        } else {
            self.count = self.count + 1;
        }
    }

    fn get_label(&self) -> (r: String) {
        let mut s = String::new();
        push_decimal(&mut s, self.count);
        assert(s@ =~= self.spec_label());
        s
    }
}

/// Passes the last value it received on to its output, one tick later.
pub struct BufferNode {
    pub value: WireValue,
}

impl BufferNode {
    pub fn new() -> (r: BufferNode)
        ensures
            r.value == WireValue::Null,
    {
        BufferNode { value: WireValue::Null }
    }
}

impl WireNode for BufferNode {
    open spec fn spec_label(&self) -> Seq<char> {
        Seq::empty()
    }

    open spec fn spec_num_inputs(&self) -> nat {
        1
    }

    open spec fn spec_num_outputs(&self) -> nat {
        1
    }

    open spec fn spec_output(&self, port: u32) -> WireValue {
        self.value
    }

    open spec fn spec_input_changed(&self, port: u32, value: WireValue) -> Self {
        BufferNode { value }
    }

    open spec fn spec_updated(&self) -> Self {
        BufferNode { value: self.value }
    }

    open spec fn spec_frobbed(&self) -> Self {
        BufferNode { value: self.value }
    }

    fn get_num_inputs(&self) -> (r: u32) {
        1
    }

    fn get_num_outputs(&self) -> (r: u32) {
        1
    }

    fn on_input_changed(&mut self, port: u32, value: WireValue) {
        self.value = value;
    }

    fn on_frob(&mut self) {
    }

    fn get_output(&self, port: u32) -> (r: WireValue) {
        self.value
    }

    fn update(&mut self) {
    }

    fn get_label(&self) -> (r: String) {
        String::new()
    }
}

/// Adds its two integer inputs; the sum appears on the output after `update`.
///
/// A non-integer value on an input leaves the remembered operand as it was.
/// The sum wraps around at the ends of the `i32` range.
pub struct AddNode {
    pub inputs: [i32; 2],
    pub value: i32,
}

impl AddNode {
    pub fn new() -> (r: AddNode)
        ensures
            r.inputs@ == seq![0i32, 0i32],
            r.value == 0,
    {
        AddNode { inputs: [0, 0], value: 0 }
    }
}

impl WireNode for AddNode {
    open spec fn spec_label(&self) -> Seq<char> {
        decimal(self.inputs[0] as int) + seq![' ', '+', ' '] + decimal(self.inputs[1] as int)
    }

    open spec fn spec_num_inputs(&self) -> nat {
        2
    }

    open spec fn spec_num_outputs(&self) -> nat {
        1
    }

    open spec fn spec_output(&self, port: u32) -> WireValue {
        if port == 0 {
            WireValue::Int(self.value)
        } else {
            WireValue::Null
        }
    }

    open spec fn spec_input_changed(&self, port: u32, value: WireValue) -> Self {
        match value {
            WireValue::Int(x) => if port == 0 {
                AddNode { inputs: [x, self.inputs[1]], value: self.value }
            } else if port == 1 {
                AddNode { inputs: [self.inputs[0], x], value: self.value }
            } else {
                AddNode { inputs: self.inputs, value: self.value }
            },
            _ => AddNode { inputs: self.inputs, value: self.value },
        }
    }

    open spec fn spec_updated(&self) -> Self {
        AddNode { inputs: self.inputs, value: wrapping_sum(self.inputs[0], self.inputs[1]) }
    }

    open spec fn spec_frobbed(&self) -> Self {
        AddNode { inputs: self.inputs, value: self.value }
    }

    fn get_num_inputs(&self) -> (r: u32) {
        2
    }

    fn get_num_outputs(&self) -> (r: u32) {
        1
    }

    fn on_input_changed(&mut self, port: u32, value: WireValue) {
        if let WireValue::Int(x) = value {
            if port == 0 {
                self.inputs = [x, self.inputs[1]];
            } else if port == 1 {
                self.inputs = [self.inputs[0], x];
            }
        }
    }

    fn on_frob(&mut self) {
    }

    fn get_output(&self, port: u32) -> (r: WireValue) {
        if port == 0 {
            WireValue::Int(self.value)
        } else {
            WireValue::Null
        }
    }

    fn update(&mut self) {
        self.value = self.inputs[0].wrapping_add(self.inputs[1]);
    }

    fn get_label(&self) -> (r: String) {
        let mut s = String::new();
        push_decimal(&mut s, self.inputs[0]);
        proof {
            reveal_strlit(" + ");
        }
        s.append(" + ");
        push_decimal(&mut s, self.inputs[1]);
        assert(s@ =~= self.spec_label());
        s
    }
}

/// The sum of two `i32` values, wrapped into the `i32` range.
pub open spec fn wrapping_sum(a: i32, b: i32) -> i32 {
    let s = a + b;
    if s > i32::MAX {
        (s - 0x1_0000_0000) as i32
    } else if s < i32::MIN {
        (s + 0x1_0000_0000) as i32
    } else {
        s as i32
    }
}

/// Offers the conjunction of its two boolean inputs.
///
/// A non-boolean value on an input leaves the remembered operand as it was.
pub struct AndNode {
    pub inputs: [bool; 2],
}

impl AndNode {
    pub fn new() -> (r: AndNode)
        ensures
            r.inputs@ == seq![false, false],
    {
        AndNode { inputs: [false, false] }
    }
}

impl WireNode for AndNode {
    open spec fn spec_label(&self) -> Seq<char> {
        bool_text(self.inputs[0]) + seq![' ', 'a', 'n', 'd', ' '] + bool_text(self.inputs[1])
    }

    open spec fn spec_num_inputs(&self) -> nat {
        2
    }

    open spec fn spec_num_outputs(&self) -> nat {
        1
    }

    open spec fn spec_output(&self, port: u32) -> WireValue {
        if port == 0 {
            WireValue::Bool(self.inputs[0] && self.inputs[1])
        } else {
            WireValue::Null
        }
    }

    open spec fn spec_input_changed(&self, port: u32, value: WireValue) -> Self {
        match value {
            WireValue::Bool(x) => if port == 0 {
                AndNode { inputs: [x, self.inputs[1]] }
            } else if port == 1 {
                AndNode { inputs: [self.inputs[0], x] }
            } else {
                AndNode { inputs: self.inputs }
            },
            _ => AndNode { inputs: self.inputs },
        }
    }

    open spec fn spec_updated(&self) -> Self {
        AndNode { inputs: self.inputs }
    }

    open spec fn spec_frobbed(&self) -> Self {
        AndNode { inputs: self.inputs }
    }

    fn get_num_inputs(&self) -> (r: u32) {
        2
    }

    fn get_num_outputs(&self) -> (r: u32) {
        1
    }

    fn on_input_changed(&mut self, port: u32, value: WireValue) {
        if let WireValue::Bool(x) = value {
            if port == 0 {
                self.inputs = [x, self.inputs[1]];
            } else if port == 1 {
                self.inputs = [self.inputs[0], x];
            }
        }
    }

    fn on_frob(&mut self) {
    }

    fn get_output(&self, port: u32) -> (r: WireValue) {
        if port == 0 {
            WireValue::Bool(self.inputs[0] && self.inputs[1])
        } else {
            WireValue::Null
        }
    }

    fn update(&mut self) {
    }

    fn get_label(&self) -> (r: String) {
        let mut s = String::new();
        push_bool(&mut s, self.inputs[0]);
        proof {
            reveal_strlit(" and ");
        }
        s.append(" and ");
        push_bool(&mut s, self.inputs[1]);
        assert(s@ =~= self.spec_label());
        s
    }
}

} // verus!
