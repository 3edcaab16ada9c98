use vstd::prelude::*;

verus! {

/// The closed set of values that travel along a wire.
///
/// `Null` stands for "nothing here": an unconnected or vanished source.
#[derive(Copy, Clone, Debug, PartialEq, Eq, Structural)]
pub enum WireValue {
    Null,
    Int(i32),
    Bool(bool),
}

impl WireValue {
    pub fn is_null(&self) -> (r: bool)
        ensures
            r == (*self == WireValue::Null),
    {
        match *self {
            WireValue::Null => true,
            _ => false,
        }
    }
}

} // verus!
