//! A reactive dataflow graph: stateful nodes joined by wires, advanced one
//! tick at a time with a one-tick delay on every hop, so that feedback loops
//! are safe.

pub mod value;
pub mod label;
pub mod node;
pub mod basic;
pub mod io;
pub mod model;
pub mod context;
pub mod laws;
pub mod editor;

pub use value::WireValue;
pub use node::{AnyNode, WireNode};
