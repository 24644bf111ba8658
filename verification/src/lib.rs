//! Lowering of C statements into a control-flow graph of basic blocks, and
//! the diagnostic collector that the lowering reports to.

pub mod data;
pub mod ir;
