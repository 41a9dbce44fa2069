//! SystemVerilog front end: the parse model and the pieces of analysis that work on it.
pub mod collect;
pub mod cst_ir;
pub mod model;
pub mod preprocess;
pub mod source;
pub mod usage;
