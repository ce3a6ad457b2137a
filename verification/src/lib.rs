//! A lint engine over an annotated program tree: loop and match detectors,
//! the variable-usage analyses they rest on, and an interval-overlap check
//! for match arms.

pub mod attrs;
pub mod camel;
pub mod context;
pub mod diagnostics;
pub mod driver;
pub mod engine;
pub mod higher;
pub mod loops;
pub mod matches;
pub mod node;
pub mod options;
pub mod paths;
pub mod query;
pub mod scope;
pub mod source;
pub mod span;
pub mod store;
pub mod sugg;
pub mod sweep;
pub mod sweep_laws;
pub mod text;
pub mod tree;
pub mod tree_laws;
pub mod trim;
pub mod ty;
pub mod usage;
pub mod utils;
pub mod vec;
