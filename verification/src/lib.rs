//! Analysis core for smart-contract syntax trees.
//!
//! The crate walks a parsed syntax tree and runs a set of independent,
//! stateless detection rules against it, each rule emitting structured
//! diagnostics. It provides the node model, a parent-aware depth-first
//! walker, the rule contract, the diagnostic value type, and an engine
//! that runs every registered rule and merges their findings.

pub mod node;
pub mod walker;
pub mod diagnostic;
pub mod rule;
pub mod rules;
pub mod engine;
