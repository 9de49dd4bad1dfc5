//! The concrete detection rules the crate ships with. Each one follows the
//! same pattern: walk the tree, match a node variant and field, apply
//! parent-context exceptions, and emit a diagnostic with a fixed severity
//! and message.

pub mod uint8_vs_uint256;
pub mod untyped_declaration;
