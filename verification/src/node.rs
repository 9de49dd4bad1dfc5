//! The syntax-node model: a closed set of construct variants, each carrying
//! a source location and owning its children. Parent links are never stored;
//! they are computed transiently during traversal, so ownership stays
//! strictly hierarchical and every tree is finite and acyclic.

use vstd::prelude::*;

verus! {

/// A source span, given as byte offsets into the original contract text.
#[derive(Clone, Copy, PartialEq, Eq, Structural, Debug)]
pub struct SourceLocation {
    pub start: usize,
    pub end: usize,
}

/// One parsed syntax construct. Every variant owns the subtree below it and
/// carries the span it was parsed from; `Other` stands for constructs the
/// analysis does not specifically understand, which are still traversed
/// structurally.
#[derive(Debug, PartialEq, Eq)]
pub enum SyntaxNode {
    ContractDefinition { location: SourceLocation, children: Vec<SyntaxNode> },
    StructDefinition { location: SourceLocation, children: Vec<SyntaxNode> },
    FunctionDefinition { location: SourceLocation, children: Vec<SyntaxNode> },
    VariableDeclaration { location: SourceLocation, declared_type: String, children: Vec<SyntaxNode> },
    Other { location: SourceLocation, children: Vec<SyntaxNode> },
}

impl SyntaxNode {
    /// The node's children, in syntactic (left-to-right) declaration order.
    pub open spec fn spec_children(self) -> Seq<SyntaxNode> {
        (match self {
            SyntaxNode::ContractDefinition { children, .. } => children,
            SyntaxNode::StructDefinition { children, .. } => children,
            SyntaxNode::FunctionDefinition { children, .. } => children,
            SyntaxNode::VariableDeclaration { children, .. } => children,
            SyntaxNode::Other { children, .. } => children,
        })@
    }

    /// The source span the node was parsed from.
    pub open spec fn spec_location(self) -> SourceLocation {
        match self {
            SyntaxNode::ContractDefinition { location, .. } => location,
            SyntaxNode::StructDefinition { location, .. } => location,
            SyntaxNode::FunctionDefinition { location, .. } => location,
            SyntaxNode::VariableDeclaration { location, .. } => location,
            SyntaxNode::Other { location, .. } => location,
        }
    }

    /// Borrows the node's children, in declaration order.
    pub fn children(&self) -> (r: &Vec<SyntaxNode>)
        ensures
            r@ == self.spec_children(),
    {
        match self {
            SyntaxNode::ContractDefinition { children, .. } => children,
            SyntaxNode::StructDefinition { children, .. } => children,
            SyntaxNode::FunctionDefinition { children, .. } => children,
            SyntaxNode::VariableDeclaration { children, .. } => children,
            SyntaxNode::Other { children, .. } => children,
        }
    }

    /// The node's source span.
    pub fn location(&self) -> (r: SourceLocation)
        ensures
            r == self.spec_location(),
    {
        match self {
            SyntaxNode::ContractDefinition { location, .. } => *location,
            SyntaxNode::StructDefinition { location, .. } => *location,
            SyntaxNode::FunctionDefinition { location, .. } => *location,
            SyntaxNode::VariableDeclaration { location, .. } => *location,
            SyntaxNode::Other { location, .. } => *location,
        }
    }
}

} // verus!
