use treelint::node::{SourceLocation, SyntaxNode};

fn loc(n: usize) -> SourceLocation {
    SourceLocation { start: n, end: n + 10 }
}

fn contract(at: usize, children: Vec<SyntaxNode>) -> SyntaxNode {
    SyntaxNode::ContractDefinition { location: loc(at), children }
}

fn strukt(at: usize, children: Vec<SyntaxNode>) -> SyntaxNode {
    SyntaxNode::StructDefinition { location: loc(at), children }
}

fn func(at: usize, children: Vec<SyntaxNode>) -> SyntaxNode {
    SyntaxNode::FunctionDefinition { location: loc(at), children }
}

fn decl(at: usize, ty: &str) -> SyntaxNode {
    SyntaxNode::VariableDeclaration {
        location: loc(at),
        declared_type: ty.to_string(),
        children: Vec::new(),
    }
}

fn other(at: usize, children: Vec<SyntaxNode>) -> SyntaxNode {
    SyntaxNode::Other { location: loc(at), children }
}

#[test]
fn walk_single_node() {
    let root = other(0, Vec::new());
    let events = root.walk();
    assert_eq!(events.len(), 1);
    assert_eq!(*events[0].0, root);
    assert!(events[0].1.is_none());
}

#[test]
fn walk_visits_every_node_once_in_preorder() {
    let root = contract(
        0,
        vec![
            strukt(1, vec![decl(2, "uint8")]),
            decl(3, "uint8"),
            func(4, vec![other(5, vec![decl(6, "uint256")])]),
        ],
    );
    let events = root.walk();
    assert_eq!(events.len(), 7);
    let visited: Vec<usize> = events.iter().map(|(n, _)| n.location().start).collect();
    assert_eq!(visited, vec![0, 1, 2, 3, 4, 5, 6]);
}

#[test]
fn walk_reports_the_containing_node_as_parent() {
    let root = contract(
        0,
        vec![
            strukt(1, vec![decl(2, "uint8")]),
            decl(3, "uint8"),
            func(4, vec![other(5, vec![decl(6, "uint256")])]),
        ],
    );
    let events = root.walk();
    let parents: Vec<Option<usize>> = events
        .iter()
        .map(|(_, p)| p.map(|q| q.location().start))
        .collect();
    assert_eq!(
        parents,
        vec![None, Some(0), Some(1), Some(0), Some(0), Some(4), Some(5)]
    );
}

#[test]
fn walk_traverses_unknown_constructs_structurally() {
    let root = other(0, vec![other(1, vec![decl(2, "bool")]), decl(3, "uint8")]);
    let events = root.walk();
    assert_eq!(events.len(), 4);
    let visited: Vec<usize> = events.iter().map(|(n, _)| n.location().start).collect();
    assert_eq!(visited, vec![0, 1, 2, 3]);
}

#[test]
fn walk_visits_siblings_in_declaration_order() {
    let root = strukt(9, vec![decl(4, "a"), decl(7, "b"), decl(1, "c"), decl(3, "d")]);
    let events = root.walk();
    let visited: Vec<usize> = events.iter().map(|(n, _)| n.location().start).collect();
    assert_eq!(visited, vec![9, 4, 7, 1, 3]);
}
