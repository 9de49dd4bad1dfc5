use treelint::engine::{RegisteredRule, RuleEngine};
use treelint::node::{SourceLocation, SyntaxNode};
use treelint::rules::uint8_vs_uint256::Uint8VsUint256Rule;
use treelint::rules::untyped_declaration::UntypedDeclarationRule;

fn loc(n: usize) -> SourceLocation {
    SourceLocation { start: n, end: n + 10 }
}

fn contract(at: usize, children: Vec<SyntaxNode>) -> SyntaxNode {
    SyntaxNode::ContractDefinition { location: loc(at), children }
}

fn func(at: usize, children: Vec<SyntaxNode>) -> SyntaxNode {
    SyntaxNode::FunctionDefinition { location: loc(at), children }
}

fn decl(at: usize, ty: &str) -> SyntaxNode {
    SyntaxNode::VariableDeclaration {
        location: loc(at),
        declared_type: ty.to_string(),
        children: Vec::new(),
    }
}

#[test]
fn run_all_without_rules_returns_nothing() {
    let engine = RuleEngine::new();
    let root = contract(0, vec![decl(1, "uint8")]);
    let report = engine.run_all(&root);
    assert!(report.diagnostics.is_empty());
    assert!(report.failures.is_empty());
}

#[test]
fn run_all_merges_in_registration_order() {
    // Each rule produces exactly one diagnostic on this tree; the output is
    // the first rule's finding, then the second rule's finding.
    let root = contract(0, vec![decl(1, "uint8"), decl(2, "")]);
    let mut engine = RuleEngine::new();
    engine.register(RegisteredRule::NarrowInteger(Uint8VsUint256Rule));
    engine.register(RegisteredRule::UntypedDeclaration(UntypedDeclarationRule));
    let report = engine.run_all(&root);
    assert!(report.failures.is_empty());
    assert_eq!(report.diagnostics.len(), 2);
    assert_eq!(report.diagnostics[0].rule_id, "uint8-vs-uint256");
    assert_eq!(report.diagnostics[1].rule_id, "untyped-declaration");
}

#[test]
fn run_all_merge_order_follows_registration_not_rule_identity() {
    let root = contract(0, vec![decl(1, "uint8"), decl(2, "")]);
    let mut engine = RuleEngine::new();
    engine.register(RegisteredRule::UntypedDeclaration(UntypedDeclarationRule));
    engine.register(RegisteredRule::NarrowInteger(Uint8VsUint256Rule));
    let report = engine.run_all(&root);
    assert_eq!(report.diagnostics.len(), 2);
    assert_eq!(report.diagnostics[0].rule_id, "untyped-declaration");
    assert_eq!(report.diagnostics[1].rule_id, "uint8-vs-uint256");
}

#[test]
fn run_all_keeps_each_rules_traversal_order_within_its_block() {
    let root = contract(0, vec![decl(1, "uint8"), decl(2, ""), decl(3, "uint8"), decl(4, "")]);
    let mut engine = RuleEngine::new();
    engine.register(RegisteredRule::NarrowInteger(Uint8VsUint256Rule));
    engine.register(RegisteredRule::UntypedDeclaration(UntypedDeclarationRule));
    let report = engine.run_all(&root);
    let places: Vec<usize> = report.diagnostics.iter().map(|d| d.location.start).collect();
    assert_eq!(places, vec![1, 3, 2, 4]);
}

#[test]
fn one_failing_rule_does_not_suppress_the_others() {
    // The untyped-declaration rule fails on a non-contract root; the
    // narrow-integer rule's findings are still returned, and the failure is
    // reported beside them under the failing rule's id.
    let root = func(0, vec![decl(1, "uint8")]);
    let mut engine = RuleEngine::new();
    engine.register(RegisteredRule::UntypedDeclaration(UntypedDeclarationRule));
    engine.register(RegisteredRule::NarrowInteger(Uint8VsUint256Rule));
    let report = engine.run_all(&root);
    assert_eq!(report.diagnostics.len(), 1);
    assert_eq!(report.diagnostics[0].rule_id, "uint8-vs-uint256");
    assert_eq!(report.failures.len(), 1);
    assert_eq!(report.failures[0].rule_id, "untyped-declaration");
    assert_eq!(
        report.failures[0].detail,
        "expected a contract definition at the tree root"
    );
}

#[test]
fn run_all_is_pure() {
    let root = contract(0, vec![decl(1, "uint8"), decl(2, "")]);
    let mut engine = RuleEngine::new();
    engine.register(RegisteredRule::NarrowInteger(Uint8VsUint256Rule));
    engine.register(RegisteredRule::UntypedDeclaration(UntypedDeclarationRule));
    let first = engine.run_all(&root);
    let second = engine.run_all(&root);
    assert_eq!(first.diagnostics, second.diagnostics);
    assert_eq!(first.failures, second.failures);
}

#[test]
fn rule_count_follows_registration() {
    let mut engine = RuleEngine::new();
    assert_eq!(engine.rule_count(), 0);
    engine.register(RegisteredRule::NarrowInteger(Uint8VsUint256Rule));
    assert_eq!(engine.rule_count(), 1);
    engine.register(RegisteredRule::UntypedDeclaration(UntypedDeclarationRule));
    assert_eq!(engine.rule_count(), 2);
}
