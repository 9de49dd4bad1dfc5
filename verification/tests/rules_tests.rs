use treelint::diagnostic::Severity;
use treelint::node::{SourceLocation, SyntaxNode};
use treelint::rule::Rule;
use treelint::rules::uint8_vs_uint256::Uint8VsUint256Rule;
use treelint::rules::untyped_declaration::UntypedDeclarationRule;

fn loc(n: usize) -> SourceLocation {
    SourceLocation { start: n, end: n + 10 }
}

fn contract(at: usize, children: Vec<SyntaxNode>) -> SyntaxNode {
    SyntaxNode::ContractDefinition { location: loc(at), children }
}

fn strukt(at: usize, children: Vec<SyntaxNode>) -> SyntaxNode {
    SyntaxNode::StructDefinition { location: loc(at), children }
}

fn func(at: usize, children: Vec<SyntaxNode>) -> SyntaxNode {
    SyntaxNode::FunctionDefinition { location: loc(at), children }
}

fn decl(at: usize, ty: &str) -> SyntaxNode {
    SyntaxNode::VariableDeclaration {
        location: loc(at),
        declared_type: ty.to_string(),
        children: Vec::new(),
    }
}

#[test]
fn narrow_int_rule_identity() {
    let rule = Uint8VsUint256Rule;
    assert_eq!(rule.id(), "uint8-vs-uint256");
    assert_eq!(
        rule.description(),
        "Using uint8 outside structs is often more gas-expensive than uint256 on EVM chains."
    );
}

#[test]
fn narrow_int_exempts_struct_members_only() {
    // A uint8 struct member is exempt; the same declaration at contract level
    // is flagged.
    let root = contract(0, vec![strukt(1, vec![decl(2, "uint8")]), decl(3, "uint8")]);
    let found = Uint8VsUint256Rule.analyze(&root).unwrap();
    assert_eq!(found.len(), 1);
    assert_eq!(found[0].location, loc(3));
}

#[test]
fn narrow_int_finding_is_stable() {
    let root = contract(0, vec![decl(1, "uint8"), func(2, vec![decl(3, "uint8")])]);
    let found = Uint8VsUint256Rule.analyze(&root).unwrap();
    assert_eq!(found.len(), 2);
    for d in &found {
        assert_eq!(d.rule_id, "uint8-vs-uint256");
        assert_eq!(d.severity, Severity::Low);
        assert_eq!(
            d.message,
            "uint8 used outside a struct. Consider using uint256 for better gas efficiency."
        );
    }
    assert_eq!(found[0].location, loc(1));
    assert_eq!(found[1].location, loc(3));
}

#[test]
fn narrow_int_no_match_returns_empty_not_error() {
    let root = contract(0, vec![decl(1, "uint256"), strukt(2, vec![decl(3, "bool")])]);
    let found = Uint8VsUint256Rule.analyze(&root);
    assert_eq!(found, Ok(Vec::new()));
}

#[test]
fn narrow_int_flags_nested_declaration_under_struct_indirectly() {
    // Only the immediate parent exempts a declaration: a uint8 inside a
    // function defined inside a struct is still flagged.
    let root = contract(0, vec![strukt(1, vec![func(2, vec![decl(3, "uint8")])])]);
    let found = Uint8VsUint256Rule.analyze(&root).unwrap();
    assert_eq!(found.len(), 1);
    assert_eq!(found[0].location, loc(3));
}

#[test]
fn narrow_int_rule_is_pure() {
    let root = contract(0, vec![decl(1, "uint8"), strukt(2, vec![decl(3, "uint8")])]);
    let first = Uint8VsUint256Rule.analyze(&root);
    let second = Uint8VsUint256Rule.analyze(&root);
    assert_eq!(first, second);
}

#[test]
fn narrow_int_rule_flags_root_declaration() {
    // The root itself has no parent, so no exemption applies to it.
    let root = decl(0, "uint8");
    let found = Uint8VsUint256Rule.analyze(&root).unwrap();
    assert_eq!(found.len(), 1);
    assert_eq!(found[0].location, loc(0));
}

#[test]
fn untyped_declaration_rule_identity() {
    let rule = UntypedDeclarationRule;
    assert_eq!(rule.id(), "untyped-declaration");
    assert_eq!(
        rule.description(),
        "A variable declaration without a type name points at a defective parse of the source."
    );
}

#[test]
fn untyped_declaration_flags_empty_type_name() {
    let root = contract(0, vec![decl(1, ""), decl(2, "uint256")]);
    let found = UntypedDeclarationRule.analyze(&root).unwrap();
    assert_eq!(found.len(), 1);
    assert_eq!(found[0].rule_id, "untyped-declaration");
    assert_eq!(found[0].severity, Severity::Medium);
    assert_eq!(found[0].message, "Variable declaration carries no type name.");
    assert_eq!(found[0].location, loc(1));
}

#[test]
fn untyped_declaration_fails_on_non_contract_root() {
    let root = func(0, vec![decl(1, "")]);
    let out = UntypedDeclarationRule.analyze(&root);
    assert_eq!(
        out,
        Err("expected a contract definition at the tree root".to_string())
    );
}

#[test]
fn untyped_declaration_no_match_returns_empty_not_error() {
    let root = contract(0, vec![decl(1, "uint8")]);
    let found = UntypedDeclarationRule.analyze(&root);
    assert_eq!(found, Ok(Vec::new()));
}

#[test]
fn severity_order() {
    assert!(Severity::Low.at_least(Severity::Low));
    assert!(!Severity::Low.at_least(Severity::High));
    assert!(Severity::Critical.at_least(Severity::Medium));
    assert!(Severity::High.at_least(Severity::Medium));
    assert!(!Severity::Medium.at_least(Severity::Critical));
}
