//! A correctness rule: flags variable declarations whose declared type name
//! is empty, which points at a defective parse of the source. The rule reads
//! whole source trees only; handed a root that is not a contract definition,
//! it reports a per-rule failure instead of guessing — the engine isolates
//! such a failure so the other rules still run.

use vstd::prelude::*;
use vstd::string::StringExecFns;
use crate::node::SyntaxNode;
use crate::diagnostic::{diag_views, Diagnostic, DiagnosticView, Severity};
use crate::rule::{
    emitted_from, lemma_matched_diags_shape, lemma_matched_diags_take_succ, matched_diags, Rule,
};
use crate::walker::{parent_view, visit_views, visits};

verus! {

/// Flags variable declarations that carry no type name; expects the tree
/// root to be a contract definition and fails (for itself alone) otherwise.
pub struct UntypedDeclarationRule;

/// The rule's stable identifier.
pub open spec fn untyped_decl_id() -> Seq<char> {
    "untyped-declaration"@
}

/// The fixed text of an untyped-declaration finding.
pub open spec fn untyped_decl_message() -> Seq<char> {
    "Variable declaration carries no type name."@
}

/// The detail of the rule's per-rule failure.
pub open spec fn untyped_decl_failure() -> Seq<char> {
    "expected a contract definition at the tree root"@
}

/// The detection predicate: a variable declaration whose declared type name
/// is empty, wherever it stands.
pub open spec fn untyped_decl_matches(node: SyntaxNode, parent: Option<SyntaxNode>) -> bool {
    match node {
        SyntaxNode::VariableDeclaration { declared_type, .. } => declared_type@.len() == 0,
        _ => false,
    }
}

/// The diagnostic emitted for one matching declaration.
pub open spec fn untyped_decl_diag(node: SyntaxNode) -> DiagnosticView {
    DiagnosticView {
        rule_id: untyped_decl_id(),
        message: untyped_decl_message(),
        location: node.spec_location(),
        severity: Severity::Medium,
    }
}

/// The predicate as a value, so that every statement about this rule speaks
/// of one and the same function.
pub open spec fn untyped_decl_pred() -> spec_fn(SyntaxNode, Option<SyntaxNode>) -> bool {
    |n: SyntaxNode, p: Option<SyntaxNode>| untyped_decl_matches(n, p)
}

/// The emission as a value, as with `untyped_decl_pred`.
pub open spec fn untyped_decl_emit() -> spec_fn(SyntaxNode) -> DiagnosticView {
    |n: SyntaxNode| untyped_decl_diag(n)
}

/// All untyped-declaration findings on a tree, in traversal order.
pub open spec fn untyped_decl_diags(root: SyntaxNode) -> Seq<DiagnosticView> {
    matched_diags(visits(root, Option::None), untyped_decl_pred(), untyped_decl_emit())
}

/// Whether a visit event matches the untyped-declaration predicate.
fn is_untyped_decl_match(node: &SyntaxNode, parent: Option<&SyntaxNode>) -> (r: bool)
    ensures
        r == untyped_decl_matches(*node, parent_view(parent)),
{
    match node {
        SyntaxNode::VariableDeclaration { declared_type, .. } => {
            let empty = String::new();
            let r = *declared_type == empty;
            proof {
                if declared_type@.len() == 0 {
                    assert(declared_type@ =~= Seq::<char>::empty());
                }
            }
            r
        },
        _ => false,
    }
}

impl Rule for UntypedDeclarationRule {
    open spec fn spec_id(&self) -> Seq<char> {
        untyped_decl_id()
    }

    open spec fn spec_description(&self) -> Seq<char> {
        "A variable declaration without a type name points at a defective parse of the source."@
    }

    open spec fn spec_analyze(&self, root: SyntaxNode) -> Result<Seq<DiagnosticView>, Seq<char>> {
        if root is ContractDefinition {
            Ok(untyped_decl_diags(root))
        } else {
            Err(untyped_decl_failure())
        }
    }

    proof fn ids_match(&self, root: SyntaxNode) {
        if root is ContractDefinition {
            let vs = visits(root, Option::None);
            let ds = untyped_decl_diags(root);
            lemma_matched_diags_shape(vs, untyped_decl_pred(), untyped_decl_emit());
            assert forall|i: int| 0 <= i < ds.len() implies (#[trigger] ds[i]).rule_id
                == self.spec_id() by {
                assert(emitted_from(vs, untyped_decl_pred(), untyped_decl_emit(), i));
                let w = choose|w: int|
                    0 <= w < vs.len() && untyped_decl_pred()((#[trigger] vs[w]).0, vs[w].1)
                        && matched_diags(vs, untyped_decl_pred(), untyped_decl_emit())[i]
                            == untyped_decl_emit()(vs[w].0);
                assert(ds[i] == untyped_decl_diag(vs[w].0));
            }
        }
    }

    fn id(&self) -> (r: String)
        ensures
            r@ == self.spec_id(),
    {
        String::from_str("untyped-declaration")
    }

    fn description(&self) -> (r: String)
        ensures
            r@ == self.spec_description(),
    {
        String::from_str(
            "A variable declaration without a type name points at a defective parse of the source.",
        )
    }

    fn analyze(&self, root: &SyntaxNode) -> (r: Result<Vec<Diagnostic>, String>)
        ensures
            r is Ok <==> *root is ContractDefinition,
            r is Ok ==> diag_views(r->Ok_0@) == untyped_decl_diags(*root),
            r is Err ==> r->Err_0@ == untyped_decl_failure(),
    {
        if !(matches!(root, SyntaxNode::ContractDefinition { .. })) {
            return Err(String::from_str("expected a contract definition at the tree root"));
        }
        let events = root.walk();
        let mut results: Vec<Diagnostic> = Vec::new();
        let ghost vs = visits(*root, Option::None);
        let n = events.len();
        for idx in 0..n
            invariant
                n == events@.len(),
                visit_views(events@) == vs,
                vs == visits(*root, Option::None),
                diag_views(results@) == matched_diags(
                    vs.take(idx as int),
                    untyped_decl_pred(),
                    untyped_decl_emit(),
                ),
            decreases n - idx,
        {
            let (node, parent) = events[idx];
            proof {
                assert(vs[idx as int] == visit_views(events@)[idx as int]);
                assert(vs[idx as int].0 == *node && vs[idx as int].1 == parent_view(parent));
                lemma_matched_diags_take_succ(
                    vs,
                    untyped_decl_pred(),
                    untyped_decl_emit(),
                    idx as int,
                );
            }
            if is_untyped_decl_match(node, parent) {
                let d = Diagnostic {
                    rule_id: String::from_str("untyped-declaration"),
                    message: String::from_str("Variable declaration carries no type name."),
                    location: node.location(),
                    severity: Severity::Medium,
                };
                proof {
                    assert(d@ == untyped_decl_diag(vs[idx as int].0));
                }
                results.push(d);
                proof {
                    assert(diag_views(results@) =~= matched_diags(
                        vs.take(idx as int + 1),
                        untyped_decl_pred(),
                        untyped_decl_emit(),
                    ));
                }
            } else {
                proof {
                    assert(diag_views(results@) =~= matched_diags(
                        vs.take(idx as int + 1),
                        untyped_decl_pred(),
                        untyped_decl_emit(),
                    ));
                }
            }
        }
        proof {
            assert(vs.take(n as int) =~= vs);
        }
        Ok(results)
    }
}

} // verus!
