//! A gas-efficiency rule: flags `uint8` variable declarations outside
//! structs. On EVM chains a narrow integer in storage or on the stack is
//! usually more expensive than a full-width `uint256`; only struct members
//! pack tightly enough to profit from the narrow type, so they are exempt.

use vstd::prelude::*;
use vstd::string::StringExecFns;
use crate::node::SyntaxNode;
use crate::diagnostic::{diag_views, Diagnostic, DiagnosticView, Severity};
use crate::rule::{
    emitted_from, lemma_matched_diags_shape, lemma_matched_diags_take_succ, lemma_no_match_empty,
    matched_diags, Rule,
};
use crate::walker::{parent_view, visit_views, visits};

verus! {

/// Flags `uint8` variable declarations outside structs, where a full-width
/// integer is usually cheaper in gas.
pub struct Uint8VsUint256Rule;

/// The rule's stable identifier.
pub open spec fn narrow_int_id() -> Seq<char> {
    "uint8-vs-uint256"@
}

/// The fixed text of a narrow-integer finding.
pub open spec fn narrow_int_message() -> Seq<char> {
    "uint8 used outside a struct. Consider using uint256 for better gas efficiency."@
}

/// The detection predicate: a variable declaration whose declared type is
/// `uint8`, except when its immediate parent is a struct definition. Only
/// the immediate parent exempts a declaration: a `uint8` nested deeper
/// under a struct, say inside a function defined there, is still flagged.
pub open spec fn narrow_int_matches(node: SyntaxNode, parent: Option<SyntaxNode>) -> bool {
    &&& match node {
        SyntaxNode::VariableDeclaration { declared_type, .. } => declared_type@ == "uint8"@,
        _ => false,
    }
    &&& !match parent {
        Option::Some(p) => p is StructDefinition,
        Option::None => false,
    }
}

/// The diagnostic emitted for one matching declaration: fixed rule id,
/// fixed message, severity LOW, and the declaration's own location.
pub open spec fn narrow_int_diag(node: SyntaxNode) -> DiagnosticView {
    DiagnosticView {
        rule_id: narrow_int_id(),
        message: narrow_int_message(),
        location: node.spec_location(),
        severity: Severity::Low,
    }
}

/// The predicate as a value, so that every statement about this rule speaks
/// of one and the same function.
pub open spec fn narrow_int_pred() -> spec_fn(SyntaxNode, Option<SyntaxNode>) -> bool {
    |n: SyntaxNode, p: Option<SyntaxNode>| narrow_int_matches(n, p)
}

/// The emission as a value, as with `narrow_int_pred`.
pub open spec fn narrow_int_emit() -> spec_fn(SyntaxNode) -> DiagnosticView {
    |n: SyntaxNode| narrow_int_diag(n)
}

/// All narrow-integer findings on a tree, in traversal order.
pub open spec fn narrow_int_diags(root: SyntaxNode) -> Seq<DiagnosticView> {
    matched_diags(visits(root, Option::None), narrow_int_pred(), narrow_int_emit())
}

/// Whether a visit event matches the narrow-integer predicate.
fn is_narrow_int_match(node: &SyntaxNode, parent: Option<&SyntaxNode>) -> (r: bool)
    ensures
        r == narrow_int_matches(*node, parent_view(parent)),
{
    let is_narrow_decl = match node {
        SyntaxNode::VariableDeclaration { declared_type, .. } => {
            let needle = String::from_str("uint8");
            *declared_type == needle
        },
        _ => false,
    };
    if !is_narrow_decl {
        return false;
    }
    match parent {
        Option::Some(p) => !(matches!(p, SyntaxNode::StructDefinition { .. })),
        Option::None => true,
    }
}

impl Rule for Uint8VsUint256Rule {
    open spec fn spec_id(&self) -> Seq<char> {
        narrow_int_id()
    }

    open spec fn spec_description(&self) -> Seq<char> {
        "Using uint8 outside structs is often more gas-expensive than uint256 on EVM chains."@
    }

    open spec fn spec_analyze(&self, root: SyntaxNode) -> Result<Seq<DiagnosticView>, Seq<char>> {
        Ok(narrow_int_diags(root))
    }

    proof fn ids_match(&self, root: SyntaxNode) {
        let vs = visits(root, Option::None);
        let ds = narrow_int_diags(root);
        lemma_matched_diags_shape(vs, narrow_int_pred(), narrow_int_emit());
        assert forall|i: int| 0 <= i < ds.len() implies (#[trigger] ds[i]).rule_id
            == self.spec_id() by {
            assert(emitted_from(vs, narrow_int_pred(), narrow_int_emit(), i));
            let w = choose|w: int|
                0 <= w < vs.len() && narrow_int_pred()((#[trigger] vs[w]).0, vs[w].1)
                    && matched_diags(vs, narrow_int_pred(), narrow_int_emit())[i]
                        == narrow_int_emit()(vs[w].0);
            assert(ds[i] == narrow_int_diag(vs[w].0));
        }
    }

    fn id(&self) -> (r: String)
        ensures
            r@ == self.spec_id(),
    {
        String::from_str("uint8-vs-uint256")
    }

    fn description(&self) -> (r: String)
        ensures
            r@ == self.spec_description(),
    {
        String::from_str(
            "Using uint8 outside structs is often more gas-expensive than uint256 on EVM chains.",
        )
    }

    fn analyze(&self, root: &SyntaxNode) -> (r: Result<Vec<Diagnostic>, String>)
        ensures
            r is Ok,
            r is Ok ==> diag_views(r->Ok_0@) == narrow_int_diags(*root),
    {
        let events = root.walk();
        let mut results: Vec<Diagnostic> = Vec::new();
        let ghost vs = visits(*root, Option::None);
        let n = events.len();
        for idx in 0..n
            invariant
                n == events@.len(),
                visit_views(events@) == vs,
                vs == visits(*root, Option::None),
                diag_views(results@) == matched_diags(
                    vs.take(idx as int),
                    narrow_int_pred(),
                    narrow_int_emit(),
                ),
            decreases n - idx,
        {
            let (node, parent) = events[idx];
            proof {
                assert(vs[idx as int] == visit_views(events@)[idx as int]);
                assert(vs[idx as int].0 == *node && vs[idx as int].1 == parent_view(parent));
                lemma_matched_diags_take_succ(vs, narrow_int_pred(), narrow_int_emit(), idx as int);
            }
            if is_narrow_int_match(node, parent) {
                let d = Diagnostic {
                    rule_id: String::from_str("uint8-vs-uint256"),
                    message: String::from_str(
                        "uint8 used outside a struct. Consider using uint256 for better gas efficiency.",
                    ),
                    location: node.location(),
                    severity: Severity::Low,
                };
                proof {
                    assert(d@ == narrow_int_diag(vs[idx as int].0));
                }
                results.push(d);
                proof {
                    assert(diag_views(results@) =~= matched_diags(
                        vs.take(idx as int + 1),
                        narrow_int_pred(),
                        narrow_int_emit(),
                    ));
                }
            } else {
                proof {
                    assert(diag_views(results@) =~= matched_diags(
                        vs.take(idx as int + 1),
                        narrow_int_pred(),
                        narrow_int_emit(),
                    ));
                }
            }
        }
        proof {
            assert(vs.take(n as int) =~= vs);
        }
        Ok(results)
    }
}

/// No match is not a failure: on a tree none of whose visit events matches
/// the narrow-integer predicate, the rule's outcome is `Ok` of the empty
/// sequence — never an error.
pub proof fn lemma_narrow_int_no_match(rule: &Uint8VsUint256Rule, root: SyntaxNode)
    requires
        forall|i: int|
            0 <= i < visits(root, Option::None).len() ==> !narrow_int_matches(
                (#[trigger] visits(root, Option::None)[i]).0,
                visits(root, Option::None)[i].1,
            ),
    ensures
        rule.spec_analyze(root) == Ok::<Seq<DiagnosticView>, Seq<char>>(
            Seq::<DiagnosticView>::empty(),
        ),
{
    let vs = visits(root, Option::None);
    assert forall|i: int| 0 <= i < vs.len() implies !narrow_int_pred()(
        (#[trigger] vs[i]).0,
        vs[i].1,
    ) by {
        assert(!narrow_int_matches(vs[i].0, vs[i].1));
    }
    lemma_no_match_empty(vs, narrow_int_pred(), narrow_int_emit());
}

/// Severity and message stability: wherever in the tree a narrow-integer
/// match occurs, its finding carries the fixed rule id, the fixed message,
/// and severity LOW.
pub proof fn lemma_narrow_int_stable(root: SyntaxNode, j: int)
    requires
        0 <= j < narrow_int_diags(root).len(),
    ensures
        narrow_int_diags(root)[j].rule_id == narrow_int_id(),
        narrow_int_diags(root)[j].message == narrow_int_message(),
        narrow_int_diags(root)[j].severity == Severity::Low,
{
    let vs = visits(root, Option::None);
    lemma_matched_diags_shape(vs, narrow_int_pred(), narrow_int_emit());
    assert(emitted_from(vs, narrow_int_pred(), narrow_int_emit(), j));
    let w = choose|w: int|
        0 <= w < vs.len() && narrow_int_pred()((#[trigger] vs[w]).0, vs[w].1)
            && matched_diags(vs, narrow_int_pred(), narrow_int_emit())[j]
                == narrow_int_emit()(vs[w].0);
    assert(narrow_int_diags(root)[j] == narrow_int_diag(vs[w].0));
}

} // verus!
