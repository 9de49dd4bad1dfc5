//! The rule contract: the capability interface a detector implements.
//! A rule is stateless and side-effect-free; its whole result is a pure
//! function of the tree it is given, fixed by `spec_analyze`. Adding a
//! detector means implementing this trait — the walker and the engine
//! never change for it.

use vstd::prelude::*;
use crate::node::SyntaxNode;
use crate::diagnostic::{Diagnostic, DiagnosticView, diag_views};

verus! {

/// A stateless unit of analysis, identified by a stable, registry-unique id.
///
/// `spec_analyze` pins the rule's outcome on every tree: either its
/// diagnostics in traversal order, or the detail of a per-rule failure.
/// Because the outcome is a function of the tree alone, running the same
/// rule on the same tree twice yields identical results, and a rule with
/// zero matches returns an empty sequence rather than an error.
pub trait Rule: Sized {
    /// The rule's stable identifier, used to correlate diagnostics back to
    /// their source rule.
    spec fn spec_id(&self) -> Seq<char>;

    /// The rule's static, human-oriented description.
    spec fn spec_description(&self) -> Seq<char>;

    /// The rule's outcome on `root`: diagnostics for every matching node in
    /// traversal order, or the failure detail when the rule's own
    /// precondition on the tree is violated.
    spec fn spec_analyze(&self, root: SyntaxNode) -> Result<Seq<DiagnosticView>, Seq<char>>;

    /// Every diagnostic a rule produces carries the rule's own id.
    proof fn ids_match(&self, root: SyntaxNode)
        ensures
            match self.spec_analyze(root) {
                Ok(ds) => forall|i: int|
                    0 <= i < ds.len() ==> (#[trigger] ds[i]).rule_id == self.spec_id(),
                Err(_) => true,
            },
    ;

    /// The rule's identifier.
    fn id(&self) -> (r: String)
        ensures
            r@ == self.spec_id(),
    ;

    /// What the rule detects and why.
    fn description(&self) -> (r: String)
        ensures
            r@ == self.spec_description(),
    ;

    /// Runs the rule over the tree rooted at `root` and returns its
    /// diagnostics in traversal order, or its per-rule failure detail.
    /// Absence of findings is not a failure: zero matches give `Ok` of an
    /// empty vector.
    fn analyze(&self, root: &SyntaxNode) -> (r: Result<Vec<Diagnostic>, String>)
        ensures
            r is Ok <==> self.spec_analyze(*root) is Ok,
            r is Ok ==> diag_views(r->Ok_0@) == self.spec_analyze(*root)->Ok_0,
            r is Err ==> r->Err_0@ == self.spec_analyze(*root)->Err_0,
    ;
}

/// Rule purity: any two runs of one rule over one (unmodified) tree that
/// both meet `analyze`'s contract returned the same diagnostics.
pub proof fn lemma_rule_idempotent<R: Rule>(
    rule: &R,
    root: SyntaxNode,
    first: Result<Seq<DiagnosticView>, Seq<char>>,
    second: Result<Seq<DiagnosticView>, Seq<char>>,
)
    requires
        first == rule.spec_analyze(root),
        second == rule.spec_analyze(root),
    ensures
        first == second,
{
}

/// The detection-predicate pattern every rule follows: walk the tree, test
/// each `(node, parent)` event against the rule's predicate, and emit one
/// diagnostic per matching node, in traversal order.
pub open spec fn matched_diags(
    vs: Seq<(SyntaxNode, Option<SyntaxNode>)>,
    pred: spec_fn(SyntaxNode, Option<SyntaxNode>) -> bool,
    emit: spec_fn(SyntaxNode) -> DiagnosticView,
) -> Seq<DiagnosticView>
    decreases vs.len(),
{
    if vs.len() == 0 {
        Seq::empty()
    } else {
        (if pred(vs[0].0, vs[0].1) {
            seq![emit(vs[0].0)]
        } else {
            Seq::empty()
        }) + matched_diags(vs.drop_first(), pred, emit)
    }
}

/// Taking one more visit event extends the emitted diagnostics by exactly
/// that event's contribution.
pub proof fn lemma_matched_diags_take_succ(
    vs: Seq<(SyntaxNode, Option<SyntaxNode>)>,
    pred: spec_fn(SyntaxNode, Option<SyntaxNode>) -> bool,
    emit: spec_fn(SyntaxNode) -> DiagnosticView,
    i: int,
)
    requires
        0 <= i < vs.len(),
    ensures
        matched_diags(vs.take(i + 1), pred, emit) == matched_diags(vs.take(i), pred, emit)
            + (if pred(vs[i].0, vs[i].1) {
                seq![emit(vs[i].0)]
            } else {
                Seq::<DiagnosticView>::empty()
            }),
    decreases i,
{
    if i == 0 {
        assert(vs.take(1) =~= seq![vs[0]]);
        assert(vs.take(1).drop_first() =~= Seq::<(SyntaxNode, Option<SyntaxNode>)>::empty());
        assert(vs.take(0) =~= Seq::<(SyntaxNode, Option<SyntaxNode>)>::empty());
        assert(matched_diags(vs.take(1), pred, emit) =~= matched_diags(vs.take(0), pred, emit)
            + (if pred(vs[0].0, vs[0].1) {
                seq![emit(vs[0].0)]
            } else {
                Seq::<DiagnosticView>::empty()
            }));
    } else {
        lemma_matched_diags_take_succ(vs.drop_first(), pred, emit, i - 1);
        assert(vs.take(i + 1).drop_first() =~= vs.drop_first().take(i));
        assert(vs.take(i).drop_first() =~= vs.drop_first().take(i - 1));
        assert(vs.take(i + 1)[0] == vs[0]);
        assert(vs.take(i)[0] == vs[0]);
        assert(vs.drop_first()[i - 1] == vs[i]);
        assert(matched_diags(vs.take(i + 1), pred, emit)
            =~= matched_diags(vs.take(i), pred, emit)
            + (if pred(vs[i].0, vs[i].1) {
                seq![emit(vs[i].0)]
            } else {
                Seq::<DiagnosticView>::empty()
            }));
    }
}

/// No match is not a failure: when no visit event satisfies the predicate,
/// the emitted sequence is empty.
pub proof fn lemma_no_match_empty(
    vs: Seq<(SyntaxNode, Option<SyntaxNode>)>,
    pred: spec_fn(SyntaxNode, Option<SyntaxNode>) -> bool,
    emit: spec_fn(SyntaxNode) -> DiagnosticView,
)
    requires
        forall|i: int| 0 <= i < vs.len() ==> !pred((#[trigger] vs[i]).0, vs[i].1),
    ensures
        matched_diags(vs, pred, emit) == Seq::<DiagnosticView>::empty(),
    decreases vs.len(),
{
    if vs.len() != 0 {
        lemma_no_match_empty(vs.drop_first(), pred, emit);
        assert(matched_diags(vs, pred, emit) =~= Seq::<DiagnosticView>::empty());
    }
}

/// Whether emitted diagnostic `j` is the emission for some matching visit
/// event of `vs`.
pub open spec fn emitted_from(
    vs: Seq<(SyntaxNode, Option<SyntaxNode>)>,
    pred: spec_fn(SyntaxNode, Option<SyntaxNode>) -> bool,
    emit: spec_fn(SyntaxNode) -> DiagnosticView,
    j: int,
) -> bool {
    exists|i: int|
        0 <= i < vs.len() && pred((#[trigger] vs[i]).0, vs[i].1)
            && matched_diags(vs, pred, emit)[j] == emit(vs[i].0)
}

/// Every emitted diagnostic is the emission for some matching visit event.
pub proof fn lemma_matched_diags_shape(
    vs: Seq<(SyntaxNode, Option<SyntaxNode>)>,
    pred: spec_fn(SyntaxNode, Option<SyntaxNode>) -> bool,
    emit: spec_fn(SyntaxNode) -> DiagnosticView,
)
    ensures
        forall|j: int|
            0 <= j < matched_diags(vs, pred, emit).len()
                ==> #[trigger] emitted_from(vs, pred, emit, j),
    decreases vs.len(),
{
    if vs.len() == 0 {
        assert(matched_diags(vs, pred, emit).len() == 0);
    } else {
        lemma_matched_diags_shape(vs.drop_first(), pred, emit);
        let ds = matched_diags(vs, pred, emit);
        let rest = matched_diags(vs.drop_first(), pred, emit);
        assert forall|j: int| 0 <= j < ds.len() implies #[trigger] emitted_from(
            vs,
            pred,
            emit,
            j,
        ) by {
            if pred(vs[0].0, vs[0].1) && j == 0 {
                assert(0 <= 0 < vs.len() && pred((vs[0]).0, vs[0].1)
                    && matched_diags(vs, pred, emit)[j] == emit(vs[0].0));
                assert(emitted_from(vs, pred, emit, j));
            } else {
                let shift: int = if pred(vs[0].0, vs[0].1) { 1 } else { 0 };
                assert(ds[j] == rest[j - shift]);
                assert(emitted_from(vs.drop_first(), pred, emit, j - shift));
                let w = choose|w: int|
                    0 <= w < vs.drop_first().len()
                        && pred((#[trigger] vs.drop_first()[w]).0, vs.drop_first()[w].1)
                        && matched_diags(vs.drop_first(), pred, emit)[j - shift]
                            == emit(vs.drop_first()[w].0);
                assert(vs[w + 1] == vs.drop_first()[w]);
                assert(0 <= w + 1 < vs.len() && pred((vs[w + 1]).0, vs[w + 1].1)
                    && matched_diags(vs, pred, emit)[j] == emit(vs[w + 1].0));
                assert(emitted_from(vs, pred, emit, j));
            }
        }
    }
}

} // verus!
