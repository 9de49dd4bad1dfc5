//! The rule engine and registry: an ordered collection of rule instances.
//! A run invokes every registered rule over one tree and concatenates the
//! results in registration order, each rule's own traversal order preserved
//! within its block. A rule's per-rule failure is reported beside the other
//! rules' diagnostics and never suppresses them.

use vstd::prelude::*;
use crate::node::SyntaxNode;
use crate::diagnostic::{diag_views, Diagnostic, DiagnosticView};
use crate::rule::Rule;
use crate::rules::uint8_vs_uint256::Uint8VsUint256Rule;
use crate::rules::untyped_declaration::UntypedDeclarationRule;

verus! {

/// One registered rule instance. The rule set is closed and known at build
/// time, so the registry holds a tagged union; adding a detector means
/// adding a variant here and implementing `Rule` for it.
pub enum RegisteredRule {
    NarrowInteger(Uint8VsUint256Rule),
    UntypedDeclaration(UntypedDeclarationRule),
}

impl Rule for RegisteredRule {
    open spec fn spec_id(&self) -> Seq<char> {
        match self {
            RegisteredRule::NarrowInteger(r) => r.spec_id(),
            RegisteredRule::UntypedDeclaration(r) => r.spec_id(),
        }
    }

    open spec fn spec_description(&self) -> Seq<char> {
        match self {
            RegisteredRule::NarrowInteger(r) => r.spec_description(),
            RegisteredRule::UntypedDeclaration(r) => r.spec_description(),
        }
    }

    open spec fn spec_analyze(&self, root: SyntaxNode) -> Result<Seq<DiagnosticView>, Seq<char>> {
        match self {
            RegisteredRule::NarrowInteger(r) => r.spec_analyze(root),
            RegisteredRule::UntypedDeclaration(r) => r.spec_analyze(root),
        }
    }

    proof fn ids_match(&self, root: SyntaxNode) {
        match self {
            RegisteredRule::NarrowInteger(r) => r.ids_match(root),
            RegisteredRule::UntypedDeclaration(r) => r.ids_match(root),
        }
    }

    fn id(&self) -> (r: String) {
        match self {
            RegisteredRule::NarrowInteger(r) => r.id(),
            RegisteredRule::UntypedDeclaration(r) => r.id(),
        }
    }

    fn description(&self) -> (r: String) {
        match self {
            RegisteredRule::NarrowInteger(r) => r.description(),
            RegisteredRule::UntypedDeclaration(r) => r.description(),
        }
    }

    fn analyze(&self, root: &SyntaxNode) -> (r: Result<Vec<Diagnostic>, String>) {
        match self {
            RegisteredRule::NarrowInteger(r) => r.analyze(root),
            RegisteredRule::UntypedDeclaration(r) => r.analyze(root),
        }
    }
}

/// What a per-rule failure entry says, as plain values.
pub ghost struct RuleFailureView {
    pub rule_id: Seq<char>,
    pub detail: Seq<char>,
}

/// A reported, non-fatal per-rule failure: which rule failed, and its detail.
#[derive(Clone, Debug, PartialEq, Eq)]
pub struct RuleFailure {
    pub rule_id: String,
    pub detail: String,
}

impl View for RuleFailure {
    type V = RuleFailureView;

    open spec fn view(&self) -> RuleFailureView {
        RuleFailureView { rule_id: self.rule_id@, detail: self.detail@ }
    }
}

/// The views of a sequence of failure entries, in order.
pub open spec fn failure_views(fs: Seq<RuleFailure>) -> Seq<RuleFailureView> {
    fs.map_values(|f: RuleFailure| f@)
}

/// What one full run returns: every successful rule's diagnostics, merged in
/// registration order, and one failure entry per failed rule.
pub struct AnalysisReport {
    pub diagnostics: Vec<Diagnostic>,
    pub failures: Vec<RuleFailure>,
}

/// The diagnostics of running `rules` over `root` in order: each successful
/// rule contributes its block, a failed rule contributes nothing.
pub open spec fn merged_diags(rules: Seq<RegisteredRule>, root: SyntaxNode) -> Seq<DiagnosticView>
    decreases rules.len(),
{
    if rules.len() == 0 {
        Seq::empty()
    } else {
        (match rules[0].spec_analyze(root) {
            Ok(ds) => ds,
            Err(_) => Seq::empty(),
        }) + merged_diags(rules.drop_first(), root)
    }
}

/// The failure entries of running `rules` over `root` in order: one per
/// failed rule, carrying its id and detail.
pub open spec fn merged_failures(rules: Seq<RegisteredRule>, root: SyntaxNode) -> Seq<RuleFailureView>
    decreases rules.len(),
{
    if rules.len() == 0 {
        Seq::empty()
    } else {
        (match rules[0].spec_analyze(root) {
            Ok(_) => Seq::empty(),
            Err(detail) => seq![RuleFailureView { rule_id: rules[0].spec_id(), detail }],
        }) + merged_failures(rules.drop_first(), root)
    }
}

proof fn lemma_merged_diags_take_succ(rules: Seq<RegisteredRule>, root: SyntaxNode, i: int)
    requires
        0 <= i < rules.len(),
    ensures
        merged_diags(rules.take(i + 1), root) == merged_diags(rules.take(i), root)
            + (match rules[i].spec_analyze(root) {
                Ok(ds) => ds,
                Err(_) => Seq::<DiagnosticView>::empty(),
            }),
        merged_failures(rules.take(i + 1), root) == merged_failures(rules.take(i), root)
            + (match rules[i].spec_analyze(root) {
                Ok(_) => Seq::<RuleFailureView>::empty(),
                Err(detail) => seq![RuleFailureView { rule_id: rules[i].spec_id(), detail }],
            }),
    decreases i,
{
    if i == 0 {
        assert(rules.take(1) =~= seq![rules[0]]);
        assert(rules.take(1).drop_first() =~= Seq::<RegisteredRule>::empty());
        assert(rules.take(0) =~= Seq::<RegisteredRule>::empty());
        assert(merged_diags(rules.take(1), root) =~= merged_diags(rules.take(0), root)
            + (match rules[0].spec_analyze(root) {
                Ok(ds) => ds,
                Err(_) => Seq::<DiagnosticView>::empty(),
            }));
        assert(merged_failures(rules.take(1), root) =~= merged_failures(rules.take(0), root)
            + (match rules[0].spec_analyze(root) {
                Ok(_) => Seq::<RuleFailureView>::empty(),
                Err(detail) => seq![RuleFailureView { rule_id: rules[0].spec_id(), detail }],
            }));
    } else {
        lemma_merged_diags_take_succ(rules.drop_first(), root, i - 1);
        assert(rules.take(i + 1).drop_first() =~= rules.drop_first().take(i));
        assert(rules.take(i).drop_first() =~= rules.drop_first().take(i - 1));
        assert(rules.take(i + 1)[0] == rules[0]);
        assert(rules.take(i)[0] == rules[0]);
        assert(rules.drop_first()[i - 1] == rules[i]);
        assert(merged_diags(rules.take(i + 1), root) =~= merged_diags(rules.take(i), root)
            + (match rules[i].spec_analyze(root) {
                Ok(ds) => ds,
                Err(_) => Seq::<DiagnosticView>::empty(),
            }));
        assert(merged_failures(rules.take(i + 1), root) =~= merged_failures(rules.take(i), root)
            + (match rules[i].spec_analyze(root) {
                Ok(_) => Seq::<RuleFailureView>::empty(),
                Err(detail) => seq![RuleFailureView { rule_id: rules[i].spec_id(), detail }],
            }));
    }
}

/// The rule registry and engine. Registration order is preserved: it is the
/// merge order of `run_all`'s output.
pub struct RuleEngine {
    rules: Vec<RegisteredRule>,
}

impl RuleEngine {
    /// The registered rules, in registration order.
    pub closed spec fn spec_rules(&self) -> Seq<RegisteredRule> {
        self.rules@
    }

    /// An engine with no rules registered.
    pub fn new() -> (r: Self)
        ensures
            r.spec_rules() == Seq::<RegisteredRule>::empty(),
    {
        RuleEngine { rules: Vec::new() }
    }

    /// Adds one rule at the end of the registry. This is the sole extension
    /// point: neither the walker nor the engine changes for a new detector.
    pub fn register(&mut self, rule: RegisteredRule)
        ensures
            final(self).spec_rules() == old(self).spec_rules().push(rule),
    {
        self.rules.push(rule);
    }

    /// How many rules are registered.
    pub fn rule_count(&self) -> (r: usize)
        ensures
            r == self.spec_rules().len(),
    {
        self.rules.len()
    }

    /// Runs every registered rule over the tree at `root` and returns all
    /// their diagnostics, concatenated in registration order with each
    /// rule's own traversal order preserved, beside one failure entry per
    /// failed rule. One rule's failure never suppresses the findings of the
    /// others.
    pub fn run_all(&self, root: &SyntaxNode) -> (r: AnalysisReport)
        ensures
            diag_views(r.diagnostics@) == merged_diags(self.spec_rules(), *root),
            failure_views(r.failures@) == merged_failures(self.spec_rules(), *root),
    {
        let mut diagnostics: Vec<Diagnostic> = Vec::new();
        let mut failures: Vec<RuleFailure> = Vec::new();
        let n = self.rules.len();
        for i in 0..n
            invariant
                n == self.rules@.len(),
                diag_views(diagnostics@) == merged_diags(self.rules@.take(i as int), *root),
                failure_views(failures@) == merged_failures(self.rules@.take(i as int), *root),
            decreases n - i,
        {
            let rule = &self.rules[i];
            proof {
                lemma_merged_diags_take_succ(self.rules@, *root, i as int);
            }
            match rule.analyze(root) {
                Ok(mut ds) => {
                    diagnostics.append(&mut ds);
                    proof {
                        assert(diag_views(diagnostics@) =~= merged_diags(
                            self.rules@.take(i as int + 1),
                            *root,
                        ));
                        assert(failure_views(failures@) =~= merged_failures(
                            self.rules@.take(i as int + 1),
                            *root,
                        ));
                    }
                },
                Err(detail) => {
                    let entry = RuleFailure { rule_id: rule.id(), detail };
                    failures.push(entry);
                    proof {
                        assert(diag_views(diagnostics@) =~= merged_diags(
                            self.rules@.take(i as int + 1),
                            *root,
                        ));
                        assert(failure_views(failures@) =~= merged_failures(
                            self.rules@.take(i as int + 1),
                            *root,
                        ));
                    }
                },
            }
        }
        proof {
            assert(self.rules@.take(n as int) =~= self.rules@);
        }
        AnalysisReport { diagnostics, failures }
    }
}

/// Engine merge order: a run over the registry `first ++ second` returns the
/// diagnostics of `first` followed by those of `second` — ordering across
/// rules is a property of the merge, not of execution timing.
pub proof fn lemma_merge_order(
    first: Seq<RegisteredRule>,
    second: Seq<RegisteredRule>,
    root: SyntaxNode,
)
    ensures
        merged_diags(first + second, root) == merged_diags(first, root) + merged_diags(
            second,
            root,
        ),
    decreases first.len(),
{
    if first.len() == 0 {
        assert(first + second =~= second);
        assert(merged_diags(first + second, root) =~= merged_diags(first, root) + merged_diags(
            second,
            root,
        ));
    } else {
        lemma_merge_order(first.drop_first(), second, root);
        assert((first + second).drop_first() =~= first.drop_first() + second);
        assert((first + second)[0] == first[0]);
        assert(merged_diags(first + second, root) =~= merged_diags(first, root) + merged_diags(
            second,
            root,
        ));
    }
}

/// Isolation: when one registered rule fails on a tree, the run's
/// diagnostics are exactly those of the remaining rules, in their order, and
/// the failure is reported under the failing rule's id with its detail.
pub proof fn lemma_isolation(rules: Seq<RegisteredRule>, root: SyntaxNode, i: int)
    requires
        0 <= i < rules.len(),
        rules[i].spec_analyze(root) is Err,
    ensures
        merged_diags(rules, root) == merged_diags(rules.remove(i), root),
        merged_failures(rules, root).contains(
            RuleFailureView {
                rule_id: rules[i].spec_id(),
                detail: rules[i].spec_analyze(root)->Err_0,
            },
        ),
    decreases i,
{
    let entry = RuleFailureView {
        rule_id: rules[i].spec_id(),
        detail: rules[i].spec_analyze(root)->Err_0,
    };
    if i == 0 {
        assert(rules.remove(0) =~= rules.drop_first());
        assert(merged_diags(rules, root) =~= merged_diags(rules.drop_first(), root));
        assert(merged_failures(rules, root)[0] == entry);
        assert(merged_failures(rules, root).contains(entry));
    } else {
        lemma_isolation(rules.drop_first(), root, i - 1);
        assert(rules.drop_first()[i - 1] == rules[i]);
        assert(rules.remove(i).drop_first() =~= rules.drop_first().remove(i - 1));
        assert(rules.remove(i)[0] == rules[0]);
        assert(merged_diags(rules, root) =~= merged_diags(rules.remove(i), root));
        let tail = merged_failures(rules.drop_first(), root);
        let k = choose|k: int| 0 <= k < tail.len() && tail[k] == entry;
        let head = match rules[0].spec_analyze(root) {
            Ok(_) => Seq::<RuleFailureView>::empty(),
            Err(detail) => seq![RuleFailureView { rule_id: rules[0].spec_id(), detail }],
        };
        assert(merged_failures(rules, root)[head.len() + k] == entry);
        assert(merged_failures(rules, root).contains(entry));
    }
}

/// Whether diagnostic `j` of a run carries the id of one of the rules run.
pub open spec fn traceable_at(rules: Seq<RegisteredRule>, root: SyntaxNode, j: int) -> bool {
    exists|i: int|
        0 <= i < rules.len() && merged_diags(rules, root)[j].rule_id == (#[trigger] rules[i]).spec_id()
}

/// Every diagnostic of a run carries the id of the rule that produced it:
/// each one traces back to a registered rule.
pub proof fn lemma_report_ids_traceable(rules: Seq<RegisteredRule>, root: SyntaxNode)
    ensures
        forall|j: int|
            0 <= j < merged_diags(rules, root).len() ==> #[trigger] traceable_at(rules, root, j),
    decreases rules.len(),
{
    if rules.len() != 0 {
        lemma_report_ids_traceable(rules.drop_first(), root);
        rules[0].ids_match(root);
        let ds = merged_diags(rules, root);
        let head = match rules[0].spec_analyze(root) {
            Ok(block) => block,
            Err(_) => Seq::<DiagnosticView>::empty(),
        };
        let tail = merged_diags(rules.drop_first(), root);
        assert forall|j: int| 0 <= j < ds.len() implies #[trigger] traceable_at(
            rules,
            root,
            j,
        ) by {
            if j < head.len() {
                assert(ds[j] == head[j]);
                assert(ds[j].rule_id == rules[0].spec_id());
                assert(traceable_at(rules, root, j));
            } else {
                assert(ds[j] == tail[j - head.len()]);
                assert(traceable_at(rules.drop_first(), root, j - head.len()));
                let w = choose|w: int|
                    0 <= w < rules.drop_first().len()
                        && merged_diags(rules.drop_first(), root)[j - head.len()].rule_id
                            == (#[trigger] rules.drop_first()[w]).spec_id();
                assert(rules[w + 1] == rules.drop_first()[w]);
                assert(ds[j].rule_id == rules[w + 1].spec_id());
                assert(traceable_at(rules, root, j));
            }
        }
    }
}

} // verus!
