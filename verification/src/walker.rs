//! The tree walker: a depth-first, pre-order traversal that yields every
//! node of a tree exactly once, paired with its immediate syntactic parent
//! (or none for the root). The walker neither filters nor mutates; it is the
//! structural iteration primitive every rule builds on. Because every node
//! owns its children outright, a tree is structurally well-formed by
//! construction and traversal always terminates: no malformed-tree failure
//! can arise here.

use vstd::prelude::*;
use vstd::multiset::Multiset;
use crate::node::SyntaxNode;

verus! {

/// The traversal of the subtree rooted at `n`, whose immediate parent is
/// `parent`: the node itself first, then the traversals of its children in
/// declaration order. Each event pairs the visited node with its parent.
pub open spec fn visits(n: SyntaxNode, parent: Option<SyntaxNode>) -> Seq<(SyntaxNode, Option<SyntaxNode>)>
    decreases n,
{
    seq![(n, parent)] + forest_visits(n.spec_children(), n)
}

/// The traversals of the subtrees in `cs`, one after the other, all with
/// immediate parent `parent`.
pub open spec fn forest_visits(cs: Seq<SyntaxNode>, parent: SyntaxNode) -> Seq<(SyntaxNode, Option<SyntaxNode>)>
    decreases cs,
{
    if cs.len() == 0 {
        Seq::empty()
    } else {
        visits(cs[0], Some(parent)) + forest_visits(cs.drop_first(), parent)
    }
}

/// What an exec visit sequence (which holds borrows) says, as plain values.
pub open spec fn visit_views(r: Seq<(&SyntaxNode, Option<&SyntaxNode>)>) -> Seq<(SyntaxNode, Option<SyntaxNode>)> {
    r.map_values(|v: (&SyntaxNode, Option<&SyntaxNode>)| (*v.0, parent_view(v.1)))
}

/// The parent argument of an exec visit, as a plain value.
pub open spec fn parent_view(p: Option<&SyntaxNode>) -> Option<SyntaxNode> {
    match p {
        Option::None => Option::<SyntaxNode>::None,
        Option::Some(q) => Option::Some(*q),
    }
}

impl SyntaxNode {
    /// Walks the tree rooted at `self` depth-first in pre-order and returns
    /// every `(node, parent)` pair in visit order, the root paired with no
    /// parent. Purely structural: no filtering, no mutation.
    pub fn walk(&self) -> (r: Vec<(&SyntaxNode, Option<&SyntaxNode>)>)
        ensures
            visit_views(r@) == visits(*self, Option::None),
    {
        let mut out: Vec<(&SyntaxNode, Option<&SyntaxNode>)> = Vec::new();
        walk_from(self, Option::None, &mut out);
        proof {
            assert(visit_views(out@) =~= visits(*self, Option::None));
        }
        out
    }
}

/// Appends to `out` the visit events of the subtree rooted at `node`, whose
/// immediate parent is `parent`.
fn walk_from<'a>(node: &'a SyntaxNode, parent: Option<&'a SyntaxNode>, out: &mut Vec<(&'a SyntaxNode, Option<&'a SyntaxNode>)>)
    ensures
        visit_views(final(out)@) == visit_views(old(out)@) + visits(*node, parent_view(parent)),
    decreases *node,
{
    out.push((node, parent));
    proof {
        assert(visit_views(out@) =~= visit_views(old(out)@) + seq![(*node, parent_view(parent))]);
    }
    let children = node.children();
    let n = children.len();
    for i in 0..n
        invariant
            n == children@.len(),
            children@ == node.spec_children(),
            visit_views(out@) == visit_views(old(out)@) + seq![(*node, parent_view(parent))]
                + forest_visits(node.spec_children().take(i as int), *node),
        decreases n - i,
    {
        proof {
            assert(decreases_to!(*node => node.spec_children()[i as int]));
        }
        walk_from(&children[i], Option::Some(node), out);
        proof {
            lemma_forest_visits_take_succ(node.spec_children(), *node, i as int);
            assert(visit_views(out@) =~= visit_views(old(out)@) + seq![(*node, parent_view(parent))]
                + forest_visits(node.spec_children().take(i as int + 1), *node));
        }
    }
    proof {
        assert(node.spec_children().take(n as int) =~= node.spec_children());
        assert(visit_views(out@) =~= visit_views(old(out)@) + visits(*node, parent_view(parent)));
    }
}

/// Extending a traversed forest prefix by one more subtree appends exactly
/// that subtree's traversal.
proof fn lemma_forest_visits_take_succ(cs: Seq<SyntaxNode>, parent: SyntaxNode, i: int)
    requires
        0 <= i < cs.len(),
    ensures
        forest_visits(cs.take(i + 1), parent)
            == forest_visits(cs.take(i), parent) + visits(cs[i], Some(parent)),
    decreases i,
{
    if i == 0 {
        assert(cs.take(1) =~= seq![cs[0]]);
        assert(cs.take(1).drop_first() =~= Seq::<SyntaxNode>::empty());
        assert(cs.take(0) =~= Seq::<SyntaxNode>::empty());
        assert(forest_visits(cs.take(1), parent) =~= forest_visits(cs.take(0), parent) + visits(cs[0], Some(parent)));
    } else {
        lemma_forest_visits_take_succ(cs.drop_first(), parent, i - 1);
        assert(cs.take(i + 1).drop_first() =~= cs.drop_first().take(i));
        assert(cs.take(i).drop_first() =~= cs.drop_first().take(i - 1));
        assert(cs.take(i + 1)[0] == cs[0]);
        assert(cs.take(i)[0] == cs[0]);
        assert(cs.drop_first()[i - 1] == cs[i]);
        assert(forest_visits(cs.take(i + 1), parent)
            == visits(cs[0], Some(parent)) + forest_visits(cs.drop_first().take(i), parent));
        assert(forest_visits(cs.take(i), parent)
            == visits(cs[0], Some(parent)) + forest_visits(cs.drop_first().take(i - 1), parent));
        assert(forest_visits(cs.take(i + 1), parent)
            =~= forest_visits(cs.take(i), parent) + visits(cs[i], Some(parent)));
    }
}

/// Every node of the subtree rooted at `n`, each tree position counted once.
pub open spec fn tree_nodes(n: SyntaxNode) -> Multiset<SyntaxNode>
    decreases n,
{
    Multiset::empty().insert(n).add(forest_nodes(n.spec_children()))
}

/// Every node of every subtree in `cs`, each tree position counted once.
pub open spec fn forest_nodes(cs: Seq<SyntaxNode>) -> Multiset<SyntaxNode>
    decreases cs,
{
    if cs.len() == 0 {
        Multiset::empty()
    } else {
        tree_nodes(cs[0]).add(forest_nodes(cs.drop_first()))
    }
}

/// The nodes a visit sequence touches, in visit order.
pub open spec fn visited_nodes(vs: Seq<(SyntaxNode, Option<SyntaxNode>)>) -> Seq<SyntaxNode> {
    vs.map_values(|v: (SyntaxNode, Option<SyntaxNode>)| v.0)
}

/// Traversal completeness: the walker visits every node of the tree exactly
/// once — the multiset of visited nodes equals the tree's full node multiset.
pub proof fn lemma_traversal_complete(n: SyntaxNode, parent: Option<SyntaxNode>)
    ensures
        visited_nodes(visits(n, parent)).to_multiset() == tree_nodes(n),
    decreases n,
{
    broadcast use vstd::seq_lib::lemma_multiset_commutative;
    broadcast use vstd::seq::Seq::to_multiset_ensures;
    broadcast use vstd::multiset::group_multiset_axioms;
    broadcast use vstd::multiset::lemma_multiset_empty_len;

    lemma_forest_complete(n.spec_children(), n);
    Seq::<SyntaxNode>::empty().to_multiset_ensures();
    let head = seq![(n, parent)];
    let rest = forest_visits(n.spec_children(), n);
    assert(visited_nodes(head + rest) =~= visited_nodes(head) + visited_nodes(rest));
    assert(visited_nodes(head) =~= Seq::<SyntaxNode>::empty().push(n));
    assert(Seq::<SyntaxNode>::empty().to_multiset() =~= Multiset::<SyntaxNode>::empty());
    assert(visited_nodes(head).to_multiset() =~= Multiset::empty().insert(n));
    assert(visited_nodes(visits(n, parent)).to_multiset() =~= tree_nodes(n));
}

proof fn lemma_forest_complete(cs: Seq<SyntaxNode>, parent: SyntaxNode)
    ensures
        visited_nodes(forest_visits(cs, parent)).to_multiset() == forest_nodes(cs),
    decreases cs,
{
    broadcast use vstd::seq_lib::lemma_multiset_commutative;
    broadcast use vstd::seq::Seq::to_multiset_ensures;
    broadcast use vstd::multiset::group_multiset_axioms;
    broadcast use vstd::multiset::lemma_multiset_empty_len;

    if cs.len() == 0 {
        Seq::<SyntaxNode>::empty().to_multiset_ensures();
        assert(visited_nodes(forest_visits(cs, parent)) =~= Seq::<SyntaxNode>::empty());
        assert(Seq::<SyntaxNode>::empty().to_multiset() =~= Multiset::<SyntaxNode>::empty());
    } else {
        lemma_traversal_complete(cs[0], Some(parent));
        lemma_forest_complete(cs.drop_first(), parent);
        let a = visits(cs[0], Some(parent));
        let b = forest_visits(cs.drop_first(), parent);
        assert(visited_nodes(a + b) =~= visited_nodes(a) + visited_nodes(b));
        assert(visited_nodes(forest_visits(cs, parent)).to_multiset() =~= forest_nodes(cs));
    }
}

/// How many nodes the subtree rooted at `n` holds.
pub open spec fn subtree_size(n: SyntaxNode) -> nat
    decreases n,
{
    1 + forest_size(n.spec_children())
}

/// How many nodes the subtrees in `cs` hold together.
pub open spec fn forest_size(cs: Seq<SyntaxNode>) -> nat
    decreases cs,
{
    if cs.len() == 0 {
        0
    } else {
        subtree_size(cs[0]) + forest_size(cs.drop_first())
    }
}

/// A subtree's traversal has exactly one event per node of the subtree.
pub proof fn lemma_visits_len(n: SyntaxNode, parent: Option<SyntaxNode>)
    ensures
        visits(n, parent).len() == subtree_size(n),
    decreases n,
{
    lemma_forest_len(n.spec_children(), n);
}

proof fn lemma_forest_len(cs: Seq<SyntaxNode>, parent: SyntaxNode)
    ensures
        forest_visits(cs, parent).len() == forest_size(cs),
    decreases cs,
{
    if cs.len() != 0 {
        lemma_visits_len(cs[0], Some(parent));
        lemma_forest_len(cs.drop_first(), parent);
    }
}

/// The number of visit events that come before child `k`'s subtree when the
/// forest `cs` is traversed: the sizes of the subtrees declared before it.
pub open spec fn forest_offset(cs: Seq<SyntaxNode>, k: int) -> nat {
    forest_size(cs.take(k))
}

proof fn lemma_forest_offset_succ(cs: Seq<SyntaxNode>, k: int)
    requires
        0 <= k < cs.len(),
    ensures
        forest_offset(cs, k + 1) == forest_offset(cs, k) + subtree_size(cs[k]),
    decreases k,
{
    if k == 0 {
        assert(cs.take(0) =~= Seq::<SyntaxNode>::empty());
        assert(cs.take(1) =~= seq![cs[0]]);
        assert(cs.take(1).drop_first() =~= Seq::<SyntaxNode>::empty());
    } else {
        lemma_forest_offset_succ(cs.drop_first(), k - 1);
        assert(cs.take(k + 1).drop_first() =~= cs.drop_first().take(k));
        assert(cs.take(k).drop_first() =~= cs.drop_first().take(k - 1));
        assert(cs.take(k + 1)[0] == cs[0]);
        assert(cs.take(k)[0] == cs[0]);
        assert(cs.drop_first()[k - 1] == cs[k]);
    }
}

/// Where child `k`'s own visit stands when the forest `cs` is traversed:
/// right after the subtrees declared before it, and its whole subtree lies
/// within the forest's traversal.
pub proof fn lemma_child_visit_position(cs: Seq<SyntaxNode>, parent: SyntaxNode, k: int)
    requires
        0 <= k < cs.len(),
    ensures
        forest_offset(cs, k) + subtree_size(cs[k]) <= forest_size(cs),
        forest_visits(cs, parent)[forest_offset(cs, k) as int] == (cs[k], Some(parent)),
    decreases k,
{
    lemma_forest_len(cs, parent);
    lemma_visits_len(cs[0], Some(parent));
    lemma_forest_len(cs.drop_first(), parent);
    if k == 0 {
        assert(cs.take(0) =~= Seq::<SyntaxNode>::empty());
        assert(forest_offset(cs, 0) == 0);
        lemma_forest_offset_mono(cs, 1, cs.len() as int);
        lemma_forest_offset_succ(cs, 0);
        assert(cs.take(cs.len() as int) =~= cs);
        assert(forest_visits(cs, parent)[0] == visits(cs[0], Some(parent))[0]);
    } else {
        lemma_child_visit_position(cs.drop_first(), parent, k - 1);
        assert(cs.take(k).drop_first() =~= cs.drop_first().take(k - 1));
        assert(cs.take(k)[0] == cs[0]);
        assert(cs.drop_first()[k - 1] == cs[k]);
        assert(forest_offset(cs, k) == subtree_size(cs[0]) + forest_offset(cs.drop_first(), k - 1));
        let a = visits(cs[0], Some(parent));
        let b = forest_visits(cs.drop_first(), parent);
        assert(forest_visits(cs, parent) == a + b);
        assert((a + b)[forest_offset(cs, k) as int]
            == b[forest_offset(cs.drop_first(), k - 1) as int]);
    }
}

proof fn lemma_forest_offset_mono(cs: Seq<SyntaxNode>, i: int, j: int)
    requires
        0 <= i <= j <= cs.len(),
    ensures
        forest_offset(cs, i) <= forest_offset(cs, j),
    decreases j - i,
{
    if i < j {
        lemma_forest_offset_mono(cs, i + 1, j);
        lemma_forest_offset_succ(cs, i);
    }
}

/// Traversal order among siblings: when `cs` are the children of one parent
/// and child `i` is declared before child `j`, the traversal visits child `i`
/// strictly before child `j`. A node itself always stands at the head of its
/// own subtree's traversal, so a parent is visited before any of its children.
pub proof fn lemma_sibling_order(cs: Seq<SyntaxNode>, parent: SyntaxNode, i: int, j: int)
    requires
        0 <= i < j < cs.len(),
    ensures
        forest_offset(cs, i) < forest_offset(cs, j) < forest_visits(cs, parent).len(),
        forest_visits(cs, parent)[forest_offset(cs, i) as int] == (cs[i], Some(parent)),
        forest_visits(cs, parent)[forest_offset(cs, j) as int] == (cs[j], Some(parent)),
{
    lemma_forest_len(cs, parent);
    lemma_child_visit_position(cs, parent, i);
    lemma_child_visit_position(cs, parent, j);
    lemma_forest_offset_succ(cs, i);
    lemma_forest_offset_mono(cs, i + 1, j);
}

/// What holds of every visit event after the first: the reported parent is a
/// node whose children sequence contains the visited node, and that parent
/// was itself visited at an earlier position.
pub open spec fn parented_at(vs: Seq<(SyntaxNode, Option<SyntaxNode>)>, i: int) -> bool {
    &&& vs[i].1 is Some
    &&& vs[i].1->0.spec_children().contains(vs[i].0)
    &&& exists|k: int| 0 <= k < i && (#[trigger] vs[k]).0 == vs[i].1->0
}

/// Parent correctness: over a whole traversal from the root, the first event
/// is the root with no parent, and every later event reports as parent
/// exactly a node whose children sequence contains the visited node — a node
/// that was itself visited earlier.
pub proof fn lemma_parent_correct(root: SyntaxNode)
    ensures
        visits(root, Option::None).len() >= 1,
        visits(root, Option::None)[0] == (root, Option::<SyntaxNode>::None),
        forall|i: int|
            1 <= i < visits(root, Option::None).len()
                ==> #[trigger] parented_at(visits(root, Option::None), i),
{
    lemma_visits_parented(root, Option::None);
}

proof fn lemma_visits_parented(n: SyntaxNode, parent: Option<SyntaxNode>)
    ensures
        visits(n, parent).len() >= 1,
        visits(n, parent)[0] == (n, parent),
        forall|i: int|
            1 <= i < visits(n, parent).len() ==> #[trigger] parented_at(visits(n, parent), i),
    decreases n,
{
    let vs = visits(n, parent);
    let cs = n.spec_children();
    let rest = forest_visits(cs, n);
    lemma_forest_parented(cs, n);
    assert forall|i: int| 1 <= i < vs.len() implies #[trigger] parented_at(vs, i) by {
        assert(vs[i] == rest[i - 1]);
        assert(forest_parented_at(cs, n, i - 1));
        if rest[i - 1].1 == Some(n) && cs.contains(rest[i - 1].0) {
            assert((#[trigger] vs[0]).0 == n);
            assert(parented_at(vs, i));
        } else {
            assert(parented_at(rest, i - 1));
            let k = choose|k: int| 0 <= k < i - 1 && (#[trigger] rest[k]).0 == rest[i - 1].1->0;
            assert(vs[k + 1] == rest[k]);
            assert((#[trigger] vs[k + 1]).0 == vs[i].1->0);
        }
    }
}

spec fn forest_parented_at(cs: Seq<SyntaxNode>, parent: SyntaxNode, i: int) -> bool {
    let vs = forest_visits(cs, parent);
    (vs[i].1 == Some(parent) && cs.contains(vs[i].0)) || parented_at(vs, i)
}

proof fn lemma_forest_parented(cs: Seq<SyntaxNode>, parent: SyntaxNode)
    ensures
        forall|i: int|
            0 <= i < forest_visits(cs, parent).len()
                ==> #[trigger] forest_parented_at(cs, parent, i),
    decreases cs,
{
    if cs.len() != 0 {
        let vs = forest_visits(cs, parent);
        let a = visits(cs[0], Some(parent));
        let b = forest_visits(cs.drop_first(), parent);
        lemma_visits_parented(cs[0], Some(parent));
        lemma_forest_parented(cs.drop_first(), parent);
        assert forall|i: int|
            0 <= i < vs.len() implies #[trigger] forest_parented_at(cs, parent, i) by {
            if i < a.len() {
                assert(vs[i] == a[i]);
                if i == 0 {
                    assert(cs.contains(cs[0]));
                    assert(forest_parented_at(cs, parent, i));
                } else {
                    assert(parented_at(a, i));
                    let k = choose|k: int| 0 <= k < i && (#[trigger] a[k]).0 == a[i].1->0;
                    assert(vs[k] == a[k]);
                    assert((#[trigger] vs[k]).0 == vs[i].1->0);
                    assert(parented_at(vs, i));
                }
            } else {
                let d = a.len() as int;
                assert(vs[i] == b[i - d]);
                assert(forest_parented_at(cs.drop_first(), parent, i - d));
                if b[i - d].1 == Some(parent) && cs.drop_first().contains(b[i - d].0) {
                    let t = choose|t: int| 0 <= t < cs.drop_first().len() && cs.drop_first()[t] == b[i - d].0;
                    assert(cs[t + 1] == cs.drop_first()[t]);
                    assert(cs.contains(vs[i].0));
                    assert(forest_parented_at(cs, parent, i));
                } else {
                    assert(parented_at(b, i - d));
                    let k = choose|k: int| 0 <= k < i - d && (#[trigger] b[k]).0 == b[i - d].1->0;
                    assert(vs[k + d] == b[k]);
                    assert((#[trigger] vs[k + d]).0 == vs[i].1->0);
                    assert(parented_at(vs, i));
                }
            }
        }
    }
}

} // verus!
