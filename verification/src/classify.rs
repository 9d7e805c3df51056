//! The partial-match classifier.
//!
//! A post-order pass marks each node with whether its branch represents
//! real forward progress through the source: the node itself succeeded
//! over a non-zero span, or some descendant did. Zero-length successes are
//! bookkeeping, not progress, but they do not block propagation from
//! below.

use vstd::prelude::*;

use crate::tree::rule_is_zero_len;
use crate::tree::Node;
use crate::tree::NodeView;
use crate::tree::State;

verus! {

/// The subtree rooted at `n` with every `partial_match` flag computed:
/// a node is marked exactly when it succeeded over a non-zero span, or
/// when one of its (already marked) children is marked.
pub open spec fn mark_spec(n: NodeView) -> NodeView
    decreases n,
{
    let children = Seq::new(
        n.children.len(),
        |i: int|
            if 0 <= i < n.children.len() {
                mark_spec(n.children[i])
            } else {
                arbitrary()
            },
    );
    NodeView {
        partial_match: (n.state is Success && !rule_is_zero_len(n.rule)) || exists|i: int|
            0 <= i < children.len() && children[i].partial_match,
        children,
        ..n
    }
}

/// True when `d` appears somewhere strictly below `n`: as one of its
/// children, or deeper.
pub open spec fn is_descendant(d: NodeView, n: NodeView) -> bool
    decreases n,
{
    exists|i: int|
        0 <= i < n.children.len() && (d == n.children[i] || is_descendant(
            d,
            #[trigger] n.children[i],
        ))
}

/// Partial matches propagate upward: in a marked tree, a node with any
/// marked descendant is itself marked.
pub proof fn lemma_partial_match_propagates(n: NodeView, d: NodeView)
    requires
        is_descendant(d, mark_spec(n)),
        d.partial_match,
    ensures
        mark_spec(n).partial_match,
    decreases n,
{
    let m = mark_spec(n);
    let i = choose|i: int|
        0 <= i < m.children.len() && (d == m.children[i] || is_descendant(
            d,
            #[trigger] m.children[i],
        ));
    assert(m.children[i] == mark_spec(n.children[i]));
    if d != m.children[i] {
        lemma_partial_match_propagates(n.children[i], d);
    }
    assert(m.children[i].partial_match);
}

/// A zero-length node — its end location absent or equal to its start —
/// never counts as progress on its own: it is marked exactly when one of
/// its children is marked.
pub proof fn lemma_zero_length_no_own_progress(n: NodeView)
    requires
        n.rule.next_loc is None || n.rule.next_loc == Some(n.rule.loc),
    ensures
        mark_spec(n).partial_match == exists|i: int|
            0 <= i < n.children.len() && (#[trigger] mark_spec(n.children[i])).partial_match,
{
    let m = mark_spec(n);
    assert(rule_is_zero_len(n.rule));
    if m.partial_match {
        let i = choose|i: int| 0 <= i < m.children.len() && #[trigger] m.children[i].partial_match;
        assert(mark_spec(n.children[i]).partial_match);
    }
    if exists|i: int|
        0 <= i < n.children.len() && (#[trigger] mark_spec(n.children[i])).partial_match {
        let i = choose|i: int|
            0 <= i < n.children.len() && (#[trigger] mark_spec(n.children[i])).partial_match;
        assert(m.children[i].partial_match);
    }
}

/// The partial-match pass: returns `node` with every `partial_match`
/// flag in its subtree set as [`mark_spec`] describes. Everything else
/// about the tree is left as it was.
pub fn mark_partial_matches(node: Node) -> (r: Node)
    ensures
        r@ == mark_spec(node@),
    decreases node,
{
    let ghost orig = node;
    let Node { rule, partial_match, state, children } = node;
    let ghost len = children@.len() as int;
    proof {
        assert(children@ =~= orig.children@.take(len));
    }
    let mut rest = children;
    let mut done_rev: Vec<Node> = Vec::new();
    let mut any: bool = false;
    while rest.len() > 0
        invariant
            rest@.len() + done_rev@.len() == len,
            rest@ == orig.children@.take(rest@.len() as int),
            forall|j: int|
                0 <= j < done_rev@.len() ==> done_rev@[j]@ == mark_spec(
                    orig@.children[len - 1 - j],
                ),
            any == exists|j: int|
                0 <= j < done_rev@.len() && #[trigger] mark_spec(
                    orig@.children[len - 1 - j],
                ).partial_match,
        decreases rest@.len(),
    {
        let ghost k = rest@.len() as int - 1;
        proof {
            assert(rest@[k] == orig.children@.take(k + 1)[k]);
            broadcast use vstd::std_specs::vec::group_vec_axioms;

            assert(decreases_to!(orig => orig.children));
            assert(decreases_to!(orig.children => orig.children@[k]));
        }
        let child = rest.pop().unwrap();
        proof {
            assert(rest@ =~= orig.children@.take(rest@.len() as int));
            assert(child@ == orig@.children[k]);
        }
        let child = mark_partial_matches(child);
        if child.partial_match {
            any = true;
        }
        done_rev.push(child);
        proof {
            let dl = done_rev@.len() as int;
            if any {
                if child.partial_match {
                    assert(mark_spec(orig@.children[len - 1 - (dl - 1)]).partial_match);
                } else {
                    let j0 = choose|j: int|
                        0 <= j < dl - 1 && #[trigger] mark_spec(
                            orig@.children[len - 1 - j],
                        ).partial_match;
                    assert(mark_spec(orig@.children[len - 1 - j0]).partial_match);
                }
            } else {
                assert forall|j: int| 0 <= j < dl implies !(#[trigger] mark_spec(
                    orig@.children[len - 1 - j],
                ).partial_match) by {
                    if j == dl - 1 {
                        assert(!mark_spec(orig@.children[k]).partial_match);
                    }
                }
            }
        }
    }
    let mut new_children: Vec<Node> = Vec::new();
    while done_rev.len() > 0
        invariant
            new_children@.len() + done_rev@.len() == len,
            forall|j: int|
                0 <= j < done_rev@.len() ==> done_rev@[j]@ == mark_spec(
                    orig@.children[len - 1 - j],
                ),
            forall|j: int|
                0 <= j < new_children@.len() ==> new_children@[j]@ == mark_spec(
                    orig@.children[j],
                ),
        decreases done_rev@.len(),
    {
        let child = done_rev.pop().unwrap();
        new_children.push(child);
    }
    let zero_len = rule.is_zero_len();
    let marked = (matches!(state, State::Success) && !zero_len) || any;
    let r = Node { rule, partial_match: marked, state, children: new_children };
    proof {
        let m = mark_spec(orig@);
        assert forall|j: int| 0 <= j < len implies r@.children[j] == m.children[j] by {
            assert(r@.children[j] == new_children@[j]@);
        }
        assert(r@.children =~= m.children);
        assert(any == (exists|i: int| 0 <= i < m.children.len() && m.children[i].partial_match))
            by {
            if any {
                let j = choose|j: int|
                    0 <= j < len && #[trigger] mark_spec(
                        orig@.children[len - 1 - j],
                    ).partial_match;
                assert(m.children[len - 1 - j].partial_match);
            }
            if exists|i: int| 0 <= i < m.children.len() && m.children[i].partial_match {
                let i = choose|i: int| 0 <= i < m.children.len() && m.children[i].partial_match;
                assert(mark_spec(orig@.children[len - 1 - (len - 1 - i)]).partial_match);
            }
        }
        assert(r@ == m);
    }
    r
}

} // verus!
