//! Inferring missing end locations.
//!
//! Most trace events report only where a rule started. The extent of a
//! rule's match is recovered from the principle that a rule ends exactly
//! where the next thing that happened begins: each node missing an end
//! location takes the start location of its next sibling, and a last child
//! takes the boundary handed down from its parent — the parent's own
//! "what comes after me". A node whose end location was reported keeps it.

use vstd::prelude::*;

use crate::location::Location;
use crate::tree::Node;
use crate::tree::NodeView;
use crate::tree::RuleView;

verus! {

/// `n` with its end location set to `boundary` when it had none.
/// An end location that is already present is never overwritten, and a
/// `None` boundary changes nothing.
pub open spec fn set_next_if_unset(n: NodeView, boundary: Option<Location>) -> NodeView {
    if n.rule.next_loc is None {
        NodeView { rule: RuleView { next_loc: boundary, ..n.rule }, ..n }
    } else {
        n
    }
}

/// The boundary that applies to child `i` of `n`: the start location of
/// its next sibling, or for the last child the boundary `boundary` that
/// `n` itself received.
pub open spec fn child_boundary(n: NodeView, boundary: Option<Location>, i: int) -> Option<
    Location,
> {
    if i + 1 < n.children.len() {
        Some(n.children[i + 1].rule.loc)
    } else {
        boundary
    }
}

/// The backfill pass over the subtree rooted at `n`, given the boundary
/// that applies after `n`. The node's own rule is untouched; each child
/// first has its own subtree backfilled against its boundary, then its
/// missing end location filled from that boundary.
pub open spec fn backfill_spec(n: NodeView, boundary: Option<Location>) -> NodeView
    decreases n,
{
    NodeView {
        children: Seq::new(
            n.children.len(),
            |i: int|
                if 0 <= i < n.children.len() {
                    set_next_if_unset(
                        backfill_spec(n.children[i], child_boundary(n, boundary, i)),
                        child_boundary(n, boundary, i),
                    )
                } else {
                    arbitrary()
                },
        ),
        ..n
    }
}

/// What child `i` of `n` becomes under the backfill pass.
pub open spec fn backfilled_child(n: NodeView, boundary: Option<Location>, i: int) -> NodeView {
    set_next_if_unset(
        backfill_spec(n.children[i], child_boundary(n, boundary, i)),
        child_boundary(n, boundary, i),
    )
}

/// `post` keeps every end location that `pre` already had, throughout the
/// whole subtree: wherever `pre` records an end location, `post` records
/// the same one.
pub open spec fn keeps_existing_ends(pre: NodeView, post: NodeView) -> bool
    decreases pre,
{
    &&& post.children.len() == pre.children.len()
    &&& (pre.rule.next_loc matches Some(l) ==> post.rule.next_loc == Some(l))
    &&& forall|i: int|
        0 <= i < pre.children.len() ==> keeps_existing_ends(
            pre.children[i],
            #[trigger] post.children[i],
        )
}

/// The backfill pass never overwrites an end location that was already
/// reported: every node of the tree that had one keeps it, unchanged.
pub proof fn lemma_backfill_keeps_existing(n: NodeView, boundary: Option<Location>)
    ensures
        keeps_existing_ends(n, backfill_spec(n, boundary)),
    decreases n,
{
    let post = backfill_spec(n, boundary);
    assert forall|i: int| 0 <= i < n.children.len() implies keeps_existing_ends(
        n.children[i],
        #[trigger] post.children[i],
    ) by {
        let c = n.children[i];
        let bd = child_boundary(n, boundary, i);
        lemma_backfill_keeps_existing(c, bd);
        assert(post.children[i] == set_next_if_unset(backfill_spec(c, bd), bd));
    }
}

/// A node with a following sibling whose own end location was missing
/// receives exactly that sibling's start location.
pub proof fn lemma_backfill_fills_from_sibling(n: NodeView, boundary: Option<Location>, i: int)
    requires
        0 <= i,
        i + 1 < n.children.len(),
        n.children[i].rule.next_loc is None,
    ensures
        backfill_spec(n, boundary).children[i].rule.next_loc == Some(
            n.children[i + 1].rule.loc,
        ),
{
    assert(backfill_spec(n, boundary).children[i] == backfilled_child(n, boundary, i));
}

/// Backfilling commutes with filling a node's own end location: the pass
/// reads only the subtree below a node, never the node's own end.
proof fn lemma_backfill_set_next_commute(x: NodeView, bd: Option<Location>, b: Option<Location>)
    ensures
        backfill_spec(set_next_if_unset(x, bd), b) == set_next_if_unset(backfill_spec(x, b), bd),
{
    let lhs = backfill_spec(set_next_if_unset(x, bd), b);
    let rhs = set_next_if_unset(backfill_spec(x, b), bd);
    assert(set_next_if_unset(x, bd).children == x.children);
    assert forall|i: int| 0 <= i < x.children.len() implies lhs.children[i] == rhs.children[i] by {
        assert(child_boundary(set_next_if_unset(x, bd), b, i) == child_boundary(x, b, i));
    }
    assert(lhs.children =~= rhs.children);
    assert(lhs == rhs);
}

/// Running the backfill pass twice gives exactly what running it once
/// gives: the second run finds every end location already assigned.
pub proof fn lemma_backfill_idempotent(n: NodeView, boundary: Option<Location>)
    ensures
        backfill_spec(backfill_spec(n, boundary), boundary) == backfill_spec(n, boundary),
    decreases n,
{
    let m = backfill_spec(n, boundary);
    let mm = backfill_spec(m, boundary);
    assert forall|i: int| 0 <= i < n.children.len() implies mm.children[i] == m.children[i] by {
        let c = n.children[i];
        let bd = child_boundary(n, boundary, i);
        assert(child_boundary(m, boundary, i) == bd) by {
            if i + 1 < n.children.len() {
                assert(m.children[i + 1] == backfilled_child(n, boundary, i + 1));
            }
        }
        lemma_backfill_idempotent(c, bd);
        lemma_backfill_set_next_commute(backfill_spec(c, bd), bd, bd);
        assert(m.children[i] == set_next_if_unset(backfill_spec(c, bd), bd));
        assert(backfill_spec(m.children[i], bd) == set_next_if_unset(backfill_spec(c, bd), bd));
    }
    assert(mm.children =~= m.children);
    assert(mm == m);
}

/// Fills `node`'s end location from `boundary` when it has none.
fn with_next_if_unset(node: Node, boundary: Option<Location>) -> (r: Node)
    ensures
        r@ == set_next_if_unset(node@, boundary),
{
    let mut node = node;
    if node.rule.next_loc.is_none() {
        node.rule.next_loc = boundary;
    }
    node
}

/// The backfill pass: returns `node` with every missing end location in
/// its subtree inferred from the start of the next sibling, or from
/// `next` — the boundary after `node` itself — for each last child.
/// The session root is passed `None`; a last node that never receives a
/// boundary keeps no end location, meaning it matched to the end of the
/// available information.
pub fn backfill_next_loc(node: Node, next: Option<Location>) -> (r: Node)
    ensures
        r@ == backfill_spec(node@, next),
    decreases node,
{
    let ghost orig = node;
    let Node { rule, partial_match, state, children } = node;
    let ghost len = children@.len() as int;
    proof {
        assert(children@ =~= orig.children@.take(len));
        assert(orig@.children.len() == len);
    }
    let mut rest = children;
    let mut done_rev: Vec<Node> = Vec::new();
    let mut boundary = next;
    while rest.len() > 0
        invariant
            rest@.len() + done_rev@.len() == len,
            rest@ == orig.children@.take(rest@.len() as int),
            boundary == (if rest@.len() < len {
                Some(orig@.children[rest@.len() as int].rule.loc)
            } else {
                next
            }),
            forall|j: int|
                0 <= j < done_rev@.len() ==> done_rev@[j]@ == backfilled_child(
                    orig@,
                    next,
                    len - 1 - j,
                ),
        decreases rest@.len(),
    {
        let ghost k = rest@.len() as int - 1;
        proof {
            assert(rest@[k] == orig.children@.take(k + 1)[k]);
            assert(rest@[k] == orig.children@[k]);
        }
        let child = rest.pop().unwrap();
        proof {
            broadcast use vstd::std_specs::vec::group_vec_axioms;

            assert(rest@ =~= orig.children@.take(rest@.len() as int));
            assert(child == orig.children@[k]);
            assert(orig@.children[k] == orig.children@[k]@);
            assert(child@ == orig@.children[k]);
            assert(orig@.children.len() == len);
            assert(child_boundary(orig@, next, k) == boundary);
            assert(decreases_to!(orig => orig.children));
            assert(decreases_to!(orig.children => orig.children@[k]));
        }
        let child_loc = child.rule.loc;
        let child = backfill_next_loc(child, boundary);
        let child = with_next_if_unset(child, boundary);
        done_rev.push(child);
        boundary = Some(child_loc);
    }
    let mut new_children: Vec<Node> = Vec::new();
    while done_rev.len() > 0
        invariant
            new_children@.len() + done_rev@.len() == len,
            forall|j: int|
                0 <= j < done_rev@.len() ==> done_rev@[j]@ == backfilled_child(
                    orig@,
                    next,
                    len - 1 - j,
                ),
            forall|j: int|
                0 <= j < new_children@.len() ==> new_children@[j]@ == backfilled_child(
                    orig@,
                    next,
                    j,
                ),
        decreases done_rev@.len(),
    {
        let child = done_rev.pop().unwrap();
        new_children.push(child);
    }
    let r = Node { rule, partial_match, state, children: new_children };
    proof {
        let bf = backfill_spec(orig@, next);
        assert forall|j: int| 0 <= j < len implies r@.children[j] == bf.children[j] by {
            assert(r@.children[j] == new_children@[j]@);
            assert(bf.children[j] == backfilled_child(orig@, next, j));
        }
        assert(r@.children =~= bf.children);
        assert(r@ == bf);
    }
    r
}

} // verus!
