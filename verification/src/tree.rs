//! The call tree reconstructed from a trace.
//!
//! A [`Node`] records one attempt to match a grammar rule: the rule's name
//! and locations, how the attempt ended, and every attempt nested inside
//! it, in the temporal order the nested attempts were opened — including
//! attempts that failed, which are retained so backtracking stays visible.

use vstd::prelude::*;

use crate::location::loc_lt;
use crate::location::Location;

verus! {

/// How an attempt to match a rule ended. A node starts `Unknown` and is
/// finalized to `Success` or `Failure` when its completion event arrives.
#[derive(Clone, Copy, Debug, PartialEq, Eq, Structural)]
pub enum State {
    Success,
    Failure,
    Unknown,
}

/// A grammar rule occurrence: its name, the start location reported when
/// it was attempted, and the end location, either reported on success or
/// filled in afterwards from the next sibling's start.
#[derive(Debug)]
pub struct Rule {
    pub name: String,
    pub loc: Location,
    pub next_loc: Option<Location>,
}

/// The mathematical value of a [`Rule`]: the name as a character sequence.
#[verifier::ext_equal]
pub struct RuleView {
    pub name: Seq<char>,
    pub loc: Location,
    pub next_loc: Option<Location>,
}

impl View for Rule {
    type V = RuleView;

    open spec fn view(&self) -> RuleView {
        RuleView { name: self.name@, loc: self.loc, next_loc: self.next_loc }
    }
}

/// A rule occurrence is zero-length when its end is unknown or does not
/// lie strictly after its start: it consumed no input on its own.
pub open spec fn rule_is_zero_len(r: RuleView) -> bool {
    match r.next_loc {
        Some(next_loc) => !loc_lt(r.loc, next_loc),
        None => true,
    }
}

impl Rule {
    /// True when this occurrence consumed no input: its end location is
    /// absent or does not lie strictly after its start.
    pub fn is_zero_len(&self) -> (r: bool)
        ensures
            r == rule_is_zero_len(self@),
    {
        if let Some(next_loc) = self.next_loc {
            if self.loc.lt(&next_loc) {
                return false;
            }
        }
        true
    }
}

/// One node of the call tree: a rule occurrence, how it ended, the
/// attempts nested inside it in the order they were opened, and whether
/// this subtree represents real forward progress through the source.
#[derive(Debug)]
pub struct Node {
    pub rule: Rule,
    pub partial_match: bool,
    pub state: State,
    pub children: Vec<Node>,
}

/// The mathematical value of a [`Node`]: the same tree over sequences.
#[verifier::ext_equal]
pub struct NodeView {
    pub rule: RuleView,
    pub partial_match: bool,
    pub state: State,
    pub children: Seq<NodeView>,
}

/// The view of a node, taken recursively over its children.
pub open spec fn node_view(n: Node) -> NodeView
    decreases n,
{
    NodeView {
        rule: n.rule@,
        partial_match: n.partial_match,
        state: n.state,
        children: Seq::new(
            n.children@.len(),
            |i: int|
                if 0 <= i < n.children@.len() {
                    node_view(n.children@[i])
                } else {
                    arbitrary()
                },
        ),
    }
}

impl View for Node {
    type V = NodeView;

    open spec fn view(&self) -> NodeView {
        node_view(*self)
    }
}

} // verus!
