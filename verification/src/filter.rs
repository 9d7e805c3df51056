//! Rendering-time filters.
//!
//! Two externally supplied name lists shape what a renderer walks, without
//! ever touching the tree itself: a node whose rule name is listed in
//! `flatten` and that has exactly one child is transparently replaced by
//! that child (recursively — flattening can chain), and a node whose rule
//! name is listed in `hide` is skipped entirely, subtree and all. Both are
//! pure read-only predicates, so one tree can be rendered many times with
//! different filters.

use vstd::prelude::*;

use crate::text::str_eq;
use crate::tree::Node;
use crate::tree::NodeView;

verus! {

/// The filter configuration: rule names to flatten and rule names to
/// hide.
#[derive(Debug)]
pub struct Args {
    pub flatten: Vec<String>,
    pub hide: Vec<String>,
}

/// The mathematical value of [`Args`]: the two name lists as sequences.
#[verifier::ext_equal]
pub struct ArgsView {
    pub flatten: Seq<Seq<char>>,
    pub hide: Seq<Seq<char>>,
}

impl View for Args {
    type V = ArgsView;

    open spec fn view(&self) -> ArgsView {
        ArgsView {
            flatten: self.flatten@.map_values(|s: String| s@),
            hide: self.hide@.map_values(|s: String| s@),
        }
    }
}

/// Whether `name` occurs in the list `names`.
pub open spec fn name_in(names: Seq<Seq<char>>, name: Seq<char>) -> bool {
    exists|i: int| 0 <= i < names.len() && names[i] == name
}

/// Whether rendering replaces `n` by its single child: its name is listed
/// for flattening and it has exactly one child.
pub open spec fn should_flatten_spec(args: ArgsView, n: NodeView) -> bool {
    name_in(args.flatten, n.rule.name) && n.children.len() == 1
}

/// Whether rendering skips `n` and its whole subtree: its name is listed
/// for hiding.
pub open spec fn should_hide_spec(args: ArgsView, n: NodeView) -> bool {
    name_in(args.hide, n.rule.name)
}

/// Looks `name` up in `names`.
fn contains_name(names: &Vec<String>, name: &String) -> (r: bool)
    ensures
        r == name_in(names@.map_values(|s: String| s@), name@),
{
    let mut i: usize = 0;
    while i < names.len()
        invariant
            i <= names@.len(),
            forall|t: int| 0 <= t < i ==> names@[t]@ != name@,
        decreases names@.len() - i,
    {
        if str_eq(names[i].as_str(), name.as_str()) {
            proof {
                assert(names@.map_values(|s: String| s@)[i as int] == name@);
            }
            return true;
        }
        i = i + 1;
    }
    false
}

impl Args {
    /// True when rendering should replace `node` by its single child.
    pub fn should_flatten(&self, node: &Node) -> (r: bool)
        ensures
            r == should_flatten_spec(self@, node@),
    {
        contains_name(&self.flatten, &node.rule.name) && node.children.len() == 1
    }

    /// True when rendering should skip `node` and its subtree.
    pub fn should_hide(&self, node: &Node) -> (r: bool)
        ensures
            r == should_hide_spec(self@, node@),
    {
        contains_name(&self.hide, &node.rule.name)
    }
}

} // verus!
