//! Rendering the annotated tree as nested disclosure markup.
//!
//! Each retained node becomes one collapsible section showing its rule
//! name, a visual class for its outcome and partial-match flag, and a
//! three-part excerpt of the source text: a little context before the
//! rule's start, the span it matched up to its end, and a short trailing
//! excerpt — with a directional marker when the end location precedes the
//! start (a backtrack indicator). The flatten and hide filters shape the
//! traversal as `crate::filter` describes; the tree itself is only read.

use vstd::prelude::*;
use vstd::string::StringExecFns;

use crate::filter::should_flatten_spec;
use crate::filter::should_hide_spec;
use crate::filter::Args;
use crate::filter::ArgsView;
use crate::location::loc_pos;
use crate::tree::Node;
use crate::tree::NodeView;
use crate::tree::State;

verus! {

/// The visual class of a node's outcome.
pub open spec fn state_class(st: State) -> Seq<char> {
    match st {
        State::Success => "success"@,
        State::Failure => "failure"@,
        State::Unknown => "unknown"@,
    }
}

/// The trailing context shown from position `p` on: up to 25 characters,
/// then an ellipsis when the text continues beyond them.
pub open spec fn excerpt_tail(input: Seq<char>, p: int) -> Seq<char> {
    "<span>"@ + input.subrange(
        p,
        if input.len() - p > 25 {
            p + 25
        } else {
            input.len() as int
        },
    ) + (if input.len() - p > 25 {
        "…"@
    } else {
        ""@
    }) + "</span>"@
}

/// The three-part excerpt for `n`: up to 10 characters before its start,
/// the matched span when the end lies after the start (or a backtrack
/// marker when it lies before), and the trailing context.
pub open spec fn node_excerpt(n: NodeView, input: Seq<char>) -> Seq<char> {
    let rulepos = loc_pos(n.rule.loc, input);
    let from = if rulepos < 10 {
        0
    } else {
        rulepos - 10
    };
    "<em>"@ + input.subrange(from, rulepos) + "</em>"@ + match n.rule.next_loc {
        Some(nl) => {
            let nextpos = loc_pos(nl, input);
            (if nextpos > rulepos {
                "<strong>"@ + input.subrange(rulepos, nextpos) + "</strong>"@
            } else if nextpos < rulepos {
                "↩"@
            } else {
                Seq::<char>::empty()
            }) + excerpt_tail(input, nextpos)
        },
        None => excerpt_tail(input, rulepos),
    }
}

/// The opening markup of a node's section, through its excerpt.
pub open spec fn node_header(n: NodeView, input: Seq<char>) -> Seq<char> {
    "<details><summary><span class=\"rule "@ + state_class(n.state) + " "@ + (if n.partial_match {
        "partial-match"@
    } else {
        ""@
    }) + "\">"@ + n.rule.name + "</span><code>"@ + node_excerpt(n, input)
        + "</code></summary>\n"@
}

/// The markup for the subtree rooted at `n`: a flattened node is replaced
/// by its single child; otherwise its section wraps the renderings of its
/// children, hidden ones contributing nothing.
pub open spec fn render_spec(args: ArgsView, n: NodeView, input: Seq<char>) -> Seq<char>
    decreases n, 2int,
{
    if should_flatten_spec(args, n) {
        render_spec(args, n.children[0], input)
    } else {
        node_header(n, input) + children_renders(args, n, input).flatten() + "</details>\n"@
    }
}

/// The contributions of all children of `n`, in order.
pub open spec fn children_renders(args: ArgsView, n: NodeView, input: Seq<char>) -> Seq<Seq<char>>
    decreases n, 1int,
{
    Seq::new(
        n.children.len(),
        |i: int|
            if 0 <= i < n.children.len() {
                rendered_child(args, n, input, i)
            } else {
                arbitrary()
            },
    )
}

/// What child `i` of `n` contributes to its parent's rendering.
pub open spec fn rendered_child(args: ArgsView, n: NodeView, input: Seq<char>, i: int) -> Seq<char>
    decreases n, 0int,
    when 0 <= i < n.children.len()
{
    if should_hide_spec(args, n.children[i]) {
        Seq::<char>::empty()
    } else {
        render_spec(args, n.children[i], input)
    }
}

/// The markup for the subtree rooted at `n` with no filtering at all:
/// every node gets its section, every child is walked.
pub open spec fn render_plain_spec(n: NodeView, input: Seq<char>) -> Seq<char>
    decreases n, 1int,
{
    node_header(n, input) + plain_children_renders(n, input).flatten() + "</details>\n"@
}

/// The unfiltered contributions of all children of `n`, in order.
pub open spec fn plain_children_renders(n: NodeView, input: Seq<char>) -> Seq<Seq<char>>
    decreases n, 0int,
{
    Seq::new(
        n.children.len(),
        |i: int|
            if 0 <= i < n.children.len() {
                render_plain_spec(n.children[i], input)
            } else {
                arbitrary()
            },
    )
}

/// Filtering is pure and empty filters are invisible: rendering with
/// empty `flatten` and `hide` lists reproduces the unfiltered traversal
/// exactly. (The filters never mutate the tree at all — rendering reads
/// it through a shared reference.)
pub proof fn lemma_empty_filters_render_all(args: ArgsView, n: NodeView, input: Seq<char>)
    requires
        args.flatten.len() == 0,
        args.hide.len() == 0,
    ensures
        render_spec(args, n, input) == render_plain_spec(n, input),
    decreases n,
{
    assert(!should_flatten_spec(args, n));
    assert forall|i: int| 0 <= i < n.children.len() implies children_renders(args, n, input)[i]
        == plain_children_renders(n, input)[i] by {
        assert(!should_hide_spec(args, n.children[i]));
        lemma_empty_filters_render_all(args, n.children[i], input);
    }
    assert(children_renders(args, n, input) =~= plain_children_renders(n, input));
}

/// Appends the trailing excerpt from position `p`.
fn append_excerpt_tail(out: &mut String, input: &str, p: usize)
    requires
        p <= input@.len(),
    ensures
        final (out)@ == old(out)@ + excerpt_tail(input@, p as int),
{
    let n = input.unicode_len();
    out.append("<span>");
    let more = n - p > 25;
    let to = if more {
        p + 25
    } else {
        n
    };
    out.append(input.substring_char(p, to));
    if more {
        out.append("…");
    }
    out.append("</span>");
    proof {
        reveal_strlit("<span>");
        reveal_strlit("…");
        reveal_strlit("");
        reveal_strlit("</span>");
        assert(out@ =~= old(out)@ + excerpt_tail(input@, p as int));
    }
}

/// Appends the markup for the subtree rooted at `node` to `out`, exactly
/// as [`render_spec`] describes; the tree and the filters are only read.
#[verifier::rlimit(100)]
pub fn visit(out: &mut String, args: &Args, node: &Node, input: &str)
    requires
        input@.len() < usize::MAX,
    ensures
        final (out)@ == old(out)@ + render_spec(args@, node@, input@),
    decreases node,
{
    if args.should_flatten(node) {
        proof {
            broadcast use vstd::std_specs::vec::group_vec_axioms;

            assert(decreases_to!(node => node.children));
            assert(decreases_to!(node.children => node.children@[0]));
        }
        let child = &node.children[0];
        proof {
            assert(child@ == node@.children[0]);
        }
        visit(out, args, child, input);
        return ;
    }
    let ghost base = out@;
    out.append("<details><summary><span class=\"rule ");
    out.append(
        match node.state {
            State::Success => "success",
            State::Failure => "failure",
            State::Unknown => "unknown",
        },
    );
    out.append(" ");
    if node.partial_match {
        out.append("partial-match");
    }
    out.append("\">");
    out.append(node.rule.name.as_str());
    out.append("</span><code>");
    proof {
        reveal_strlit("<details><summary><span class=\"rule ");
        reveal_strlit("success");
        reveal_strlit("failure");
        reveal_strlit("unknown");
        reveal_strlit(" ");
        reveal_strlit("partial-match");
        reveal_strlit("");
        reveal_strlit("\">");
        reveal_strlit("</span><code>");
        assert(out@ =~= base + "<details><summary><span class=\"rule "@ + state_class(node@.state)
            + " "@ + (if node@.partial_match {
            "partial-match"@
        } else {
            ""@
        }) + "\">"@ + node@.rule.name + "</span><code>"@);
    }
    let ghost head = out@;
    out.append("<em>");
    let rulepos = node.rule.loc.pos(input);
    let from = if rulepos < 10 {
        0
    } else {
        rulepos - 10
    };
    out.append(input.substring_char(from, rulepos));
    out.append("</em>");
    match node.rule.next_loc {
        Some(nl) => {
            let nextpos = nl.pos(input);
            if nextpos > rulepos {
                out.append("<strong>");
                out.append(input.substring_char(rulepos, nextpos));
                out.append("</strong>");
            } else if nextpos < rulepos {
                out.append("↩");
            }
            append_excerpt_tail(out, input, nextpos);
        },
        None => {
            append_excerpt_tail(out, input, rulepos);
        },
    }
    proof {
        reveal_strlit("<em>");
        reveal_strlit("</em>");
        reveal_strlit("<strong>");
        reveal_strlit("</strong>");
        reveal_strlit("↩");
        reveal_strlit("");
        assert(out@ =~= head + node_excerpt(node@, input@));
    }
    out.append("</code></summary>\n");
    proof {
        reveal_strlit("<details><summary><span class=\"rule ");
        reveal_strlit("success");
        reveal_strlit("failure");
        reveal_strlit("unknown");
        reveal_strlit(" ");
        reveal_strlit("partial-match");
        reveal_strlit("");
        reveal_strlit("\">");
        reveal_strlit("</span><code>");
        reveal_strlit("</code></summary>\n");
        assert(out@ =~= base + node_header(node@, input@));
    }
    let ghost mid = out@;
    let ghost crs = children_renders(args@, node@, input@);
    let n_children = node.children.len();
    let mut i: usize = 0;
    proof {
        assert(crs.take(0).flatten() =~= Seq::<char>::empty());
        assert(out@ =~= mid + crs.take(0).flatten());
    }
    while i < n_children
        invariant
            i <= n_children,
            n_children == node.children@.len(),
            out@ == mid + crs.take(i as int).flatten(),
        decreases n_children - i,
    {
        proof {
            broadcast use vstd::std_specs::vec::group_vec_axioms;

            assert(decreases_to!(node => node.children));
            assert(decreases_to!(node.children => node.children@[i as int]));
        }
        let child = &node.children[i];
        proof {
            assert(child@ == node@.children[i as int]);
        }
        let ghost pre = out@;
        if !args.should_hide(child) {
            visit(out, args, child, input);
        }
        proof {
            broadcast use vstd::seq_lib::group_seq_lib_default;

            assert(out@ =~= pre + rendered_child(args@, node@, input@, i as int));
            crs.lemma_take_succ_push(i as int);
            crs.take(i as int).lemma_flatten_push(crs[i as int]);
            assert(out@ =~= mid + crs.take(i as int + 1).flatten());
        }
        i = i + 1;
    }
    out.append("</details>\n");
    proof {
        assert(crs.take(n_children as int) =~= crs);
        assert(out@ =~= base + render_spec(args@, node@, input@));
    }
}

} // verus!
