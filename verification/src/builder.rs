//! The tree builder.
//!
//! A stack machine reconstructs one rooted call tree per trace session
//! from the flat event stream: an attempt pushes an open node, a
//! completion pops the innermost open node — whose rule name must match
//! the event's, else the trace is malformed — finalizes its state and
//! appends it to the children of the node below. The [`Interpreter`]
//! drives the machine across session boundaries, capturing the verbatim
//! source text between the input-start and trace-start delimiters.

use vstd::prelude::*;

use crate::location::CharLocation;
use crate::location::Location;
use crate::text::dec_str;
use crate::text::str_eq;
use crate::text::to_decimal;
use crate::tracer::spec_parse_line;
use crate::tracer::Line;
use crate::tracer::LineView;
use crate::tree::node_view;
use crate::tree::Node;
use crate::tree::NodeView;
use crate::tree::Rule;
use crate::tree::RuleView;
use crate::tree::State;

verus! {

/// The view of a stack of open nodes.
pub open spec fn stack_view(v: Seq<Node>) -> Seq<NodeView> {
    v.map_values(|n: Node| node_view(n))
}

/// Why a trace could not be interpreted. Each of these is fatal to the
/// run that produced it: the stream and the reconstructed tree are out of
/// step, and there is no safe partial result.
#[derive(Debug)]
pub enum TraceError {
    /// A line inside a trace matched no recognized form. Carries the
    /// offending line verbatim and a best-effort position in it.
    Syntax { line: String, position: usize },
    /// A completion event named a rule other than the innermost open one.
    RuleMismatch { expected: String, found: String },
    /// A completion event arrived with no open attempt to close.
    UnexpectedCompletion { name: String },
    /// A session stop marker arrived while attempts were still open (or
    /// the root itself was gone).
    UnbalancedStop { depth: usize },
}

/// The mathematical value of a [`TraceError`]. The syntax error's
/// position is a best-effort diagnostic and carries no meaning here.
pub enum TraceErrorView {
    Syntax { line: Seq<char> },
    RuleMismatch { expected: Seq<char>, found: Seq<char> },
    UnexpectedCompletion { name: Seq<char> },
    UnbalancedStop { depth: int },
}

impl View for TraceError {
    type V = TraceErrorView;

    open spec fn view(&self) -> TraceErrorView {
        match self {
            TraceError::Syntax { line, position } => TraceErrorView::Syntax { line: line@ },
            TraceError::RuleMismatch { expected, found } => TraceErrorView::RuleMismatch {
                expected: expected@,
                found: found@,
            },
            TraceError::UnexpectedCompletion { name } => TraceErrorView::UnexpectedCompletion {
                name: name@,
            },
            TraceError::UnbalancedStop { depth } => TraceErrorView::UnbalancedStop {
                depth: *depth as int,
            },
        }
    }
}

/// The node a fresh attempt opens: the event's rule, no children yet,
/// outcome still unknown.
pub open spec fn fresh_node(r: RuleView) -> NodeView {
    NodeView { rule: r, partial_match: false, state: State::Unknown, children: Seq::empty() }
}

/// Closing the innermost open node against a completion event for rule
/// `r`. The popped node's name must equal the event's; on success the
/// event's end location (even an absent one) replaces the node's, on
/// failure the node keeps what its attempt carried. The closed node is
/// appended to the children of the node below, which must exist.
pub open spec fn close_spec(stack: Seq<NodeView>, r: RuleView, success: bool) -> Result<
    Seq<NodeView>,
    TraceErrorView,
> {
    if stack.len() == 0 {
        Err(TraceErrorView::UnexpectedCompletion { name: r.name })
    } else {
        let top = stack.last();
        if top.rule.name != r.name {
            Err(TraceErrorView::RuleMismatch { expected: r.name, found: top.rule.name })
        } else if stack.len() == 1 {
            Err(TraceErrorView::UnexpectedCompletion { name: r.name })
        } else {
            let closed = NodeView {
                state: if success {
                    State::Success
                } else {
                    State::Failure
                },
                rule: RuleView {
                    next_loc: if success {
                        r.next_loc
                    } else {
                        top.rule.next_loc
                    },
                    ..top.rule
                },
                ..top
            };
            let parent = stack[stack.len() - 2];
            let parent2 = NodeView { children: parent.children.push(closed), ..parent };
            Ok(stack.take(stack.len() - 2).push(parent2))
        }
    }
}

/// One transition of the stack machine: an attempt pushes an open node,
/// a completion closes the innermost one, ancillary events change
/// nothing.
pub open spec fn step_spec(stack: Seq<NodeView>, ev: LineView) -> Result<
    Seq<NodeView>,
    TraceErrorView,
> {
    match ev {
        LineView::Attempt(r) => Ok(stack.push(fresh_node(r))),
        LineView::Success(r) => close_spec(stack, r, true),
        LineView::Failure(r) => close_spec(stack, r, false),
        LineView::Cache => Ok(stack),
        LineView::EnterLevel => Ok(stack),
        LineView::LeaveLevel => Ok(stack),
    }
}

/// Closes the innermost open node against a completion event.
fn close_event(stack: &mut Vec<Node>, rule: Rule, success: bool) -> (r: Result<(), TraceError>)
    ensures
        match r {
            Ok(u) => close_spec(stack_view(old(stack)@), rule@, success) == Ok::<Seq<NodeView>, TraceErrorView>(
                stack_view(final (stack)@),
            ),
            Err(e) => close_spec(stack_view(old(stack)@), rule@, success) == Err::<Seq<NodeView>, TraceErrorView>(e@) && final (
            stack)@ == old(stack)@,
        },
{
    let n = stack.len();
    if n == 0 {
        return Err(TraceError::UnexpectedCompletion { name: rule.name });
    }
    let same = str_eq(stack[n - 1].rule.name.as_str(), rule.name.as_str());
    if !same {
        let found = stack[n - 1].rule.name.clone();
        return Err(TraceError::RuleMismatch { expected: rule.name, found });
    }
    if n == 1 {
        return Err(TraceError::UnexpectedCompletion { name: rule.name });
    }
    let mut node = stack.pop().unwrap();
    let ghost top = node@;
    node.state = if success {
        State::Success
    } else {
        State::Failure
    };
    if success {
        node.rule.next_loc = rule.next_loc;
    }
    let mut parent = stack.pop().unwrap();
    let ghost parent0 = parent@;
    parent.children.push(node);
    proof {
        assert(parent@.children =~= parent0.children.push(node@));
        assert(parent@ == NodeView { children: parent0.children.push(node@), ..parent0 });
    }
    stack.push(parent);
    proof {
        let pre = stack_view(old(stack)@);
        let post = stack_view(final (stack)@);
        let expected = close_spec(pre, rule@, success)->Ok_0;
        assert(pre.last() == top);
        assert forall|j: int| 0 <= j < post.len() implies post[j] == expected[j] by {
            if j < n - 2 {
                assert(post[j] == old(stack)@[j]@);
                assert(expected[j] == pre.take(n - 2)[j]);
            }
        }
        assert(post =~= expected);
    }
    Ok(())
}

/// Applies one classified trace event to the stack of open nodes,
/// exactly as [`step_spec`] describes; on an error the stack is left
/// untouched.
pub fn apply_event(stack: &mut Vec<Node>, ev: Line) -> (r: Result<(), TraceError>)
    ensures
        match r {
            Ok(u) => step_spec(stack_view(old(stack)@), ev@) == Ok::<Seq<NodeView>, TraceErrorView>(
                stack_view(final (stack)@),
            ),
            Err(e) => step_spec(stack_view(old(stack)@), ev@) == Err::<Seq<NodeView>, TraceErrorView>(e@) && final (stack)@ == old(
                stack,
            )@,
        },
{
    match ev {
        Line::Attempt(rule) => {
            let node = Node {
                rule,
                state: State::Unknown,
                children: Vec::new(),
                partial_match: false,
            };
            let ghost nv = node@;
            stack.push(node);
            proof {
                assert(nv.children =~= Seq::<NodeView>::empty());
                assert(stack_view(final (stack)@) =~= stack_view(old(stack)@).push(nv));
            }
            Ok(())
        },
        Line::Success(rule) => close_event(stack, rule, true),
        Line::Failure(rule) => close_event(stack, rule, false),
        Line::Cache => Ok(()),
        Line::EnterLevel => Ok(()),
        Line::LeaveLevel => Ok(()),
    }
}

/// One reconstructed session: its call tree and the verbatim source text
/// it was matched against.
#[derive(Debug)]
pub struct Trace {
    pub root: Node,
    pub input: String,
}

/// The mathematical value of a [`Trace`].
#[verifier::ext_equal]
pub struct TraceView {
    pub root: NodeView,
    pub input: Seq<char>,
}

impl View for Trace {
    type V = TraceView;

    open spec fn view(&self) -> TraceView {
        TraceView { root: self.root@, input: self.input@ }
    }
}

/// Where in the stream framing the interpreter stands: before a session,
/// capturing source text, or reading trace events.
#[derive(Clone, Copy, Debug, PartialEq, Eq, Structural)]
pub enum ParseState {
    WaitingForInputStart,
    ReadingInput,
    ReadingTrace,
}

/// The session machine: consumes a stream of raw lines and accumulates
/// one [`Trace`] per `START`/`STOP` cycle. Sessions are independent; any
/// number may appear in one stream.
#[derive(Debug)]
pub struct Interpreter {
    pub state: ParseState,
    pub stack: Vec<Node>,
    pub input: String,
    pub trace_number: usize,
    pub traces: Vec<Trace>,
}

/// The mathematical value of an [`Interpreter`].
#[verifier::ext_equal]
pub struct InterpreterView {
    pub state: ParseState,
    pub stack: Seq<NodeView>,
    pub input: Seq<char>,
    pub trace_number: int,
    pub traces: Seq<TraceView>,
}

impl View for Interpreter {
    type V = InterpreterView;

    open spec fn view(&self) -> InterpreterView {
        InterpreterView {
            state: self.state,
            stack: stack_view(self.stack@),
            input: self.input@,
            trace_number: self.trace_number as int,
            traces: self.traces@.map_values(|t: Trace| t@),
        }
    }
}

/// The name of the synthetic root of the `n`-th session.
pub open spec fn root_name(n: int) -> Seq<char> {
    "Trace #"@ + dec_str(n)
}

/// The synthetic root pushed when the `n`-th session starts. Its state is
/// preset to `Success`, since the root is never matched against a
/// completion event; at the session stop it takes its first child's state.
pub open spec fn root_node(n: int) -> NodeView {
    NodeView {
        rule: RuleView {
            name: root_name(n),
            loc: Location::CharLocation(CharLocation { line: 0, column: 0 }),
            next_loc: None,
        },
        partial_match: false,
        state: State::Success,
        children: Seq::empty(),
    }
}

/// The interpreter before any line: waiting for an input-start delimiter,
/// with nothing captured and sessions numbered from one.
pub open spec fn initial_interp() -> InterpreterView {
    InterpreterView {
        state: ParseState::WaitingForInputStart,
        stack: Seq::empty(),
        input: Seq::empty(),
        trace_number: 1,
        traces: Seq::empty(),
    }
}

/// One line of the stream, interpreted against the current state.
///
/// Waiting: the input-start delimiter begins source-text capture with a
/// fresh buffer; any
/// other line is ignored. Capturing: the trace-start delimiter pushes the
/// session root and begins trace reading; any other line is captured
/// verbatim (with a newline). Reading: the stop delimiter requires the
/// stack to hold exactly the root, finalizes the root's state from its
/// first child (an empty session keeps the preset state), and files the
/// session away; any other line must classify as an event, which then
/// drives the stack machine. The session counter saturates at the machine
/// word's limit rather than wrap.
pub open spec fn interp_step(st: InterpreterView, line: Seq<char>) -> Result<
    InterpreterView,
    TraceErrorView,
> {
    match st.state {
        ParseState::WaitingForInputStart => {
            if line == "[PEG_INPUT_START]"@ {
                Ok(
                    InterpreterView {
                        state: ParseState::ReadingInput,
                        input: Seq::empty(),
                        ..st
                    },
                )
            } else {
                Ok(st)
            }
        },
        ParseState::ReadingInput => {
            if line == "[PEG_TRACE_START]"@ {
                Ok(
                    InterpreterView {
                        state: ParseState::ReadingTrace,
                        stack: st.stack.push(root_node(st.trace_number)),
                        trace_number: if st.trace_number < usize::MAX as int {
                            st.trace_number + 1
                        } else {
                            st.trace_number
                        },
                        ..st
                    },
                )
            } else {
                Ok(InterpreterView { input: st.input + line + seq!['\n'], ..st })
            }
        },
        ParseState::ReadingTrace => {
            if line == "[PEG_TRACE_STOP]"@ {
                if st.stack.len() != 1 {
                    Err(TraceErrorView::UnbalancedStop { depth: st.stack.len() as int })
                } else {
                    let root = st.stack[0];
                    let root2 = NodeView {
                        state: if root.children.len() > 0 {
                            root.children[0].state
                        } else {
                            root.state
                        },
                        ..root
                    };
                    Ok(
                        InterpreterView {
                            state: ParseState::WaitingForInputStart,
                            stack: Seq::empty(),
                            input: Seq::empty(),
                            traces: st.traces.push(TraceView { root: root2, input: st.input }),
                            ..st
                        },
                    )
                }
            } else {
                match spec_parse_line(line) {
                    None => Err(TraceErrorView::Syntax { line: line }),
                    Some(ev) => match step_spec(st.stack, ev) {
                        Ok(stack2) => Ok(InterpreterView { stack: stack2, ..st }),
                        Err(e) => Err(e),
                    },
                }
            }
        },
    }
}

impl Interpreter {
    /// An interpreter with nothing consumed yet.
    pub fn new() -> (r: Interpreter)
        ensures
            r@ == initial_interp(),
    {
        let r = Interpreter {
            state: ParseState::WaitingForInputStart,
            stack: Vec::new(),
            input: String::new(),
            trace_number: 1,
            traces: Vec::new(),
        };
        proof {
            assert(r@ =~= initial_interp());
        }
        r
    }

    /// Consumes one raw line of the stream, exactly as [`interp_step`]
    /// describes; on an error the interpreter is left untouched.
    pub fn feed_line(&mut self, line: &str) -> (r: Result<(), TraceError>)
        ensures
            match r {
                Ok(u) => interp_step(old(self)@, line@) == Ok::<InterpreterView, TraceErrorView>(
                    final (self)@,
                ),
                Err(e) => interp_step(old(self)@, line@) == Err::<InterpreterView, TraceErrorView>(
                    e@,
                ) && final (self)@ == old(self)@,
            },
    {
        match self.state {
            ParseState::WaitingForInputStart => {
                if str_eq(line, "[PEG_INPUT_START]") {
                    self.state = ParseState::ReadingInput;
                    self.input = String::new();
                }
                proof {
                    assert(final (self)@ =~= interp_step(old(self)@, line@)->Ok_0);
                }
                Ok(())
            },
            ParseState::ReadingInput => {
                if str_eq(line, "[PEG_TRACE_START]") {
                    let name = trace_root_name(self.trace_number);
                    let node = Node {
                        rule: Rule {
                            name,
                            loc: Location::CharLocation(CharLocation { line: 0, column: 0 }),
                            next_loc: None,
                        },
                        partial_match: false,
                        state: State::Success,
                        children: Vec::new(),
                    };
                    let ghost nv = node@;
                    self.stack.push(node);
                    if self.trace_number < usize::MAX {
                        self.trace_number = self.trace_number + 1;
                    }
                    self.state = ParseState::ReadingTrace;
                    proof {
                        let rn = root_node(old(self)@.trace_number);
                        assert(nv.children =~= rn.children);
                        assert(nv.rule.name == rn.rule.name);
                        assert(nv.rule =~= rn.rule);
                        assert(nv =~= rn);
                        assert(stack_view(final (self).stack@) =~= stack_view(
                            old(self).stack@,
                        ).push(nv));
                        assert(final (self)@ =~= interp_step(old(self)@, line@)->Ok_0);
                    }
                    Ok(())
                } else {
                    self.input.append(line);
                    self.input.append("\n");
                    proof {
                        reveal_strlit("\n");
                        assert("\n"@ =~= seq!['\n']);
                        assert(final (self)@ =~= interp_step(old(self)@, line@)->Ok_0);
                    }
                    Ok(())
                }
            },
            ParseState::ReadingTrace => {
                if str_eq(line, "[PEG_TRACE_STOP]") {
                    if self.stack.len() != 1 {
                        return Err(TraceError::UnbalancedStop { depth: self.stack.len() });
                    }
                    let mut root = self.stack.pop().unwrap();
                    let ghost r0 = root@;
                    if root.children.len() > 0 {
                        let st0 = root.children[0].state;
                        proof {
                            assert(r0.children[0] == root.children@[0]@);
                            assert(st0 == r0.children[0].state);
                        }
                        root.state = st0;
                    }
                    proof {
                        assert(root@.children =~= r0.children);
                    }
                    let text = self.input.clone();
                    self.input = String::new();
                    self.traces.push(Trace { root, input: text });
                    self.state = ParseState::WaitingForInputStart;
                    proof {
                        assert(stack_view(final (self).stack@) =~= Seq::<NodeView>::empty());
                        let st0 = old(self)@;
                        let rspec = st0.stack[0];
                        let root2 = NodeView {
                            state: if rspec.children.len() > 0 {
                                rspec.children[0].state
                            } else {
                                rspec.state
                            },
                            ..rspec
                        };
                        assert(rspec == r0);
                        assert(root@.state == root2.state);
                        assert(root@ =~= root2);
                        let tv = TraceView { root: root@, input: text@ };
                        assert(tv =~= TraceView { root: root2, input: st0.input });
                        assert(final (self)@.traces =~= st0.traces.push(tv));
                        assert(final (self)@.traces =~= interp_step(
                            old(self)@,
                            line@,
                        )->Ok_0.traces);
                        assert(final (self)@ =~= interp_step(old(self)@, line@)->Ok_0);
                    }
                    Ok(())
                } else {
                    match crate::tracer::line(line) {
                        Err(e) => Err(
                            TraceError::Syntax { line: line.to_owned(), position: e.position },
                        ),
                        Ok(ev) => {
                            match apply_event(&mut self.stack, ev) {
                                Ok(u) => {
                                    proof {
                                        assert(final (self)@ =~= interp_step(
                                            old(self)@,
                                            line@,
                                        )->Ok_0);
                                    }
                                    Ok(())
                                },
                                Err(e) => {
                                    proof {
                                        assert(final (self)@ =~= old(self)@);
                                    }
                                    Err(e)
                                },
                            }
                        },
                    }
                }
            },
        }
    }

    /// Hands back the completed sessions, in the order their stop
    /// delimiters arrived. A session still open is discarded, as the
    /// stream ended before its stop delimiter.
    pub fn finish(self) -> (r: Vec<Trace>)
        ensures
            r@.map_values(|t: Trace| t@) == self@.traces,
    {
        let Interpreter { traces, .. } = self;
        traces
    }
}

/// The root name of the `n`-th session, rendered.
fn trace_root_name(n: usize) -> (s: String)
    ensures
        s@ == root_name(n as int),
{
    let mut s = "Trace #".to_owned();
    let digits = to_decimal(n);
    s.append(digits.as_str());
    s
}

/// The stack after a sequence of events, applied in order; an error stops
/// the run.
pub open spec fn run_steps(stack: Seq<NodeView>, evs: Seq<LineView>) -> Result<
    Seq<NodeView>,
    TraceErrorView,
>
    decreases evs.len(),
{
    if evs.len() == 0 {
        Ok(stack)
    } else {
        match step_spec(stack, evs[0]) {
            Ok(s2) => run_steps(s2, evs.drop_first()),
            Err(e) => Err(e),
        }
    }
}

/// How many events of `evs` are attempts.
pub open spec fn count_attempts(evs: Seq<LineView>) -> int
    decreases evs.len(),
{
    if evs.len() == 0 {
        0
    } else {
        (if evs[0] is Attempt {
            1int
        } else {
            0int
        }) + count_attempts(evs.drop_first())
    }
}

/// How many events of `evs` are completions (successes or failures).
pub open spec fn count_completions(evs: Seq<LineView>) -> int
    decreases evs.len(),
{
    if evs.len() == 0 {
        0
    } else {
        (if evs[0] is Success || evs[0] is Failure {
            1int
        } else {
            0int
        }) + count_completions(evs.drop_first())
    }
}

/// Each attempt deepens the stack by one, each completion shallows it by
/// one, and nothing else moves it: after any successful run, the depth has
/// changed by exactly the number of attempts less the number of
/// completions.
pub proof fn lemma_depth_tracks_events(stack: Seq<NodeView>, evs: Seq<LineView>)
    requires
        run_steps(stack, evs) is Ok,
    ensures
        run_steps(stack, evs)->Ok_0.len() == stack.len() + count_attempts(evs)
            - count_completions(evs),
    decreases evs.len(),
{
    if evs.len() > 0 {
        let s2 = step_spec(stack, evs[0])->Ok_0;
        lemma_depth_tracks_events(s2, evs.drop_first());
    }
}

/// In a well-formed session — the stack holds exactly the root when the
/// stop delimiter arrives, as it did when the session started — the number
/// of attempt events equals the number of completion events.
pub proof fn lemma_session_balance(root: NodeView, evs: Seq<LineView>)
    requires
        run_steps(seq![root], evs) matches Ok(s) && s.len() == 1,
    ensures
        count_attempts(evs) == count_completions(evs),
{
    lemma_depth_tracks_events(seq![root], evs);
}

/// `longer` extends `shorter` without disturbing it: everything once in
/// `shorter` is still there, at its index.
pub open spec fn extends(shorter: Seq<NodeView>, longer: Seq<NodeView>) -> bool {
    shorter.len() <= longer.len() && longer.take(shorter.len() as int) == shorter
}

/// Children are only ever appended: a run of events never removes or
/// reorders the children a node already has — it can only add to their
/// end. In particular the root's children stay in the temporal order in
/// which their attempts were opened, failed attempts included; the root's
/// own rule is never touched.
pub proof fn lemma_run_appends_root_children(stack: Seq<NodeView>, evs: Seq<LineView>)
    requires
        run_steps(stack, evs) is Ok,
        stack.len() >= 1,
    ensures
        run_steps(stack, evs)->Ok_0.len() >= 1,
        extends(stack[0].children, run_steps(stack, evs)->Ok_0[0].children),
        run_steps(stack, evs)->Ok_0[0].rule == stack[0].rule,
    decreases evs.len(),
{
    if evs.len() > 0 {
        let s2 = step_spec(stack, evs[0])->Ok_0;
        assert(s2.len() >= 1 && extends(stack[0].children, s2[0].children) && s2[0].rule
            == stack[0].rule) by {
            match evs[0] {
                LineView::Attempt(r) => {
                    assert(s2[0] == stack[0]);
                    assert(stack[0].children.take(stack[0].children.len() as int) =~= stack[0].children);
                },
                LineView::Success(r) => {
                    lemma_close_appends(stack, r, true);
                    if stack.len() > 2 {
                        assert(s2[0] == stack[0]);
                        assert(stack[0].children.take(stack[0].children.len() as int)
                            =~= stack[0].children);
                    }
                },
                LineView::Failure(r) => {
                    lemma_close_appends(stack, r, false);
                    if stack.len() > 2 {
                        assert(s2[0] == stack[0]);
                        assert(stack[0].children.take(stack[0].children.len() as int)
                            =~= stack[0].children);
                    }
                },
                _ => {
                    assert(s2 == stack);
                    assert(stack[0].children.take(stack[0].children.len() as int) =~= stack[0].children);
                },
            }
        }
        lemma_run_appends_root_children(s2, evs.drop_first());
        let s3 = run_steps(stack, evs)->Ok_0;
        assert(extends(stack[0].children, s3[0].children)) by {
            assert(s3[0].children.take(s2[0].children.len() as int) == s2[0].children);
            assert(s3[0].children.take(stack[0].children.len() as int) =~= s2[0].children.take(
                stack[0].children.len() as int,
            ));
        }
    } else {
        assert(stack[0].children.take(stack[0].children.len() as int) =~= stack[0].children);
    }
}

/// One completion appends exactly the closed node to the parent's
/// children and leaves every other stack entry untouched.
proof fn lemma_close_appends(stack: Seq<NodeView>, r: RuleView, success: bool)
    requires
        close_spec(stack, r, success) is Ok,
    ensures
        ({
            let s2 = close_spec(stack, r, success)->Ok_0;
            &&& stack.len() >= 2 && s2.len() == stack.len() - 1
            &&& forall|j: int| 0 <= j < stack.len() - 2 ==> s2[j] == stack[j]
            &&& s2[stack.len() - 2].children.len() == stack[stack.len() - 2].children.len() + 1
            &&& extends(stack[stack.len() - 2].children, s2[stack.len() - 2].children)
            &&& s2[stack.len() - 2].rule == stack[stack.len() - 2].rule
        }),
{
    let s2 = close_spec(stack, r, success)->Ok_0;
    let parent = stack[stack.len() - 2];
    assert(s2[stack.len() - 2].children.take(parent.children.len() as int) =~= parent.children);
}

} // verus!
