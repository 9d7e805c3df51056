use pegviz::backfill::backfill_next_loc;
use pegviz::builder::apply_event;
use pegviz::builder::Interpreter;
use pegviz::builder::Trace;
use pegviz::builder::TraceError;
use pegviz::classify::mark_partial_matches;
use pegviz::filter::Args;
use pegviz::location::CharLocation;
use pegviz::location::Location;
use pegviz::render::visit;
use pegviz::text::to_decimal;
use pegviz::tracer::Line;
use pegviz::tree::Node;
use pegviz::tree::Rule;
use pegviz::tree::State;

fn char_loc(l: usize, c: usize) -> Location {
    Location::CharLocation(CharLocation { line: l, column: c })
}

fn node(name: &str, loc: Location, next_loc: Option<Location>, state: State) -> Node {
    Node {
        rule: Rule {
            name: String::from(name),
            loc,
            next_loc,
        },
        partial_match: false,
        state,
        children: Vec::new(),
    }
}

fn run_lines(lines: &[&str]) -> Vec<Trace> {
    let mut interp = Interpreter::new();
    for l in lines {
        interp.feed_line(l).unwrap();
    }
    interp.finish()
}

#[test]
fn decimal_rendering() {
    assert_eq!(to_decimal(0), "0");
    assert_eq!(to_decimal(7), "7");
    assert_eq!(to_decimal(10), "10");
    assert_eq!(to_decimal(12345), "12345");
}

#[test]
fn end_to_end_nested_success() {
    let traces = run_lines(&[
        "[PEG_INPUT_START]",
        "abc",
        "[PEG_TRACE_START]",
        "[PEG_TRACE] Attempting to match rule Foo at 1:1 (pos 0)",
        "[PEG_TRACE] Attempting to match rule Bar at 1:1 (pos 0)",
        "[PEG_TRACE] Matched rule Bar at 1:1 to 1:2",
        "[PEG_TRACE] Matched rule Foo at 1:1 to 1:2",
        "[PEG_TRACE_STOP]",
    ]);
    assert_eq!(traces.len(), 1);
    let trace = &traces[0];
    assert_eq!(trace.input, "abc\n");
    let root = &trace.root;
    assert_eq!(root.rule.name, "Trace #1");
    assert!(matches!(root.state, State::Success));
    assert_eq!(root.children.len(), 1);
    let foo = &root.children[0];
    assert_eq!(foo.rule.name, "Foo");
    assert!(matches!(foo.state, State::Success));
    assert_eq!(foo.rule.loc, char_loc(1, 1));
    assert_eq!(foo.rule.next_loc, Some(char_loc(1, 2)));
    assert_eq!(foo.children.len(), 1);
    let bar = &foo.children[0];
    assert_eq!(bar.rule.name, "Bar");
    assert!(matches!(bar.state, State::Success));
    assert_eq!(bar.rule.loc, char_loc(1, 1));
    assert_eq!(bar.rule.next_loc, Some(char_loc(1, 2)));
    assert!(!bar.rule.is_zero_len());
    assert!(!foo.rule.is_zero_len());

    let mut interp = Interpreter::new();
    for l in [
        "[PEG_INPUT_START]",
        "abc",
        "[PEG_TRACE_START]",
        "[PEG_TRACE] Attempting to match rule Foo at 1:1 (pos 0)",
        "[PEG_TRACE] Attempting to match rule Bar at 1:1 (pos 0)",
        "[PEG_TRACE] Matched rule Bar at 1:1 to 1:2",
        "[PEG_TRACE] Matched rule Foo at 1:1 to 1:2",
        "[PEG_TRACE_STOP]",
    ] {
        interp.feed_line(l).unwrap();
    }
    let mut traces = interp.finish();
    let trace = traces.pop().unwrap();
    let root = backfill_next_loc(trace.root, None);
    let root = mark_partial_matches(root);
    assert!(root.children[0].partial_match);
    assert!(root.children[0].children[0].partial_match);
}

#[test]
fn failed_attempt_is_retained_in_order() {
    let traces = run_lines(&[
        "[PEG_INPUT_START]",
        "ab",
        "[PEG_TRACE_START]",
        "[PEG_TRACE] Attempting to match rule Top at 1:1 (pos 0)",
        "[PEG_TRACE] Attempting to match rule Alt1 at 1:1 (pos 0)",
        "[PEG_TRACE] Failed to match rule Alt1 at 1:1",
        "[PEG_TRACE] Attempting to match rule Alt2 at 1:1 (pos 0)",
        "[PEG_TRACE] Matched rule Alt2 at 1:1 to 1:3",
        "[PEG_TRACE] Matched rule Top at 1:1 to 1:3",
        "[PEG_TRACE_STOP]",
    ]);
    assert_eq!(traces.len(), 1);
    let top = &traces[0].root.children[0];
    assert_eq!(top.children.len(), 2);
    assert_eq!(top.children[0].rule.name, "Alt1");
    assert!(matches!(top.children[0].state, State::Failure));
    assert_eq!(top.children[1].rule.name, "Alt2");
    assert!(matches!(top.children[1].state, State::Success));
}

#[test]
fn sessions_are_independent() {
    let traces = run_lines(&[
        "noise before",
        "[PEG_INPUT_START]",
        "one",
        "[PEG_TRACE_START]",
        "[PEG_TRACE] Attempting to match rule A at 1:1 (pos 0)",
        "[PEG_TRACE] Matched rule A at 1:1 to 1:2",
        "[PEG_TRACE_STOP]",
        "noise between",
        "[PEG_INPUT_START]",
        "two",
        "[PEG_TRACE_START]",
        "[PEG_TRACE] Attempting to match rule B at 1:1 (pos 0)",
        "[PEG_TRACE] Failed to match rule B at 1:1",
        "[PEG_TRACE_STOP]",
    ]);
    assert_eq!(traces.len(), 2);
    assert_eq!(traces[0].root.rule.name, "Trace #1");
    assert_eq!(traces[0].input, "one\n");
    assert!(matches!(traces[0].root.state, State::Success));
    assert_eq!(traces[1].root.rule.name, "Trace #2");
    assert_eq!(traces[1].input, "two\n");
    assert!(matches!(traces[1].root.state, State::Failure));
}

#[test]
fn cache_and_level_lines_do_not_change_the_tree() {
    let traces = run_lines(&[
        "[PEG_INPUT_START]",
        "x",
        "[PEG_TRACE_START]",
        "[PEG_TRACE] Entering level 1",
        "[PEG_TRACE] Attempting to match rule A at 1:1 (pos 0)",
        "[PEG_TRACE] Cached match of rule B",
        "[PEG_TRACE] Matched rule A at 1:1 to 1:2",
        "[PEG_TRACE] Leaving level 1",
        "[PEG_TRACE_STOP]",
    ]);
    assert_eq!(traces[0].root.children.len(), 1);
    assert_eq!(traces[0].root.children[0].children.len(), 0);
}

#[test]
fn empty_stream_yields_no_traces() {
    let interp = Interpreter::new();
    assert!(interp.finish().is_empty());
    let traces = run_lines(&["some noise", "more noise"]);
    assert!(traces.is_empty());
}

#[test]
fn empty_session_keeps_preset_root_state() {
    let traces = run_lines(&[
        "[PEG_INPUT_START]",
        "first line",
        "second line",
        "[PEG_TRACE_START]",
        "[PEG_TRACE_STOP]",
    ]);
    assert_eq!(traces.len(), 1);
    assert_eq!(traces[0].input, "first line\nsecond line\n");
    assert!(traces[0].root.children.is_empty());
    assert!(matches!(traces[0].root.state, State::Success));
}

#[test]
fn success_event_replaces_end_location() {
    let mut stack = vec![node("root", char_loc(0, 0), None, State::Success)];
    apply_event(
        &mut stack,
        Line::Attempt(Rule {
            name: String::from("A"),
            loc: char_loc(1, 1),
            next_loc: Some(char_loc(1, 5)),
        }),
    )
    .unwrap();
    apply_event(
        &mut stack,
        Line::Success(Rule {
            name: String::from("A"),
            loc: char_loc(1, 1),
            next_loc: None,
        }),
    )
    .unwrap();
    assert_eq!(stack[0].children[0].rule.next_loc, None);

    apply_event(
        &mut stack,
        Line::Attempt(Rule {
            name: String::from("B"),
            loc: char_loc(1, 1),
            next_loc: Some(char_loc(1, 5)),
        }),
    )
    .unwrap();
    apply_event(
        &mut stack,
        Line::Failure(Rule {
            name: String::from("B"),
            loc: char_loc(1, 1),
            next_loc: None,
        }),
    )
    .unwrap();
    assert_eq!(stack[0].children[1].rule.next_loc, Some(char_loc(1, 5)));
}

#[test]
fn rule_mismatch_is_fatal() {
    let mut interp = Interpreter::new();
    for l in [
        "[PEG_INPUT_START]",
        "x",
        "[PEG_TRACE_START]",
        "[PEG_TRACE] Attempting to match rule A at 1:1 (pos 0)",
    ] {
        interp.feed_line(l).unwrap();
    }
    let err = interp
        .feed_line("[PEG_TRACE] Matched rule B at 1:1 to 1:2")
        .unwrap_err();
    match err {
        TraceError::RuleMismatch { expected, found } => {
            assert_eq!(expected, "B");
            assert_eq!(found, "A");
        }
        _ => panic!("expected a rule mismatch"),
    }
}

#[test]
fn syntax_error_is_fatal_and_names_the_line() {
    let mut interp = Interpreter::new();
    for l in ["[PEG_INPUT_START]", "x", "[PEG_TRACE_START]"] {
        interp.feed_line(l).unwrap();
    }
    let err = interp.feed_line("this is not a trace line").unwrap_err();
    match err {
        TraceError::Syntax { line, position } => {
            assert_eq!(line, "this is not a trace line");
            assert!(position <= line.len());
        }
        _ => panic!("expected a syntax error"),
    }
}

#[test]
fn unbalanced_stop_is_fatal() {
    let mut interp = Interpreter::new();
    for l in [
        "[PEG_INPUT_START]",
        "x",
        "[PEG_TRACE_START]",
        "[PEG_TRACE] Attempting to match rule A at 1:1 (pos 0)",
    ] {
        interp.feed_line(l).unwrap();
    }
    let err = interp.feed_line("[PEG_TRACE_STOP]").unwrap_err();
    match err {
        TraceError::UnbalancedStop { depth } => assert_eq!(depth, 2),
        _ => panic!("expected an unbalanced stop"),
    }
}

#[test]
fn completion_with_nothing_open_is_fatal() {
    let mut stack = vec![node("Trace #1", char_loc(0, 0), None, State::Success)];
    let ev = Line::Success(Rule {
        name: String::from("Trace #1"),
        loc: char_loc(1, 1),
        next_loc: None,
    });
    let err = apply_event(&mut stack, ev).unwrap_err();
    assert!(matches!(err, TraceError::UnexpectedCompletion { .. }));
    assert_eq!(stack.len(), 1);
}

#[test]
fn apply_event_pushes_and_closes() {
    let mut stack = vec![node("root", char_loc(0, 0), None, State::Success)];
    apply_event(
        &mut stack,
        Line::Attempt(Rule {
            name: String::from("A"),
            loc: char_loc(1, 1),
            next_loc: None,
        }),
    )
    .unwrap();
    assert_eq!(stack.len(), 2);
    assert!(matches!(stack[1].state, State::Unknown));
    apply_event(
        &mut stack,
        Line::Failure(Rule {
            name: String::from("A"),
            loc: char_loc(1, 1),
            next_loc: None,
        }),
    )
    .unwrap();
    assert_eq!(stack.len(), 1);
    assert_eq!(stack[0].children.len(), 1);
    assert!(matches!(stack[0].children[0].state, State::Failure));
}

#[test]
fn backfill_takes_next_sibling_start() {
    let mut parent = node("p", char_loc(1, 1), None, State::Success);
    parent.children.push(node("a", char_loc(1, 1), None, State::Success));
    parent.children.push(node("b", char_loc(1, 4), None, State::Success));
    let filled = backfill_next_loc(parent, None);
    assert_eq!(filled.children[0].rule.next_loc, Some(char_loc(1, 4)));
    assert_eq!(filled.children[1].rule.next_loc, None);
}

#[test]
fn backfill_uses_parent_boundary_for_last_child() {
    let mut parent = node("p", char_loc(1, 1), None, State::Success);
    parent.children.push(node("a", char_loc(1, 1), None, State::Success));
    let filled = backfill_next_loc(parent, Some(char_loc(2, 1)));
    assert_eq!(filled.children[0].rule.next_loc, Some(char_loc(2, 1)));
}

#[test]
fn backfill_never_overwrites_and_is_idempotent() {
    let mut parent = node("p", char_loc(1, 1), None, State::Success);
    let mut a = node("a", char_loc(1, 1), Some(char_loc(1, 2)), State::Success);
    a.children.push(node("inner", char_loc(1, 1), None, State::Success));
    parent.children.push(a);
    parent.children.push(node("b", char_loc(1, 4), None, State::Success));
    let once = backfill_next_loc(parent, None);
    assert_eq!(once.children[0].rule.next_loc, Some(char_loc(1, 2)));
    assert_eq!(once.children[0].children[0].rule.next_loc, Some(char_loc(1, 4)));
    let twice = backfill_next_loc(once, None);
    assert_eq!(twice.children[0].rule.next_loc, Some(char_loc(1, 2)));
    assert_eq!(twice.children[0].children[0].rule.next_loc, Some(char_loc(1, 4)));
    assert_eq!(twice.children[1].rule.next_loc, None);
}

#[test]
fn partial_match_marks_progress_and_propagates() {
    let mut top = node("t", char_loc(1, 1), Some(char_loc(1, 1)), State::Success);
    let mut mid = node("m", char_loc(1, 1), None, State::Unknown);
    mid.children.push(node(
        "leaf",
        char_loc(1, 1),
        Some(char_loc(1, 3)),
        State::Success,
    ));
    top.children.push(mid);
    let marked = mark_partial_matches(top);
    assert!(marked.children[0].children[0].partial_match);
    assert!(marked.children[0].partial_match);
    assert!(marked.partial_match);
}

#[test]
fn zero_length_success_alone_is_no_progress() {
    let lone = node("z", char_loc(1, 1), Some(char_loc(1, 1)), State::Success);
    let marked = mark_partial_matches(lone);
    assert!(!marked.partial_match);
    let absent = node("z", char_loc(1, 1), None, State::Success);
    assert!(!mark_partial_matches(absent).partial_match);
    let failed = node("z", char_loc(1, 1), Some(char_loc(1, 5)), State::Failure);
    assert!(!mark_partial_matches(failed).partial_match);
}

#[test]
fn filters_match_names_and_shapes() {
    let args = Args {
        flatten: vec![String::from("wrap")],
        hide: vec![String::from("ws")],
    };
    let mut wrap = node("wrap", char_loc(1, 1), None, State::Success);
    wrap.children.push(node("inner", char_loc(1, 1), None, State::Success));
    assert!(args.should_flatten(&wrap));
    wrap.children.push(node("inner2", char_loc(1, 1), None, State::Success));
    assert!(!args.should_flatten(&wrap));
    assert!(args.should_hide(&node("ws", char_loc(1, 1), None, State::Success)));
    assert!(!args.should_hide(&wrap));
}

#[test]
fn visit_renders_one_node() {
    let mut n = node(
        "X",
        char_loc(1, 1),
        Some(char_loc(1, 2)),
        State::Success,
    );
    n.partial_match = true;
    let args = Args {
        flatten: Vec::new(),
        hide: Vec::new(),
    };
    let mut out = String::new();
    visit(&mut out, &args, &n, "abc");
    assert_eq!(
        out,
        "<details><summary><span class=\"rule success partial-match\">X</span>\
         <code><em></em><strong>a</strong><span>bc</span></code></summary>\n</details>\n"
    );
}

#[test]
fn visit_flattens_hides_and_marks_backtrack() {
    let mut wrap = node("wrap", char_loc(1, 1), None, State::Unknown);
    let mut inner = node("inner", char_loc(1, 3), Some(char_loc(1, 1)), State::Failure);
    inner
        .children
        .push(node("ws", char_loc(1, 1), None, State::Success));
    wrap.children.push(inner);
    let args = Args {
        flatten: vec![String::from("wrap")],
        hide: vec![String::from("ws")],
    };
    let mut out = String::new();
    visit(&mut out, &args, &wrap, "abc");
    assert_eq!(
        out,
        "<details><summary><span class=\"rule failure \">inner</span>\
         <code><em>ab</em>\u{21a9}<span>abc</span></code></summary>\n</details>\n"
    );
    assert_eq!(wrap.children.len(), 1);
    assert!(matches!(wrap.children[0].state, State::Failure));
    let plain = Args {
        flatten: Vec::new(),
        hide: Vec::new(),
    };
    let mut full = String::new();
    visit(&mut full, &plain, &wrap, "abc");
    assert!(full.contains("wrap"));
    assert!(full.contains("ws"));
}
