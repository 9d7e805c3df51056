use pegviz::location::CharLocation;
use pegviz::location::Location;
use pegviz::location::TokenIndex;
use pegviz::tracer::Line;
use pegviz::tree::Rule;

fn char_loc(l: usize, c: usize) -> Location {
    Location::CharLocation(CharLocation { line: l, column: c })
}

fn tok_loc(i: usize) -> Location {
    Location::TokenIndex(TokenIndex { index: i })
}

#[test]
fn char_location_order() {
    let a = char_loc(1, 5);
    let b = char_loc(2, 1);
    assert!(a.lt(&b));
    assert!(!b.lt(&a));
    let c = char_loc(3, 2);
    let d = char_loc(3, 9);
    assert!(c.lt(&d));
    assert!(!d.lt(&c));
    assert!(!c.lt(&c));
    assert_eq!(
        CharLocation { line: 1, column: 5 }.cmp(&CharLocation { line: 2, column: 1 }),
        std::cmp::Ordering::Less
    );
    assert_eq!(
        CharLocation { line: 3, column: 9 }.cmp(&CharLocation { line: 3, column: 2 }),
        std::cmp::Ordering::Greater
    );
}

#[test]
fn token_index_order() {
    assert!(tok_loc(4).lt(&tok_loc(5)));
    assert!(!tok_loc(5).lt(&tok_loc(4)));
    assert!(!tok_loc(4).lt(&tok_loc(4)));
}

#[test]
fn attempt_line_with_pos_suffix() {
    let r = pegviz::tracer::line("[PEG_TRACE] Attempting to match rule Foo at 1:1 (pos 0)").unwrap();
    match r {
        Line::Attempt(rule) => {
            assert_eq!(rule.name, "Foo");
            assert_eq!(rule.loc, char_loc(1, 1));
            assert_eq!(rule.next_loc, None);
        }
        _ => panic!("expected an attempt event"),
    }
}

#[test]
fn matched_line_with_range() {
    let r = pegviz::tracer::line("[PEG_TRACE] Matched rule Bar at 1:1 to 1:2").unwrap();
    match r {
        Line::Success(rule) => {
            assert_eq!(rule.name, "Bar");
            assert_eq!(rule.loc, char_loc(1, 1));
            assert_eq!(rule.next_loc, Some(char_loc(1, 2)));
        }
        _ => panic!("expected a success event"),
    }
}

#[test]
fn failed_line() {
    let r = pegviz::tracer::line("[PEG_TRACE] Failed to match rule Foo at 2:7").unwrap();
    match r {
        Line::Failure(rule) => {
            assert_eq!(rule.name, "Foo");
            assert_eq!(rule.loc, char_loc(2, 7));
            assert_eq!(rule.next_loc, None);
        }
        _ => panic!("expected a failure event"),
    }
}

#[test]
fn backquoted_name_and_token_index() {
    let r = pegviz::tracer::line("[PEG_TRACE] Attempting to match rule `lit_3` at 5").unwrap();
    match r {
        Line::Attempt(rule) => {
            assert_eq!(rule.name, "lit_3");
            assert_eq!(rule.loc, tok_loc(5));
            assert_eq!(rule.next_loc, None);
        }
        _ => panic!("expected an attempt event"),
    }
}

#[test]
fn token_index_range() {
    let r = pegviz::tracer::line("[PEG_TRACE] Matched rule W at 3 to 7").unwrap();
    match r {
        Line::Success(rule) => {
            assert_eq!(rule.loc, tok_loc(3));
            assert_eq!(rule.next_loc, Some(tok_loc(7)));
        }
        _ => panic!("expected a success event"),
    }
}

#[test]
fn empty_rule_name() {
    let r = pegviz::tracer::line("[PEG_TRACE] Matched rule  at 1:1").unwrap();
    match r {
        Line::Success(rule) => assert_eq!(rule.name, ""),
        _ => panic!("expected a success event"),
    }
}

#[test]
fn cache_and_level_lines() {
    assert!(matches!(
        pegviz::tracer::line("[PEG_TRACE] Cached match of rule expr anything goes here").unwrap(),
        Line::Cache
    ));
    assert!(matches!(
        pegviz::tracer::line("[PEG_TRACE] Cached fail of rule expr").unwrap(),
        Line::Cache
    ));
    assert!(matches!(
        pegviz::tracer::line("[PEG_TRACE] Entering level 2").unwrap(),
        Line::EnterLevel
    ));
    assert!(matches!(
        pegviz::tracer::line("[PEG_TRACE] Leaving level 2").unwrap(),
        Line::LeaveLevel
    ));
}

#[test]
fn unrecognized_lines_fail() {
    assert!(pegviz::tracer::line("Attempting to match rule Foo at 1:1").is_err());
    assert!(pegviz::tracer::line("[PEG_TRACE] Bogus line").is_err());
    assert!(pegviz::tracer::line("[PEG_TRACE] Matched rule Foo at").is_err());
    assert!(pegviz::tracer::line("[PEG_TRACE] Matched rule Foo at 1:1 garbage").is_err());
    assert!(pegviz::tracer::line("[PEG_TRACE] Matched rule `Foo at 1:1").is_err());
    assert!(pegviz::tracer::line("[PEG_TRACE] Cached miss of rule x").is_err());
    assert!(pegviz::tracer::line("").is_err());
}

#[test]
fn numbers_too_large_are_rejected() {
    assert!(pegviz::tracer::line("[PEG_TRACE] Matched rule F at 99999999999999999999999999:1").is_err());
}

#[test]
fn char_location_pos_scans_lines() {
    let input = "ab\ncd";
    assert_eq!(CharLocation { line: 1, column: 1 }.pos(input), 0);
    assert_eq!(CharLocation { line: 1, column: 2 }.pos(input), 1);
    assert_eq!(CharLocation { line: 2, column: 1 }.pos(input), 3);
    assert_eq!(CharLocation { line: 2, column: 2 }.pos(input), 4);
    assert_eq!(CharLocation { line: 9, column: 9 }.pos(input), 0);
    assert_eq!(CharLocation { line: 1, column: 1 }.pos(""), 0);
}

#[test]
fn token_index_pos_finds_line_starts() {
    let input = "ab\ncd\ne";
    assert_eq!(TokenIndex { index: 0 }.pos(input), 0);
    assert_eq!(TokenIndex { index: 1 }.pos(input), 3);
    assert_eq!(TokenIndex { index: 2 }.pos(input), 6);
    assert_eq!(TokenIndex { index: 7 }.pos(input), 0);
}

#[test]
fn location_pos_dispatches() {
    let input = "ab\ncd";
    assert_eq!(char_loc(2, 1).pos(input), 3);
    assert_eq!(tok_loc(1).pos(input), 3);
}

#[test]
fn zero_length_rules() {
    let zero = Rule {
        name: String::from("a"),
        loc: char_loc(1, 2),
        next_loc: None,
    };
    assert!(zero.is_zero_len());
    let same = Rule {
        name: String::from("b"),
        loc: char_loc(1, 2),
        next_loc: Some(char_loc(1, 2)),
    };
    assert!(same.is_zero_len());
    let back = Rule {
        name: String::from("c"),
        loc: char_loc(1, 2),
        next_loc: Some(char_loc(1, 1)),
    };
    assert!(back.is_zero_len());
    let fwd = Rule {
        name: String::from("d"),
        loc: char_loc(1, 2),
        next_loc: Some(char_loc(1, 3)),
    };
    assert!(!fwd.is_zero_len());
}
