//! The trace line grammar.
//!
//! One line of a trace is classified into a typed event: a rule was
//! attempted, matched or failed (each carrying the rule's name and
//! location data), or an ancillary marker (a cache hit, a trace level
//! entered or left) whose content is discarded. The grammar dispatches on
//! a fixed set of line prefixes, first match wins; a line matching none of
//! them is a syntax error that aborts the surrounding run.
//!
//! Recognized forms, after the fixed `[PEG_TRACE] ` marker:
//! - `Attempting to match rule <name> at <loc>[ to <loc>][ (pos <int>)]`
//! - `Failed to match rule <name> at <loc>[ to <loc>][ (pos <int>)]`
//! - `Matched rule <name> at <loc>[ to <loc>][ (pos <int>)]`
//! - `Cached match of rule ...`, `Cached fail of rule ...`
//! - `Entering level ...`, `Leaving level ...`
//!
//! `<name>` is a bare identifier or the same enclosed in back-quotes
//! (used for anonymous/literal rules); both normalize to the plain
//! identifier. `<loc>` is `<int>:<int>` (a line:column character
//! position) or a single `<int>` (a token index); the variant is inferred
//! from the presence of the colon. The optional ` to <loc>` and
//! ` (pos <int>)` suffixes are accepted on all three rule events, a
//! superset of what any single tracer version emits. A location whose
//! number does not fit a machine word is not recognized.

use vstd::prelude::*;

use crate::location::CharLocation;
use crate::location::Location;
use crate::location::TokenIndex;
use crate::tree::Rule;
use crate::tree::RuleView;

verus! {

/// One classified trace line. Events that do not affect tree shape
/// (`Cache`, `EnterLevel`, `LeaveLevel`) are recognized but carry nothing.
#[derive(Debug)]
pub enum Line {
    Attempt(Rule),
    Failure(Rule),
    Success(Rule),
    Cache,
    EnterLevel,
    LeaveLevel,
}

/// The mathematical value of a [`Line`].
pub enum LineView {
    Attempt(RuleView),
    Failure(RuleView),
    Success(RuleView),
    Cache,
    EnterLevel,
    LeaveLevel,
}

impl View for Line {
    type V = LineView;

    open spec fn view(&self) -> LineView {
        match self {
            Line::Attempt(r) => LineView::Attempt(r@),
            Line::Failure(r) => LineView::Failure(r@),
            Line::Success(r) => LineView::Success(r@),
            Line::Cache => LineView::Cache,
            Line::EnterLevel => LineView::EnterLevel,
            Line::LeaveLevel => LineView::LeaveLevel,
        }
    }
}

/// A line that matched none of the recognized forms, with a best-effort
/// index into the line of where recognition stopped.
#[derive(Debug, PartialEq, Eq, Structural)]
pub struct ParseError {
    pub position: usize,
}

/// A decimal digit.
pub open spec fn is_digit(c: char) -> bool {
    ('0' as u32) <= c as u32 && c as u32 <= ('9' as u32)
}

/// The numeric value of a decimal digit.
pub open spec fn digit_val(c: char) -> int {
    c as u32 - '0' as u32
}

/// A character of a rule identifier: a letter, digit or underscore.
pub open spec fn is_ident_char(c: char) -> bool {
    ('A' as u32) <= c as u32 && c as u32 <= ('Z' as u32) || ('a' as u32) <= c as u32 && c as u32
        <= ('z' as u32) || is_digit(c) || c == '_'
}

/// The position just past `p` when `s` carries `p` verbatim at `i`.
pub open spec fn spec_eat(s: Seq<char>, i: int, p: Seq<char>) -> Option<int> {
    if 0 <= i && i + p.len() <= s.len() && s.subrange(i, i + p.len()) == p {
        Some(i + p.len())
    } else {
        None
    }
}

/// The end of the run of decimal digits starting at `i`.
pub open spec fn digits_end(s: Seq<char>, i: int) -> int
    decreases s.len() - i,
{
    if 0 <= i < s.len() && is_digit(s[i]) {
        digits_end(s, i + 1)
    } else {
        i
    }
}

/// The end of the run of identifier characters starting at `i`.
pub open spec fn ident_end(s: Seq<char>, i: int) -> int
    decreases s.len() - i,
{
    if 0 <= i < s.len() && is_ident_char(s[i]) {
        ident_end(s, i + 1)
    } else {
        i
    }
}

/// The value of the decimal digits `s[i..j)`.
pub open spec fn digits_val(s: Seq<char>, i: int, j: int) -> int
    decreases j - i,
{
    if i >= j {
        0
    } else {
        digits_val(s, i, j - 1) * 10 + digit_val(s[j - 1])
    }
}

/// An unsigned decimal number at `i`: its value and end position, or
/// `None` when no digit stands at `i`.
pub open spec fn spec_parse_uint(s: Seq<char>, i: int) -> Option<(int, int)> {
    let e = digits_end(s, i);
    if e > i {
        Some((digits_val(s, i, e), e))
    } else {
        None
    }
}

/// A location at `i`: `<int>:<int>` is a line:column character position,
/// a bare `<int>` a token index. A number that does not fit a machine
/// word is not recognized.
pub open spec fn spec_parse_location(s: Seq<char>, i: int) -> Option<(Location, int)> {
    match spec_parse_uint(s, i) {
        None => None,
        Some((v1, j)) => if j < s.len() && s[j] == ':' {
            match spec_parse_uint(s, j + 1) {
                None => None,
                Some((v2, k)) => if v1 <= usize::MAX && v2 <= usize::MAX {
                    Some(
                        (
                            Location::CharLocation(
                                CharLocation { line: v1 as usize, column: v2 as usize },
                            ),
                            k,
                        ),
                    )
                } else {
                    None
                },
            }
        } else {
            if v1 <= usize::MAX {
                Some((Location::TokenIndex(TokenIndex { index: v1 as usize }), j))
            } else {
                None
            }
        },
    }
}

/// A rule name at `i`: a bare identifier (possibly empty), or an
/// identifier enclosed in back-quotes; both denote the plain identifier.
pub open spec fn spec_parse_name(s: Seq<char>, i: int) -> Option<(Seq<char>, int)> {
    if 0 <= i < s.len() && s[i] == '`' {
        let e = ident_end(s, i + 1);
        if e < s.len() && s[e] == '`' {
            Some((s.subrange(i + 1, e), e + 1))
        } else {
            None
        }
    } else if 0 <= i <= s.len() {
        let e = ident_end(s, i);
        Some((s.subrange(i, e), e))
    } else {
        None
    }
}

/// The optional ` to <loc>` suffix at `i`: the end location and the
/// position after it, or no location and `i` unchanged when the suffix is
/// absent or malformed (a malformed suffix then fails the line as a whole,
/// since what remains can never complete a recognized form).
pub open spec fn spec_parse_to(s: Seq<char>, i: int) -> (Option<Location>, int) {
    match spec_eat(s, i, " to "@) {
        Some(j) => match spec_parse_location(s, j) {
            Some((l, k)) => (Some(l), k),
            None => (None, i),
        },
        None => (None, i),
    }
}

/// True when the line ends at `i`, either directly or after one
/// ` (pos <int>)` suffix, whose number is discarded.
pub open spec fn spec_pos_suffix_ok(s: Seq<char>, i: int) -> bool {
    i == s.len() || match spec_eat(s, i, " (pos "@) {
        Some(j) => match spec_parse_uint(s, j) {
            Some((v, k)) => k + 1 == s.len() && s[k] == ')',
            None => false,
        },
        None => false,
    }
}

/// A full rule reference at `i`, running to the end of the line:
/// `<name> at <loc>[ to <loc>][ (pos <int>)]`.
pub open spec fn spec_parse_rule(s: Seq<char>, i: int) -> Option<RuleView> {
    match spec_parse_name(s, i) {
        None => None,
        Some((name, j)) => match spec_eat(s, j, " at "@) {
            None => None,
            Some(j2) => match spec_parse_location(s, j2) {
                None => None,
                Some((loc, j3)) => {
                    let (next_loc, j4) = spec_parse_to(s, j3);
                    if spec_pos_suffix_ok(s, j4) {
                        Some(RuleView { name, loc, next_loc })
                    } else {
                        None
                    }
                },
            },
        },
    }
}

/// The tail of a cache marker: `match` or `fail`, then ` of rule `;
/// whatever follows is discarded.
pub open spec fn spec_cache_tail(s: Seq<char>, i: int) -> bool {
    match spec_eat(s, i, "match"@) {
        Some(j) => spec_eat(s, j, " of rule "@) is Some,
        None => match spec_eat(s, i, "fail"@) {
            Some(j) => spec_eat(s, j, " of rule "@) is Some,
            None => false,
        },
    }
}

/// The classification of one trace line: the event it denotes, or `None`
/// when it matches no recognized form.
pub open spec fn spec_parse_line(s: Seq<char>) -> Option<LineView> {
    match spec_eat(s, 0, "[PEG_TRACE] "@) {
        None => None,
        Some(i) => if let Some(j) = spec_eat(s, i, "Attempting to match rule "@) {
            match spec_parse_rule(s, j) {
                Some(r) => Some(LineView::Attempt(r)),
                None => None,
            }
        } else if let Some(j) = spec_eat(s, i, "Failed to match rule "@) {
            match spec_parse_rule(s, j) {
                Some(r) => Some(LineView::Failure(r)),
                None => None,
            }
        } else if let Some(j) = spec_eat(s, i, "Matched rule "@) {
            match spec_parse_rule(s, j) {
                Some(r) => Some(LineView::Success(r)),
                None => None,
            }
        } else if let Some(j) = spec_eat(s, i, "Cached "@) {
            if spec_cache_tail(s, j) {
                Some(LineView::Cache)
            } else {
                None
            }
        } else if spec_eat(s, i, "Entering level "@) is Some {
            Some(LineView::EnterLevel)
        } else if spec_eat(s, i, "Leaving level "@) is Some {
            Some(LineView::LeaveLevel)
        } else {
            None
        },
    }
}

/// Everything up to the end of a digit run is a digit, and the run stays
/// inside the text.
proof fn lemma_digits_end_props(s: Seq<char>, i: int)
    requires
        0 <= i <= s.len(),
    ensures
        i <= digits_end(s, i) <= s.len(),
        forall|t: int| i <= t < digits_end(s, i) ==> is_digit(s[t]),
    decreases s.len() - i,
{
    if i < s.len() && is_digit(s[i]) {
        lemma_digits_end_props(s, i + 1);
    }
}

/// Tests a decimal digit.
fn is_digit_exec(c: char) -> (r: bool)
    ensures
        r == is_digit(c),
{
    let u = c as u32;
    ('0' as u32) <= u && u <= ('9' as u32)
}

/// Tests an identifier character.
fn is_ident_char_exec(c: char) -> (r: bool)
    ensures
        r == is_ident_char(c),
{
    let u = c as u32;
    ('A' as u32) <= u && u <= ('Z' as u32) || ('a' as u32) <= u && u <= ('z' as u32) || ('0'
        as u32) <= u && u <= ('9' as u32) || c == '_'
}

/// Matches the literal `p` at position `i` of `s`, returning the position
/// just past it.
fn eat(s: &str, i: usize, p: &str) -> (r: Option<usize>)
    requires
        i <= s@.len(),
    ensures
        match r {
            Some(j) => spec_eat(s@, i as int, p@) == Some(j as int) && i <= j <= s@.len(),
            None => spec_eat(s@, i as int, p@) is None,
        },
{
    let n = s.unicode_len();
    let m = p.unicode_len();
    if n - i < m {
        return None;
    }
    let mut k: usize = 0;
    while k < m
        invariant
            k <= m,
            i + m <= n,
            forall|t: int| 0 <= t < k ==> s@[i + t] == p@[t],
        decreases m - k,
    {
        if s.get_char(i + k) != p.get_char(k) {
            proof {
                assert(s@.subrange(i as int, i + m as int)[k as int] != p@[k as int]);
            }
            return None;
        }
        k = k + 1;
    }
    proof {
        assert(s@.subrange(i as int, i + m as int) =~= p@);
    }
    Some(i + m)
}

/// Scans past the identifier characters starting at `i`.
fn scan_ident_end(s: &str, i: usize) -> (e: usize)
    requires
        i <= s@.len(),
    ensures
        e as int == ident_end(s@, i as int),
        i <= e <= s@.len(),
    decreases s@.len() - i,
{
    let n = s.unicode_len();
    if i < n {
        let c = s.get_char(i);
        if is_ident_char_exec(c) {
            return scan_ident_end(s, i + 1);
        }
    }
    i
}

/// Scans past the decimal digits starting at `i`.
fn scan_digits_end(s: &str, i: usize) -> (e: usize)
    requires
        i <= s@.len(),
    ensures
        e as int == digits_end(s@, i as int),
        i <= e <= s@.len(),
    decreases s@.len() - i,
{
    let n = s.unicode_len();
    if i < n {
        let c = s.get_char(i);
        if is_digit_exec(c) {
            return scan_digits_end(s, i + 1);
        }
    }
    i
}

/// Reads the decimal number at `i`: the digit run's end and its value,
/// the latter `None` when it does not fit a machine word.
fn parse_uint(s: &str, i: usize) -> (r: Option<(Option<usize>, usize)>)
    requires
        i <= s@.len(),
    ensures
        match r {
            Some((v, e)) => spec_parse_uint(s@, i as int) == Some(
                (digits_val(s@, i as int, e as int), e as int),
            ) && i < e <= s@.len() && (match v {
                Some(u) => digits_val(s@, i as int, e as int) == u as int,
                None => digits_val(s@, i as int, e as int) > usize::MAX,
            }),
            None => spec_parse_uint(s@, i as int) is None,
        },
{
    let e = scan_digits_end(s, i);
    if e == i {
        return None;
    }
    proof {
        lemma_digits_end_props(s@, i as int);
    }
    let mut acc: usize = 0;
    let mut ok: bool = true;
    let mut k: usize = i;
    while k < e
        invariant
            i <= k <= e <= s@.len(),
            e as int == digits_end(s@, i as int),
            ok ==> acc as int == digits_val(s@, i as int, k as int),
            !ok ==> digits_val(s@, i as int, k as int) > usize::MAX,
        decreases e - k,
    {
        let c = s.get_char(k);
        proof {
            assert(is_digit(s@[k as int]));
        }
        let d = (c as u32 - '0' as u32) as usize;
        if ok {
            if acc < usize::MAX / 10 || (acc == usize::MAX / 10 && d <= usize::MAX % 10) {
                acc = acc * 10 + d;
            } else {
                ok = false;
            }
        }
        k = k + 1;
    }
    if ok {
        Some((Some(acc), e))
    } else {
        Some((None, e))
    }
}

/// Reads the location at `i`, inferring its addressing mode from the
/// presence of a colon.
fn parse_location(s: &str, i: usize) -> (r: Option<(Location, usize)>)
    requires
        i <= s@.len(),
    ensures
        match r {
            Some((loc, j)) => spec_parse_location(s@, i as int) == Some((loc, j as int)) && i <= j
                <= s@.len(),
            None => spec_parse_location(s@, i as int) is None,
        },
{
    let n = s.unicode_len();
    match parse_uint(s, i) {
        None => None,
        Some((v1, j)) => {
            if j < n && s.get_char(j) == ':' {
                match parse_uint(s, j + 1) {
                    None => None,
                    Some((v2, k)) => match (v1, v2) {
                        (Some(line), Some(column)) => Some(
                            (Location::CharLocation(CharLocation { line, column }), k),
                        ),
                        _ => None,
                    },
                }
            } else {
                match v1 {
                    Some(index) => Some((Location::TokenIndex(TokenIndex { index }), j)),
                    None => None,
                }
            }
        },
    }
}

/// Reads the rule name at `i`, bare or back-quoted, normalized to the
/// plain identifier.
fn parse_name(s: &str, i: usize) -> (r: Option<(String, usize)>)
    requires
        i <= s@.len(),
    ensures
        match r {
            Some((nm, j)) => spec_parse_name(s@, i as int) == Some((nm@, j as int)) && i <= j
                <= s@.len(),
            None => spec_parse_name(s@, i as int) is None,
        },
{
    let n = s.unicode_len();
    if i < n && s.get_char(i) == '`' {
        let e = scan_ident_end(s, i + 1);
        if e < n && s.get_char(e) == '`' {
            let nm = s.substring_char(i + 1, e).to_owned();
            Some((nm, e + 1))
        } else {
            None
        }
    } else {
        let e = scan_ident_end(s, i);
        let nm = s.substring_char(i, e).to_owned();
        Some((nm, e))
    }
}

/// Reads a full rule reference at `i`, running to the end of the line.
fn parse_rule(s: &str, i: usize) -> (r: Option<Rule>)
    requires
        i <= s@.len(),
    ensures
        match r {
            Some(rl) => spec_parse_rule(s@, i as int) == Some(rl@),
            None => spec_parse_rule(s@, i as int) is None,
        },
{
    let (name, j) = match parse_name(s, i) {
        Some(x) => x,
        None => {
            return None;
        },
    };
    let j2 = match eat(s, j, " at ") {
        Some(x) => x,
        None => {
            return None;
        },
    };
    let (loc, j3) = match parse_location(s, j2) {
        Some(x) => x,
        None => {
            return None;
        },
    };
    let (next_loc, j4) = match eat(s, j3, " to ") {
        Some(t) => match parse_location(s, t) {
            Some((l, k)) => (Some(l), k),
            None => (None, j3),
        },
        None => (None, j3),
    };
    let n = s.unicode_len();
    if j4 == n {
        return Some(Rule { name, loc, next_loc });
    }
    let p = match eat(s, j4, " (pos ") {
        Some(x) => x,
        None => {
            return None;
        },
    };
    match parse_uint(s, p) {
        Some((_, k)) => {
            if k < n && s.get_char(k) == ')' && k + 1 == n {
                Some(Rule { name, loc, next_loc })
            } else {
                None
            }
        },
        None => None,
    }
}

/// Classifies one trace line into its event, or reports that it matches
/// no recognized form, with a best-effort position of where recognition
/// stopped.
pub fn line(input: &str) -> (r: Result<Line, ParseError>)
    ensures
        match r {
            Ok(l) => spec_parse_line(input@) == Some(l@),
            Err(e) => spec_parse_line(input@) is None && e.position <= input@.len(),
        },
{
    let i = match eat(input, 0, "[PEG_TRACE] ") {
        Some(x) => x,
        None => {
            return Err(ParseError { position: 0 });
        },
    };
    if let Some(j) = eat(input, i, "Attempting to match rule ") {
        match parse_rule(input, j) {
            Some(rl) => Ok(Line::Attempt(rl)),
            None => Err(ParseError { position: j }),
        }
    } else if let Some(j) = eat(input, i, "Failed to match rule ") {
        match parse_rule(input, j) {
            Some(rl) => Ok(Line::Failure(rl)),
            None => Err(ParseError { position: j }),
        }
    } else if let Some(j) = eat(input, i, "Matched rule ") {
        match parse_rule(input, j) {
            Some(rl) => Ok(Line::Success(rl)),
            None => Err(ParseError { position: j }),
        }
    } else if let Some(j) = eat(input, i, "Cached ") {
        let ok = match eat(input, j, "match") {
            Some(j2) => eat(input, j2, " of rule ").is_some(),
            None => match eat(input, j, "fail") {
                Some(j2) => eat(input, j2, " of rule ").is_some(),
                None => false,
            },
        };
        if ok {
            Ok(Line::Cache)
        } else {
            Err(ParseError { position: j })
        }
    } else if eat(input, i, "Entering level ").is_some() {
        Ok(Line::EnterLevel)
    } else if eat(input, i, "Leaving level ").is_some() {
        Ok(Line::LeaveLevel)
    } else {
        Err(ParseError { position: i })
    }
}

} // verus!
