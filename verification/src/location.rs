//! Positions in the traced source text.
//!
//! A trace may address the source in one of two modes: `line:column`
//! character positions (1-based) or flat token indices (0-based). Both are
//! carried by the [`Location`] sum type; a single trace session only ever
//! uses one mode, so the ordering between unlike variants is fixed once and
//! never exercised by well-formed traces.

use vstd::prelude::*;

verus! {

/// A `line:column` character position, both components 1-based,
/// ordered lexicographically by `(line, column)`.
#[derive(Clone, Copy, Debug, PartialEq, Eq, Structural)]
pub struct CharLocation {
    pub line: usize,
    pub column: usize,
}

/// A flat token index, 0-based, ordered numerically.
#[derive(Clone, Copy, Debug, PartialEq, Eq, Structural)]
pub struct TokenIndex {
    pub index: usize,
}

/// A position in the source, in one of the two addressing modes.
#[derive(Clone, Copy, Debug, PartialEq, Eq, Structural)]
pub enum Location {
    CharLocation(CharLocation),
    TokenIndex(TokenIndex),
}

/// Strict order on locations: lexicographic for character positions,
/// numeric for token indices. Unlike variants are ordered by variant
/// (character positions before token indices), so the order is total;
/// well-formed sessions never compare unlike variants.
pub open spec fn loc_lt(a: Location, b: Location) -> bool {
    match (a, b) {
        (Location::CharLocation(x), Location::CharLocation(y)) => x.line < y.line || (
        x.line == y.line && x.column < y.column),
        (Location::CharLocation(_), Location::TokenIndex(_)) => true,
        (Location::TokenIndex(_), Location::CharLocation(_)) => false,
        (Location::TokenIndex(x), Location::TokenIndex(y)) => x.index < y.index,
    }
}

/// [`loc_lt`] is a strict total order: irreflexive, transitive, and any
/// two distinct locations are ordered one way or the other.
pub proof fn lemma_loc_lt_strict_total_order(a: Location, b: Location, c: Location)
    ensures
        !loc_lt(a, a),
        loc_lt(a, b) && loc_lt(b, c) ==> loc_lt(a, c),
        loc_lt(a, b) || loc_lt(b, a) || a == b,
{
}

/// The 1-based line number of position `i` in `s`: one more than the
/// number of newline characters strictly before `i`.
pub open spec fn line_at(s: Seq<char>, i: int) -> nat
    decreases i,
{
    if i <= 0 {
        1
    } else if s[i - 1] == '\n' {
        line_at(s, i - 1) + 1
    } else {
        line_at(s, i - 1)
    }
}

/// The 1-based column number of position `i` in `s`: how far `i` sits
/// past the last newline before it (or past the start of the text).
pub open spec fn col_at(s: Seq<char>, i: int) -> nat
    decreases i,
{
    if i <= 0 {
        1
    } else if s[i - 1] == '\n' {
        1
    } else {
        col_at(s, i - 1) + 1
    }
}

/// True when position `i` of `s` is the one addressed by `l`: for a
/// character position, its line and column both agree; for a token index,
/// `i` lies on line `index + 1`, i.e. at or after the start of the
/// `index`-th newline-delimited line (the first such `i` is that start).
pub open spec fn loc_match(l: Location, s: Seq<char>, i: int) -> bool {
    match l {
        Location::CharLocation(c) => line_at(s, i) == c.line && col_at(s, i) == c.column,
        Location::TokenIndex(t) => line_at(s, i) == t.index + 1,
    }
}

/// The first position at or after `i` that `l` addresses in `s`; `0`
/// when there is none.
pub open spec fn loc_pos_from(l: Location, s: Seq<char>, i: int) -> int
    decreases s.len() - i,
{
    if i < 0 || i >= s.len() {
        0
    } else if loc_match(l, s, i) {
        i
    } else {
        loc_pos_from(l, s, i + 1)
    }
}

/// The index in `s` that `l` addresses: the first position matching it,
/// or `0` when none does.
pub open spec fn loc_pos(l: Location, s: Seq<char>) -> int {
    loc_pos_from(l, s, 0)
}

/// Scanning from `i` with no match before `r` finds exactly `r`.
proof fn lemma_loc_pos_from_reaches(l: Location, s: Seq<char>, r: int, i: int)
    requires
        0 <= i <= r < s.len(),
        loc_match(l, s, r),
        forall|j: int| i <= j < r ==> !loc_match(l, s, j),
    ensures
        loc_pos_from(l, s, i) == r,
    decreases r - i,
{
    if i < r {
        lemma_loc_pos_from_reaches(l, s, r, i + 1);
    }
}

/// Scanning with no match anywhere yields `0`.
proof fn lemma_loc_pos_from_none(l: Location, s: Seq<char>, i: int)
    requires
        forall|j: int| 0 <= j < s.len() ==> !loc_match(l, s, j),
        0 <= i,
    ensures
        loc_pos_from(l, s, i) == 0,
    decreases s.len() - i,
{
    if i < s.len() {
        lemma_loc_pos_from_none(l, s, i + 1);
    }
}

/// A value meeting the first-match characterization is [`loc_pos`].
pub proof fn lemma_loc_pos_unique(l: Location, s: Seq<char>, r: int)
    requires
        0 <= r,
        forall|j: int| 0 <= j < r ==> !loc_match(l, s, j),
        (exists|j: int| 0 <= j < s.len() && loc_match(l, s, j)) ==> r < s.len() && loc_match(
            l,
            s,
            r,
        ),
        !(exists|j: int| 0 <= j < s.len() && loc_match(l, s, j)) ==> r == 0,
    ensures
        r == loc_pos(l, s),
{
    if exists|j: int| 0 <= j < s.len() && loc_match(l, s, j) {
        lemma_loc_pos_from_reaches(l, s, r, 0);
    } else {
        lemma_loc_pos_from_none(l, s, 0);
    }
}

/// Line and column numbers at position `i` never exceed `i + 1`.
pub proof fn lemma_line_col_bounds(s: Seq<char>, i: int)
    requires
        i >= 0,
    ensures
        line_at(s, i) <= i + 1,
        col_at(s, i) <= i + 1,
    decreases i,
{
    if i > 0 {
        lemma_line_col_bounds(s, i - 1);
    }
}

impl CharLocation {
    /// The index of the character sitting at this line and column in
    /// `input`, scanning left to right; `0` when no character does.
    pub fn pos(&self, input: &str) -> (r: usize)
        requires
            input@.len() < usize::MAX,
        ensures
            forall|j: int|
                0 <= j < r ==> !loc_match(Location::CharLocation(*self), input@, j),
            (exists|j: int|
                0 <= j < input@.len() && loc_match(Location::CharLocation(*self), input@, j))
                ==> r < input@.len() && loc_match(Location::CharLocation(*self), input@, r as int),
            !(exists|j: int|
                0 <= j < input@.len() && loc_match(Location::CharLocation(*self), input@, j))
                ==> r == 0,
    {
        let n = input.unicode_len();
        let mut line: usize = 1;
        let mut column: usize = 1;
        let mut i: usize = 0;
        while i < n
            invariant
                n == input@.len() < usize::MAX,
                i <= n,
                line == line_at(input@, i as int),
                column == col_at(input@, i as int),
                forall|j: int|
                    0 <= j < i ==> !loc_match(Location::CharLocation(*self), input@, j),
            decreases n - i,
        {
            if line == self.line && column == self.column {
                proof {
                    assert(loc_match(Location::CharLocation(*self), input@, i as int));
                }
                return i;
            }
            let c = input.get_char(i);
            proof {
                lemma_line_col_bounds(input@, i as int);
            }
            if c == '\n' {
                line = line + 1;
                column = 1;
            } else {
                column = column + 1;
            }
            i = i + 1;
        }
        0
    }

    /// The `(line, column)` comparison as a three-way ordering.
    pub open spec fn cmp_spec(&self, other: &CharLocation) -> core::cmp::Ordering {
        if self.line < other.line {
            core::cmp::Ordering::Less
        } else if self.line > other.line {
            core::cmp::Ordering::Greater
        } else if self.column < other.column {
            core::cmp::Ordering::Less
        } else if self.column > other.column {
            core::cmp::Ordering::Greater
        } else {
            core::cmp::Ordering::Equal
        }
    }

    /// Three-way comparison, lexicographic by `(line, column)`.
    pub fn cmp(&self, other: &CharLocation) -> (r: core::cmp::Ordering)
        ensures
            r == self.cmp_spec(other),
    {
        if self.line < other.line {
            core::cmp::Ordering::Less
        } else if self.line > other.line {
            core::cmp::Ordering::Greater
        } else if self.column < other.column {
            core::cmp::Ordering::Less
        } else if self.column > other.column {
            core::cmp::Ordering::Greater
        } else {
            core::cmp::Ordering::Equal
        }
    }
}

impl TokenIndex {
    /// The index of the first character on the `index`-th
    /// newline-delimited line of `input` (0-based); `0` when `input` has
    /// fewer lines than that.
    pub fn pos(&self, input: &str) -> (r: usize)
        ensures
            forall|j: int| 0 <= j < r ==> !loc_match(Location::TokenIndex(*self), input@, j),
            (exists|j: int|
                0 <= j < input@.len() && loc_match(Location::TokenIndex(*self), input@, j)) ==> r
                < input@.len() && loc_match(Location::TokenIndex(*self), input@, r as int),
            !(exists|j: int|
                0 <= j < input@.len() && loc_match(Location::TokenIndex(*self), input@, j)) ==> r
                == 0,
    {
        let n = input.unicode_len();
        let mut line: usize = 0;
        let mut i: usize = 0;
        while i < n
            invariant
                n == input@.len(),
                i <= n,
                line + 1 == line_at(input@, i as int),
                forall|j: int| 0 <= j < i ==> !loc_match(Location::TokenIndex(*self), input@, j),
            decreases n - i,
        {
            if line == self.index {
                proof {
                    assert(loc_match(Location::TokenIndex(*self), input@, i as int));
                }
                return i;
            }
            let c = input.get_char(i);
            proof {
                lemma_line_col_bounds(input@, i as int);
            }
            if c == '\n' {
                line = line + 1;
            }
            i = i + 1;
        }
        0
    }
}

impl Location {
    /// The index in `input` of the character this location addresses,
    /// under its own addressing mode; `0` when out of range.
    pub fn pos(&self, input: &str) -> (r: usize)
        requires
            input@.len() < usize::MAX,
        ensures
            forall|j: int| 0 <= j < r ==> !loc_match(*self, input@, j),
            (exists|j: int| 0 <= j < input@.len() && loc_match(*self, input@, j)) ==> r
                < input@.len() && loc_match(*self, input@, r as int),
            !(exists|j: int| 0 <= j < input@.len() && loc_match(*self, input@, j)) ==> r == 0,
            r as int == loc_pos(*self, input@),
            r <= input@.len(),
    {
        let r = match self {
            Location::CharLocation(char_loc) => char_loc.pos(input),
            Location::TokenIndex(tok_idx) => tok_idx.pos(input),
        };
        proof {
            lemma_loc_pos_unique(*self, input@, r as int);
        }
        r
    }

    /// True exactly when `self` comes strictly before `other`.
    pub fn lt(&self, other: &Location) -> (r: bool)
        ensures
            r == loc_lt(*self, *other),
    {
        match (self, other) {
            (Location::CharLocation(x), Location::CharLocation(y)) => x.line < y.line || (x.line
                == y.line && x.column < y.column),
            (Location::CharLocation(_), Location::TokenIndex(_)) => true,
            (Location::TokenIndex(_), Location::CharLocation(_)) => false,
            (Location::TokenIndex(x), Location::TokenIndex(y)) => x.index < y.index,
        }
    }
}

} // verus!
