//! The line model of a text: a sequence of scalar values cut into lines by `\n`.
//!
//! Positions are the `len + 1` indices `0..=len`. Line `l` starts at index 0
//! (for `l == 0`) or right after the `l`-th newline, and runs up to, but not
//! including, its terminating newline or the end of the text.

use vstd::prelude::*;

verus! {

/// Number of newlines among the first `i` characters of `s`.
/// Indices past the end count as the end.
pub open spec fn newlines_before(s: Seq<char>, i: int) -> nat
    decreases i,
{
    if i <= 0 {
        0
    } else if i > s.len() {
        newlines_before(s, s.len() as int)
    } else {
        newlines_before(s, i - 1) + if s[i - 1] == '\n' { 1nat } else { 0nat }
    }
}

/// Number of lines of `s`: one more than its newlines, so never zero.
pub open spec fn line_count(s: Seq<char>) -> nat {
    newlines_before(s, s.len() as int) + 1
}

/// Index of the line that holds position `i`.
pub open spec fn line_of(s: Seq<char>, i: int) -> nat {
    newlines_before(s, i)
}

/// `i` is where line `l` begins: at the very start of the text or right
/// after a newline, with exactly `l` newlines before it.
pub open spec fn starts_line(s: Seq<char>, l: nat, i: int) -> bool {
    &&& 0 <= i <= s.len()
    &&& (i == 0 || s[i - 1] == '\n')
    &&& newlines_before(s, i) == l
}

/// The least position in `0..=k` with at least `l` newlines before it,
/// or `k` if there is none.
pub open spec fn line_start_within(s: Seq<char>, l: nat, k: int) -> int
    decreases k,
{
    if l == 0 || k <= 0 {
        0
    } else if newlines_before(s, k - 1) >= l {
        line_start_within(s, l, k - 1)
    } else {
        k
    }
}

/// Position at which line `l` begins; the length of the text for a line
/// that does not exist.
pub open spec fn line_start(s: Seq<char>, l: nat) -> int {
    line_start_within(s, l, s.len() as int)
}

/// Number of characters of line `l`, its terminating newline left out.
pub open spec fn line_len(s: Seq<char>, l: nat) -> int {
    if l + 1 < line_count(s) {
        line_start(s, l + 1) - 1 - line_start(s, l)
    } else {
        s.len() - line_start(s, l)
    }
}

/// Column of position `i` within its line.
pub open spec fn column_of(s: Seq<char>, i: int) -> int {
    i - line_start(s, line_of(s, i))
}

/// Newline counts never decrease along the text, and grow by at most one per
/// character.
pub proof fn lemma_newlines_monotonic(s: Seq<char>, i: int, j: int)
    requires
        0 <= i <= j <= s.len(),
    ensures
        newlines_before(s, i) <= newlines_before(s, j),
        newlines_before(s, j) - newlines_before(s, i) <= j - i,
    decreases j - i,
{
    if i < j {
        lemma_newlines_monotonic(s, i, j - 1);
    }
}

/// What `line_start_within` finds: the start of line `l` when the first `k`
/// characters hold at least `l` newlines, `k` otherwise.
pub proof fn lemma_line_start_within(s: Seq<char>, l: nat, k: int)
    requires
        0 <= k <= s.len(),
    ensures
        0 <= line_start_within(s, l, k) <= k,
        newlines_before(s, k) >= l ==> starts_line(s, l, line_start_within(s, l, k)),
        newlines_before(s, k) < l ==> line_start_within(s, l, k) == k,
    decreases k,
{
    if l == 0 || k <= 0 {
    } else {
        lemma_newlines_monotonic(s, k - 1, k);
        if newlines_before(s, k - 1) >= l {
            lemma_line_start_within(s, l, k - 1);
        }
    }
}

/// A line has one start only.
pub proof fn lemma_starts_line_unique(s: Seq<char>, l: nat, i: int, j: int)
    requires
        starts_line(s, l, i),
        starts_line(s, l, j),
    ensures
        i == j,
{
    if i < j {
        lemma_newlines_monotonic(s, i, j - 1);
    } else if j < i {
        lemma_newlines_monotonic(s, j, i - 1);
    }
}

/// Every existing line starts at `line_start`; a line past the last one
/// "starts" at the end of the text.
pub proof fn lemma_line_start(s: Seq<char>, l: nat)
    ensures
        0 <= line_start(s, l) <= s.len(),
        l < line_count(s) ==> starts_line(s, l, line_start(s, l)),
        l >= line_count(s) ==> line_start(s, l) == s.len(),
{
    lemma_line_start_within(s, l, s.len() as int);
}

/// Line starts are strictly ordered, and each line but the last ends in a
/// newline just before the next line's start.
pub proof fn lemma_line_bounds(s: Seq<char>, l: nat)
    requires
        l < line_count(s),
    ensures
        0 <= line_len(s, l),
        line_start(s, l) + line_len(s, l) <= s.len(),
        l + 1 < line_count(s) ==> line_start(s, l + 1) == line_start(s, l) + line_len(s, l) + 1,
        l + 1 < line_count(s) ==> s[line_start(s, l) + line_len(s, l)] == '\n',
        l + 1 == line_count(s) ==> line_start(s, l) + line_len(s, l) == s.len(),
{
    lemma_line_start(s, l);
    if l + 1 < line_count(s) {
        lemma_line_start(s, l + 1);
        let a = line_start(s, l);
        let b = line_start(s, l + 1);
        if b <= a {
            lemma_newlines_monotonic(s, b, a);
        }
    }
}

/// A position lies on its line: between the line's start and its end.
pub proof fn lemma_position_on_line(s: Seq<char>, i: int)
    requires
        0 <= i <= s.len(),
    ensures
        line_of(s, i) < line_count(s),
        0 <= column_of(s, i) <= line_len(s, line_of(s, i)),
{
    let l = line_of(s, i);
    lemma_newlines_monotonic(s, i, s.len() as int);
    lemma_line_start(s, l);
    let a = line_start(s, l);
    if a > i {
        lemma_newlines_monotonic(s, i, a - 1);
    }
    if l + 1 < line_count(s) {
        lemma_line_start(s, l + 1);
        let b = line_start(s, l + 1);
        if b <= i {
            lemma_newlines_monotonic(s, b, i);
        }
    }
}

/// Every column of a line, its end included, is a position on that line.
pub proof fn lemma_line_of_column(s: Seq<char>, l: nat, c: int)
    requires
        l < line_count(s),
        0 <= c <= line_len(s, l),
    ensures
        0 <= line_start(s, l) + c <= s.len(),
        line_of(s, line_start(s, l) + c) == l,
        column_of(s, line_start(s, l) + c) == c,
    decreases c,
{
    lemma_line_bounds(s, l);
    lemma_line_start(s, l);
    if c > 0 {
        lemma_line_of_column(s, l, c - 1);
        let p = line_start(s, l) + c;
        if s[p - 1] == '\n' {
            // A newline inside the line would start line l + 1 at p.
            assert(starts_line(s, l + 1, p));
            lemma_newlines_monotonic(s, p, s.len() as int);
            lemma_line_start(s, l + 1);
            lemma_starts_line_unique(s, l + 1, p, line_start(s, l + 1));
        }
    }
}

/// Lines and their starts are inverse to each other: the start of a line
/// lies on that line, and a position at which a line begins is the start of
/// the line it lies on.
pub proof fn lemma_line_start_inverse(s: Seq<char>, l: nat, i: int)
    ensures
        l < line_count(s) ==> line_of(s, line_start(s, l)) == l,
        starts_line(s, line_of(s, i), i) ==> line_start(s, line_of(s, i)) == i,
{
    lemma_line_start(s, l);
    if starts_line(s, line_of(s, i), i) {
        lemma_position_on_line(s, i);
        lemma_line_start(s, line_of(s, i));
        lemma_starts_line_unique(s, line_of(s, i), i, line_start(s, line_of(s, i)));
    }
}

} // verus!
