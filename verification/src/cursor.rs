//! The cursor: a position in a document and the column that vertical motion
//! tries to keep.
//!
//! Horizontal motion re-anchors the remembered column to where the cursor
//! lands. Vertical motion keeps it, even when a short line forces the cursor
//! to a smaller column, so that a longer line restores the intended column.

use crate::document::{first_token, next_token, prev_token, lemma_token_bounds, DocumentBuffer};
use crate::position::{clamp_index, position_kind, PositionKind};
use crate::steps::{lemma_stepped_in_range, lemma_stepped_is_walked};
use crate::steps::{one_step, step_backward, step_forward, stepped, walked};
use crate::text::{column_of, line_count, line_len, line_of, line_start};
use crate::text::{lemma_line_bounds, lemma_line_of_column, lemma_line_start};
use crate::text::lemma_position_on_line;
use crate::words::word_byte_offsets;
use vstd::prelude::*;

verus! {

/// A direction of cursor motion.
#[derive(Clone, Copy, Debug, PartialEq, Eq, Structural)]
pub enum Direction {
    Left,
    Right,
    Up,
    Down,
    TokenLeft,
    TokenRight,
    LineStart,
    LineEnd,
    DocStart,
    DocEnd,
}

/// What motion does at the ends of the document: whether it goes round them
/// horizontally (past the first or last character), vertically (past the
/// first or last line), both ways, or not at all.
#[derive(Clone, Copy, Debug, PartialEq, Eq, Structural)]
pub enum WrapMode {
    NoWrap,
    Horizontal,
    Vertical,
    Everywhere,
}

impl WrapMode {
    /// Whether horizontal and token motion go round the ends of the document.
    pub open spec fn wraps_horizontal(self) -> bool {
        self == WrapMode::Horizontal || self == WrapMode::Everywhere
    }

    /// Whether vertical motion goes round the first and last line.
    pub open spec fn wraps_vertical(self) -> bool {
        self == WrapMode::Vertical || self == WrapMode::Everywhere
    }

    /// The policy with the two axes as given.
    pub fn from_axes(horizontal: bool, vertical: bool) -> (mode: WrapMode)
        ensures
            mode.wraps_horizontal() == horizontal,
            mode.wraps_vertical() == vertical,
    {
        if horizontal {
            if vertical {
                WrapMode::Everywhere
            } else {
                WrapMode::Horizontal
            }
        } else if vertical {
            WrapMode::Vertical
        } else {
            WrapMode::NoWrap
        }
    }

    /// Whether horizontal and token motion go round the ends of the document.
    pub fn horizontal(&self) -> (wraps: bool)
        ensures
            wraps == self.wraps_horizontal(),
    {
        match self {
            WrapMode::Horizontal | WrapMode::Everywhere => true,
            _ => false,
        }
    }

    /// Whether vertical motion goes round the first and last line.
    pub fn vertical(&self) -> (wraps: bool)
        ensures
            wraps == self.wraps_vertical(),
    {
        match self {
            WrapMode::Vertical | WrapMode::Everywhere => true,
            _ => false,
        }
    }
}

/// A cursor.
#[derive(Clone, Copy, Debug, PartialEq, Eq)]
pub struct Cursor {
    /// Index of the character that the cursor stands in front of.
    pub pos: usize,
    /// The column that vertical motion aims for.
    pub preferred_col: Option<usize>,
}

/// A cursor as the contracts see it.
pub struct CursorModel {
    pub pos: int,
    pub preferred_col: Option<int>,
}

impl View for Cursor {
    type V = CursorModel;

    open spec fn view(&self) -> CursorModel {
        CursorModel {
            pos: self.pos as int,
            preferred_col: match self.preferred_col {
                Some(col) => Some(col as int),
                None => None,
            },
        }
    }
}

impl CursorModel {
    /// What holds of the model of every cursor: neither the position nor the
    /// remembered column is negative.
    pub open spec fn wf(self) -> bool {
        &&& self.pos >= 0
        &&& self.preferred_col matches Some(col) ==> col >= 0
    }
}

/// The model of a cursor is well formed.
pub proof fn lemma_cursor_model_wf(cursor: Cursor)
    ensures
        cursor@.wf(),
{
}

/// A fresh cursor: at the start, aiming for column 0.
pub open spec fn initial_cursor() -> CursorModel {
    CursorModel { pos: 0, preferred_col: Some(0) }
}

/// The cursor at position `p`, aiming for the column of `p`.
pub open spec fn landed(s: Seq<char>, p: int) -> CursorModel {
    CursorModel { pos: p, preferred_col: Some(column_of(s, p)) }
}

/// The column that vertical motion of `c` aims for: the remembered one, or
/// the current one if none is remembered.
pub open spec fn goal_column(s: Seq<char>, c: CursorModel) -> int {
    match c.preferred_col {
        Some(goal) => goal,
        None => column_of(s, clamp_index(s, c.pos)),
    }
}

/// `c` after `mag` characters left or right.
pub open spec fn moved_horizontally(
    s: Seq<char>,
    c: CursorModel,
    forward: bool,
    mag: int,
    wrap: bool,
) -> CursorModel {
    landed(s, stepped(clamp_index(s, c.pos), mag, s.len() as int, forward, wrap))
}

/// `c` placed on `line`, at its goal column or at the end of the line if the
/// line is shorter. The goal is kept.
pub open spec fn placed_on_line(s: Seq<char>, c: CursorModel, line: int) -> CursorModel {
    let goal = goal_column(s, c);
    let len = line_len(s, line as nat);
    CursorModel {
        pos: line_start(s, line as nat) + if goal <= len { goal } else { len },
        preferred_col: Some(goal),
    }
}

/// `c` after `mag` lines up or down.
pub open spec fn moved_vertically(
    s: Seq<char>,
    c: CursorModel,
    forward: bool,
    mag: int,
    wrap: bool,
) -> CursorModel {
    let line = line_of(s, clamp_index(s, c.pos)) as int;
    placed_on_line(s, c, stepped(line, mag, line_count(s) - 1, forward, wrap))
}

/// Where one token step from `p` ends. Inside the document it is the start of
/// the next or previous word. At the end that lies in the direction of travel
/// it is, when wrapping, the first or last word of the document, and `p`
/// itself otherwise.
pub open spec fn token_step(s: Seq<char>, p: int, forward: bool, wrap: bool) -> int {
    if forward {
        if p < s.len() {
            next_token(s, p)
        } else if wrap {
            first_token(s)
        } else {
            p
        }
    } else {
        if p > 0 {
            prev_token(s, p)
        } else if wrap {
            prev_token(s, s.len() as int)
        } else {
            p
        }
    }
}

/// Where `steps` token steps from `p` end.
pub open spec fn token_walk(s: Seq<char>, p: int, forward: bool, wrap: bool, steps: nat) -> int
    decreases steps,
{
    if steps == 0 {
        p
    } else {
        token_walk(s, token_step(s, p, forward, wrap), forward, wrap, (steps - 1) as nat)
    }
}

/// `c` after `mag` tokens left or right.
pub open spec fn moved_by_tokens(
    s: Seq<char>,
    c: CursorModel,
    forward: bool,
    mag: nat,
    wrap: bool,
) -> CursorModel {
    landed(s, token_walk(s, clamp_index(s, c.pos), forward, wrap, mag))
}

/// `c` after a jump to the start or end of its line or of the document. A
/// cursor whose position already carries the tag of the target stays as it
/// is; any other goes to the target and aims for the target's column.
pub open spec fn jumped(s: Seq<char>, c: CursorModel, dir: Direction) -> CursorModel {
    let p = clamp_index(s, c.pos);
    let line = line_of(s, p);
    let kind = position_kind(s, p);
    let stay = CursorModel { pos: p, preferred_col: c.preferred_col };
    match dir {
        Direction::LineStart => if kind == PositionKind::LineStart {
            stay
        } else {
            CursorModel { pos: line_start(s, line), preferred_col: Some(0) }
        },
        Direction::LineEnd => if kind == PositionKind::LineEnd {
            stay
        } else {
            CursorModel {
                pos: line_start(s, line) + line_len(s, line),
                preferred_col: Some(line_len(s, line)),
            }
        },
        Direction::DocStart => if kind == PositionKind::DocStart {
            stay
        } else {
            CursorModel { pos: 0, preferred_col: Some(0) }
        },
        Direction::DocEnd => if kind == PositionKind::DocEnd {
            stay
        } else {
            CursorModel {
                pos: s.len() as int,
                preferred_col: Some(line_len(s, (line_count(s) - 1) as nat)),
            }
        },
        _ => stay,
    }
}

/// The cursor `c` after a shift in document `s`.
///
/// A shift of magnitude 0 changes nothing. In an empty document every shift
/// resets the cursor. Otherwise a position past the end counts as the end,
/// and the cursor moves as its direction says.
pub open spec fn shift_target(
    s: Seq<char>,
    c: CursorModel,
    dir: Direction,
    mag: nat,
    wrap: WrapMode,
) -> CursorModel {
    if mag == 0 {
        c
    } else if s.len() == 0 {
        initial_cursor()
    } else {
        match dir {
            Direction::Left => moved_horizontally(s, c, false, mag as int, wrap.wraps_horizontal()),
            Direction::Right => moved_horizontally(s, c, true, mag as int, wrap.wraps_horizontal()),
            Direction::Up => moved_vertically(s, c, false, mag as int, wrap.wraps_vertical()),
            Direction::Down => moved_vertically(s, c, true, mag as int, wrap.wraps_vertical()),
            Direction::TokenLeft => moved_by_tokens(s, c, false, mag, wrap.wraps_horizontal()),
            Direction::TokenRight => moved_by_tokens(s, c, true, mag, wrap.wraps_horizontal()),
            _ => jumped(s, c, dir),
        }
    }
}

/// Whether a shift reports a change: in an empty document, that the cursor
/// is not what it was; otherwise, that its position is not.
pub open spec fn shift_moves(
    s: Seq<char>,
    c: CursorModel,
    dir: Direction,
    mag: nat,
    wrap: WrapMode,
) -> bool {
    let target = shift_target(s, c, dir, mag, wrap);
    if s.len() == 0 {
        target != c
    } else {
        target.pos != c.pos
    }
}

/// A token step stays in the document.
pub proof fn lemma_token_step_in_range(s: Seq<char>, p: int, forward: bool, wrap: bool)
    requires
        0 <= p <= s.len(),
    ensures
        0 <= token_step(s, p, forward, wrap) <= s.len(),
{
    lemma_token_bounds(s, p, word_byte_offsets(s.take(clamp_index(s, p))));
    lemma_token_bounds(s, p, word_byte_offsets(s.skip(clamp_index(s, p))));
    lemma_token_bounds(s, s.len() as int, word_byte_offsets(s.take(s.len() as int)));
    lemma_token_bounds(s, 0, word_byte_offsets(s));
}

/// A walk by token steps stays in the document.
pub proof fn lemma_token_walk_in_range(s: Seq<char>, p: int, forward: bool, wrap: bool, steps: nat)
    requires
        0 <= p <= s.len(),
    ensures
        0 <= token_walk(s, p, forward, wrap, steps) <= s.len(),
    decreases steps,
{
    if steps > 0 {
        lemma_token_step_in_range(s, p, forward, wrap);
        lemma_token_walk_in_range(
            s,
            token_step(s, p, forward, wrap),
            forward,
            wrap,
            (steps - 1) as nat,
        );
    }
}

/// Once a token step leads nowhere, no number of steps does.
pub proof fn lemma_token_walk_stuck(s: Seq<char>, p: int, forward: bool, wrap: bool, steps: nat)
    requires
        token_step(s, p, forward, wrap) == p,
    ensures
        token_walk(s, p, forward, wrap, steps) == p,
    decreases steps,
{
    if steps > 0 {
        lemma_token_walk_stuck(s, p, forward, wrap, (steps - 1) as nat);
    }
}

/// A cursor that landed on a position of the document is in the document.
pub proof fn lemma_landed_in_range(s: Seq<char>, p: int)
    requires
        0 <= p <= s.len(),
    ensures
        landed(s, p).wf(),
        landed(s, p).pos == p,
{
    lemma_position_on_line(s, p);
}

/// A cursor placed on a line of the document is in the document, on that
/// line.
pub proof fn lemma_placed_in_range(s: Seq<char>, c: CursorModel, line: int)
    requires
        c.wf(),
        0 <= line < line_count(s),
    ensures
        placed_on_line(s, c, line).wf(),
        0 <= placed_on_line(s, c, line).pos <= s.len(),
        line_of(s, placed_on_line(s, c, line).pos) == line,
{
    lemma_position_on_line(s, clamp_index(s, c.pos));
    lemma_line_bounds(s, line as nat);
    let goal = goal_column(s, c);
    let len = line_len(s, line as nat);
    lemma_line_of_column(s, line as nat, if goal <= len { goal } else { len });
}

/// A cursor that jumped is in the document.
pub proof fn lemma_jumped_in_range(s: Seq<char>, c: CursorModel, dir: Direction)
    requires
        c.wf(),
    ensures
        jumped(s, c, dir).wf(),
        0 <= jumped(s, c, dir).pos <= s.len(),
{
    let p = clamp_index(s, c.pos);
    lemma_position_on_line(s, p);
    lemma_line_bounds(s, line_of(s, p));
    lemma_line_start(s, line_of(s, p));
    lemma_line_bounds(s, (line_count(s) - 1) as nat);
}

/// A shift leaves the cursor in the document, whatever it was before.
pub proof fn lemma_shift_in_range(
    s: Seq<char>,
    c: CursorModel,
    dir: Direction,
    mag: nat,
    wrap: WrapMode,
)
    requires
        c.wf(),
        mag > 0,
    ensures
        0 <= shift_target(s, c, dir, mag, wrap).pos <= s.len(),
        shift_target(s, c, dir, mag, wrap).wf(),
{
    let p = clamp_index(s, c.pos);
    let line = line_of(s, p) as int;
    let last = line_count(s) - 1;
    lemma_position_on_line(s, p);
    if s.len() > 0 {
        match dir {
            Direction::Left | Direction::Right => {
                let forward = dir == Direction::Right;
                let to = stepped(p, mag as int, s.len() as int, forward, wrap.wraps_horizontal());
                lemma_stepped_in_range(p, mag as int, s.len() as int, forward, wrap.wraps_horizontal());
                lemma_landed_in_range(s, to);
            },
            Direction::Up | Direction::Down => {
                let forward = dir == Direction::Down;
                let to = stepped(line, mag as int, last, forward, wrap.wraps_vertical());
                lemma_stepped_in_range(line, mag as int, last, forward, wrap.wraps_vertical());
                lemma_placed_in_range(s, c, to);
            },
            Direction::TokenLeft | Direction::TokenRight => {
                let forward = dir == Direction::TokenRight;
                lemma_token_walk_in_range(s, p, forward, wrap.wraps_horizontal(), mag);
                lemma_landed_in_range(s, token_walk(s, p, forward, wrap.wraps_horizontal(), mag));
            },
            _ => {
                lemma_jumped_in_range(s, c, dir);
            },
        }
    }
}

/// One character right and then one character left, without wrapping, leads
/// back to where the cursor was, from every position before the end of the
/// document.
pub proof fn lemma_right_then_left_restores(s: Seq<char>, c: CursorModel)
    requires
        0 <= c.pos < s.len(),
    ensures
        shift_target(s, c, Direction::Right, 1, WrapMode::NoWrap).pos == c.pos + 1,
        shift_target(
            s,
            shift_target(s, c, Direction::Right, 1, WrapMode::NoWrap),
            Direction::Left,
            1,
            WrapMode::NoWrap,
        ).pos == c.pos,
{
}

/// At the end of the document a step right without wrapping reports no move
/// and leaves the position as it is. The cursor then aims for the column it
/// stands in, so a cursor that did so before is left unchanged altogether.
pub proof fn lemma_right_at_end_stays(s: Seq<char>, c: CursorModel, mag: nat)
    requires
        position_kind(s, c.pos) == PositionKind::DocEnd,
    ensures
        !shift_moves(s, c, Direction::Right, mag, WrapMode::NoWrap),
        shift_target(s, c, Direction::Right, mag, WrapMode::NoWrap).pos == c.pos,
        c.preferred_col == Some(column_of(s, c.pos)) ==> shift_target(
            s,
            c,
            Direction::Right,
            mag,
            WrapMode::NoWrap,
        ) == c,
{
}

/// In an empty document every shift of a magnitude above 0 leaves the cursor
/// at position 0, aiming for column 0. A cursor that was there before is
/// reported as not moved.
pub proof fn lemma_shift_in_empty_document(
    s: Seq<char>,
    c: CursorModel,
    dir: Direction,
    mag: nat,
    wrap: WrapMode,
)
    requires
        s.len() == 0,
    ensures
        mag > 0 ==> shift_target(s, c, dir, mag, wrap) == initial_cursor(),
        c == initial_cursor() ==> shift_target(s, c, dir, mag, wrap) == c && !shift_moves(
            s,
            c,
            dir,
            mag,
            wrap,
        ),
{
}

/// A shift of magnitude 0 changes nothing and reports no move.
pub proof fn lemma_shift_by_zero(s: Seq<char>, c: CursorModel, dir: Direction, wrap: WrapMode)
    ensures
        shift_target(s, c, dir, 0, wrap) == c,
        !shift_moves(s, c, dir, 0, wrap),
{
}

/// A jump made twice is the jump made once.
pub proof fn lemma_jump_idempotent(s: Seq<char>, c: CursorModel, dir: Direction)
    requires
        s.len() > 0,
    ensures
        jumped(s, jumped(s, c, dir), dir) == jumped(s, c, dir),
{
    let p = clamp_index(s, c.pos);
    let line = line_of(s, p);
    lemma_position_on_line(s, p);
    lemma_line_bounds(s, line);
    lemma_line_of_column(s, line, 0);
    lemma_line_of_column(s, line, line_len(s, line));
    let last = (line_count(s) - 1) as nat;
    lemma_line_bounds(s, last);
    lemma_line_of_column(s, last, line_len(s, last));
}

/// Vertical motion by `m + 1` lines is one line followed by `m` lines: the
/// column aimed for survives every line on the way.
pub proof fn lemma_vertical_motion_composes(
    s: Seq<char>,
    c: CursorModel,
    forward: bool,
    m: nat,
    wrap: bool,
)
    requires
        c.wf(),
    ensures
        moved_vertically(s, moved_vertically(s, c, forward, 1, wrap), forward, m as int, wrap)
            == moved_vertically(s, c, forward, m as int + 1, wrap),
{
    let p = clamp_index(s, c.pos);
    let line = line_of(s, p) as int;
    let last = line_count(s) - 1;
    lemma_position_on_line(s, p);
    lemma_stepped_in_range(line, 1, last, forward, wrap);
    let next = stepped(line, 1, last, forward, wrap);
    lemma_stepped_is_walked(line, 1, last, forward, wrap);
    reveal_with_fuel(walked, 2);
    assert(next == one_step(line, last, forward, wrap));
    lemma_stepped_is_walked(line, (m + 1) as nat, last, forward, wrap);
    lemma_stepped_is_walked(next, m, last, forward, wrap);
    let goal = goal_column(s, c);
    let len = line_len(s, next as nat);
    lemma_line_bounds(s, next as nat);
    let col = if goal <= len { goal } else { len };
    lemma_line_of_column(s, next as nat, col);
}

impl Cursor {
    /// A cursor at the start of a document, aiming for column 0.
    pub fn new() -> (cursor: Self)
        ensures
            cursor@ == initial_cursor(),
    {
        Self { pos: 0, preferred_col: Some(0) }
    }

    /// Index of the character that the cursor stands in front of.
    pub fn position(&self) -> (pos: usize)
        ensures
            pos == self@.pos,
    {
        self.pos
    }

    /// The column that vertical motion aims for.
    pub fn preferred_column(&self) -> (col: Option<usize>)
        ensures
            col == self.preferred_col,
    {
        self.preferred_col
    }

    /// Puts the cursor at `char_idx`, or at the end of the document if
    /// `char_idx` lies past it, and aims for the column it lands in.
    pub fn set_pos(&mut self, doc: &DocumentBuffer, char_idx: usize)
        ensures
            final(self)@ == landed(doc@, clamp_index(doc@, char_idx as int)),
            final(self).pos <= doc@.len(),
    {
        let at = doc.get_position(char_idx);
        self.pos = at.idx;
        self.preferred_col = Some(at.col);
    }

    /// Puts the cursor on `line`, at its goal column or at the end of the line
    /// if the line is shorter, and keeps the goal.
    fn place_on_line(&mut self, doc: &DocumentBuffer, line: usize)
        requires
            line < line_count(doc@),
        ensures
            final(self)@ == placed_on_line(doc@, old(self)@, line as int),
            final(self).pos <= doc@.len(),
    {
        let goal: usize = match self.preferred_col {
            Some(goal) => goal,
            None => doc.get_position(self.pos).col,
        };
        let start: usize = doc.line_to_char(line);
        let len: usize = doc.line_len(line);
        proof {
            lemma_line_bounds(doc@, line as nat);
        }
        self.pos = start + if goal <= len { goal } else { len };
        self.preferred_col = Some(goal);
    }

    /// One token step from `p`.
    fn token_step(doc: &DocumentBuffer, p: usize, forward: bool, wrap: bool) -> (next: usize)
        requires
            p <= doc@.len(),
        ensures
            next == token_step(doc@, p as int, forward, wrap),
            next <= doc@.len(),
    {
        let n: usize = doc.char_count();
        if forward {
            if p < n {
                doc.next_token_start(p)
            } else if wrap {
                doc.first_token_start()
            } else {
                p
            }
        } else {
            if p > 0 {
                doc.prev_token_start(p)
            } else if wrap {
                doc.prev_token_start(n)
            } else {
                p
            }
        }
    }

    /// `mag` token steps from `start`. Stops as soon as a step leads nowhere.
    fn walk_tokens(doc: &DocumentBuffer, start: usize, forward: bool, wrap: bool, mag: usize) -> (end:
        usize)
        requires
            start <= doc@.len(),
        ensures
            end == token_walk(doc@, start as int, forward, wrap, mag as nat),
            end <= doc@.len(),
    {
        let mut at: usize = start;
        let mut left: usize = mag;
        while left > 0
            invariant
                at <= doc@.len(),
                token_walk(doc@, at as int, forward, wrap, left as nat) == token_walk(
                    doc@,
                    start as int,
                    forward,
                    wrap,
                    mag as nat,
                ),
            decreases left,
        {
            let next: usize = Self::token_step(doc, at, forward, wrap);
            if next == at {
                proof {
                    lemma_token_walk_stuck(doc@, at as int, forward, wrap, left as nat);
                }
                return at;
            }
            at = next;
            left = left - 1;
        }
        at
    }

    /// Jumps to the start or end of the line or of the document, unless the
    /// cursor's position already carries the tag of the target.
    fn jump(&mut self, doc: &DocumentBuffer, dir: Direction)
        requires
            doc@.len() > 0,
        ensures
            final(self)@ == jumped(doc@, old(self)@, dir),
            final(self).pos <= doc@.len(),
    {
        let n: usize = doc.char_count();
        let at = doc.get_position(self.pos);
        let line = doc.line(self.pos);
        self.pos = at.idx;
        match dir {
            Direction::LineStart => {
                if at.kind != PositionKind::LineStart {
                    self.pos = line.start_idx;
                    self.preferred_col = Some(0);
                }
            },
            Direction::LineEnd => {
                if at.kind != PositionKind::LineEnd {
                    self.pos = line.start_idx + line.len_chars;
                    self.preferred_col = Some(line.len_chars);
                }
            },
            Direction::DocStart => {
                if at.kind != PositionKind::DocStart {
                    self.pos = 0;
                    self.preferred_col = Some(0);
                }
            },
            Direction::DocEnd => {
                if at.kind != PositionKind::DocEnd {
                    self.pos = n;
                    self.preferred_col = Some(doc.line_len(doc.last_line_idx()));
                }
            },
            _ => {},
        }
    }

    /// Moves the cursor in `doc` by `mag` in direction `dir`, and says whether
    /// it moved.
    ///
    /// Nothing happens for `mag == 0`. In an empty document the cursor is
    /// reset to the start, aiming for column 0, and the result says whether
    /// that changed it. Otherwise the result says whether the position
    /// changed, and the motion is:
    ///
    /// - `Left`, `Right`: `mag` characters, stopping at the ends of the
    ///   document, or going round them when `wrap` is horizontal. The cursor
    ///   then aims for the column it landed in.
    /// - `Up`, `Down`: `mag` lines, stopping at the first and last line, or
    ///   going round them when `wrap` is vertical. The cursor lands in its
    ///   goal column, or at the end of a shorter line, and keeps its goal.
    /// - `TokenLeft`, `TokenRight`: `mag` times to the start of the previous
    ///   or next word. At the end of the document that lies in the direction
    ///   of travel a step goes to the last or first word of the document when
    ///   `wrap` is horizontal, and nowhere otherwise. The cursor then aims for
    ///   the column it landed in.
    /// - `LineStart`, `LineEnd`, `DocStart`, `DocEnd`: to that place, aiming
    ///   for its column, unless the cursor's position already has that tag.
    pub fn shift(&mut self, doc: &DocumentBuffer, dir: Direction, mag: usize, wrap: WrapMode) -> (moved:
        bool)
        ensures
            final(self)@ == shift_target(doc@, old(self)@, dir, mag as nat, wrap),
            moved == shift_moves(doc@, old(self)@, dir, mag as nat, wrap),
            mag > 0 ==> final(self).pos <= doc@.len(),
    {
        if mag == 0 {
            return false;
        }
        let n: usize = doc.char_count();
        let before: usize = self.pos;
        if n == 0 {
            let was_initial = before == 0 && match self.preferred_col {
                Some(col) => col == 0,
                None => false,
            };
            self.pos = 0;
            self.preferred_col = Some(0);
            return !was_initial;
        }
        let start: usize = if before < n { before } else { n };
        match dir {
            Direction::Left => {
                let to: usize = step_backward(start, mag, n, wrap.horizontal());
                self.set_pos(doc, to);
            },
            Direction::Right => {
                let to: usize = step_forward(start, mag, n, wrap.horizontal());
                self.set_pos(doc, to);
            },
            Direction::Up => {
                let line: usize = doc.char_to_line(start);
                let to: usize = step_backward(line, mag, doc.last_line_idx(), wrap.vertical());
                self.place_on_line(doc, to);
            },
            Direction::Down => {
                let line: usize = doc.char_to_line(start);
                let to: usize = step_forward(line, mag, doc.last_line_idx(), wrap.vertical());
                self.place_on_line(doc, to);
            },
            Direction::TokenLeft => {
                let to: usize = Self::walk_tokens(doc, start, false, wrap.horizontal(), mag);
                self.set_pos(doc, to);
            },
            Direction::TokenRight => {
                let to: usize = Self::walk_tokens(doc, start, true, wrap.horizontal(), mag);
                self.set_pos(doc, to);
            },
            _ => {
                self.jump(doc, dir);
            },
        }
        self.pos != before
    }
}

impl Default for Cursor {
    fn default() -> (cursor: Self)
        ensures
            cursor@ == initial_cursor(),
    {
        Self::new()
    }
}

} // verus!
