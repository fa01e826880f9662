use vellum_core::cursor::{Cursor, Direction, WrapMode};
use vellum_core::document::DocumentBuffer;

const ALL_DIRECTIONS: [Direction; 10] = [
    Direction::Left,
    Direction::Right,
    Direction::Up,
    Direction::Down,
    Direction::TokenLeft,
    Direction::TokenRight,
    Direction::LineStart,
    Direction::LineEnd,
    Direction::DocStart,
    Direction::DocEnd,
];

const ALL_WRAPS: [WrapMode; 4] =
    [WrapMode::NoWrap, WrapMode::Horizontal, WrapMode::Vertical, WrapMode::Everywhere];

fn three_lines() -> DocumentBuffer {
    DocumentBuffer::from_string("abc\nabcdefghij\nz")
}

fn cursor_at(doc: &DocumentBuffer, idx: usize) -> Cursor {
    let mut cursor = Cursor::new();
    cursor.set_pos(doc, idx);
    cursor
}

#[test]
fn new_cursor_is_at_start() {
    let cursor = Cursor::new();
    assert_eq!(cursor.pos, 0);
    assert_eq!(cursor.position(), 0);
    assert_eq!(cursor.preferred_column(), Some(0));
    assert_eq!(Cursor::default(), cursor);
}

#[test]
fn wrap_mode_axes() {
    assert_eq!(WrapMode::from_axes(false, false), WrapMode::NoWrap);
    assert_eq!(WrapMode::from_axes(true, false), WrapMode::Horizontal);
    assert_eq!(WrapMode::from_axes(false, true), WrapMode::Vertical);
    assert_eq!(WrapMode::from_axes(true, true), WrapMode::Everywhere);
    for wrap in ALL_WRAPS {
        assert_eq!(WrapMode::from_axes(wrap.horizontal(), wrap.vertical()), wrap);
    }
    assert!(!WrapMode::NoWrap.horizontal() && !WrapMode::NoWrap.vertical());
    assert!(WrapMode::Everywhere.horizontal() && WrapMode::Everywhere.vertical());
}

#[test]
fn set_pos_lands_and_anchors_column() {
    let doc = three_lines();
    let mut cursor = Cursor::new();
    cursor.set_pos(&doc, 9);
    assert_eq!(cursor.pos, 9);
    assert_eq!(cursor.preferred_column(), Some(5));
    cursor.set_pos(&doc, 99);
    assert_eq!(cursor.pos, 16);
    assert_eq!(cursor.preferred_column(), Some(1));
}

#[test]
fn wrap_and_clamp_scenario() {
    let doc = three_lines();
    let mut cursor = cursor_at(&doc, 2);
    assert_eq!(doc.get_position(cursor.pos).line, 0);
    assert_eq!(doc.get_position(cursor.pos).col, 2);

    assert!(cursor.shift(&doc, Direction::Down, 1, WrapMode::NoWrap));
    let pos = doc.get_position(cursor.pos);
    assert_eq!((pos.line, pos.col), (1, 2));
    assert_eq!(cursor.pos, 6);

    assert!(cursor.shift(&doc, Direction::Down, 1, WrapMode::NoWrap));
    let pos = doc.get_position(cursor.pos);
    assert_eq!((pos.line, pos.col), (2, 1));
    assert_eq!(cursor.preferred_column(), Some(2));

    let mut clamped = cursor;
    assert!(!clamped.shift(&doc, Direction::Down, 1, WrapMode::NoWrap));
    assert_eq!(clamped, cursor);

    let mut wrapped = cursor;
    assert!(wrapped.shift(&doc, Direction::Down, 1, WrapMode::Vertical));
    let pos = doc.get_position(wrapped.pos);
    assert_eq!((pos.line, pos.col), (0, 2));
    assert_eq!(wrapped.preferred_column(), Some(2));
}

#[test]
fn vertical_motion_restores_column_on_longer_line() {
    let doc = DocumentBuffer::from_string("abcdefgh\nab\nabcdefgh");
    let mut cursor = cursor_at(&doc, 6);
    assert!(cursor.shift(&doc, Direction::Down, 1, WrapMode::NoWrap));
    assert_eq!(cursor.pos, 11);
    assert_eq!(cursor.preferred_column(), Some(6));
    assert!(cursor.shift(&doc, Direction::Down, 1, WrapMode::NoWrap));
    assert_eq!(cursor.pos, 18);
    assert!(cursor.shift(&doc, Direction::Up, 2, WrapMode::NoWrap));
    assert_eq!(cursor.pos, 6);
    assert_eq!(cursor.preferred_column(), Some(6));
}

#[test]
fn vertical_motion_without_remembered_column_uses_current() {
    let doc = three_lines();
    let mut cursor = Cursor { pos: 9, preferred_col: None };
    assert!(cursor.shift(&doc, Direction::Up, 1, WrapMode::NoWrap));
    assert_eq!(cursor.pos, 3);
    assert_eq!(cursor.preferred_column(), Some(5));
}

#[test]
fn vertical_motion_absorbs_excess_magnitude() {
    let doc = three_lines();
    let mut cursor = cursor_at(&doc, 5);
    assert!(cursor.shift(&doc, Direction::Down, 7, WrapMode::NoWrap));
    assert_eq!(cursor.pos, 16);
    assert!(cursor.shift(&doc, Direction::Up, usize::MAX, WrapMode::Horizontal));
    assert_eq!(cursor.pos, 1);
    assert!(!cursor.shift(&doc, Direction::Up, 3, WrapMode::NoWrap));
    assert_eq!(cursor.pos, 1);
}

#[test]
fn vertical_wrap_goes_round_the_lines() {
    let doc = three_lines();
    let mut cursor = cursor_at(&doc, 1);
    assert!(cursor.shift(&doc, Direction::Up, 1, WrapMode::Vertical));
    assert_eq!(cursor.pos, 16);
    assert!(cursor.shift(&doc, Direction::Down, 2, WrapMode::Everywhere));
    assert_eq!(cursor.pos, 5);
    assert!(!cursor.shift(&doc, Direction::Down, 3, WrapMode::Vertical));
    assert_eq!(cursor.pos, 5);
    assert!(cursor.shift(&doc, Direction::Up, 7, WrapMode::Vertical));
    assert_eq!(cursor.pos, 1);
}

#[test]
fn right_then_left_restores_position() {
    let doc = three_lines();
    for idx in 0..doc.char_count() {
        let mut cursor = cursor_at(&doc, idx);
        assert!(cursor.shift(&doc, Direction::Right, 1, WrapMode::NoWrap));
        assert_eq!(cursor.pos, idx + 1);
        assert!(cursor.shift(&doc, Direction::Left, 1, WrapMode::NoWrap));
        assert_eq!(cursor.pos, idx);
    }
}

#[test]
fn right_at_doc_end_without_wrap_is_no_op() {
    let doc = three_lines();
    let mut cursor = cursor_at(&doc, 16);
    let before = cursor;
    assert!(!cursor.shift(&doc, Direction::Right, 1, WrapMode::NoWrap));
    assert_eq!(cursor, before);
    assert!(!cursor.shift(&doc, Direction::Right, 5, WrapMode::Vertical));
    assert_eq!(cursor, before);
}

#[test]
fn left_at_doc_start_without_wrap_is_no_op() {
    let doc = three_lines();
    let mut cursor = Cursor::new();
    assert!(!cursor.shift(&doc, Direction::Left, 1, WrapMode::NoWrap));
    assert_eq!(cursor, Cursor::new());
}

#[test]
fn horizontal_motion_clamps() {
    let doc = three_lines();
    let mut cursor = cursor_at(&doc, 14);
    assert!(cursor.shift(&doc, Direction::Right, 10, WrapMode::NoWrap));
    assert_eq!(cursor.pos, 16);
    assert!(cursor.shift(&doc, Direction::Left, usize::MAX, WrapMode::NoWrap));
    assert_eq!(cursor.pos, 0);
}

#[test]
fn horizontal_motion_crosses_lines_and_anchors_column() {
    let doc = three_lines();
    let mut cursor = cursor_at(&doc, 3);
    assert!(cursor.shift(&doc, Direction::Right, 1, WrapMode::NoWrap));
    assert_eq!(cursor.pos, 4);
    assert_eq!(cursor.preferred_column(), Some(0));
    assert!(cursor.shift(&doc, Direction::Left, 2, WrapMode::NoWrap));
    assert_eq!(cursor.pos, 2);
    assert_eq!(cursor.preferred_column(), Some(2));
}

#[test]
fn horizontal_motion_re_anchors_a_sticky_column() {
    let doc = three_lines();
    let mut cursor = cursor_at(&doc, 9);
    assert!(cursor.shift(&doc, Direction::Down, 1, WrapMode::NoWrap));
    assert_eq!(cursor.preferred_column(), Some(5));
    assert!(cursor.shift(&doc, Direction::Left, 1, WrapMode::NoWrap));
    assert_eq!(cursor.pos, 15);
    assert_eq!(cursor.preferred_column(), Some(0));
}

#[test]
fn horizontal_wrap_is_a_ring_of_all_positions() {
    let doc = DocumentBuffer::from_string("abc");
    let mut cursor = cursor_at(&doc, 3);
    assert!(cursor.shift(&doc, Direction::Right, 1, WrapMode::Horizontal));
    assert_eq!(cursor.pos, 0);
    assert!(cursor.shift(&doc, Direction::Left, 1, WrapMode::Horizontal));
    assert_eq!(cursor.pos, 3);
    assert!(cursor.shift(&doc, Direction::Right, 6, WrapMode::Everywhere));
    assert_eq!(cursor.pos, 1);
    assert!(cursor.shift(&doc, Direction::Left, 7, WrapMode::Horizontal));
    assert_eq!(cursor.pos, 2);
    assert!(!cursor.shift(&doc, Direction::Left, 8, WrapMode::Horizontal));
    assert_eq!(cursor.pos, 2);
    assert!(cursor.shift(&doc, Direction::Right, usize::MAX, WrapMode::Horizontal));
    assert_eq!(cursor.pos, (2 + (usize::MAX % 4)) % 4);
}

#[test]
fn zero_magnitude_is_no_op() {
    let doc = three_lines();
    for dir in ALL_DIRECTIONS {
        for wrap in ALL_WRAPS {
            let mut cursor = Cursor { pos: 7, preferred_col: Some(9) };
            assert!(!cursor.shift(&doc, dir, 0, wrap));
            assert_eq!(cursor, Cursor { pos: 7, preferred_col: Some(9) });
        }
    }
    let empty = DocumentBuffer::new();
    let mut cursor = Cursor { pos: 7, preferred_col: None };
    assert!(!cursor.shift(&empty, Direction::Left, 0, WrapMode::NoWrap));
    assert_eq!(cursor, Cursor { pos: 7, preferred_col: None });
}

#[test]
fn shift_on_empty_document_stays_at_zero() {
    let doc = DocumentBuffer::new();
    for dir in ALL_DIRECTIONS {
        for wrap in ALL_WRAPS {
            for mag in [1, 2, 17] {
                let mut cursor = Cursor::new();
                assert!(!cursor.shift(&doc, dir, mag, wrap));
                assert_eq!(cursor.pos, 0);
                assert_eq!(cursor, Cursor::new());
            }
        }
    }
}

#[test]
fn shift_on_empty_document_resets_a_stale_cursor() {
    let doc = DocumentBuffer::new();
    let mut cursor = Cursor { pos: 4, preferred_col: Some(2) };
    assert!(cursor.shift(&doc, Direction::Right, 1, WrapMode::NoWrap));
    assert_eq!(cursor, Cursor::new());
    let mut cursor = Cursor { pos: 0, preferred_col: None };
    assert!(cursor.shift(&doc, Direction::Up, 1, WrapMode::NoWrap));
    assert_eq!(cursor, Cursor::new());
}

#[test]
fn stale_position_counts_as_the_end() {
    let doc = three_lines();
    let mut cursor = Cursor { pos: 40, preferred_col: Some(0) };
    assert!(cursor.shift(&doc, Direction::Left, 1, WrapMode::NoWrap));
    assert_eq!(cursor.pos, 15);
}

#[test]
fn line_start_and_line_end_jumps() {
    let doc = three_lines();
    let mut cursor = cursor_at(&doc, 9);
    assert!(cursor.shift(&doc, Direction::LineEnd, 1, WrapMode::NoWrap));
    assert_eq!(cursor.pos, 14);
    assert_eq!(cursor.preferred_column(), Some(10));
    assert!(!cursor.shift(&doc, Direction::LineEnd, 1, WrapMode::NoWrap));
    assert_eq!(cursor.pos, 14);
    assert!(cursor.shift(&doc, Direction::LineStart, 3, WrapMode::Everywhere));
    assert_eq!(cursor.pos, 4);
    assert_eq!(cursor.preferred_column(), Some(0));
    assert!(!cursor.shift(&doc, Direction::LineStart, 1, WrapMode::NoWrap));
    assert_eq!(cursor.pos, 4);
}

#[test]
fn jump_that_matches_keeps_the_remembered_column() {
    let doc = DocumentBuffer::from_string("abcdef\n\nabcdef");
    let mut cursor = cursor_at(&doc, 4);
    assert!(cursor.shift(&doc, Direction::Down, 1, WrapMode::NoWrap));
    assert_eq!(cursor.pos, 7);
    assert_eq!(cursor.preferred_column(), Some(4));
    assert!(!cursor.shift(&doc, Direction::LineStart, 1, WrapMode::NoWrap));
    assert_eq!(cursor.preferred_column(), Some(4));
    assert!(!cursor.shift(&doc, Direction::LineEnd, 1, WrapMode::NoWrap));
    assert_eq!(cursor.pos, 7);
    assert_eq!(cursor.preferred_column(), Some(0));
}

#[test]
fn doc_start_and_doc_end_jumps() {
    let doc = three_lines();
    let mut cursor = cursor_at(&doc, 9);
    assert!(cursor.shift(&doc, Direction::DocEnd, 1, WrapMode::NoWrap));
    assert_eq!(cursor.pos, 16);
    assert_eq!(cursor.preferred_column(), Some(1));
    assert!(!cursor.shift(&doc, Direction::DocEnd, 1, WrapMode::Everywhere));
    assert_eq!(cursor.pos, 16);
    assert!(cursor.shift(&doc, Direction::DocStart, 1, WrapMode::NoWrap));
    assert_eq!(cursor.pos, 0);
    assert_eq!(cursor.preferred_column(), Some(0));
    assert!(!cursor.shift(&doc, Direction::DocStart, 2, WrapMode::NoWrap));
    assert_eq!(cursor.pos, 0);
}

#[test]
fn token_motion_moves_word_by_word() {
    let doc = DocumentBuffer::from_string("one two\nthree  four");
    let mut cursor = Cursor::new();
    assert!(cursor.shift(&doc, Direction::TokenRight, 1, WrapMode::NoWrap));
    assert_eq!(cursor.pos, 4);
    assert_eq!(cursor.preferred_column(), Some(4));
    assert!(cursor.shift(&doc, Direction::TokenRight, 2, WrapMode::NoWrap));
    assert_eq!(cursor.pos, 15);
    assert_eq!(cursor.preferred_column(), Some(7));
    assert!(cursor.shift(&doc, Direction::TokenRight, 1, WrapMode::NoWrap));
    assert_eq!(cursor.pos, 19);
    assert!(!cursor.shift(&doc, Direction::TokenRight, 1, WrapMode::NoWrap));
    assert_eq!(cursor.pos, 19);
    assert!(cursor.shift(&doc, Direction::TokenLeft, 1, WrapMode::NoWrap));
    assert_eq!(cursor.pos, 15);
    assert!(cursor.shift(&doc, Direction::TokenLeft, 50, WrapMode::NoWrap));
    assert_eq!(cursor.pos, 0);
    assert!(!cursor.shift(&doc, Direction::TokenLeft, 1, WrapMode::Vertical));
    assert_eq!(cursor.pos, 0);
}

#[test]
fn token_motion_wraps_to_the_far_token() {
    let doc = DocumentBuffer::from_string(" one two ");
    let mut cursor = Cursor::new();
    assert!(cursor.shift(&doc, Direction::TokenLeft, 1, WrapMode::Horizontal));
    assert_eq!(cursor.pos, 5);
    assert!(cursor.shift(&doc, Direction::TokenRight, 1, WrapMode::Horizontal));
    assert_eq!(cursor.pos, 9);
    assert!(cursor.shift(&doc, Direction::TokenRight, 1, WrapMode::Everywhere));
    assert_eq!(cursor.pos, 1);
    assert!(cursor.shift(&doc, Direction::TokenLeft, 2, WrapMode::Horizontal));
    assert_eq!(cursor.pos, 5);
}
