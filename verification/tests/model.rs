use unicode_segmentation::UnicodeSegmentation;
use vellum_core::cursor::{Cursor, Direction, WrapMode};
use vellum_core::document::DocumentBuffer;
use vellum_core::editor::Editor;
use vellum_core::position::PositionKind;

/// A small deterministic generator, so that every run sees the same texts.
struct Lcg(u64);

impl Lcg {
    fn next(&mut self) -> u64 {
        self.0 = self.0.wrapping_mul(6364136223846793005).wrapping_add(1442695040888963407);
        self.0 >> 33
    }

    fn below(&mut self, bound: usize) -> usize {
        (self.next() % bound as u64) as usize
    }

    fn text(&mut self, len: usize) -> String {
        let alphabet =
            ['a', 'b', 'z', ' ', ' ', '\n', '\n', '\r', '.', '\u{e9}', '\u{4e16}', '\u{1F600}', '7', '\u{2028}'];
        (0..len).map(|_| alphabet[self.below(alphabet.len())]).collect()
    }
}

fn line_starts(chars: &[char]) -> Vec<usize> {
    let mut starts = vec![0];
    for (i, c) in chars.iter().enumerate() {
        if *c == '\n' {
            starts.push(i + 1);
        }
    }
    starts
}

fn word_starts(chars: &[char]) -> Vec<usize> {
    let text: String = chars.iter().collect();
    text.unicode_word_indices().map(|(offset, _)| text[..offset].chars().count()).collect()
}

fn check_lines(text: &str) {
    let doc = DocumentBuffer::from_string(text);
    let chars: Vec<char> = text.chars().collect();
    let starts = line_starts(&chars);
    let n = chars.len();
    assert_eq!(doc.char_count(), n);
    assert_eq!(doc.line_count(), starts.len());
    assert_eq!(doc.text(), text);
    for (line, start) in starts.iter().enumerate() {
        let end = if line + 1 < starts.len() { starts[line + 1] - 1 } else { n };
        assert_eq!(doc.line_to_char(line), *start);
        assert_eq!(doc.line_len(line), end - start);
        assert_eq!(doc.line_text(line), chars[*start..end].iter().collect::<String>());
    }
    assert_eq!(doc.line_to_char(starts.len()), n);
    for idx in 0..=n {
        let line = starts.iter().filter(|start| **start <= idx).count() - 1;
        let pos = doc.get_position(idx);
        assert_eq!(doc.char_to_line(idx), line);
        assert_eq!((pos.line, pos.col, pos.idx), (line, idx - starts[line], idx));
        let end = if line + 1 < starts.len() { starts[line + 1] - 1 } else { n };
        let kind = if idx == 0 {
            PositionKind::DocStart
        } else if idx == n {
            PositionKind::DocEnd
        } else if idx == starts[line] {
            PositionKind::LineStart
        } else if idx == end {
            PositionKind::LineEnd
        } else {
            PositionKind::LineCol
        };
        assert_eq!(pos.kind, kind);
    }
}

fn check_tokens(text: &str) {
    let doc = DocumentBuffer::from_string(text);
    let chars: Vec<char> = text.chars().collect();
    let n = chars.len();
    assert_eq!(doc.first_token_start(), word_starts(&chars).first().copied().unwrap_or(n));
    for idx in 0..=n {
        let before = word_starts(&chars[..idx]).last().copied().unwrap_or(0);
        assert_eq!(doc.prev_token_start(idx), before);
        let after = word_starts(&chars[idx..]).into_iter().find(|start| *start > 0);
        assert_eq!(doc.next_token_start(idx), after.map_or(n, |start| idx + start));
        if idx > 0 {
            assert!(doc.prev_token_start(idx) < idx);
        }
        if idx < n {
            assert!(doc.next_token_start(idx) > idx);
        }
    }
}

#[test]
fn lines_agree_with_a_plain_scan() {
    let mut rng = Lcg(1);
    for round in 0..300 {
        let text = rng.text(round % 40);
        check_lines(&text);
    }
}

#[test]
fn lines_agree_with_a_plain_scan_on_long_text() {
    let mut rng = Lcg(2);
    for _ in 0..3 {
        let text = rng.text(6000);
        check_lines(&text);
    }
}

#[test]
fn tokens_agree_with_segmentation_of_the_parts() {
    let mut rng = Lcg(3);
    for round in 0..200 {
        let text = rng.text(round % 30);
        check_tokens(&text);
    }
}

#[test]
fn tokens_agree_on_long_text() {
    let mut rng = Lcg(4);
    let text = rng.text(3000);
    let doc = DocumentBuffer::from_string(&text);
    let chars: Vec<char> = text.chars().collect();
    for idx in [0, 1, 999, 1000, 1500, 2047, 2048, 2999, 3000] {
        let before = word_starts(&chars[..idx]).last().copied().unwrap_or(0);
        assert_eq!(doc.prev_token_start(idx), before);
        let after = word_starts(&chars[idx..]).into_iter().find(|start| *start > 0);
        assert_eq!(doc.next_token_start(idx), after.map_or(3000, |start| idx + start));
    }
}

#[test]
fn edits_agree_with_a_plain_string() {
    let mut rng = Lcg(5);
    let mut editor = Editor::new();
    let mut model: Vec<char> = Vec::new();
    for _ in 0..400 {
        if rng.below(3) > 0 {
            let len = rng.below(700);
            let piece = rng.text(len);
            let at = rng.below(model.len() + 2);
            let done = editor.write(&piece, at);
            if at <= model.len() {
                let added: Vec<char> = piece.chars().collect();
                assert_eq!(done.ok().unwrap().idx, at + added.len());
                assert_eq!(editor.cursor.pos, at + added.len());
                model.splice(at..at, added);
            } else {
                assert!(done.is_err());
            }
        } else {
            let start = rng.below(model.len() + 2);
            let end = rng.below(model.len() + 2);
            let done = editor.delete(start, end);
            if start <= end && end <= model.len() {
                assert_eq!(done.ok().unwrap().idx, start);
                assert_eq!(editor.cursor.pos, start);
                model.drain(start..end);
            } else {
                assert!(done.is_err());
            }
        }
        assert_eq!(editor.contents.char_count(), model.len());
    }
    let text: String = model.iter().collect();
    assert_eq!(editor.contents.text(), text);
    assert_eq!(editor.save_document(), text.as_bytes().to_vec());
    check_lines(&text);
}

#[test]
fn load_agrees_with_utf8_validity() {
    let mut rng = Lcg(6);
    for round in 0..300 {
        let mut bytes = rng.text(round % 50).into_bytes();
        if round % 2 == 1 && !bytes.is_empty() {
            let at = rng.below(bytes.len());
            bytes[at] = (rng.next() % 256) as u8;
        }
        match (DocumentBuffer::load(&bytes), std::str::from_utf8(&bytes)) {
            (Ok(doc), Ok(text)) => {
                assert_eq!(doc.text(), text);
                assert_eq!(doc.save(), bytes);
            }
            (Err(_), Err(_)) => {}
            _ => panic!("load and UTF-8 validity disagree"),
        }
    }
}

#[test]
fn single_steps_add_up_to_one_shift() {
    let mut rng = Lcg(7);
    let moves = [
        Direction::Left,
        Direction::Right,
        Direction::Up,
        Direction::Down,
        Direction::TokenLeft,
        Direction::TokenRight,
    ];
    let wraps = [WrapMode::NoWrap, WrapMode::Horizontal, WrapMode::Vertical, WrapMode::Everywhere];
    for round in 0..200 {
        let text = rng.text(1 + round % 40);
        let doc = DocumentBuffer::from_string(&text);
        let dir = moves[rng.below(moves.len())];
        let wrap = wraps[rng.below(wraps.len())];
        let mag = rng.below(12);
        let mut at_once = Cursor::new();
        let from = rng.below(doc.char_count() + 1);
        at_once.set_pos(&doc, from);
        let mut stepwise = at_once;
        at_once.shift(&doc, dir, mag, wrap);
        for _ in 0..mag {
            stepwise.shift(&doc, dir, 1, wrap);
        }
        assert_eq!(at_once.pos, stepwise.pos);
        assert!(at_once.pos <= doc.char_count());
        if matches!(dir, Direction::Up | Direction::Down) {
            assert_eq!(at_once.preferred_column(), stepwise.preferred_column());
        }
    }
}
