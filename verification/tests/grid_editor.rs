use grid_editor::board::Board;
use grid_editor::dictionary::Dictionary;
use grid_editor::editor::{Editor, Key};
use grid_editor::render::{render, Piece};

fn initial_letter(index: usize) -> char {
    (b'A' + index as u8) as char
}

#[test]
fn initial_board_is_alphabet() {
    let b = Board::new();
    for y in 0..5 {
        for x in 0..5 {
            assert_eq!(b.get(x, y), initial_letter(y * 5 + x));
        }
    }
}

#[test]
fn update_uppercases_and_preserves_others() {
    let mut b = Board::new();
    b.update(2, 3, 'q');
    for y in 0..5 {
        for x in 0..5 {
            if (x, y) == (2, 3) {
                assert_eq!(b.get(x, y), 'Q');
            } else {
                assert_eq!(b.get(x, y), initial_letter(y * 5 + x));
            }
        }
    }
}

#[test]
fn update_keeps_non_letters_and_uppercase() {
    let mut b = Board::new();
    b.update(0, 0, '7');
    assert_eq!(b.get(0, 0), '7');
    b.update(4, 4, 'K');
    assert_eq!(b.get(4, 4), 'K');
    b.update(4, 0, '!');
    assert_eq!(b.get(4, 0), '!');
}

#[test]
fn cursor_clamps_at_edges() {
    let mut e = Editor::new();
    assert_eq!(e.cursor_x(), 0);
    assert_eq!(e.cursor_y(), 0);
    for _ in 0..3 {
        e.handle_key(Key::Left);
        assert_eq!(e.cursor_x(), 0);
        e.handle_key(Key::Up);
        assert_eq!(e.cursor_y(), 0);
    }
    for _ in 0..7 {
        e.handle_key(Key::Right);
        e.handle_key(Key::Down);
    }
    assert_eq!(e.cursor_x(), 4);
    assert_eq!(e.cursor_y(), 4);
    for _ in 0..3 {
        e.handle_key(Key::Right);
        assert_eq!(e.cursor_x(), 4);
        e.handle_key(Key::Down);
        assert_eq!(e.cursor_y(), 4);
    }
}

#[test]
fn enter_and_other_keys_are_ignored() {
    let mut e = Editor::new();
    e.handle_key(Key::Right);
    assert!(e.take_changed());
    e.handle_key(Key::Enter);
    assert!(!e.take_changed());
    e.handle_key(Key::Other);
    assert!(!e.take_changed());
    assert_eq!(e.cursor_x(), 1);
    assert_eq!(e.cursor_y(), 0);
    assert!(e.is_running());
}

#[test]
fn escape_stops_the_editor() {
    let mut e = Editor::new();
    assert!(e.is_running());
    e.handle_key(Key::Escape);
    assert!(!e.is_running());
}

#[test]
fn take_changed_clears_the_flag() {
    let mut e = Editor::new();
    assert!(e.take_changed());
    assert!(!e.take_changed());
    e.handle_key(Key::Char('a'));
    assert!(e.take_changed());
    assert!(!e.take_changed());
}

#[test]
fn render_is_pure_and_lays_out_rows() {
    let b = Board::new();
    let plan = render(&b, 2, 1);
    let again = render(&b, 2, 1);
    assert_eq!(plan, again);
    assert_eq!(plan.len(), 50);
    let mut highlighted = 0;
    for (i, piece) in plan.iter().enumerate() {
        if i % 2 == 0 {
            let cell = i / 2;
            let expected = initial_letter(cell);
            match piece {
                Piece::Plain(c) => assert_eq!(*c, expected),
                Piece::Highlighted(c) => {
                    assert_eq!(*c, expected);
                    assert_eq!(cell, 1 * 5 + 2);
                    highlighted += 1;
                }
                _ => panic!("expected a glyph at position {}", i),
            }
        } else {
            let cell = (i - 1) / 2;
            if cell % 5 == 4 {
                assert!(matches!(piece, Piece::Newline));
            } else {
                assert!(matches!(piece, Piece::Space));
            }
        }
    }
    assert_eq!(highlighted, 1);
}

#[test]
fn render_follows_the_cursor() {
    let b = Board::new();
    let plan = render(&b, 0, 0);
    assert!(matches!(plan[0], Piece::Highlighted('A')));
    assert!(matches!(plan[2], Piece::Plain('B')));
    let plan = render(&b, 4, 4);
    assert!(matches!(plan[48], Piece::Highlighted('Y')));
    assert!(matches!(plan[0], Piece::Plain('A')));
}

#[test]
fn dictionary_collapses_duplicates() {
    let lines = vec!["cat".to_string(), "dog".to_string(), "cat".to_string()];
    let d = Dictionary::from_lines(&lines);
    assert_eq!(d.len(), 2);
    assert!(d.contains(&"cat".to_string()));
    assert!(d.contains(&"dog".to_string()));
    assert!(!d.contains(&"cow".to_string()));
}

#[test]
fn dictionary_drops_empty_lines() {
    let lines = vec!["".to_string(), "ox".to_string(), "".to_string()];
    let d = Dictionary::from_lines(&lines);
    assert_eq!(d.len(), 1);
    assert!(d.contains(&"ox".to_string()));
    assert!(!d.contains(&"".to_string()));
}

#[test]
fn dictionary_of_no_lines_is_empty() {
    let lines: Vec<String> = Vec::new();
    let d = Dictionary::from_lines(&lines);
    assert_eq!(d.len(), 0);
    assert!(!d.contains(&"cat".to_string()));
}

#[test]
fn end_to_end_right_down_z() {
    let mut e = Editor::new();
    e.handle_key(Key::Right);
    e.handle_key(Key::Down);
    e.handle_key(Key::Char('z'));
    for y in 0..5 {
        for x in 0..5 {
            if (x, y) == (1, 1) {
                assert_eq!(e.board().get(x, y), 'Z');
            } else {
                assert_eq!(e.board().get(x, y), initial_letter(y * 5 + x));
            }
        }
    }
}
