use bible_tui::action::{Action, Key};
use bible_tui::bible::{Bible, Verse};
use bible_tui::reader::Reader;

fn verse(book: &str, chapter: u16, verse: u16, text: &str) -> Verse {
    Verse {
        book: book.to_string(),
        chapter,
        verse,
        text: text.to_string(),
    }
}

fn genesis() -> Bible {
    Bible {
        verses: vec![
            verse("Genesis", 1, 1, "In the beginning"),
            verse("Genesis", 1, 2, "And the earth"),
            verse("Exodus", 1, 1, "Now these"),
        ],
    }
}

fn press(r: &mut Reader, k: Key) -> Option<String> {
    match r.handle_key_event(k) {
        Some(a) => r.update(a),
        None => None,
    }
}

fn open(r: &mut Reader, book: &str, chapter: u16) {
    r.update(Action::OpenPassage {
        book: book.to_string(),
        chapter,
    });
}

fn lines(n: usize) -> Bible {
    let mut verses = Vec::new();
    for i in 0..n {
        verses.push(verse("Psalms", 1, (i + 1) as u16, &format!("line {i}")));
    }
    Bible { verses }
}

#[test]
fn visual_yank_of_three_columns() {
    let mut r = Reader::new(genesis());
    open(&mut r, "Genesis", 1);
    assert_eq!(r.cursor(), (0, 0));
    press(&mut r, Key::Char('j'));
    assert_eq!(r.cursor(), (1, 0));
    press(&mut r, Key::Char('v'));
    press(&mut r, Key::Char('l'));
    press(&mut r, Key::Char('l'));
    assert_eq!(r.cursor(), (1, 2));
    let text = press(&mut r, Key::Char('y'));
    assert_eq!(text, Some("And".to_string()));
    assert!(r.is_visual());
    r.update(Action::Yanked);
    assert!(!r.is_visual());
}

#[test]
fn plain_yank_copies_whole_row() {
    let mut r = Reader::new(genesis());
    assert_eq!(press(&mut r, Key::Char('y')), Some("In the beginning".to_string()));
}

#[test]
fn plain_yank_strips_trailing_whitespace() {
    let b = Bible {
        verses: vec![verse("Ruth", 1, 1, "Now it came  \t")],
    };
    let mut r = Reader::new(b);
    open(&mut r, "Ruth", 1);
    assert_eq!(press(&mut r, Key::Char('y')), Some("Now it came".to_string()));
}

#[test]
fn visual_yank_across_rows_joins_with_newline() {
    let mut r = Reader::new(genesis());
    for _ in 0..3 {
        press(&mut r, Key::Char('l'));
    }
    press(&mut r, Key::Char('v'));
    press(&mut r, Key::Char('j'));
    assert_eq!(r.cursor(), (1, 3));
    let text = press(&mut r, Key::Char('y'));
    assert_eq!(text, Some("the beginning\nAnd ".trim_end().to_string()));
    assert_eq!(r.normalized_range(), vec![(0, 3, 16), (1, 0, 4)]);
}

#[test]
fn visual_selection_backwards_orders_positions() {
    let mut r = Reader::new(genesis());
    press(&mut r, Key::Char('j'));
    press(&mut r, Key::Char('l'));
    press(&mut r, Key::Char('v'));
    press(&mut r, Key::Char('k'));
    assert_eq!(r.cursor(), (0, 1));
    assert_eq!(r.normalized_range(), vec![(0, 1, 16), (1, 0, 2)]);
    assert_eq!(r.selection_text(), "n the beginning\nAn");
}

#[test]
fn right_at_line_end_wraps_to_next_row() {
    let mut r = Reader::new(genesis());
    for _ in 0..15 {
        press(&mut r, Key::Right);
    }
    assert_eq!(r.cursor(), (0, 15));
    press(&mut r, Key::Right);
    assert_eq!(r.cursor(), (1, 0));
    press(&mut r, Key::Left);
    assert_eq!(r.cursor(), (0, 15));
}

#[test]
fn motions_stop_at_passage_edges() {
    let mut r = Reader::new(genesis());
    press(&mut r, Key::Left);
    press(&mut r, Key::Up);
    assert_eq!(r.cursor(), (0, 0));
    press(&mut r, Key::Down);
    press(&mut r, Key::Down);
    assert_eq!(r.cursor(), (1, 0));
    for _ in 0..20 {
        press(&mut r, Key::Right);
    }
    assert_eq!(r.cursor(), (1, 12));
}

#[test]
fn row_motion_clamps_column_to_shorter_line() {
    let mut r = Reader::new(genesis());
    for _ in 0..14 {
        press(&mut r, Key::Char('l'));
    }
    press(&mut r, Key::Char('j'));
    assert_eq!(r.cursor(), (1, 12));
}

#[test]
fn row_up_from_column_zero_goes_to_line_end() {
    let mut r = Reader::new(genesis());
    press(&mut r, Key::Char('j'));
    press(&mut r, Key::Char('k'));
    assert_eq!(r.cursor(), (0, 15));
}

#[test]
fn large_row_motion_clamps() {
    let mut r = Reader::new(lines(20));
    open(&mut r, "Psalms", 1);
    r.update(Action::MoveRow(100));
    assert_eq!(r.cursor().0, 19);
    assert_eq!(r.scroll(), 13);
    r.update(Action::MoveRow(-100));
    assert_eq!(r.cursor().0, 0);
    assert_eq!(r.scroll(), 0);
}

#[test]
fn viewport_keeps_cursor_in_seven_rows() {
    let mut r = Reader::new(lines(30));
    open(&mut r, "Psalms", 1);
    for i in 0..29usize {
        press(&mut r, Key::Char('j'));
        let row = r.cursor().0;
        assert_eq!(row, i + 1);
        assert!(r.scroll() <= row && row <= r.scroll() + 6);
    }
    assert_eq!(r.scroll(), 23);
    for _ in 0..7 {
        press(&mut r, Key::Char('k'));
    }
    assert_eq!(r.cursor().0, 22);
    assert_eq!(r.scroll(), 22);
}

#[test]
fn open_passage_resets_cursor_and_selection() {
    let mut r = Reader::new(genesis());
    press(&mut r, Key::Char('j'));
    press(&mut r, Key::Char('v'));
    open(&mut r, "Exodus", 1);
    assert_eq!(r.cursor(), (0, 0));
    assert_eq!(r.scroll(), 0);
    assert!(!r.is_visual());
    assert_eq!(r.book(), "Exodus");
    assert_eq!(r.chapter(), 1);
    assert_eq!(r.verses().len(), 1);
}

#[test]
fn escape_toggles_visual_and_unknown_keys_do_nothing() {
    let r = Reader::new(genesis());
    assert!(matches!(r.handle_key_event(Key::Esc), Some(Action::ToggleVisual)));
    assert!(r.handle_key_event(Key::Char('x')).is_none());
    assert!(r.handle_key_event(Key::Enter).is_none());
}

#[test]
fn empty_passage_ignores_motions() {
    let mut r = Reader::new(genesis());
    open(&mut r, "Nowhere", 9);
    press(&mut r, Key::Char('j'));
    press(&mut r, Key::Char('l'));
    press(&mut r, Key::Char('h'));
    assert_eq!(r.cursor(), (0, 0));
    assert_eq!(press(&mut r, Key::Char('y')), Some(String::new()));
}

#[test]
fn columns_count_characters() {
    let b = Bible {
        verses: vec![verse("Psalms", 1, 1, "élan vital")],
    };
    let mut r = Reader::new(b);
    open(&mut r, "Psalms", 1);
    press(&mut r, Key::Char('v'));
    press(&mut r, Key::Char('l'));
    assert_eq!(press(&mut r, Key::Char('y')), Some("él".to_string()));
}
