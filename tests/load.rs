use bible_tui::bible::{Bible, LoadError};

fn lines(v: &[&str]) -> Vec<String> {
    v.iter().map(|s| s.to_string()).collect()
}

#[test]
fn four_columns_is_an_error_with_line_and_count() {
    let input = lines(&["Gen\tGn\t1\t1\tIn the beginning", "Gen\tGn\t1\t2"]);
    match Bible::load_tsv(&input) {
        Err(LoadError::Columns { line, count }) => {
            assert_eq!(line, 2);
            assert_eq!(count, 4);
        }
        other => panic!("unexpected {other:?}"),
    }
}

#[test]
fn five_and_six_columns_load_and_blank_lines_skip() {
    let input = lines(&[
        "Genesis\tGn\t1\t1\tIn the beginning",
        "   ",
        "Genesis\tGn\t1\t1\t2\tAnd the earth",
    ]);
    let b = Bible::load_tsv(&input).unwrap();
    assert_eq!(b.verses.len(), 2);
    assert_eq!(b.verses[0].book, "Genesis");
    assert_eq!(b.verses[0].chapter, 1);
    assert_eq!(b.verses[0].verse, 1);
    assert_eq!(b.verses[0].text, "In the beginning");
    assert_eq!(b.verses[1].chapter, 1);
    assert_eq!(b.verses[1].verse, 2);
    assert_eq!(b.verses[1].text, "And the earth");
}

#[test]
fn numbers_are_trimmed() {
    let input = lines(&["Ruth\tRu\t 3 \t+12\tWhither"]);
    let b = Bible::load_tsv(&input).unwrap();
    assert_eq!(b.verses[0].chapter, 3);
    assert_eq!(b.verses[0].verse, 12);
}

#[test]
fn bad_chapter_names_line_and_token() {
    let input = lines(&["", "Gen\tGn\tone\t1\tx"]);
    match Bible::load_tsv(&input) {
        Err(e @ LoadError::BadChapter { .. }) => {
            assert_eq!(e.line(), 2);
            if let LoadError::BadChapter { token, .. } = e {
                assert_eq!(token, "one");
            }
        }
        other => panic!("unexpected {other:?}"),
    }
}

#[test]
fn bad_verse_names_line_and_token() {
    let input = lines(&["Gen\tGn\t1\t70000\tx"]);
    match Bible::load_tsv(&input) {
        Err(LoadError::BadVerse { line, token }) => {
            assert_eq!(line, 1);
            assert_eq!(token, "70000");
        }
        other => panic!("unexpected {other:?}"),
    }
}

#[test]
fn empty_input_is_an_empty_corpus() {
    let b = Bible::load_tsv(&Vec::new()).unwrap();
    assert!(b.verses.is_empty());
    assert!(b.chapters().is_empty());
}
