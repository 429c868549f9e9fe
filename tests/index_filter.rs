use bible_tui::action::{Action, Key};
use bible_tui::bible::{Bible, Verse};
use bible_tui::index::Index;

fn verse(book: &str, chapter: u16, verse: u16) -> Verse {
    Verse {
        book: book.to_string(),
        chapter,
        verse,
        text: String::from("text"),
    }
}

fn corpus() -> Bible {
    Bible {
        verses: vec![
            verse("Genesis", 1, 1),
            verse("Genesis", 1, 2),
            verse("Exodus", 1, 1),
            verse("Genesis", 2, 1),
            verse("Leviticus", 1, 1),
        ],
    }
}

fn keys(idx: &Index) -> Vec<(String, u16)> {
    idx.items().clone()
}

fn k(b: &str, c: u16) -> (String, u16) {
    (b.to_string(), c)
}

fn type_str(idx: &mut Index, s: &str) {
    for c in s.chars() {
        idx.handle_key_event(Key::Char(c));
    }
}

#[test]
fn slash_ex_filters_to_exodus() {
    let b = Bible {
        verses: vec![verse("Genesis", 1, 1), verse("Exodus", 1, 1)],
    };
    let mut idx = Index::new(b);
    assert_eq!(keys(&idx), vec![k("Genesis", 1), k("Exodus", 1)]);
    idx.handle_key_event(Key::Char('/'));
    type_str(&mut idx, "ex");
    assert_eq!(keys(&idx), vec![k("Exodus", 1)]);
    assert_eq!(idx.selected(), 0);
}

#[test]
fn chapters_are_deduplicated_in_first_seen_order() {
    let b = corpus();
    assert_eq!(
        b.chapters(),
        vec![k("Genesis", 1), k("Exodus", 1), k("Genesis", 2), k("Leviticus", 1)]
    );
}

#[test]
fn passage_lookup_keeps_order_and_misses_are_empty() {
    let b = corpus();
    let p = b.passage("Genesis", 1);
    assert_eq!(p.len(), 2);
    assert_eq!(p[0].verse, 1);
    assert_eq!(p[1].verse, 2);
    assert!(b.passage("Genesis", 3).is_empty());
    assert!(b.passage("genesis", 1).is_empty());
}

#[test]
fn moving_selection_opens_passage_and_clamps() {
    let mut idx = Index::new(corpus());
    assert!(idx.handle_key_event(Key::Up).is_none());
    match idx.handle_key_event(Key::Char('j')) {
        Some(Action::OpenPassage { book, chapter }) => {
            assert_eq!(book, "Exodus");
            assert_eq!(chapter, 1);
        }
        other => panic!("unexpected {other:?}"),
    }
    idx.handle_key_event(Key::Down);
    idx.handle_key_event(Key::Down);
    assert_eq!(idx.selected(), 3);
    assert!(idx.handle_key_event(Key::Down).is_none());
    assert_eq!(idx.selected(), 3);
    assert!(idx.handle_key_event(Key::Char('k')).is_some());
    assert_eq!(idx.selected(), 2);
}

#[test]
fn filter_is_case_insensitive_and_shrinking_clamps_selection() {
    let mut idx = Index::new(corpus());
    idx.handle_key_event(Key::Down);
    idx.handle_key_event(Key::Down);
    idx.handle_key_event(Key::Down);
    assert_eq!(idx.selected(), 3);
    idx.handle_key_event(Key::Char('/'));
    type_str(&mut idx, "GEN");
    assert_eq!(keys(&idx), vec![k("Genesis", 1), k("Genesis", 2)]);
    assert_eq!(idx.selected(), 1);
    type_str(&mut idx, "x");
    assert!(keys(&idx).is_empty());
    assert_eq!(idx.selected(), 0);
    assert!(idx.handle_key_event(Key::Down).is_none());
}

#[test]
fn backspace_widens_and_enter_keeps_the_filter() {
    let mut idx = Index::new(corpus());
    idx.handle_key_event(Key::Char('/'));
    type_str(&mut idx, "nx");
    assert!(keys(&idx).is_empty());
    idx.handle_key_event(Key::Backspace);
    assert_eq!(keys(&idx), vec![k("Genesis", 1), k("Genesis", 2)]);
    assert_eq!(idx.editing_query().map(|q| q.iter().collect::<String>()), Some("n".to_string()));
    idx.handle_key_event(Key::Enter);
    assert!(idx.editing_query().is_none());
    assert_eq!(keys(&idx).len(), 2);
    idx.handle_key_event(Key::Char('j'));
    assert_eq!(idx.selected(), 1);
}

#[test]
fn j_and_k_are_text_while_filtering() {
    let mut idx = Index::new(corpus());
    idx.handle_key_event(Key::Char('/'));
    assert!(idx.handle_key_event(Key::Char('j')).is_none());
    assert_eq!(idx.editing_query().map(|q| q.len()), Some(1));
    assert!(keys(&idx).is_empty());
    idx.handle_key_event(Key::Backspace);
    idx.handle_key_event(Key::Backspace);
    assert_eq!(keys(&idx).len(), 4);
    assert!(idx.handle_key_event(Key::Down).is_some());
    idx.handle_key_event(Key::Esc);
    assert!(idx.editing_query().is_none());
}

#[test]
fn same_query_twice_gives_same_list_and_longer_query_narrows() {
    let mut a = Index::new(corpus());
    a.handle_key_event(Key::Char('/'));
    type_str(&mut a, "e");
    let wide = keys(&a);
    type_str(&mut a, "n");
    let narrow = keys(&a);
    assert!(narrow.iter().all(|x| wide.contains(x)));
    assert!(narrow.len() < wide.len());
    a.handle_key_event(Key::Backspace);
    assert_eq!(keys(&a), wide);
}

#[test]
fn slash_starts_a_fresh_query() {
    let mut idx = Index::new(corpus());
    idx.handle_key_event(Key::Char('/'));
    type_str(&mut idx, "lev");
    idx.handle_key_event(Key::Esc);
    assert_eq!(keys(&idx), vec![k("Leviticus", 1)]);
    idx.handle_key_event(Key::Char('/'));
    assert_eq!(keys(&idx).len(), 4);
}
