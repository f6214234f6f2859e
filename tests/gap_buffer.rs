use watermelon::editor::Line;
use watermelon::{GapBuffer, MainApp};

fn collect(b: &GapBuffer) -> String {
    let mut it = b.iter();
    let mut out = String::new();
    while let Some(c) = it.next() {
        out.push(c);
    }
    out
}

fn by_index(b: &GapBuffer) -> String {
    let mut out = String::new();
    for i in 0..b.content_len() {
        out.push(b.get(i));
    }
    out
}

#[test]
fn empty_buffer_has_no_content() {
    let b = GapBuffer::from_string(String::new());
    assert_eq!(b.content_len(), 0);
    let mut it = b.iter();
    assert_eq!(it.next(), None);
}

#[test]
fn default_buffer_is_empty() {
    let b = GapBuffer::default();
    assert_eq!(b.content_len(), 0);
    assert_eq!(collect(&b), "");
}

#[test]
fn insert_at_end() {
    let mut b = GapBuffer::from_string("hello".to_string());
    b.insert(5, " world");
    assert_eq!(collect(&b), "hello world");
    assert_eq!(b.content_len(), 11);
}

#[test]
fn delete_tail() {
    let mut b = GapBuffer::from_string("hello world".to_string());
    b.delete(5, 6);
    assert_eq!(collect(&b), "hello");
    assert_eq!(b.content_len(), 5);
}

#[test]
fn two_inserts_at_different_places() {
    let mut b = GapBuffer::from_string("ab".to_string());
    b.insert(1, "X");
    b.insert(0, "Y");
    assert_eq!(collect(&b), "YaXb");
}

#[test]
fn gap_moves_keep_text() {
    let mut b = GapBuffer::from_string("abc".to_string());
    b.move_gap_to(0);
    assert_eq!(collect(&b), "abc");
    b.move_gap_to(3);
    assert_eq!(collect(&b), "abc");
    b.move_gap_to(1);
    assert_eq!(collect(&b), "abc");
    assert_eq!(by_index(&b), "abc");
}

#[test]
fn gap_move_past_end_is_clamped() {
    let mut b = GapBuffer::from_string("abc".to_string());
    b.delete(0, 1);
    b.move_gap_to(100);
    assert_eq!(collect(&b), "bc");
    b.insert(2, "d");
    assert_eq!(collect(&b), "bcd");
}

#[test]
fn round_trip_keeps_line_endings() {
    let text = "line one\r\nline two\n\n\u{4e2d}\u{6587}\r\n";
    let b = GapBuffer::from_string(text.to_string());
    assert_eq!(collect(&b), text);
    assert_eq!(b.content_len(), text.chars().count());
}

#[test]
fn length_follows_inserts_and_deletes() {
    let mut b = GapBuffer::from_string("0123456789".to_string());
    b.insert(3, "abc");
    b.move_gap_to(8);
    b.delete(1, 4);
    b.insert(0, "xy");
    b.delete(6, 2);
    assert_eq!(b.content_len(), 10 + 3 - 4 + 2 - 2);
    assert_eq!(collect(&b), "xy0c34789");
}

#[test]
fn insert_then_delete_restores_text() {
    for p in 0..=5usize {
        let mut b = GapBuffer::from_string("hello".to_string());
        b.move_gap_to(2);
        b.insert(p, "<inserted>");
        b.delete(p, 10);
        assert_eq!(collect(&b), "hello");
    }
}

#[test]
fn index_matches_iteration() {
    let mut b = GapBuffer::from_string("gap buffer".to_string());
    b.move_gap_to(4);
    b.delete(3, 1);
    b.insert(3, "_");
    assert_eq!(by_index(&b), collect(&b));
    assert_eq!(b.get(0), 'g');
    assert_eq!(b.get(3), '_');
    assert_eq!(b.get(b.content_len() - 1), 'r');
}

#[test]
fn storage_grows_for_long_inserts() {
    let mut b = GapBuffer::default();
    let mut expected = String::new();
    for i in 0..50usize {
        let piece = format!("{}-", i);
        let at = i % (b.content_len() + 1);
        b.insert(at, &piece);
        let mut chars: Vec<char> = expected.chars().collect();
        for (k, c) in piece.chars().enumerate() {
            chars.insert(at + k, c);
        }
        expected = chars.into_iter().collect();
        assert_eq!(collect(&b), expected);
    }
}

#[test]
fn load_string_replaces_content() {
    let mut b = GapBuffer::from_string("old text".to_string());
    b.insert(0, "more ");
    b.load_string("new".to_string());
    assert_eq!(collect(&b), "new");
    assert_eq!(b.content_len(), 3);
}

#[test]
fn iterator_is_restartable() {
    let b = GapBuffer::from_string("xyz".to_string());
    let mut first = b.iter();
    assert_eq!(first.next(), Some('x'));
    assert_eq!(collect(&b), "xyz");
    assert_eq!(first.next(), Some('y'));
    assert_eq!(first.next(), Some('z'));
    assert_eq!(first.next(), None);
    assert_eq!(first.next(), None);
}

fn lines_of(app: &MainApp) -> Vec<(usize, String)> {
    app.display_lines()
        .into_iter()
        .map(|l: Line| (l.number, l.text.into_iter().collect()))
        .collect()
}

#[test]
fn display_lines_split_at_newlines() {
    let mut app = MainApp::default();
    app.open_text("first\r\nsecond\n\nfourth".to_string());
    assert_eq!(
        lines_of(&app),
        vec![
            (0, "first".to_string()),
            (1, "second".to_string()),
            (3, "fourth".to_string()),
        ]
    );
}

#[test]
fn display_lines_keep_empty_last_line() {
    let mut app = MainApp::default();
    assert_eq!(lines_of(&app), vec![(0, String::new())]);
    app.open_text("a\n".to_string());
    assert_eq!(lines_of(&app), vec![(0, "a".to_string()), (1, String::new())]);
}
