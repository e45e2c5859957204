use brite::source::document::{Document, Position, Range};

fn document(text: &str) -> Document {
    Document::new("/path/to/document.txt".into(), text.into())
}

fn positions(offsets: &[u32]) -> Vec<Position> {
    offsets.iter().map(|offset| Position::new(*offset)).collect()
}

#[test]
fn document_lines() {
    let document = document("abc\ndef\rghi\r\njkl");
    assert_eq!(document.lines(), vec![Position::new(4), Position::new(8), Position::new(13)]);
}

#[test]
fn position_line() {
    let document = Document::new(
        "/path/to/document.txt".into(),
        "abc\ndef\rghi\r\njkl".into(),
    );
    assert_eq!(document.lines(), vec![Position::new(4), Position::new(8), Position::new(13)]);
    assert_eq!(Position::new(0).line(&document), 0);
    assert_eq!(Position::new(1).line(&document), 0);
    assert_eq!(Position::new(2).line(&document), 0);
    assert_eq!(Position::new(3).line(&document), 0);
    assert_eq!(Position::new(4).line(&document), 1);
    assert_eq!(Position::new(5).line(&document), 1);
    assert_eq!(Position::new(6).line(&document), 1);
    assert_eq!(Position::new(7).line(&document), 1);
    assert_eq!(Position::new(8).line(&document), 2);
    assert_eq!(Position::new(9).line(&document), 2);
    assert_eq!(Position::new(10).line(&document), 2);
    assert_eq!(Position::new(11).line(&document), 2);
    assert_eq!(Position::new(12).line(&document), 2);
    assert_eq!(Position::new(13).line(&document), 3);
    assert_eq!(Position::new(14).line(&document), 3);
    assert_eq!(Position::new(15).line(&document), 3);
    assert_eq!(Position::new(16).line(&document), 3);
    assert_eq!(Position::new(17).line(&document), 3);
    assert_eq!(Position::new(500).line(&document), 3);

    let document = Document::new("/path/to/document.txt".into(), "abc\n".into());
    assert_eq!(document.lines(), vec![Position::new(4)]);
    assert_eq!(Position::new(0).line(&document), 0);
    assert_eq!(Position::new(1).line(&document), 0);
    assert_eq!(Position::new(2).line(&document), 0);
    assert_eq!(Position::new(3).line(&document), 0);
    assert_eq!(Position::new(4).line(&document), 1);
    assert_eq!(Position::new(5).line(&document), 1);
    assert_eq!(Position::new(6).line(&document), 1);
    assert_eq!(Position::new(500).line(&document), 1);

    let document = Document::new("/path/to/document.txt".into(), "\nabc".into());
    assert_eq!(document.lines(), vec![Position::new(1)]);
    assert_eq!(Position::new(0).line(&document), 0);
    assert_eq!(Position::new(1).line(&document), 1);
    assert_eq!(Position::new(2).line(&document), 1);
    assert_eq!(Position::new(3).line(&document), 1);
    assert_eq!(Position::new(4).line(&document), 1);
    assert_eq!(Position::new(5).line(&document), 1);
    assert_eq!(Position::new(6).line(&document), 1);
    assert_eq!(Position::new(500).line(&document), 1);

    let document = Document::new("/path/to/document.txt".into(), "\nabc\n".into());
    assert_eq!(document.lines(), vec![Position::new(1), Position::new(5)]);
    assert_eq!(Position::new(0).line(&document), 0);
    assert_eq!(Position::new(1).line(&document), 1);
    assert_eq!(Position::new(2).line(&document), 1);
    assert_eq!(Position::new(3).line(&document), 1);
    assert_eq!(Position::new(4).line(&document), 1);
    assert_eq!(Position::new(5).line(&document), 2);
    assert_eq!(Position::new(6).line(&document), 2);
    assert_eq!(Position::new(7).line(&document), 2);
    assert_eq!(Position::new(500).line(&document), 2);
}

#[test]
fn position_character() {
    let document = Document::new("/path/to/document.txt".into(), "abc\ndef".into());
    assert_eq!(document.lines(), vec![Position::new(4)]);
    assert_eq!(Position::new(0).character(&document), 0);
    assert_eq!(Position::new(1).character(&document), 1);
    assert_eq!(Position::new(2).character(&document), 2);
    assert_eq!(Position::new(3).character(&document), 3);
    assert_eq!(Position::new(4).character(&document), 0);
    assert_eq!(Position::new(5).character(&document), 1);
    assert_eq!(Position::new(6).character(&document), 2);
    assert_eq!(Position::new(7).character(&document), 3);
    assert_eq!(Position::new(8).character(&document), 4);
    assert_eq!(Position::new(500).character(&document), 496);

    let document = Document::new("/path/to/document.txt".into(), "abc\n".into());
    assert_eq!(document.lines(), vec![Position::new(4)]);
    assert_eq!(Position::new(0).character(&document), 0);
    assert_eq!(Position::new(1).character(&document), 1);
    assert_eq!(Position::new(2).character(&document), 2);
    assert_eq!(Position::new(3).character(&document), 3);
    assert_eq!(Position::new(4).character(&document), 0);
    assert_eq!(Position::new(5).character(&document), 1);
    assert_eq!(Position::new(6).character(&document), 2);
    assert_eq!(Position::new(7).character(&document), 3);
    assert_eq!(Position::new(8).character(&document), 4);
    assert_eq!(Position::new(500).character(&document), 496);

    assert_eq!("\u{0041}".len(), 1);
    assert_eq!("\u{00DF}".len(), 2);
    assert_eq!("\u{4E01}".len(), 3);
    assert_eq!("\u{1F701}".len(), 4);

    let document = Document::new(
        "/path/to/document.txt".into(),
        "\u{0041}\u{00DF}\u{4E01}\u{1F701}".into(),
    );
    assert_eq!(document.lines(), vec![]);
    assert_eq!(Position::new(0).character(&document), 0);
    assert_eq!(Position::new(1).character(&document), 1);
    assert_eq!(Position::new(2).character(&document), 2);
    assert_eq!(Position::new(3).character(&document), 2);
    assert_eq!(Position::new(4).character(&document), 3);
    assert_eq!(Position::new(5).character(&document), 3);
    assert_eq!(Position::new(6).character(&document), 3);
    assert_eq!(Position::new(7).character(&document), 4);
    assert_eq!(Position::new(8).character(&document), 4);
    assert_eq!(Position::new(9).character(&document), 4);
    assert_eq!(Position::new(10).character(&document), 5);
    assert_eq!(Position::new(11).character(&document), 6);
    assert_eq!(Position::new(12).character(&document), 7);
    assert_eq!(Position::new(13).character(&document), 8);
    assert_eq!(Position::new(14).character(&document), 9);
    assert_eq!(Position::new(500).character(&document), 495);
}

#[test]
fn document_chars_end() {
    let document = Document::new("/path/to/document.txt".into(), "abc".into());
    let mut chars = document.chars();
    assert_eq!(chars.advance(), Some('a'));
    assert_eq!(chars.advance(), Some('b'));
    assert_eq!(chars.advance(), Some('c'));
    assert_eq!(chars.advance(), None);
    assert_eq!(chars.advance(), None);
    assert_eq!(chars.advance(), None);
}

#[test]
fn document_chars_end_panic_lookahead() {
    let document = Document::new("/path/to/document.txt".into(), "abc".into());
    let mut chars = document.chars();
    assert_eq!(chars.lookahead(), Some('a'));
    assert_eq!(chars.lookahead(), Some('a'));
    assert_eq!(chars.advance(), Some('a'));
    assert_eq!(chars.lookahead(), Some('b'));
    assert_eq!(chars.lookahead(), Some('b'));
    assert_eq!(chars.advance(), Some('b'));
    assert_eq!(chars.lookahead(), Some('c'));
    assert_eq!(chars.lookahead(), Some('c'));
    assert_eq!(chars.advance(), Some('c'));
    assert_eq!(chars.lookahead(), None);
    assert_eq!(chars.lookahead(), None);
    assert_eq!(chars.advance(), None);
    assert_eq!(chars.lookahead(), None);
    assert_eq!(chars.lookahead(), None);
    assert_eq!(chars.advance(), None);
    assert_eq!(chars.lookahead(), None);
    assert_eq!(chars.lookahead(), None);
}

#[test]
fn document_fits() {
    assert!(Document::fits(""));
    assert!(Document::fits("abc\ndef"));
    assert!(Document::fits(&"\u{1F701}".repeat(1000)));
}

#[test]
fn document_bounds() {
    let document = document("a\u{00DF}c");
    assert_eq!(document.start(), Position::new(0));
    assert_eq!(document.end(), Position::new(4));
    assert_eq!(document.text(), "a\u{00DF}c");
    assert_eq!(document.path().to_str(), Some("/path/to/document.txt"));
    assert_eq!(Position::new(7).utf8_index(), 7);
}

#[test]
fn document_lines_at_the_end_of_the_text() {
    // A carriage return and a line feed end one line, also at the end of the text.
    assert_eq!(document("abc\r\n").lines(), positions(&[5]));
    assert_eq!(document("abc\r").lines(), positions(&[4]));
    assert_eq!(document("\r\r\n\n").lines(), positions(&[1, 3, 4]));
    assert_eq!(document("").lines(), positions(&[]));
    assert_eq!(Position::new(0).line(&document("")), 0);
    assert_eq!(Position::new(9).character(&document("")), 9);
}

#[test]
fn range_bounds() {
    let range = Range::new(Position::new(3), 4);
    assert_eq!(range.start(), Position::new(3));
    assert_eq!(range.end(), Position::new(7));
    assert_eq!(range.length(), 4);
    assert_eq!(Range::between(Position::new(3), Position::new(7)), range);
    assert_eq!(Range::between(Position::new(7), Position::new(3)), range);
    assert_eq!(Range::between(Position::new(5), Position::new(5)), Range::position(Position::new(5)));
    assert_eq!(Range::position(Position::new(5)).end(), Position::new(5));
    assert_eq!(Range::single_char(Position::new(2), '\u{4E01}'), Range::new(Position::new(2), 3));
    assert_eq!(Range::single_char(Position::new(2), 'a'), Range::new(Position::new(2), 1));
    assert_eq!(Range::single_char(Position::new(2), '\u{1F701}').end(), Position::new(6));
    assert_eq!(Range::new(Position::new(u32::MAX), 0).end(), Position::new(u32::MAX));
}

#[test]
fn range_intersects() {
    let range = Range::new(Position::new(3), 4);
    assert!(range.intersects(Range::new(Position::new(5), 10)));
    assert!(range.intersects(Range::new(Position::new(0), 4)));
    // Ranges that only touch share a point.
    assert!(range.intersects(Range::new(Position::new(7), 2)));
    assert!(range.intersects(Range::new(Position::new(0), 3)));
    // An empty range intersects what it lies in or next to.
    assert!(range.intersects(Range::position(Position::new(3))));
    assert!(range.intersects(Range::position(Position::new(7))));
    assert!(Range::position(Position::new(5)).intersects(range));
    assert!(!range.intersects(Range::new(Position::new(8), 2)));
    assert!(!range.intersects(Range::new(Position::new(0), 2)));
    assert!(!range.intersects(Range::position(Position::new(8))));
    assert!(!Range::position(Position::new(2)).intersects(range));
}

#[test]
fn range_display() {
    let document = document("ab\n\u{1F701}cd");
    assert_eq!(Range::new(Position::new(0), 2).display(&document), "1:1-1:3");
    assert_eq!(Range::position(Position::new(3)).display(&document), "2:1");
    assert_eq!(Range::new(Position::new(7), 2).display(&document), "2:3-2:5");
    let mut text = String::from("at ");
    Position::new(8).display(&document, &mut text);
    assert_eq!(text, "at 2:4");
}

#[test]
fn chars_position_counts_bytes() {
    let document = document("a\u{00DF}\u{4E01}\u{1F701}");
    let mut chars = document.chars();
    assert_eq!(chars.position(), Position::new(0));
    assert_eq!(chars.lookahead2(), Some('\u{00DF}'));
    assert_eq!(chars.position(), Position::new(0));
    assert_eq!(chars.advance(), Some('a'));
    assert_eq!(chars.position(), Position::new(1));
    assert_eq!(chars.advance(), Some('\u{00DF}'));
    assert_eq!(chars.position(), Position::new(3));
    assert_eq!(chars.lookahead(), Some('\u{4E01}'));
    assert_eq!(chars.lookahead2(), Some('\u{1F701}'));
    assert_eq!(chars.advance(), Some('\u{4E01}'));
    assert_eq!(chars.position(), Position::new(6));
    assert_eq!(chars.lookahead2(), None);
    assert_eq!(chars.advance(), Some('\u{1F701}'));
    assert_eq!(chars.position(), Position::new(10));
    assert_eq!(chars.advance(), None);
    assert_eq!(chars.position(), Position::new(10));
    assert_eq!(chars.position(), document.end());
}

#[test]
fn chars_lookahead_is_stable() {
    let document = document("xy");
    let mut chars = document.chars();
    assert_eq!(chars.lookahead2(), Some('y'));
    assert_eq!(chars.lookahead2(), Some('y'));
    assert_eq!(chars.lookahead(), Some('x'));
    assert_eq!(chars.lookahead2(), Some('y'));
    assert_eq!(chars.advance(), Some('x'));
    assert_eq!(chars.lookahead2(), None);
    assert_eq!(chars.lookahead(), Some('y'));
    assert_eq!(chars.lookahead(), Some('y'));
    assert_eq!(chars.advance(), Some('y'));
    assert_eq!(chars.lookahead2(), None);
    assert_eq!(chars.lookahead(), None);
    assert_eq!(chars.advance(), None);
    assert_eq!(chars.lookahead2(), None);
}

#[test]
fn chars_advance_char_and_lookahead_is() {
    let document = document("a=b");
    let mut chars = document.chars();
    assert!(!chars.advance_char('='));
    assert_eq!(chars.position(), Position::new(0));
    assert!(chars.advance_char('a'));
    assert_eq!(chars.position(), Position::new(1));
    assert!(chars.lookahead_is(|c| c == '='));
    assert!(!chars.lookahead_is(|c| c.is_alphabetic()));
    assert!(chars.advance_char('='));
    assert!(chars.lookahead_is(|c| c.is_alphabetic()));
    assert!(chars.advance_char('b'));
    assert!(!chars.advance_char('b'));
    assert!(!chars.lookahead_is(|_| true));
    assert_eq!(chars.position(), Position::new(3));
}
