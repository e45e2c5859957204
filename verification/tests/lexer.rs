use brite::source::document::{Document, Position};
use brite::source::identifier::{Identifier, Keyword};
use brite::source::lexer::{next_token, Lexer};
use brite::source::token::{Glyph, Token};

fn document(text: &str) -> Document {
    Document::new("/path/to/document.txt".into(), text.into())
}

/// What kind of token a token is, with what it holds, as a string.
fn describe(token: &Token) -> String {
    match token {
        Token::Glyph(token) => format!("glyph {}", token.glyph().as_str()),
        Token::Identifier(token) => format!("identifier {}", token.identifier().as_str()),
        Token::Number(token) => format!("number {}", token.number().as_str()),
        Token::Unexpected(token) => format!("unexpected {}", token.unexpected()),
        Token::End(_) => format!("end"),
    }
}

/// The three offsets of a token: where its full range starts, where it starts, where it ends.
fn offsets(token: &Token) -> (u32, u32, u32) {
    let range = token.full_range();
    (range.full_start().utf8_index(), range.start().utf8_index(), range.end().utf8_index())
}

fn kinds(text: &str) -> Vec<String> {
    Lexer::tokens(&document(text)).iter().map(describe).collect()
}

#[test]
fn lexer_binding() {
    let tokens = Lexer::tokens(&document("let x = 42;"));
    let described: Vec<String> = tokens.iter().map(describe).collect();
    assert_eq!(
        described,
        vec!["glyph let", "identifier x", "glyph =", "number 42", "glyph ;", "end"]
    );
    let ranges: Vec<(u32, u32, u32)> = tokens.iter().map(offsets).collect();
    assert_eq!(
        ranges,
        vec![(0, 0, 3), (3, 4, 5), (5, 6, 7), (7, 8, 10), (10, 10, 11), (11, 11, 11)]
    );
}

#[test]
fn lexer_empty_document() {
    let tokens = Lexer::tokens(&document(""));
    assert_eq!(tokens.len(), 1);
    assert!(tokens[0].is_end());
    assert_eq!(offsets(&tokens[0]), (0, 0, 0));
}

#[test]
fn lexer_only_white_space_and_comments() {
    let tokens = Lexer::tokens(&document("  // nothing here\n /* nor\n here */ \t"));
    assert_eq!(tokens.len(), 1);
    assert!(tokens[0].is_end());
    assert_eq!(offsets(&tokens[0]), (0, 36, 36));
}

#[test]
fn lexer_comments() {
    assert_eq!(kinds("a // b\nc"), vec!["identifier a", "identifier c", "end"]);
    assert_eq!(kinds("a /* b */ c"), vec!["identifier a", "identifier c", "end"]);
    assert_eq!(kinds("a /* b * / c */ d"), vec!["identifier a", "identifier d", "end"]);
    assert_eq!(kinds("a // b\rc"), vec!["identifier a", "identifier c", "end"]);
    // A block comment that is never closed runs to the end of the document.
    assert_eq!(kinds("a /* b c"), vec!["identifier a", "end"]);
    assert_eq!(kinds("a /*/ b"), vec!["identifier a", "end"]);
    // A slash alone begins no comment.
    assert_eq!(kinds("a / b"), vec!["identifier a", "unexpected /", "identifier b", "end"]);
    assert_eq!(kinds("/"), vec!["unexpected /", "end"]);
}

#[test]
fn lexer_glyphs() {
    assert_eq!(
        kinds("{},.=();_"),
        vec![
            "glyph {", "glyph }", "glyph ,", "glyph .", "glyph =", "glyph (", "glyph )",
            "glyph ;", "glyph _", "end"
        ]
    );
    assert_eq!(
        kinds("true false let if else do"),
        vec![
            "glyph true", "glyph false", "glyph let", "glyph if", "glyph else", "glyph do",
            "end"
        ]
    );
}

#[test]
fn lexer_identifiers() {
    assert_eq!(kinds("lets"), vec!["identifier lets", "end"]);
    assert_eq!(kinds("le t"), vec!["identifier le", "identifier t", "end"]);
    assert_eq!(kinds("iff x1 y_2"), vec!["identifier iff", "identifier x1", "identifier y_2", "end"]);
    // An underscore begins a name when a word character follows it, and is a glyph of its
    // own otherwise.
    assert_eq!(kinds("_x _ _1 __"), vec!["identifier _x", "glyph _", "identifier _1", "identifier __", "end"]);
    assert_eq!(kinds("_.a"), vec!["glyph _", "glyph .", "identifier a", "end"]);
    // Letters of other scripts begin names; other symbols do not.
    assert_eq!(kinds("\u{00E9}t\u{00E9}"), vec!["identifier \u{00E9}t\u{00E9}", "end"]);
    assert_eq!(kinds("\u{4E01}"), vec!["identifier \u{4E01}", "end"]);
    assert_eq!(kinds("\u{25B3}"), vec!["unexpected \u{25B3}", "end"]);
    assert_eq!(kinds("a\u{25B3}b"), vec!["identifier a", "unexpected \u{25B3}", "identifier b", "end"]);
}

#[test]
fn lexer_numbers() {
    assert_eq!(kinds("0 42 0x1F 12px"), vec!["number 0", "number 42", "number 0x1F", "number 12px", "end"]);
    assert_eq!(kinds("1.5"), vec!["number 1", "glyph .", "number 5", "end"]);
    assert_eq!(kinds("1_000"), vec!["number 1_000", "end"]);
}

#[test]
fn lexer_unexpected_characters() {
    assert_eq!(kinds("a # b"), vec!["identifier a", "unexpected #", "identifier b", "end"]);
    assert_eq!(kinds("%%"), vec!["unexpected %", "unexpected %", "end"]);
    assert_eq!(kinds("\u{1F701}"), vec!["unexpected \u{1F701}", "end"]);
}

#[test]
fn lexer_white_space() {
    assert_eq!(kinds("a\u{00A0}b\u{2003}c\u{3000}d\u{000B}e"), vec![
        "identifier a", "identifier b", "identifier c", "identifier d", "identifier e", "end"
    ]);
}

#[test]
fn lexer_ranges_with_wide_characters() {
    let tokens = Lexer::tokens(&document("\u{00E9} \u{1F701}\u{4E01}"));
    let ranges: Vec<(u32, u32, u32)> = tokens.iter().map(offsets).collect();
    assert_eq!(ranges, vec![(0, 0, 2), (2, 3, 7), (7, 7, 10), (10, 10, 10)]);
}

/// Checks that the full ranges of the tokens of `text` lie end to end from the start of the
/// document to its end.
fn check_coverage(text: &str) {
    let document = document(text);
    let tokens = Lexer::tokens(&document);
    let mut previous = document.start();
    for token in &tokens {
        let range = token.full_range();
        assert_eq!(previous, range.full_start(), "in {:?}", text);
        assert!(range.full_start() <= range.start(), "in {:?}", text);
        assert!(range.start() <= range.end(), "in {:?}", text);
        assert_eq!(token.range().start(), range.start());
        assert_eq!(token.range().end(), range.end());
        assert_eq!(range.full_range().start(), range.full_start());
        assert_eq!(range.range(), token.range());
        previous = range.end();
    }
    assert_eq!(previous, document.end(), "in {:?}", text);
    assert!(tokens.last().unwrap().is_end());
    assert_eq!(tokens.iter().filter(|token| token.is_end()).count(), 1);
}

#[test]
fn lexer_token_coverage() {
    for text in [
        "",
        " ",
        "let x = 42;",
        "let = 1;",
        "  a /* b */ . c // d",
        "/* never closed",
        "\u{FFFD}\u{FFFD}",
        "if x { y } else { z }\r\n",
        "f(a, b,)\n(c)",
        "\t\t\u{1F701} = _ _a 0b12 #",
        "}{)(;;,,..==",
    ] {
        check_coverage(text);
    }
}

#[test]
fn lexer_lookahead_and_advance() {
    let document = document("a\n(b) c");
    let mut lexer = Lexer::new(&document);
    assert_eq!(describe(lexer.lookahead()), "identifier a");
    assert_eq!(describe(lexer.lookahead()), "identifier a");
    assert!(lexer.lookahead_on_same_line().is_some());
    assert_eq!(describe(&lexer.advance()), "identifier a");
    // The parenthesis stands on the next line.
    assert_eq!(describe(lexer.lookahead()), "glyph (");
    assert!(lexer.lookahead_on_same_line().is_none());
    assert!(lexer.lookahead().is_glyph(Glyph::ParenLeft));
    assert!(!lexer.lookahead().is_glyph(Glyph::ParenRight));
    assert_eq!(describe(&lexer.advance()), "glyph (");
    assert_eq!(describe(lexer.lookahead_on_same_line().unwrap()), "identifier b");
    assert_eq!(describe(&lexer.advance()), "identifier b");
    assert_eq!(describe(&lexer.advance()), "glyph )");
    assert_eq!(describe(lexer.lookahead_on_same_line().unwrap()), "identifier c");
    assert_eq!(describe(&lexer.advance()), "identifier c");
    // The end token is handed out as often as it is asked for.
    let end = lexer.advance();
    assert!(end.is_end());
    assert_eq!(lexer.advance(), end);
    assert_eq!(lexer.lookahead(), &end);
    assert_eq!(lexer.advance(), end);
}

#[test]
fn lexer_next_token() {
    let document = document("  ab  ");
    let mut chars = document.chars();
    let token = next_token(&mut chars);
    assert_eq!(describe(&token), "identifier ab");
    assert_eq!(offsets(&token), (0, 2, 4));
    assert_eq!(chars.position(), Position::new(4));
    let token = next_token(&mut chars);
    assert!(token.is_end());
    assert_eq!(offsets(&token), (4, 6, 6));
    let token = next_token(&mut chars);
    assert_eq!(offsets(&token), (6, 6, 6));
}

#[test]
fn keywords_and_glyphs() {
    for keyword in [Keyword::True, Keyword::False, Keyword::Let, Keyword::If, Keyword::Else, Keyword::Do] {
        let word: Vec<char> = keyword.as_str().chars().collect();
        assert_eq!(Keyword::from_chars(&word), Some(keyword));
        assert_eq!(Glyph::Keyword(keyword).as_str(), keyword.as_str());
    }
    assert_eq!(Keyword::from_chars(&vec!['l', 'e']), None);
    assert_eq!(Keyword::from_chars(&vec!['e', 'l', 's', 'a']), None);
    assert_eq!(Keyword::from_chars(&vec![]), None);
    assert_eq!(Keyword::Let.as_str(), "let");
    assert_eq!(Keyword::Else.as_str(), "else");
    let glyphs = [
        Glyph::BraceLeft, Glyph::BraceRight, Glyph::Comma, Glyph::Dot, Glyph::Equals,
        Glyph::ParenLeft, Glyph::ParenRight, Glyph::Semicolon, Glyph::Underscore,
        Glyph::Keyword(Keyword::True), Glyph::Keyword(Keyword::False),
        Glyph::Keyword(Keyword::Let), Glyph::Keyword(Keyword::If),
        Glyph::Keyword(Keyword::Else), Glyph::Keyword(Keyword::Do),
    ];
    for (i, glyph) in glyphs.iter().enumerate() {
        assert_eq!(glyph.code(), i as u64);
        for other in &glyphs[..i] {
            assert_ne!(glyph.code(), other.code());
        }
    }
    assert_eq!(Glyph::punctuation('{'), Some(Glyph::BraceLeft));
    assert_eq!(Glyph::punctuation(';'), Some(Glyph::Semicolon));
    assert_eq!(Glyph::punctuation('_'), Some(Glyph::Underscore));
    assert_eq!(Glyph::punctuation('a'), None);
    assert_eq!(Glyph::punctuation('#'), None);
    assert_eq!(Glyph::BraceLeft.as_str(), "{");
    assert_eq!(Glyph::Semicolon.as_str(), ";");
    assert_eq!(Identifier::new(String::from("abc")).as_str(), "abc");
    assert_eq!(Identifier::new(String::from("abc")).clone(), Identifier::new(String::from("abc")));
}
