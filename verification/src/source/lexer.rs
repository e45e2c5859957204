//! Cuts the text of a document into tokens, one at a time and on demand.

use super::document::{len_utf8, lemma_utf8_len_concat, utf8_len, Document, DocumentChars};
use super::identifier::{Identifier, Keyword};
use super::number::Number;
use super::token::{
    token_views, EndToken, Glyph, GlyphToken, IdentifierToken, NumberToken, Token, TokenKind, TokenRange,
    TokenView, UnexpectedToken,
};
use crate::utils::text::string_push;
use unicode_xid::UnicodeXID;
use vstd::prelude::*;
use vstd::string::*;

verus! {

/// Whether a character has the Unicode property XID_Start, as the tables of the crate
/// unicode-xid give it.
pub uninterp spec fn xid_start(c: char) -> bool;

/// Whether a character has the Unicode property XID_Continue, as the tables of the crate
/// unicode-xid give it.
pub uninterp spec fn xid_continue(c: char) -> bool;

/// `UnicodeXID::is_xid_start` of unicode-xid looks the character up in the crate's table of
/// XID_Start. Among the ASCII characters it answers yes for the letters and for nothing else.
#[verifier::external_body]
fn is_xid_start(c: char) -> (start: bool)
    ensures
        start == xid_start(c),
        (c as u32) <= 0x7F ==> start == (('a' as u32 <= c as u32 <= 'z' as u32) || ('A' as u32
            <= c as u32 <= 'Z' as u32)),
{
    UnicodeXID::is_xid_start(c)
}

/// `UnicodeXID::is_xid_continue` of unicode-xid looks the character up in the crate's table
/// of XID_Continue. Among the ASCII characters it answers yes for the letters, the digits and
/// the underscore, and for nothing else.
#[verifier::external_body]
fn is_xid_continue(c: char) -> (cont: bool)
    ensures
        cont == xid_continue(c),
        (c as u32) <= 0x7F ==> cont == (('a' as u32 <= c as u32 <= 'z' as u32) || ('A' as u32
            <= c as u32 <= 'Z' as u32) || ('0' as u32 <= c as u32 <= '9' as u32) || c == '_'),
{
    UnicodeXID::is_xid_continue(c)
}

/// Is `c` white space? These are the characters with the Unicode property White_Space.
pub open spec fn is_whitespace(c: char) -> bool {
    let v = c as u32;
    (0x09 <= v <= 0x0D) || v == 0x20 || v == 0x85 || v == 0xA0 || v == 0x1680 || (0x2000 <= v
        <= 0x200A) || v == 0x2028 || v == 0x2029 || v == 0x202F || v == 0x205F || v == 0x3000
}

/// Is `c` one of the ten decimal digits?
pub open spec fn is_digit(c: char) -> bool {
    '0' as u32 <= c as u32 <= '9' as u32
}

/// What the lexer is inside of while it skips what stands in front of a token.
#[derive(Clone, Copy, Debug, PartialEq, Eq, Structural)]
pub enum TriviaMode {
    /// Between tokens: white space and the start of a comment are skipped.
    Normal,
    /// In a comment that began with `//` and ends with its line.
    LineComment,
    /// In a comment that began with `/*` and ends with `*/`, or with the document.
    BlockComment,
}

/// The number of characters at the start of `s` that stand in front of its first token:
/// white space, comments from `//` to the end of the line, and comments from `/*` to `*/`.
/// A block comment that is never closed runs to the end of the text.
pub open spec fn trivia_len(s: Seq<char>, mode: TriviaMode) -> nat
    decreases s.len(),
{
    if s.len() == 0 {
        0
    } else {
        match mode {
            TriviaMode::Normal => {
                if is_whitespace(s[0]) {
                    1 + trivia_len(s.drop_first(), TriviaMode::Normal)
                } else if s[0] == '/' && s.len() > 1 && s[1] == '/' {
                    2 + trivia_len(s.skip(2), TriviaMode::LineComment)
                } else if s[0] == '/' && s.len() > 1 && s[1] == '*' {
                    2 + trivia_len(s.skip(2), TriviaMode::BlockComment)
                } else {
                    0
                }
            },
            TriviaMode::LineComment => {
                if s[0] == '\n' || s[0] == '\r' {
                    1 + trivia_len(s.drop_first(), TriviaMode::Normal)
                } else {
                    1 + trivia_len(s.drop_first(), TriviaMode::LineComment)
                }
            },
            TriviaMode::BlockComment => {
                if s[0] == '*' && s.len() > 1 && s[1] == '/' {
                    2 + trivia_len(s.skip(2), TriviaMode::Normal)
                } else {
                    1 + trivia_len(s.drop_first(), TriviaMode::BlockComment)
                }
            },
        }
    }
}

/// The number of characters at the start of `s` that may continue a word.
pub open spec fn word_len(s: Seq<char>) -> nat
    decreases s.len(),
{
    if s.len() > 0 && xid_continue(s[0]) {
        1 + word_len(s.drop_first())
    } else {
        0
    }
}

/// Does a name or a keyword begin at the start of `s`? It begins with a character that may
/// start a word, or with an underscore that a word character follows.
pub open spec fn starts_word(s: Seq<char>) -> bool {
    s.len() > 0 && (xid_start(s[0]) || (s[0] == '_' && s.len() > 1 && xid_continue(s[1])))
}

/// The number of characters of the token that begins at the start of `s`, which holds no
/// leading white space or comment: none at the end of the text, a whole word for a name, a
/// keyword or a number, and one character otherwise.
pub open spec fn body_len(s: Seq<char>) -> nat {
    if s.len() == 0 {
        0
    } else if starts_word(s) || is_digit(s[0]) {
        1 + word_len(s.drop_first())
    } else {
        1
    }
}

/// The kind of the token that begins at the start of `s`, which holds no leading white space
/// or comment.
pub open spec fn body_kind(s: Seq<char>) -> TokenKind {
    if s.len() == 0 {
        TokenKind::End
    } else if starts_word(s) {
        match Keyword::spec_from_chars(s.take(body_len(s) as int)) {
            Some(keyword) => TokenKind::Glyph(Glyph::Keyword(keyword)),
            None => TokenKind::Identifier(s.take(body_len(s) as int)),
        }
    } else if is_digit(s[0]) {
        TokenKind::Number(s.take(body_len(s) as int))
    } else {
        match Glyph::spec_punctuation(s[0]) {
            Some(glyph) => TokenKind::Glyph(glyph),
            None => TokenKind::Unexpected(s[0]),
        }
    }
}

/// The number of characters of the first token of `rest`, with what stands in front of it.
pub open spec fn first_token_len(rest: Seq<char>) -> nat {
    trivia_len(rest, TriviaMode::Normal) + body_len(
        rest.skip(trivia_len(rest, TriviaMode::Normal) as int),
    )
}

/// The first token of the text `rest`, which begins at byte offset `pos` of its document.
pub open spec fn first_token(rest: Seq<char>, pos: nat) -> TokenView {
    let n = trivia_len(rest, TriviaMode::Normal) as int;
    let body = rest.skip(n);
    let start = pos + utf8_len(rest.take(n));
    TokenView {
        kind: body_kind(body),
        full_start: pos,
        start,
        end: start + utf8_len(body.take(body_len(body) as int)),
    }
}

/// The tokens of the text `rest`, which begins at byte offset `pos` of its document. The last
/// of them, and no other, is the end token.
pub open spec fn lex_from(rest: Seq<char>, pos: nat) -> Seq<TokenView>
    decreases rest.len(),
{
    let token = first_token(rest, pos);
    let n = first_token_len(rest);
    if token.kind is End || n == 0 || n > rest.len() {
        seq![token]
    } else {
        seq![token] + lex_from(rest.skip(n as int), token.end)
    }
}

/// The tokens of a document with the text `text`.
pub open spec fn lex(text: Seq<char>) -> Seq<TokenView> {
    lex_from(text, 0)
}

/// A token stream is complete: it ends with the end token and holds no other.
pub open spec fn complete(tokens: Seq<TokenView>) -> bool {
    &&& tokens.len() > 0
    &&& forall|i: int| 0 <= i < tokens.len() ==> ((#[trigger] tokens[i]).kind is End <==> i
        == tokens.len() - 1)
}

/// The full ranges of `tokens` lie end to end from offset `from` to offset `to`: each token
/// starts where the one before it ended, with no gap and no overlap.
pub open spec fn covers(tokens: Seq<TokenView>, from: nat, to: nat) -> bool {
    &&& tokens.len() > 0
    &&& tokens[0].full_start == from
    &&& tokens.last().end == to
    &&& forall|i: int|
        0 <= i < tokens.len() ==> (#[trigger] tokens[i]).full_start <= tokens[i].start
            <= tokens[i].end
    &&& forall|i: int| 0 < i < tokens.len() ==> (#[trigger] tokens[i]).full_start == tokens[i - 1].end
}

/// What stands in front of a token is part of the text.
pub proof fn lemma_trivia_len_bound(s: Seq<char>, mode: TriviaMode)
    ensures
        trivia_len(s, mode) <= s.len(),
    decreases s.len(),
{
    if s.len() > 0 {
        lemma_trivia_len_bound(s.drop_first(), TriviaMode::Normal);
        lemma_trivia_len_bound(s.drop_first(), TriviaMode::LineComment);
        lemma_trivia_len_bound(s.drop_first(), TriviaMode::BlockComment);
        if s.len() > 1 {
            lemma_trivia_len_bound(s.skip(2), TriviaMode::Normal);
            lemma_trivia_len_bound(s.skip(2), TriviaMode::LineComment);
            lemma_trivia_len_bound(s.skip(2), TriviaMode::BlockComment);
        }
    }
}

/// A word is part of the text.
pub proof fn lemma_word_len_bound(s: Seq<char>)
    ensures
        word_len(s) <= s.len(),
    decreases s.len(),
{
    if s.len() > 0 {
        lemma_word_len_bound(s.drop_first());
    }
}

/// The first token of a text is part of the text, and is the end token exactly when nothing
/// but white space and comments is left.
pub proof fn lemma_first_token(rest: Seq<char>, pos: nat)
    ensures
        first_token_len(rest) <= rest.len(),
        first_token(rest, pos).kind is End <==> trivia_len(rest, TriviaMode::Normal)
            == rest.len(),
        !(first_token(rest, pos).kind is End) ==> first_token_len(rest) > trivia_len(
            rest,
            TriviaMode::Normal,
        ),
        first_token(rest, pos).full_start == pos,
        first_token(rest, pos).full_start <= first_token(rest, pos).start <= first_token(
            rest,
            pos,
        ).end,
        first_token(rest, pos).end == pos + utf8_len(rest.take(first_token_len(rest) as int)),
        first_token(rest, pos).end + utf8_len(rest.skip(first_token_len(rest) as int)) == pos
            + utf8_len(rest),
{
    lemma_trivia_len_bound(rest, TriviaMode::Normal);
    let n = trivia_len(rest, TriviaMode::Normal) as int;
    let body = rest.skip(n);
    if body.len() > 0 {
        lemma_word_len_bound(body.drop_first());
    }
    let m = body_len(body) as int;
    assert(rest.take(n + m) =~= rest.take(n) + body.take(m));
    lemma_utf8_len_concat(rest.take(n), body.take(m));
    assert(rest =~= rest.take(n + m) + rest.skip(n + m));
    lemma_utf8_len_concat(rest.take(n + m), rest.skip(n + m));
}

/// The tokens of a text form a complete stream whose full ranges cover the text from its
/// first byte to its last, and there is at most one token for each character, and the end.
pub proof fn lemma_lex_from(rest: Seq<char>, pos: nat)
    ensures
        complete(lex_from(rest, pos)),
        covers(lex_from(rest, pos), pos, pos + utf8_len(rest)),
        lex_from(rest, pos).len() <= rest.len() + 1,
        lex_from(rest, pos)[0] == first_token(rest, pos),
    decreases rest.len(),
{
    lemma_first_token(rest, pos);
    let token = first_token(rest, pos);
    let n = first_token_len(rest);
    if token.kind is End || n == 0 || n > rest.len() {
        assert(rest.skip(rest.len() as int) =~= Seq::<char>::empty());
        assert(rest.take(rest.len() as int) =~= rest);
    } else {
        let tail = lex_from(rest.skip(n as int), token.end);
        let all = lex_from(rest, pos);
        lemma_lex_from(rest.skip(n as int), token.end);
        assert(all == seq![token] + tail);
        assert forall|i: int| 0 <= i < all.len() implies ((#[trigger] all[i]).kind is End <==> i
            == all.len() - 1) by {
            if i > 0 {
                assert(all[i] == tail[i - 1]);
            }
        }
        assert forall|i: int| 0 <= i < all.len() implies (#[trigger] all[i]).full_start
            <= all[i].start <= all[i].end by {
            if i > 0 {
                assert(all[i] == tail[i - 1]);
            }
        }
        assert forall|i: int| 0 < i < all.len() implies (#[trigger] all[i]).full_start == all[i
            - 1].end by {
            assert(all[i] == tail[i - 1]);
            if i > 1 {
                assert(all[i - 1] == tail[i - 2]);
            }
        }
        assert(all.last() == tail.last());
    }
}


/// The UTF-8 length of a prefix grows by the length of the character that it gains.
pub proof fn lemma_utf8_len_take_next(s: Seq<char>, k: int)
    requires
        0 <= k < s.len(),
    ensures
        utf8_len(s.take(k + 1)) == utf8_len(s.take(k)) + len_utf8(s[k]),
{
    assert(s.take(k + 1) =~= s.take(k) + seq![s[k]]);
    lemma_utf8_len_concat(s.take(k), seq![s[k]]);
    assert(seq![s[k]].drop_first() =~= Seq::<char>::empty());
    assert(utf8_len(seq![s[k]]) == len_utf8(s[k]) + utf8_len(seq![s[k]].drop_first()));
}

fn whitespace(c: char) -> (white: bool)
    ensures
        white == is_whitespace(c),
{
    let v = c as u32;
    (0x09 <= v && v <= 0x0D) || v == 0x20 || v == 0x85 || v == 0xA0 || v == 0x1680 || (0x2000
        <= v && v <= 0x200A) || v == 0x2028 || v == 0x2029 || v == 0x202F || v == 0x205F || v
        == 0x3000
}

fn digit(c: char) -> (digit: bool)
    ensures
        digit == is_digit(c),
{
    '0' as u32 <= c as u32 && c as u32 <= '9' as u32
}

/// Consumes the white space and the comments in front of the next token.
fn skip_trivia(chars: &mut DocumentChars)
    requires
        old(chars).wf(),
    ensures
        final(chars).wf(),
        final(chars).total() == old(chars).total(),
        final(chars).rest() == old(chars).rest().skip(
            trivia_len(old(chars).rest(), TriviaMode::Normal) as int,
        ),
        final(chars).spec_position() == old(chars).spec_position() + utf8_len(
            old(chars).rest().take(trivia_len(old(chars).rest(), TriviaMode::Normal) as int),
        ),
{
    let ghost rest0 = chars.rest();
    let ghost pos0 = chars.spec_position();
    let ghost k: int = 0;
    let mut mode = TriviaMode::Normal;
    let mut done = false;
    proof {
        assert(rest0.skip(0) =~= rest0);
        assert(rest0.take(0) =~= Seq::<char>::empty());
    }
    while !done
        invariant
            chars.wf(),
            chars.total() == old(chars).total(),
            rest0 == old(chars).rest(),
            pos0 == old(chars).spec_position(),
            0 <= k <= rest0.len(),
            chars.rest() == rest0.skip(k),
            chars.spec_position() == pos0 + utf8_len(rest0.take(k)),
            !done ==> k + trivia_len(chars.rest(), mode) == trivia_len(rest0, TriviaMode::Normal),
            done ==> k == trivia_len(rest0, TriviaMode::Normal),
        decreases rest0.len() - k + (if done {
            0int
        } else {
            1int
        }),
    {
        let ghost rest = chars.rest();
        proof {
            if k < rest0.len() {
                lemma_utf8_len_take_next(rest0, k);
                assert(rest.drop_first() =~= rest0.skip(k + 1));
            }
            if k + 1 < rest0.len() {
                lemma_utf8_len_take_next(rest0, k + 1);
                assert(rest.skip(2) =~= rest0.skip(k + 2));
                assert(rest.drop_first().drop_first() =~= rest0.skip(k + 2));
            }
        }
        match chars.lookahead() {
            None => {
                done = true;
            },
            Some(c) => {
                match mode {
                    TriviaMode::Normal => {
                        if whitespace(c) {
                            chars.advance();
                            proof {
                                k = k + 1;
                            }
                        } else if c == '/' {
                            let second = chars.lookahead2();
                            if second == Some('/') {
                                chars.advance();
                                chars.advance();
                                mode = TriviaMode::LineComment;
                                proof {
                                    k = k + 2;
                                }
                            } else if second == Some('*') {
                                chars.advance();
                                chars.advance();
                                mode = TriviaMode::BlockComment;
                                proof {
                                    k = k + 2;
                                }
                            } else {
                                done = true;
                            }
                        } else {
                            done = true;
                        }
                    },
                    TriviaMode::LineComment => {
                        chars.advance();
                        if c == '\n' || c == '\r' {
                            mode = TriviaMode::Normal;
                        }
                        proof {
                            k = k + 1;
                        }
                    },
                    TriviaMode::BlockComment => {
                        let second = chars.lookahead2();
                        if c == '*' && second == Some('/') {
                            chars.advance();
                            chars.advance();
                            mode = TriviaMode::Normal;
                            proof {
                                k = k + 2;
                            }
                        } else {
                            chars.advance();
                            proof {
                                k = k + 1;
                            }
                        }
                    },
                }
            },
        }
    }
}

/// Consumes the characters that continue a word, and adds them to `text` and to `word`.
fn scan_word(chars: &mut DocumentChars, text: &mut String, word: &mut Vec<char>)
    requires
        old(chars).wf(),
    ensures
        final(chars).wf(),
        final(chars).total() == old(chars).total(),
        final(chars).rest() == old(chars).rest().skip(word_len(old(chars).rest()) as int),
        final(chars).spec_position() == old(chars).spec_position() + utf8_len(
            old(chars).rest().take(word_len(old(chars).rest()) as int),
        ),
        final(text)@ == old(text)@ + old(chars).rest().take(word_len(old(chars).rest()) as int),
        final(word)@ == old(word)@ + old(chars).rest().take(word_len(old(chars).rest()) as int),
{
    let ghost rest0 = chars.rest();
    let ghost pos0 = chars.spec_position();
    let ghost k: int = 0;
    let mut done = false;
    proof {
        assert(rest0.skip(0) =~= rest0);
        assert(rest0.take(0) =~= Seq::<char>::empty());
        assert(text@ + rest0.take(0) =~= text@);
        assert(word@ + rest0.take(0) =~= word@);
    }
    while !done
        invariant
            chars.wf(),
            chars.total() == old(chars).total(),
            rest0 == old(chars).rest(),
            pos0 == old(chars).spec_position(),
            0 <= k <= rest0.len(),
            chars.rest() == rest0.skip(k),
            chars.spec_position() == pos0 + utf8_len(rest0.take(k)),
            text@ == old(text)@ + rest0.take(k),
            word@ == old(word)@ + rest0.take(k),
            !done ==> k + word_len(chars.rest()) == word_len(rest0),
            done ==> k == word_len(rest0),
        decreases rest0.len() - k + (if done {
            0int
        } else {
            1int
        }),
    {
        proof {
            if k < rest0.len() {
                lemma_utf8_len_take_next(rest0, k);
                assert(chars.rest().drop_first() =~= rest0.skip(k + 1));
                assert(rest0.take(k + 1) =~= rest0.take(k).push(rest0[k]));
            }
        }
        match chars.lookahead() {
            None => {
                done = true;
            },
            Some(c) => {
                if is_xid_continue(c) {
                    chars.advance();
                    string_push(text, c);
                    word.push(c);
                    proof {
                        assert(text@ =~= old(text)@ + rest0.take(k + 1));
                        assert(word@ =~= old(word)@ + rest0.take(k + 1));
                        k = k + 1;
                    }
                } else {
                    done = true;
                }
            },
        }
    }
}

/// Reads the next token from the characters: skips what stands in front of it, then takes a
/// word, a number, a punctuation mark, or one unexpected character; or finds the end.
pub fn next_token(chars: &mut DocumentChars) -> (token: Token)
    requires
        old(chars).wf(),
    ensures
        final(chars).wf(),
        final(chars).total() == old(chars).total(),
        token@ == first_token(old(chars).rest(), old(chars).spec_position()),
        final(chars).rest() == old(chars).rest().skip(first_token_len(old(chars).rest()) as int),
        final(chars).spec_position() == token@.end,
        token@.kind is End ==> final(chars).rest().len() == 0,
{
    let ghost rest0 = chars.rest();
    let ghost pos0 = chars.spec_position();
    proof {
        lemma_first_token(rest0, pos0);
        lemma_trivia_len_bound(rest0, TriviaMode::Normal);
    }
    let full_start = chars.position();
    skip_trivia(chars);
    let ghost body = chars.rest();
    let ghost n = trivia_len(rest0, TriviaMode::Normal) as int;
    let start = chars.position();
    match chars.lookahead() {
        None => {
            proof {
                assert(body.take(0) =~= Seq::<char>::empty());
                assert(rest0.skip(n + 0) =~= body);
            }
            Token::End(EndToken::new(TokenRange::new(full_start, start, start)))
        },
        Some(c) => {
            proof {
                lemma_word_len_bound(body.drop_first());
                assert(body.take(1) =~= seq![c]);
                assert(seq![c].drop_first() =~= Seq::<char>::empty());
                assert(utf8_len(body.take(1)) == len_utf8(c) + utf8_len(seq![c].drop_first()));
                assert(rest0.skip(n).skip(body_len(body) as int) =~= rest0.skip(n + body_len(body)));
            }
            let second = chars.lookahead2();
            let word_start = is_xid_start(c) || (c == '_' && match second {
                Some(c2) => is_xid_continue(c2),
                None => false,
            });
            assert(word_start == starts_word(body));
            if word_start || digit(c) {
                let mut text = String::new();
                let mut word: Vec<char> = Vec::new();
                chars.advance();
                string_push(&mut text, c);
                word.push(c);
                scan_word(chars, &mut text, &mut word);
                proof {
                    let m = word_len(body.drop_first()) as int;
                    assert(body.take(1 + m) =~= seq![c] + body.drop_first().take(m));
                    assert(body.drop_first().skip(m) =~= body.skip(1 + m));
                    lemma_utf8_len_concat(seq![c], body.drop_first().take(m));
                    assert(text@ =~= body.take(1 + m));
                    assert(word@ =~= body.take(1 + m));
                }
                let end = chars.position();
                let range = TokenRange::new(full_start, start, end);
                if word_start {
                    match Keyword::from_chars(&word) {
                        Some(keyword) => Token::Glyph(
                            GlyphToken::new(range, Glyph::Keyword(keyword)),
                        ),
                        None => Token::Identifier(
                            IdentifierToken::new(range, Identifier::new(text)),
                        ),
                    }
                } else {
                    Token::Number(NumberToken::new(range, Number::new(text)))
                }
            } else {
                chars.advance();
                let end = chars.position();
                let range = TokenRange::new(full_start, start, end);
                match Glyph::punctuation(c) {
                    Some(glyph) => Token::Glyph(GlyphToken::new(range, glyph)),
                    None => Token::Unexpected(UnexpectedToken::new(range, c)),
                }
            }
        },
    }
}


/// A text has at most as many characters as its UTF-8 encoding has bytes.
pub proof fn lemma_utf8_len_lower_bound(s: Seq<char>)
    ensures
        s.len() <= utf8_len(s),
    decreases s.len(),
{
    if s.len() > 0 {
        lemma_utf8_len_lower_bound(s.drop_first());
    }
}

/// Reads the tokens of a document one at a time. The lexer always holds the next token, which
/// `lookahead` shows and `advance` hands out. At the end of the document the next token is
/// the end token, and stays so.
pub struct Lexer<'a> {
    document: &'a Document,
    chars: DocumentChars<'a>,
    lookahead: Token,
}

impl<'a> Lexer<'a> {
    /// The lexer's state is consistent: the token it holds ends where its cursor stands.
    pub closed spec fn wf(&self) -> bool {
        &&& self.chars.wf()
        &&& self.chars.total() == self.document.bytes().len()
        &&& self.lookahead@.end == self.chars.spec_position()
        &&& self.lookahead@.full_start <= self.lookahead@.start <= self.lookahead@.end
        &&& self.lookahead@.kind is End ==> self.lookahead@.end == self.chars.total()
    }

    /// The document that the lexer reads.
    pub closed spec fn spec_document(&self) -> &Document {
        self.document
    }

    /// The tokens that the lexer has not handed out yet, the end token last.
    pub closed spec fn remaining(&self) -> Seq<TokenView> {
        if self.lookahead@.kind is End {
            seq![self.lookahead@]
        } else {
            seq![self.lookahead@] + lex_from(self.chars.rest(), self.chars.spec_position())
        }
    }

    /// What is left of the tokens is a complete stream whose full ranges lie end to end up to
    /// the end of the document.
    pub proof fn lemma_remaining(&self)
        requires
            self.wf(),
        ensures
            complete(self.remaining()),
            covers(
                self.remaining(),
                self.remaining()[0].full_start,
                self.spec_document().bytes().len(),
            ),
            self.remaining().len() <= u32::MAX + 2,
    {
        let tail = lex_from(self.chars.rest(), self.chars.spec_position());
        let all = self.remaining();
        lemma_lex_from(self.chars.rest(), self.chars.spec_position());
        self.chars.lemma_position();
        lemma_utf8_len_lower_bound(self.chars.rest());
        if !(self.lookahead@.kind is End) {
            assert forall|i: int| 0 <= i < all.len() implies ((#[trigger] all[i]).kind is End
                <==> i == all.len() - 1) by {
                if i > 0 {
                    assert(all[i] == tail[i - 1]);
                }
            }
            assert forall|i: int| 0 <= i < all.len() implies (#[trigger] all[i]).full_start
                <= all[i].start <= all[i].end by {
                if i > 0 {
                    assert(all[i] == tail[i - 1]);
                }
            }
            assert forall|i: int| 0 < i < all.len() implies (#[trigger] all[i]).full_start
                == all[i - 1].end by {
                assert(all[i] == tail[i - 1]);
                if i > 1 {
                    assert(all[i - 1] == tail[i - 2]);
                }
            }
            assert(all.last() == tail.last());
        }
    }

    /// Starts to read the tokens of `document`.
    pub fn new(document: &'a Document) -> (lexer: Lexer<'a>)
        ensures
            lexer.wf(),
            lexer.spec_document() == document,
            lexer.remaining() == lex(document@),
    {
        let mut chars = document.chars();
        proof {
            lemma_first_token(chars.rest(), 0);
        }
        let lookahead = next_token(&mut chars);
        proof {
            chars.lemma_position();
            assert(utf8_len(Seq::<char>::empty()) == 0);
        }
        Lexer { document, chars, lookahead }
    }

    /// Looks at the next token without taking it.
    pub fn lookahead(&self) -> (token: &Token)
        ensures
            token@ == self.remaining()[0],
    {
        &self.lookahead
    }

    /// Looks at the next token, but only if it begins on the line on which the token before it
    /// ended: if no line ends in the white space and comments in front of it.
    pub fn lookahead_on_same_line(&self) -> (token: Option<&Token>)
        requires
            self.wf(),
        ensures
            token is Some <==> self.spec_document().spec_line(self.remaining()[0].full_start)
                == self.spec_document().spec_line(self.remaining()[0].start),
            token is Some ==> token->0@ == self.remaining()[0],
    {
        let range = self.lookahead.full_range();
        if range.full_start().line(self.document) == range.start().line(self.document) {
            Some(&self.lookahead)
        } else {
            None
        }
    }

    /// Takes the next token. The end token is handed out as often as it is asked for.
    pub fn advance(&mut self) -> (token: Token)
        requires
            old(self).wf(),
        ensures
            final(self).wf(),
            final(self).spec_document() == old(self).spec_document(),
            token@ == old(self).remaining()[0],
            final(self).remaining() == if old(self).remaining().len() > 1 {
                old(self).remaining().drop_first()
            } else {
                old(self).remaining()
            },
    {
        proof {
            self.lookahead.lemma_kind();
            lemma_first_token(self.chars.rest(), self.chars.spec_position());
        }
        if let Token::End(end) = &self.lookahead {
            return Token::End(EndToken::new(end.full_range()));
        }
        let mut next = next_token(&mut self.chars);
        proof {
            self.chars.lemma_position();
            assert(utf8_len(Seq::<char>::empty()) == 0);
            lemma_lex_from(old(self).chars.rest(), old(self).chars.spec_position());
            let tail = lex_from(old(self).chars.rest(), old(self).chars.spec_position());
            assert(old(self).remaining().drop_first() =~= tail);
            if next@.kind is End {
                assert(tail =~= seq![next@]);
            } else {
                assert(tail =~= seq![next@] + lex_from(
                    self.chars.rest(),
                    self.chars.spec_position(),
                ));
            }
        }
        core::mem::swap(&mut self.lookahead, &mut next);
        next
    }

    /// Reads all the tokens of `document`.
    pub fn tokens(document: &Document) -> (tokens: Vec<Token>)
        ensures
            token_views(tokens@) == lex(document@),
    {
        let mut lexer = Lexer::new(document);
        let mut tokens: Vec<Token> = Vec::new();
        let ghost all = lex(document@);
        proof {
            lexer.lemma_remaining();
            assert(all.skip(0) =~= all);
        }
        loop
            invariant_except_break
                tokens@.len() < all.len(),
                lexer.remaining() == all.skip(tokens@.len() as int),
            invariant
                lexer.wf(),
                all == lex(document@),
                forall|i: int| 0 <= i < tokens@.len() ==> (#[trigger] tokens@[i])@ == all[i],
                complete(all),
            ensures
                token_views(tokens@) =~= all,
            decreases all.len() - tokens@.len(),
        {
            let ghost before = tokens@.len() as int;
            let token = lexer.advance();
            let end = token.is_end();
            tokens.push(token);
            proof {
                assert(all.skip(before)[0] == all[before]);
                assert(all.skip(before).drop_first() =~= all.skip(before + 1));
            }
            if end {
                break ;
            }
        }
        tokens
    }
}

} // verus!
