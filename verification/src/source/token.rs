//! The tokens that the lexer cuts a document into.

use super::document::{Position, Range};
use super::identifier::{Identifier, Keyword};
use super::number::Number;
use vstd::prelude::*;
use vstd::string::*;

verus! {

/// A punctuation mark or a keyword.
#[derive(Clone, Copy, Debug, PartialEq, Eq, Hash, Structural)]
pub enum Glyph {
    /// `{`
    BraceLeft,
    /// `}`
    BraceRight,
    /// `,`
    Comma,
    /// `.`
    Dot,
    /// `=`
    Equals,
    /// `(`
    ParenLeft,
    /// `)`
    ParenRight,
    /// `;`
    Semicolon,
    /// `_`
    Underscore,
    /// A reserved word.
    Keyword(Keyword),
}

impl Glyph {
    /// The glyph as it is written in source text.
    pub open spec fn text(self) -> Seq<char> {
        match self {
            Glyph::BraceLeft => seq!['{'],
            Glyph::BraceRight => seq!['}'],
            Glyph::Comma => seq![','],
            Glyph::Dot => seq!['.'],
            Glyph::Equals => seq!['='],
            Glyph::ParenLeft => seq!['('],
            Glyph::ParenRight => seq![')'],
            Glyph::Semicolon => seq![';'],
            Glyph::Underscore => seq!['_'],
            Glyph::Keyword(keyword) => keyword.text(),
        }
    }

    /// The punctuation glyph that is written as the character `c`, if there is one.
    pub open spec fn spec_punctuation(c: char) -> Option<Glyph> {
        if c == '{' {
            Some(Glyph::BraceLeft)
        } else if c == '}' {
            Some(Glyph::BraceRight)
        } else if c == ',' {
            Some(Glyph::Comma)
        } else if c == '.' {
            Some(Glyph::Dot)
        } else if c == '=' {
            Some(Glyph::Equals)
        } else if c == '(' {
            Some(Glyph::ParenLeft)
        } else if c == ')' {
            Some(Glyph::ParenRight)
        } else if c == ';' {
            Some(Glyph::Semicolon)
        } else if c == '_' {
            Some(Glyph::Underscore)
        } else {
            None
        }
    }

    /// A number that stands for the glyph, a different one for each glyph.
    pub open spec fn spec_code(self) -> u64 {
        match self {
            Glyph::BraceLeft => 0,
            Glyph::BraceRight => 1,
            Glyph::Comma => 2,
            Glyph::Dot => 3,
            Glyph::Equals => 4,
            Glyph::ParenLeft => 5,
            Glyph::ParenRight => 6,
            Glyph::Semicolon => 7,
            Glyph::Underscore => 8,
            Glyph::Keyword(Keyword::True) => 9,
            Glyph::Keyword(Keyword::False) => 10,
            Glyph::Keyword(Keyword::Let) => 11,
            Glyph::Keyword(Keyword::If) => 12,
            Glyph::Keyword(Keyword::Else) => 13,
            Glyph::Keyword(Keyword::Do) => 14,
        }
    }

    /// Glyphs with the same code are the same glyph.
    pub proof fn lemma_code_injective(self, other: Glyph)
        requires
            self.spec_code() == other.spec_code(),
        ensures
            self == other,
    {
    }

    /// The glyph as it is written in source text.
    pub fn as_str(&self) -> (text: &'static str)
        ensures
            text@ == self.text(),
    {
        proof {
            reveal_strlit("{");
            reveal_strlit("}");
            reveal_strlit(",");
            reveal_strlit(".");
            reveal_strlit("=");
            reveal_strlit("(");
            reveal_strlit(")");
            reveal_strlit(";");
            reveal_strlit("_");
        }
        match self {
            Glyph::BraceLeft => {
                assert("{"@ =~= seq!['{']);
                "{"
            },
            Glyph::BraceRight => {
                assert("}"@ =~= seq!['}']);
                "}"
            },
            Glyph::Comma => {
                assert(","@ =~= seq![',']);
                ","
            },
            Glyph::Dot => {
                assert("."@ =~= seq!['.']);
                "."
            },
            Glyph::Equals => {
                assert("="@ =~= seq!['=']);
                "="
            },
            Glyph::ParenLeft => {
                assert("("@ =~= seq!['(']);
                "("
            },
            Glyph::ParenRight => {
                assert(")"@ =~= seq![')']);
                ")"
            },
            Glyph::Semicolon => {
                assert(";"@ =~= seq![';']);
                ";"
            },
            Glyph::Underscore => {
                assert("_"@ =~= seq!['_']);
                "_"
            },
            Glyph::Keyword(keyword) => keyword.as_str(),
        }
    }

    /// Finds the punctuation glyph that is written as the character `c`, if there is one.
    pub fn punctuation(c: char) -> (glyph: Option<Glyph>)
        ensures
            glyph == Glyph::spec_punctuation(c),
    {
        if c == '{' {
            Some(Glyph::BraceLeft)
        } else if c == '}' {
            Some(Glyph::BraceRight)
        } else if c == ',' {
            Some(Glyph::Comma)
        } else if c == '.' {
            Some(Glyph::Dot)
        } else if c == '=' {
            Some(Glyph::Equals)
        } else if c == '(' {
            Some(Glyph::ParenLeft)
        } else if c == ')' {
            Some(Glyph::ParenRight)
        } else if c == ';' {
            Some(Glyph::Semicolon)
        } else if c == '_' {
            Some(Glyph::Underscore)
        } else {
            None
        }
    }

    /// A number that stands for the glyph, a different one for each glyph.
    pub fn code(&self) -> (code: u64)
        ensures
            code == self.spec_code(),
    {
        match self {
            Glyph::BraceLeft => 0,
            Glyph::BraceRight => 1,
            Glyph::Comma => 2,
            Glyph::Dot => 3,
            Glyph::Equals => 4,
            Glyph::ParenLeft => 5,
            Glyph::ParenRight => 6,
            Glyph::Semicolon => 7,
            Glyph::Underscore => 8,
            Glyph::Keyword(Keyword::True) => 9,
            Glyph::Keyword(Keyword::False) => 10,
            Glyph::Keyword(Keyword::Let) => 11,
            Glyph::Keyword(Keyword::If) => 12,
            Glyph::Keyword(Keyword::Else) => 13,
            Glyph::Keyword(Keyword::Do) => 14,
        }
    }
}

/// Where a token lies in its document. The full range starts where the token before it ended,
/// and so holds the white space and comments in front of the token; the trimmed range holds
/// the token alone. Both end where the token ends.
#[derive(Clone, Copy, Debug, PartialEq, Eq, Hash, Structural)]
pub struct TokenRange {
    full_start: Position,
    range: Range,
}

impl TokenRange {
    #[verifier::type_invariant]
    spec fn inv(self) -> bool {
        self.full_start@ <= self.range.start_index()
    }

    /// The offset at which the full range starts.
    pub closed spec fn full_start_index(self) -> nat {
        self.full_start@
    }

    /// The offset at which the token itself starts.
    pub closed spec fn start_index(self) -> nat {
        self.range.start_index()
    }

    /// The offset at which the token ends.
    pub closed spec fn end_index(self) -> nat {
        self.range.end_index()
    }

    /// The range of a token that lies between `start` and `end` and whose leading white space
    /// and comments begin at `full_start`.
    pub fn new(full_start: Position, start: Position, end: Position) -> (range: TokenRange)
        requires
            full_start@ <= start@ <= end@,
        ensures
            range.full_start_index() == full_start@,
            range.start_index() == start@,
            range.end_index() == end@,
    {
        TokenRange { full_start, range: Range::between(start, end) }
    }

    /// The position at which the full range starts.
    pub fn full_start(&self) -> (position: Position)
        ensures
            position@ == self.full_start_index(),
            self.full_start_index() <= self.start_index() <= self.end_index(),
    {
        proof {
            use_type_invariant(self);
        }
        self.full_start
    }

    /// The position at which the token itself starts.
    pub fn start(&self) -> (position: Position)
        ensures
            position@ == self.start_index(),
            self.full_start_index() <= self.start_index() <= self.end_index(),
    {
        proof {
            use_type_invariant(self);
        }
        self.range.start()
    }

    /// The position at which the token ends.
    pub fn end(&self) -> (position: Position)
        ensures
            position@ == self.end_index(),
            self.full_start_index() <= self.start_index() <= self.end_index(),
    {
        proof {
            use_type_invariant(self);
        }
        self.range.end()
    }

    /// The trimmed range: that of the token alone.
    pub fn range(&self) -> (range: Range)
        ensures
            range.start_index() == self.start_index(),
            range.end_index() == self.end_index(),
    {
        self.range
    }

    /// The full range: that of the token and of the white space and comments in front of it.
    pub fn full_range(&self) -> (range: Range)
        ensures
            range.start_index() == self.full_start_index(),
            range.end_index() == self.end_index(),
    {
        proof {
            use_type_invariant(self);
        }
        Range::between(self.full_start, self.range.end())
    }
}

/// What kind of token a token is, and what it holds.
pub enum TokenKind {
    Glyph(Glyph),
    Identifier(Seq<char>),
    Number(Seq<char>),
    Unexpected(char),
    End,
}

/// What a token is: its kind and the three offsets of its range.
pub struct TokenView {
    pub kind: TokenKind,
    pub full_start: nat,
    pub start: nat,
    pub end: nat,
}

/// A punctuation mark or keyword in a document.
#[derive(Debug, PartialEq, Eq)]
pub struct GlyphToken {
    range: TokenRange,
    glyph: Glyph,
}

/// A name in a document.
#[derive(Debug, PartialEq, Eq)]
pub struct IdentifierToken {
    range: TokenRange,
    identifier: Identifier,
}

/// A number literal in a document.
#[derive(Debug, PartialEq, Eq)]
pub struct NumberToken {
    range: TokenRange,
    number: Number,
}

/// A character in a document with which no token of the language begins.
#[derive(Debug, PartialEq, Eq)]
pub struct UnexpectedToken {
    range: TokenRange,
    unexpected: char,
}

/// The end of a document. Its full range holds the white space and comments after the last
/// other token.
#[derive(Debug, PartialEq, Eq)]
pub struct EndToken {
    range: TokenRange,
}

/// A token of a document.
#[derive(Debug, PartialEq, Eq)]
pub enum Token {
    Glyph(GlyphToken),
    Identifier(IdentifierToken),
    Number(NumberToken),
    Unexpected(UnexpectedToken),
    End(EndToken),
}

/// The view of a token of kind `kind` at `range`.
pub open spec fn token_view(kind: TokenKind, range: TokenRange) -> TokenView {
    TokenView {
        kind,
        full_start: range.full_start_index(),
        start: range.start_index(),
        end: range.end_index(),
    }
}

impl View for GlyphToken {
    type V = TokenView;

    closed spec fn view(&self) -> TokenView {
        token_view(TokenKind::Glyph(self.glyph), self.range)
    }
}

impl View for IdentifierToken {
    type V = TokenView;

    closed spec fn view(&self) -> TokenView {
        token_view(TokenKind::Identifier(self.identifier@), self.range)
    }
}

impl View for NumberToken {
    type V = TokenView;

    closed spec fn view(&self) -> TokenView {
        token_view(TokenKind::Number(self.number@), self.range)
    }
}

impl View for UnexpectedToken {
    type V = TokenView;

    closed spec fn view(&self) -> TokenView {
        token_view(TokenKind::Unexpected(self.unexpected), self.range)
    }
}

impl View for EndToken {
    type V = TokenView;

    closed spec fn view(&self) -> TokenView {
        token_view(TokenKind::End, self.range)
    }
}

impl View for Token {
    type V = TokenView;

    open spec fn view(&self) -> TokenView {
        match self {
            Token::Glyph(token) => token@,
            Token::Identifier(token) => token@,
            Token::Number(token) => token@,
            Token::Unexpected(token) => token@,
            Token::End(token) => token@,
        }
    }
}

impl GlyphToken {
    /// The token of `glyph` at `range`.
    pub fn new(range: TokenRange, glyph: Glyph) -> (token: GlyphToken)
        ensures
            token@ == token_view(TokenKind::Glyph(glyph), range),
    {
        GlyphToken { range, glyph }
    }

    /// A glyph token is of the glyph kind.
    pub proof fn lemma_kind(&self)
        ensures
            self@.kind is Glyph,
    {
    }

    /// Where the token lies.
    pub fn full_range(&self) -> (range: TokenRange)
        ensures
            self@ == token_view(self@.kind, range),
            self@.full_start <= self@.start <= self@.end,
    {
        proof {
            use_type_invariant(&self.range);
        }
        self.range
    }

    /// The glyph that the token holds.
    pub fn glyph(&self) -> (glyph: Glyph)
        ensures
            self@.kind == TokenKind::Glyph(glyph),
    {
        self.glyph
    }
}

impl IdentifierToken {
    /// The token of `identifier` at `range`.
    pub fn new(range: TokenRange, identifier: Identifier) -> (token: IdentifierToken)
        ensures
            token@ == token_view(TokenKind::Identifier(identifier@), range),
    {
        IdentifierToken { range, identifier }
    }

    /// An identifier token is of the identifier kind.
    pub proof fn lemma_kind(&self)
        ensures
            self@.kind is Identifier,
    {
    }

    /// Where the token lies.
    pub fn full_range(&self) -> (range: TokenRange)
        ensures
            self@ == token_view(self@.kind, range),
            self@.full_start <= self@.start <= self@.end,
    {
        proof {
            use_type_invariant(&self.range);
        }
        self.range
    }

    /// The name that the token holds.
    pub fn identifier(&self) -> (identifier: &Identifier)
        ensures
            self@.kind == TokenKind::Identifier(identifier@),
    {
        &self.identifier
    }
}

impl NumberToken {
    /// The token of `number` at `range`.
    pub fn new(range: TokenRange, number: Number) -> (token: NumberToken)
        ensures
            token@ == token_view(TokenKind::Number(number@), range),
    {
        NumberToken { range, number }
    }

    /// A number token is of the number kind.
    pub proof fn lemma_kind(&self)
        ensures
            self@.kind is Number,
    {
    }

    /// Where the token lies.
    pub fn full_range(&self) -> (range: TokenRange)
        ensures
            self@ == token_view(self@.kind, range),
            self@.full_start <= self@.start <= self@.end,
    {
        proof {
            use_type_invariant(&self.range);
        }
        self.range
    }

    /// The number that the token holds.
    pub fn number(&self) -> (number: &Number)
        ensures
            self@.kind == TokenKind::Number(number@),
    {
        &self.number
    }
}

impl UnexpectedToken {
    /// The token of the character `unexpected` at `range`.
    pub fn new(range: TokenRange, unexpected: char) -> (token: UnexpectedToken)
        ensures
            token@ == token_view(TokenKind::Unexpected(unexpected), range),
    {
        UnexpectedToken { range, unexpected }
    }

    /// An unexpected token is of the unexpected kind.
    pub proof fn lemma_kind(&self)
        ensures
            self@.kind is Unexpected,
    {
    }

    /// Where the token lies.
    pub fn full_range(&self) -> (range: TokenRange)
        ensures
            self@ == token_view(self@.kind, range),
            self@.full_start <= self@.start <= self@.end,
    {
        proof {
            use_type_invariant(&self.range);
        }
        self.range
    }

    /// The character that the token holds.
    pub fn unexpected(&self) -> (unexpected: char)
        ensures
            self@.kind == TokenKind::Unexpected(unexpected),
    {
        self.unexpected
    }
}

impl EndToken {
    /// The end token at `range`.
    pub fn new(range: TokenRange) -> (token: EndToken)
        ensures
            token@ == token_view(TokenKind::End, range),
    {
        EndToken { range }
    }

    /// An end token is of the end kind.
    pub proof fn lemma_kind(&self)
        ensures
            self@.kind is End,
    {
    }

    /// Where the token lies.
    pub fn full_range(&self) -> (range: TokenRange)
        ensures
            self@ == token_view(TokenKind::End, range),
            self@.full_start <= self@.start <= self@.end,
    {
        proof {
            use_type_invariant(&self.range);
        }
        self.range
    }
}

impl Token {
    /// Where the token lies.
    pub fn full_range(&self) -> (range: TokenRange)
        ensures
            self@ == token_view(self@.kind, range),
            self@.full_start <= self@.start <= self@.end,
    {
        match self {
            Token::Glyph(token) => token.full_range(),
            Token::Identifier(token) => token.full_range(),
            Token::Number(token) => token.full_range(),
            Token::Unexpected(token) => token.full_range(),
            Token::End(token) => token.full_range(),
        }
    }

    /// The trimmed range of the token: that of the token alone.
    pub fn range(&self) -> (range: Range)
        ensures
            range.start_index() == self@.start,
            range.end_index() == self@.end,
    {
        self.full_range().range()
    }

    /// Is this the end token?
    pub fn is_end(&self) -> (is_end: bool)
        ensures
            is_end == (self@.kind is End),
    {
        match self {
            Token::End(_) => true,
            _ => false,
        }
    }

    /// Is this the token of `glyph`?
    pub fn is_glyph(&self, glyph: Glyph) -> (is_glyph: bool)
        ensures
            is_glyph == (self@.kind == TokenKind::Glyph(glyph)),
    {
        match self {
            Token::Glyph(token) => token.glyph() == glyph,
            _ => false,
        }
    }

    /// The kind of a token is that of its variant.
    pub proof fn lemma_kind(&self)
        ensures
            self is Glyph <==> self@.kind is Glyph,
            self is Identifier <==> self@.kind is Identifier,
            self is Number <==> self@.kind is Number,
            self is Unexpected <==> self@.kind is Unexpected,
            self is End <==> self@.kind is End,
    {
        match self {
            Token::Glyph(token) => token.lemma_kind(),
            Token::Identifier(token) => token.lemma_kind(),
            Token::Number(token) => token.lemma_kind(),
            Token::Unexpected(token) => token.lemma_kind(),
            Token::End(token) => token.lemma_kind(),
        }
    }
}


/// What the tokens of a sequence are, one by one.
pub open spec fn token_views(tokens: Seq<Token>) -> Seq<TokenView> {
    Seq::new(tokens.len(), |i: int| tokens[i]@)
}


impl Clone for GlyphToken {
    fn clone(&self) -> (copy: GlyphToken)
        ensures
            copy == *self,
    {
        GlyphToken { range: self.range, glyph: self.glyph }
    }
}

impl Clone for IdentifierToken {
    fn clone(&self) -> (copy: IdentifierToken)
        ensures
            copy == *self,
    {
        IdentifierToken { range: self.range, identifier: self.identifier.clone() }
    }
}

impl Clone for NumberToken {
    fn clone(&self) -> (copy: NumberToken)
        ensures
            copy == *self,
    {
        NumberToken { range: self.range, number: self.number.clone() }
    }
}

impl Clone for UnexpectedToken {
    fn clone(&self) -> (copy: UnexpectedToken)
        ensures
            copy == *self,
    {
        UnexpectedToken { range: self.range, unexpected: self.unexpected }
    }
}

impl Clone for EndToken {
    fn clone(&self) -> (copy: EndToken)
        ensures
            copy == *self,
    {
        EndToken { range: self.range }
    }
}

impl Clone for Token {
    fn clone(&self) -> (copy: Token)
        ensures
            copy == *self,
    {
        match self {
            Token::Glyph(token) => Token::Glyph(token.clone()),
            Token::Identifier(token) => Token::Identifier(token.clone()),
            Token::Number(token) => Token::Number(token.clone()),
            Token::Unexpected(token) => Token::Unexpected(token.clone()),
            Token::End(token) => Token::End(token.clone()),
        }
    }
}

/// The views of a sequence with one more token are the views of the sequence with one more
/// view.
pub proof fn lemma_token_views_push(tokens: Seq<Token>, token: Token)
    ensures
        token_views(tokens.push(token)) == token_views(tokens).push(token@),
{
    assert(token_views(tokens.push(token)) =~= token_views(tokens).push(token@));
}

} // verus!
