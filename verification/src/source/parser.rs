//! Parses a stream of tokens into an Abstract Syntax Tree (AST). We designed our parser with error
//! recovery in mind! The parser should be able to process any text document thrown at it.
//!
//! Our goal for the error recovery behavior is:
//!
//! 1. Don’t over-complicate the parser. We’d rather the parser be easily extendable then have super
//!    robust error recovery.
//! 2. Don’t go to great lengths to produce some reasonable AST for code immediately around a
//!    syntax error. We’d rather show one syntax error than five type checker errors because we
//!    parsed some nonsense AST.
//! 3. Do parse surrounding declarations. That way we may continue providing services like
//!    hover types.

use super::ast::{
    after, arguments_diagnostics, arguments_end, arguments_parse, arguments_tokens,
    arguments_wf, can_start, is_glyph, items_parse, lemma_arguments_parse_push,
    extends, lemma_items_parse_push, optional_glyph_parses, same_line,
    lemma_arguments_push, lemma_items_push, lemma_skip_len_bound, skip_len, stops,
    items_diagnostics, items_tokens, items_wf, optional_expression_diagnostics,
    optional_alternate_diagnostics, optional_alternate_tokens, optional_expression_tokens,
    optional_glyph_is, optional_glyph_tokens,
    optional_identifier_tokens, optional_pattern_diagnostics, optional_pattern_tokens, Block, BlockExpression,
    BindingStatement, BooleanConstant, CallExpression, CommaListItem, ConditionalExpression,
    ConditionalExpressionAlternate, Constant, ErrorExpression, ErrorNode, ErrorPattern,
    Expression, ExpressionStatement, GlyphNode, HolePattern, IdentifierNode, Item, Module,
    NumberConstant, Pattern, PropertyExpression, Statement, VariableExpression, VariablePattern,
    WrappedExpression,
};
use super::document::Document;
use super::identifier::Keyword;
use super::lexer::{complete, Lexer};
use super::recovery::RecoverySet;
use super::token::{
    lemma_token_views_push, token_views, Glyph, GlyphToken, Token,
    TokenKind, TokenView,
};
use crate::diagnostics::{Diagnostic, DiagnosticsCollection, ExpectedSyntax};
use vstd::multiset::*;
use vstd::prelude::*;

verus! {

/// Can `token` be the first token of what `expected` stands for?
pub fn starts(expected: ExpectedSyntax, token: &Token) -> (starts: bool)
    ensures
        starts == can_start(expected, token@.kind),
{
    proof {
        token.lemma_kind();
    }
    match expected {
        ExpectedSyntax::Glyph(glyph) => token.is_glyph(glyph),
        ExpectedSyntax::Identifier => match token {
            Token::Identifier(_) => true,
            _ => false,
        },
        ExpectedSyntax::Expression => match token {
            Token::Identifier(_) => true,
            Token::Number(_) => true,
            Token::Glyph(token) => {
                let glyph = token.glyph();
                glyph == Glyph::Keyword(Keyword::True) || glyph == Glyph::Keyword(Keyword::False)
                    || glyph == Glyph::Keyword(Keyword::If) || glyph == Glyph::Keyword(Keyword::Do)
                    || glyph == Glyph::ParenLeft
            },
            _ => false,
        },
        ExpectedSyntax::Pattern => match token {
            Token::Identifier(_) => true,
            Token::Glyph(token) => token.glyph() == Glyph::Underscore,
            _ => false,
        },
        _ => false,
    }
}

/// Parses a stream of tokens into an Abstract Syntax Tree (AST).
pub struct Parser<'a> {
    /// The lexer our parser uses to generate tokens.
    lexer: Lexer<'a>,
    /// Glyphs at which our parser will recover from an error.
    recoverable: RecoverySet,
    /// The diagnostics that the parser has reported.
    diagnostics: DiagnosticsCollection,
}

/// What a step of the parser does to its state: it takes `tokens` from the front of the
/// tokens that were left, reports `diagnostics` after those that were reported, and leaves
/// the open scopes as they were.
pub open spec fn parsed(
    before: Parser,
    after: Parser,
    tokens: Seq<TokenView>,
    diagnostics: Seq<Diagnostic>,
) -> bool {
    &&& after.wf()
    &&& after.spec_document() == before.spec_document()
    &&& before.remaining() == tokens + after.remaining()
    &&& after.scopes() == before.scopes()
    &&& after.reported() == before.reported() + diagnostics
}

impl<'a> Parser<'a> {
    /// The parser's state is consistent.
    pub closed spec fn wf(&self) -> bool {
        &&& self.lexer.wf()
        &&& self.recoverable.wf()
    }

    /// The document that is parsed.
    pub closed spec fn spec_document(&self) -> &Document {
        self.lexer.spec_document()
    }

    /// The tokens that are not parsed yet, the end token last.
    pub closed spec fn remaining(&self) -> Seq<TokenView> {
        self.lexer.remaining()
    }

    /// The glyphs at which the parser recovers, each as often as a scope is open for it.
    pub closed spec fn scopes(&self) -> Multiset<Glyph> {
        self.recoverable@
    }

    /// The diagnostics that the parser has reported, in their order.
    pub closed spec fn reported(&self) -> Seq<Diagnostic> {
        self.diagnostics@
    }

    /// There is room for `slack` more scopes beside four for every token that is left. The
    /// scopes that are open at any time are fewer than that, so their count never overflows.
    pub open spec fn fits(&self, slack: int) -> bool {
        self.scopes().len() + 4 * self.remaining().len() + slack <= u64::MAX
    }

    /// What is left of the tokens is a complete stream: it ends with the end token and holds
    /// no other.
    pub proof fn lemma_remaining(&self)
        requires
            self.wf(),
        ensures
            complete(self.remaining()),
    {
        self.lexer.lemma_remaining();
    }

    /// A parser that reads its tokens from `lexer`: no scope is open, and nothing is
    /// reported yet.
    pub fn new(lexer: Lexer<'a>) -> (parser: Parser<'a>)
        requires
            lexer.wf(),
        ensures
            parser.wf(),
            parser.fits(1),
            parser.spec_document() == lexer.spec_document(),
            parser.remaining() == lexer.remaining(),
            parser.scopes() == Multiset::<Glyph>::empty(),
            parser.reported() == Seq::<Diagnostic>::empty(),
    {
        proof {
            lexer.lemma_remaining();
        }
        Parser { lexer, recoverable: RecoverySet::new(), diagnostics: DiagnosticsCollection::new() }
    }

    /// Ends the parse, and gives the diagnostics that were reported.
    pub fn finish(self) -> (diagnostics: DiagnosticsCollection)
        ensures
            diagnostics@ == self.reported(),
    {
        self.diagnostics
    }

    /// Does the parser stop skipping at the next token?
    fn lookahead_stops(&self) -> (stop: bool)
        requires
            self.wf(),
        ensures
            stop == stops(self.scopes(), self.remaining()[0].kind),
    {
        let token = self.lexer.lookahead();
        proof {
            token.lemma_kind();
        }
        match token {
            Token::End(_) => true,
            Token::Glyph(token) => self.recoverable.contains(token.glyph()),
            _ => false,
        }
    }

    /// Can the next token be the first token of what `expected` stands for?
    fn lookahead_starts(&self, expected: ExpectedSyntax) -> (starts: bool)
        requires
            self.wf(),
        ensures
            starts == can_start(expected, self.remaining()[0].kind),
    {
        starts(expected, self.lexer.lookahead())
    }

    /// Takes the next token, which is not the end token.
    fn advance(&mut self) -> (token: Token)
        requires
            old(self).wf(),
            !(old(self).remaining()[0].kind is End),
        ensures
            token@ == old(self).remaining()[0],
            parsed(*old(self), *final(self), seq![token@], Seq::empty()),
            final(self).remaining() == old(self).remaining().drop_first(),
            final(self).remaining().len() == old(self).remaining().len() - 1,
    {
        proof {
            self.lemma_remaining();
        }
        let token = self.lexer.advance();
        proof {
            assert(old(self).remaining() =~= seq![token@] + self.remaining());
            assert(self.reported() =~= old(self).reported() + Seq::<Diagnostic>::empty());
        }
        token
    }
}


impl<'a> Parser<'a> {
    /// Tries to parse the provided glyph. If we could not parse the provided token then return
    /// `None` and don’t advance the lexer. Otherwise advance the lexer and return the parsed token.
    fn try_parse_glyph(&mut self, glyph: Glyph) -> (token: Option<GlyphToken>)
        requires
            old(self).wf(),
        ensures
            token is Some <==> old(self).remaining()[0].kind == TokenKind::Glyph(glyph),
            token is Some ==> token->0@ == old(self).remaining()[0],
            parsed(*old(self), *final(self), optional_glyph_tokens(token), Seq::empty()),
            optional_glyph_is(token, glyph),
            optional_glyph_parses(token, glyph, old(self).remaining()),
    {
        if self.lexer.lookahead().is_glyph(glyph) {
            let token = self.advance();
            proof {
                token.lemma_kind();
            }
            match token {
                Token::Glyph(token) => Some(token),
                _ => unreached(),
            }
        } else {
            proof {
                assert(self.remaining() =~= Seq::<TokenView>::empty() + self.remaining());
                assert(self.reported() =~= self.reported() + Seq::<Diagnostic>::empty());
            }
            None
        }
    }

    /// Tries to parse the provided glyph, but _only_ if that glyph is on the same line as our
    /// current lexer position. If we could not parse the provided token then return `None` and
    /// don’t advance the lexer. Otherwise advance the lexer and return the parsed token.
    fn try_parse_glyph_on_same_line(&mut self, glyph: Glyph) -> (token: Option<GlyphToken>)
        requires
            old(self).wf(),
        ensures
            token is Some <==> old(self).remaining()[0].kind == TokenKind::Glyph(glyph) && old(
                self,
            ).spec_document().spec_line(old(self).remaining()[0].full_start) == old(
                self,
            ).spec_document().spec_line(old(self).remaining()[0].start),
            token is Some ==> token->0@ == old(self).remaining()[0],
            parsed(*old(self), *final(self), optional_glyph_tokens(token), Seq::empty()),
            optional_glyph_is(token, glyph),
    {
        let same_line = match self.lexer.lookahead_on_same_line() {
            Some(token) => token.is_glyph(glyph),
            None => false,
        };
        if same_line {
            self.try_parse_glyph(glyph)
        } else {
            proof {
                assert(self.remaining() =~= Seq::<TokenView>::empty() + self.remaining());
                assert(self.reported() =~= self.reported() + Seq::<Diagnostic>::empty());
            }
            None
        }
    }

    /// If a parse error is encountered after this call we will skip tokens trying to get a
    /// successful parse. That is until we reach one of the tokens we were told to recover
    /// from. This is how we introduce a glyph to be recovered from into scope; `recover_done`
    /// takes it out of scope again.
    fn recover_at(&mut self, glyph: Glyph)
        requires
            old(self).wf(),
            old(self).fits(1),
        ensures
            final(self).wf(),
            final(self).spec_document() == old(self).spec_document(),
            final(self).remaining() == old(self).remaining(),
            final(self).reported() == old(self).reported(),
            final(self).scopes() == old(self).scopes().insert(glyph),
            final(self).scopes().len() == old(self).scopes().len() + 1,
    {
        self.recoverable.enter(glyph);
    }

    /// Takes out of scope a glyph that `recover_at` has put in scope.
    fn recover_done(&mut self, glyph: Glyph)
        requires
            old(self).wf(),
        ensures
            final(self).wf(),
            final(self).spec_document() == old(self).spec_document(),
            final(self).remaining() == old(self).remaining(),
            final(self).reported() == old(self).reported(),
            final(self).scopes() == old(self).scopes().remove(glyph),
    {
        self.recoverable.leave(glyph);
    }

    /// Recovers from an error: the next token cannot begin what `expected` stands for. Reports
    /// the error, blaming the next token, and skips tokens until one comes at which to go on:
    /// the end of the document, a glyph for which a scope is open, or a token with which
    /// `expected` can begin. The skipped tokens are kept in the error node.
    #[verifier::rlimit(100)]
    #[verifier::spinoff_prover]
    fn recover(&mut self, expected: ExpectedSyntax) -> (error: ErrorNode)
        requires
            old(self).wf(),
            !can_start(expected, old(self).remaining()[0].kind),
        ensures
            parsed(*old(self), *final(self), error.tokens(), seq![error.diagnostic()]),
            error.tokens() == old(self).remaining().take(
                skip_len(old(self).scopes(), expected, old(self).remaining()) as int,
            ),
            error.wf(expected),
            error.recovers(old(self).scopes(), expected, old(self).remaining()),
            stops(final(self).scopes(), final(self).remaining()[0].kind) || can_start(
                expected,
                final(self).remaining()[0].kind,
            ),
    {
        let ghost all = self.remaining();
        let ghost scopes = self.scopes();
        let first = self.lexer.lookahead();
        let position = first.range().start();
        let diagnostic = self.diagnostics.report(Diagnostic::unexpected_token(first, expected));
        let mut skipped: Vec<Token> = Vec::new();
        proof {
            assert(all.skip(0) =~= all);
            assert(token_views(skipped@) =~= all.take(0));
            lemma_skip_len_bound(scopes, expected, all);
        }
        while !(self.lookahead_stops() || self.lookahead_starts(expected))
            invariant
                self.wf(),
                self.spec_document() == old(self).spec_document(),
                self.scopes() == scopes,
                scopes == old(self).scopes(),
                all == old(self).remaining(),
                self.reported() == old(self).reported().push(diagnostic@),
                skipped@.len() <= all.len(),
                self.remaining() == all.skip(skipped@.len() as int),
                token_views(skipped@) == all.take(skipped@.len() as int),
                skipped@.len() + skip_len(scopes, expected, self.remaining()) == skip_len(
                    scopes,
                    expected,
                    all,
                ),
                forall|i: int|
                    0 <= i < skipped@.len() ==> !can_start(expected, (#[trigger] all[i]).kind) && !(
                    all[i].kind is End),
            ensures
                stops(self.scopes(), self.remaining()[0].kind) || can_start(
                    expected,
                    self.remaining()[0].kind,
                ),
                skipped@.len() == skip_len(scopes, expected, all),
            decreases self.remaining().len(),
        {
            let ghost before = skipped@;
            proof {
                self.lemma_remaining();
            }
            let token = self.advance();
            skipped.push(token);
            proof {
                let k = before.len() as int;
                lemma_token_views_push(before, token);
                assert(all.skip(k)[0] == all[k]);
                assert(all.skip(k).drop_first() =~= all.skip(k + 1));
                assert(all.take(k + 1) =~= all.take(k).push(all[k]));
                lemma_skip_len_bound(scopes, expected, all);
            }
        }
        proof {
            let n = skipped@.len() as int;
            self.lemma_remaining();
            assert(all =~= all.take(n) + all.skip(n));
            assert(old(self).reported().push(diagnostic@) =~= old(self).reported() + seq![
                diagnostic@,
            ]);
            if n > 0 {
                assert(all.take(n)[0] == all[0]);
            }
            assert forall|i: int| 0 <= i < n implies !can_start(
                expected,
                (#[trigger] all.take(n)[i]).kind,
            ) && !(all.take(n)[i].kind is End) by {
                assert(all.take(n)[i] == all[i]);
            }
        }
        ErrorNode::new(skipped, diagnostic, position)
    }
}


/// Two steps of the parser, one after the other, are one step that takes the tokens of both
/// and reports the diagnostics of both.
pub proof fn lemma_parsed_then(
    first: Parser,
    second: Parser,
    third: Parser,
    tokens1: Seq<TokenView>,
    diagnostics1: Seq<Diagnostic>,
    tokens2: Seq<TokenView>,
    diagnostics2: Seq<Diagnostic>,
)
    requires
        parsed(first, second, tokens1, diagnostics1),
        parsed(second, third, tokens2, diagnostics2),
    ensures
        parsed(first, third, tokens1 + tokens2, diagnostics1 + diagnostics2),
{
    assert(first.remaining() =~= (tokens1 + tokens2) + third.remaining());
    assert(third.reported() =~= first.reported() + (diagnostics1 + diagnostics2));
}

/// A step that only takes tokens, and a step after it, are one step that takes the tokens
/// of both and reports what the second reports.
pub proof fn lemma_parsed_after_tokens(
    first: Parser,
    second: Parser,
    third: Parser,
    tokens1: Seq<TokenView>,
    tokens2: Seq<TokenView>,
    diagnostics2: Seq<Diagnostic>,
)
    requires
        parsed(first, second, tokens1, Seq::empty()),
        parsed(second, third, tokens2, diagnostics2),
    ensures
        parsed(first, third, tokens1 + tokens2, diagnostics2),
{
    assert(first.remaining() =~= (tokens1 + tokens2) + third.remaining());
    assert(third.reported() =~= first.reported() + diagnostics2);
}

/// A step, and a step after it that only takes tokens, are one step that takes the tokens
/// of both and reports what the first reports.
pub proof fn lemma_parsed_before_tokens(
    first: Parser,
    second: Parser,
    third: Parser,
    tokens1: Seq<TokenView>,
    diagnostics1: Seq<Diagnostic>,
    tokens2: Seq<TokenView>,
)
    requires
        parsed(first, second, tokens1, diagnostics1),
        parsed(second, third, tokens2, Seq::empty()),
    ensures
        parsed(first, third, tokens1 + tokens2, diagnostics1),
{
    assert(first.remaining() =~= (tokens1 + tokens2) + third.remaining());
    assert(third.reported() =~= first.reported() + diagnostics1);
}

/// After a step of the parser, what is left of the tokens is what was left before without
/// the tokens that the step took.
pub proof fn lemma_parsed_after(
    before: Parser,
    now: Parser,
    tokens: Seq<TokenView>,
    diagnostics: Seq<Diagnostic>,
)
    requires
        parsed(before, now, tokens, diagnostics),
    ensures
        now.remaining() == after(before.remaining(), tokens),
{
    assert(now.remaining() =~= before.remaining().skip(tokens.len() as int));
}

/// A step of the parser that takes no token and reports nothing leaves the state as it was.
pub proof fn lemma_parsed_nothing(parser: Parser)
    requires
        parser.wf(),
    ensures
        parsed(parser, parser, Seq::empty(), Seq::empty()),
{
    assert(parser.remaining() =~= Seq::<TokenView>::empty() + parser.remaining());
    assert(parser.reported() =~= parser.reported() + Seq::<Diagnostic>::empty());
}

impl<'a> Parser<'a> {
    /// Parses the provided glyph. Where the next token is not that glyph, this is an error:
    /// the parser recovers, and takes the glyph if that is what it stopped at.
    fn parse_glyph(&mut self, glyph: Glyph) -> (node: GlyphNode)
        requires
            old(self).wf(),
        ensures
            parsed(*old(self), *final(self), node.tokens(), node.diagnostics()),
            node.wf(glyph),
            node.parses(old(self).scopes(), glyph, old(self).remaining()),
    {
        match self.try_parse_glyph(glyph) {
            Some(token) => {
                proof {
                    assert(self.reported() =~= old(self).reported() + GlyphNode::Found(
                        token,
                    ).diagnostics());
                }
                GlyphNode::Found(token)
            },
            None => {
                let error = self.recover(ExpectedSyntax::Glyph(glyph));
                let ghost middle = *self;
                let recovered = self.try_parse_glyph(glyph);
                proof {
                    lemma_parsed_after(
                        *old(self),
                        middle,
                        error.tokens(),
                        seq![error.diagnostic()],
                    );
                    lemma_parsed_then(
                        *old(self),
                        middle,
                        *self,
                        error.tokens(),
                        seq![error.diagnostic()],
                        optional_glyph_tokens(recovered),
                        Seq::empty(),
                    );
                    assert(seq![error.diagnostic()] + Seq::<Diagnostic>::empty() =~= seq![
                        error.diagnostic(),
                    ]);
                }
                GlyphNode::Missing(error, recovered)
            },
        }
    }

    /// Parses an identifier. Where the next token is not an identifier, this is an error:
    /// the parser recovers, and takes the identifier if that is what it stopped at.
    fn parse_identifier(&mut self) -> (node: IdentifierNode)
        requires
            old(self).wf(),
        ensures
            parsed(*old(self), *final(self), node.tokens(), node.diagnostics()),
            node.wf(),
            node.parses(old(self).scopes(), old(self).remaining()),
    {
        if self.lookahead_starts(ExpectedSyntax::Identifier) {
            let token = self.advance();
            proof {
                token.lemma_kind();
            }
            match token {
                Token::Identifier(token) => {
                    proof {
                        assert(self.reported() =~= old(self).reported() + IdentifierNode::Found(
                            token,
                        ).diagnostics());
                    }
                    IdentifierNode::Found(token)
                },
                _ => unreached(),
            }
        } else {
            let error = self.recover(ExpectedSyntax::Identifier);
            let ghost middle = *self;
            let recovered = if self.lookahead_starts(ExpectedSyntax::Identifier) {
                let token = self.advance();
                proof {
                    token.lemma_kind();
                }
                match token {
                    Token::Identifier(token) => Some(token),
                    _ => unreached(),
                }
            } else {
                proof {
                    lemma_parsed_nothing(*self);
                }
                None
            };
            let ghost tail = optional_identifier_tokens(recovered);
            proof {
                lemma_parsed_after(*old(self), middle, error.tokens(), seq![error.diagnostic()]);
                lemma_parsed_then(
                    *old(self),
                    middle,
                    *self,
                    error.tokens(),
                    seq![error.diagnostic()],
                    tail,
                    Seq::empty(),
                );
                assert(seq![error.diagnostic()] + Seq::<Diagnostic>::empty() =~= seq![
                    error.diagnostic(),
                ]);
            }
            IdentifierNode::Missing(error, recovered)
        }
    }

    /// Parses a pattern that begins with the next token: a name or `_`.
    fn parse_started_pattern(&mut self) -> (pattern: Pattern)
        requires
            old(self).wf(),
            can_start(ExpectedSyntax::Pattern, old(self).remaining()[0].kind),
        ensures
            parsed(*old(self), *final(self), pattern.tokens(), pattern.diagnostics()),
            pattern.wf(),
            pattern.tokens() == seq![old(self).remaining()[0]],
            pattern.diagnostics() == Seq::<Diagnostic>::empty(),
            !(pattern is Error),
            pattern.parses(old(self).scopes(), old(self).remaining()),
    {
        let token = self.advance();
        proof {
            token.lemma_kind();
        }
        match token {
            Token::Identifier(identifier) => Pattern::Variable(VariablePattern::new(identifier)),
            Token::Glyph(token) => Pattern::Hole(HolePattern::new(token)),
            _ => unreached(),
        }
    }

    /// Parses a pattern. Where the next token cannot begin a pattern, this is an error: the
    /// parser recovers, and parses the pattern if it stopped at the start of one.
    fn parse_pattern(&mut self) -> (pattern: Pattern)
        requires
            old(self).wf(),
        ensures
            parsed(*old(self), *final(self), pattern.tokens(), pattern.diagnostics()),
            pattern.wf(),
            pattern.parses(old(self).scopes(), old(self).remaining()),
    {
        if self.lookahead_starts(ExpectedSyntax::Pattern) {
            self.parse_started_pattern()
        } else {
            let error = self.recover(ExpectedSyntax::Pattern);
            let ghost middle = *self;
            let recovered = if self.lookahead_starts(ExpectedSyntax::Pattern) {
                Some(self.parse_started_pattern())
            } else {
                proof {
                    lemma_parsed_nothing(*self);
                }
                None
            };
            let ghost tail = optional_pattern_tokens(recovered);
            let ghost reports = optional_pattern_diagnostics(recovered);
            proof {
                lemma_parsed_after(*old(self), middle, error.tokens(), seq![error.diagnostic()]);
                lemma_parsed_then(
                    *old(self),
                    middle,
                    *self,
                    error.tokens(),
                    seq![error.diagnostic()],
                    tail,
                    reports,
                );
            }
            let node = ErrorPattern::new(error, recovered);
            proof {
                node.lemma_parses(old(self).scopes(), old(self).remaining());
            }
            Pattern::Error(Box::new(node))
        }
    }
}


/// The parser has made `tokens` of the tokens `input`, with what is left of them still to
/// come, and has reported `diagnostics` after `reported`.
pub open spec fn produced(
    parser: Parser,
    input: Seq<TokenView>,
    reported: Seq<Diagnostic>,
    tokens: Seq<TokenView>,
    diagnostics: Seq<Diagnostic>,
) -> bool {
    &&& input == tokens + parser.remaining()
    &&& parser.reported() == reported + diagnostics
}

/// What the parser has made, and a step after it, are what the parser has made after the
/// step.
pub proof fn lemma_produced_then(
    before: Parser,
    now: Parser,
    input: Seq<TokenView>,
    reported: Seq<Diagnostic>,
    tokens1: Seq<TokenView>,
    diagnostics1: Seq<Diagnostic>,
    tokens2: Seq<TokenView>,
    diagnostics2: Seq<Diagnostic>,
)
    requires
        produced(before, input, reported, tokens1, diagnostics1),
        parsed(before, now, tokens2, diagnostics2),
    ensures
        produced(now, input, reported, tokens1 + tokens2, diagnostics1 + diagnostics2),
{
    assert(input =~= (tokens1 + tokens2) + now.remaining());
    assert(now.reported() =~= reported + (diagnostics1 + diagnostics2));
}

/// Where `input` is `head`, one token, and `rest`, the token is the first of what is left
/// after `head`, and `rest` is what is left after the token.
pub proof fn lemma_produced_split(
    input: Seq<TokenView>,
    head: Seq<TokenView>,
    token: Seq<TokenView>,
    rest: Seq<TokenView>,
)
    requires
        token.len() == 1,
        input == head + token + rest,
    ensures
        after(input, head)[0] == token[0],
        after(input, head).skip(1) == rest,
        after(input, head + token) == rest,
{
    assert(after(input, head).skip(1) =~= rest);
    assert(after(input, head + token) =~= rest);
}

/// A scope that is opened and closed again leaves the scopes as they were.
pub proof fn lemma_scope_round_trip(scopes: Multiset<Glyph>, glyph: Glyph)
    ensures
        scopes.insert(glyph).remove(glyph) == scopes,
        stops(scopes.insert(glyph), TokenKind::Glyph(glyph)),
        forall|kind: TokenKind|
            stops(scopes.insert(glyph), kind) && kind != TokenKind::Glyph(glyph) ==> stops(
                scopes,
                kind,
            ),
        forall|kind: TokenKind| stops(scopes, kind) ==> stops(scopes.insert(glyph), kind),
{
    assert(scopes.insert(glyph).remove(glyph) =~= scopes);
}

impl<'a> Parser<'a> {
    /// Parses items until the next token is one at which the parser stops: the end of the
    /// document, or a glyph for which a scope is open, such as the brace that closes a block.
    #[verifier::rlimit(100)]
    #[verifier::spinoff_prover]
    fn parse_item_list(&mut self) -> (items: Vec<Item>)
        requires
            old(self).wf(),
            old(self).fits(1),
        ensures
            parsed(
                *old(self),
                *final(self),
                items_tokens(items@, items@.len()),
                items_diagnostics(items@, items@.len()),
            ),
            items_wf(items@, items@.len()),
            items_parse(
                items@,
                items@.len(),
                old(self).spec_document(),
                old(self).scopes(),
                old(self).remaining(),
            ),
            stops(final(self).scopes(), final(self).remaining()[0].kind),
        decreases old(self).remaining().len(), 8nat,
    {
        let mut items: Vec<Item> = Vec::new();
        proof {
            lemma_parsed_nothing(*self);
        }
        while !self.lookahead_stops()
            invariant
                self.fits(1),
                parsed(
                    *old(self),
                    *self,
                    items_tokens(items@, items@.len()),
                    items_diagnostics(items@, items@.len()),
                ),
                items_wf(items@, items@.len()),
                items_parse(
                    items@,
                    items@.len(),
                    old(self).spec_document(),
                    old(self).scopes(),
                    old(self).remaining(),
                ),
            decreases self.remaining().len(),
        {
            let ghost before = *self;
            let ghost list = items@;
            let item = self.parse_item();
            proof {
                lemma_parsed_after(
                    *old(self),
                    before,
                    items_tokens(list, list.len()),
                    items_diagnostics(list, list.len()),
                );
                lemma_items_push(list, item);
                lemma_items_parse_push(
                    list,
                    item,
                    old(self).spec_document(),
                    old(self).scopes(),
                    old(self).remaining(),
                );
                lemma_parsed_then(
                    *old(self),
                    before,
                    *self,
                    items_tokens(list, list.len()),
                    items_diagnostics(list, list.len()),
                    item.tokens(),
                    item.diagnostics(),
                );
            }
            items.push(item);
        }
        items
    }

    /// Parses an item of a module or of a block.
    fn parse_item(&mut self) -> (item: Item)
        requires
            old(self).wf(),
            old(self).fits(1),
        ensures
            parsed(*old(self), *final(self), item.tokens(), item.diagnostics()),
            item.wf(),
            item.parses(old(self).spec_document(), old(self).scopes(), old(self).remaining()),
            !stops(old(self).scopes(), old(self).remaining()[0].kind) ==> item.tokens().len() > 0,
        decreases old(self).remaining().len(), 7nat,
    {
        Item::Statement(self.parse_statement())
    }

    /// Parses a statement. The semicolon that ends a statement is a place to recover at for
    /// the errors inside the statement.
    fn parse_statement(&mut self) -> (statement: Statement)
        requires
            old(self).wf(),
            old(self).fits(1),
        ensures
            parsed(*old(self), *final(self), statement.tokens(), statement.diagnostics()),
            statement.wf(),
            statement.parses(
                old(self).spec_document(),
                old(self).scopes(),
                old(self).remaining(),
            ),
            !stops(old(self).scopes(), old(self).remaining()[0].kind) ==> statement.tokens().len()
                > 0,
        decreases old(self).remaining().len(), 6nat,
    {
        proof {
            lemma_scope_round_trip(self.scopes(), Glyph::Semicolon);
        }
        self.recover_at(Glyph::Semicolon);
        let statement = self.actually_parse_statement();
        self.recover_done(Glyph::Semicolon);
        statement
    }

    /// Parses a statement: a binding where the next token is `let`, and else an expression
    /// with the semicolon after it, if there is one.
    fn actually_parse_statement(&mut self) -> (statement: Statement)
        requires
            old(self).wf(),
            old(self).fits(0),
        ensures
            parsed(*old(self), *final(self), statement.tokens(), statement.diagnostics()),
            statement.wf(),
            statement.tokens().len() == 0 ==> stops(
                old(self).scopes(),
                old(self).remaining()[0].kind,
            ) && old(self).remaining()[0].kind != TokenKind::Glyph(Glyph::Semicolon),
            match statement {
                Statement::Binding(binding) => old(self).remaining()[0].kind == TokenKind::Glyph(
                    Glyph::Keyword(Keyword::Let),
                ) && binding.parses(
                    old(self).spec_document(),
                    old(self).scopes(),
                    old(self).remaining(),
                ),
                Statement::Expression(statement) => old(self).remaining()[0].kind
                    != TokenKind::Glyph(Glyph::Keyword(Keyword::Let)) && statement.parses(
                    old(self).spec_document(),
                    old(self).scopes(),
                    old(self).remaining(),
                ),
            },
        decreases old(self).remaining().len(), 5nat,
    {
        // Parse `BindingStatement`.
        if self.lexer.lookahead().is_glyph(Glyph::Keyword(Keyword::Let)) {
            return Statement::Binding(self.parse_binding_statement());
        }
        // Parse `ExpressionStatement` if we couldn’t parse any other statement.

        Statement::Expression(self.parse_expression_statement())
    }

    /// Parses a binding statement: `let`, a pattern, `=`, a value, and the semicolon after
    /// it, if there is one. The equals sign is a place to recover at for the errors inside
    /// the pattern.
    #[verifier::rlimit(100)]
    #[verifier::spinoff_prover]
    fn parse_binding_statement(&mut self) -> (binding: BindingStatement)
        requires
            old(self).wf(),
            old(self).fits(0),
            old(self).remaining()[0].kind == TokenKind::Glyph(Glyph::Keyword(Keyword::Let)),
        ensures
            parsed(*old(self), *final(self), binding.tokens(), binding.diagnostics()),
            binding.wf(),
            binding.tokens().len() > 0,
            binding.parses(old(self).spec_document(), old(self).scopes(), old(self).remaining()),
        decreases old(self).remaining().len(), 4nat,
    {
        let ghost document = self.spec_document();
        let ghost scopes = self.scopes();
        let ghost input = self.remaining();
        let token = self.advance();
        proof {
            token.lemma_kind();
        }
        let let_ = match token {
            Token::Glyph(let_) => let_,
            _ => unreached(),
        };
        let ghost s0 = *self;
        proof {
            lemma_scope_round_trip(scopes, Glyph::Equals);
        }
        self.recover_at(Glyph::Equals);
        let pattern = self.parse_pattern();
        self.recover_done(Glyph::Equals);
        let ghost s1 = *self;
        assert(parsed(s0, s1, pattern.tokens(), pattern.diagnostics()));
        let equals = self.parse_glyph(Glyph::Equals);
        let ghost s2 = *self;
        let value = self.parse_expression();
        let ghost s3 = *self;
        let semicolon = self.try_parse_glyph(Glyph::Semicolon);
        let binding = BindingStatement::new(let_, pattern, equals, value, semicolon);
        proof {
            lemma_parsed_after(*old(self), s0, seq![let_@], Seq::empty());
            lemma_parsed_after(s0, s1, pattern.tokens(), pattern.diagnostics());
            lemma_parsed_after(s1, s2, equals.tokens(), equals.diagnostics());
            lemma_parsed_after(s2, s3, value.tokens(), value.diagnostics());
            lemma_parsed_after_tokens(
                *old(self),
                s0,
                s1,
                seq![let_@],
                pattern.tokens(),
                pattern.diagnostics(),
            );
            lemma_parsed_then(
                *old(self),
                s1,
                s2,
                seq![let_@] + pattern.tokens(),
                pattern.diagnostics(),
                equals.tokens(),
                equals.diagnostics(),
            );
            lemma_parsed_then(
                *old(self),
                s2,
                s3,
                seq![let_@] + pattern.tokens() + equals.tokens(),
                pattern.diagnostics() + equals.diagnostics(),
                value.tokens(),
                value.diagnostics(),
            );
            lemma_parsed_before_tokens(
                *old(self),
                s3,
                *self,
                seq![let_@] + pattern.tokens() + equals.tokens() + value.tokens(),
                pattern.diagnostics() + equals.diagnostics() + value.diagnostics(),
                optional_glyph_tokens(semicolon),
            );
            binding.lemma_parses(document, scopes, input);
        }
        binding
    }

    /// Parses an expression statement: an expression, and the semicolon after it, if there
    /// is one.
    fn parse_expression_statement(&mut self) -> (statement: ExpressionStatement)
        requires
            old(self).wf(),
            old(self).fits(0),
        ensures
            parsed(*old(self), *final(self), statement.tokens(), statement.diagnostics()),
            statement.wf(),
            statement.tokens().len() == 0 ==> stops(
                old(self).scopes(),
                old(self).remaining()[0].kind,
            ) && old(self).remaining()[0].kind != TokenKind::Glyph(Glyph::Semicolon),
            statement.parses(old(self).spec_document(), old(self).scopes(), old(self).remaining()),
        decreases old(self).remaining().len(), 4nat,
    {
        let expression = self.parse_expression();
        let ghost s1 = *self;
        let semicolon = self.try_parse_glyph(Glyph::Semicolon);
        let statement = ExpressionStatement::new(expression, semicolon);
        proof {
            lemma_parsed_after(*old(self), s1, expression.tokens(), expression.diagnostics());
            lemma_parsed_before_tokens(
                *old(self),
                s1,
                *self,
                expression.tokens(),
                expression.diagnostics(),
                optional_glyph_tokens(semicolon),
            );
            statement.lemma_parses(
                old(self).spec_document(),
                old(self).scopes(),
                old(self).remaining(),
            );
        }
        statement
    }

    /// Parses an expression. Where the next token cannot begin an expression, this is an
    /// error: the parser recovers, and parses the expression if it stopped at the start of
    /// one.
    fn parse_expression(&mut self) -> (expression: Expression)
        requires
            old(self).wf(),
            old(self).fits(0),
        ensures
            parsed(*old(self), *final(self), expression.tokens(), expression.diagnostics()),
            expression.wf(),
            expression.parses(
                old(self).spec_document(),
                old(self).scopes(),
                old(self).remaining(),
            ),
            expression.tokens().len() == 0 ==> stops(
                old(self).scopes(),
                old(self).remaining()[0].kind,
            ) && !can_start(ExpectedSyntax::Expression, old(self).remaining()[0].kind),
        decreases old(self).remaining().len(), 3nat,
    {
        if self.lookahead_starts(ExpectedSyntax::Expression) {
            self.parse_started_expression()
        } else {
            let error = self.recover(ExpectedSyntax::Expression);
            let ghost middle = *self;
            let recovered = if self.lookahead_starts(ExpectedSyntax::Expression) {
                Some(self.parse_started_expression())
            } else {
                proof {
                    lemma_parsed_nothing(*self);
                }
                None
            };
            proof {
                lemma_parsed_after(*old(self), middle, error.tokens(), seq![error.diagnostic()]);
                lemma_parsed_then(
                    *old(self),
                    middle,
                    *self,
                    error.tokens(),
                    seq![error.diagnostic()],
                    optional_expression_tokens(recovered),
                    optional_expression_diagnostics(recovered),
                );
            }
            let node = ErrorExpression::new(error, recovered);
            proof {
                node.lemma_parses(
                    old(self).spec_document(),
                    old(self).scopes(),
                    old(self).remaining(),
                );
            }
            Expression::Error(Box::new(node))
        }
    }

    /// Parses an expression that begins with the next token, and the extensions that follow
    /// it: property accesses and calls.
    #[verifier::rlimit(100)]
    #[verifier::spinoff_prover]
    fn parse_started_expression(&mut self) -> (expression: Expression)
        requires
            old(self).wf(),
            old(self).fits(0),
            can_start(ExpectedSyntax::Expression, old(self).remaining()[0].kind),
        ensures
            parsed(*old(self), *final(self), expression.tokens(), expression.diagnostics()),
            expression.wf(),
            !(expression is Error),
            expression.tokens().len() > 0,
            expression.parses_started(
                old(self).spec_document(),
                old(self).scopes(),
                old(self).remaining(),
            ),
        decreases old(self).remaining().len(), 2nat,
    {
        let ghost document = self.spec_document();
        let ghost scopes = self.scopes();
        let ghost input = self.remaining();
        let mut expression = self.parse_primary_expression();
        // Parse some expression extensions.
        loop
            invariant
                self.fits(4),
                document == old(self).spec_document(),
                scopes == old(self).scopes(),
                input == old(self).remaining(),
                parsed(*old(self), *self, expression.tokens(), expression.diagnostics()),
                self.remaining().len() < input.len(),
                expression.wf(),
                !(expression is Error),
                expression.tokens().len() > 0,
                expression.parses_extended(document, scopes, input),
            ensures
                !extends(document, self.remaining()[0]),
            decreases self.remaining().len(),
        {
            let ghost s0 = *self;
            proof {
                lemma_parsed_after(*old(self), s0, expression.tokens(), expression.diagnostics());
            }
            // Parse `PropertyExpression`.
            if let Some(dot) = self.try_parse_glyph(Glyph::Dot) {
                proof {
                    lemma_parsed_before_tokens(
                        *old(self),
                        s0,
                        *self,
                        expression.tokens(),
                        expression.diagnostics(),
                        seq![dot@],
                    );
                }
                expression =
                self.parse_property_expression(
                    expression,
                    dot,
                    Ghost(input),
                    Ghost(old(self).reported()),
                );
                continue ;
            }
            // Parse `CallExpression`.

            if let Some(paren_left) = self.try_parse_glyph_on_same_line(Glyph::ParenLeft) {
                proof {
                    lemma_parsed_before_tokens(
                        *old(self),
                        s0,
                        *self,
                        expression.tokens(),
                        expression.diagnostics(),
                        seq![paren_left@],
                    );
                }
                expression =
                self.parse_call_expression(
                    expression,
                    paren_left,
                    Ghost(input),
                    Ghost(old(self).reported()),
                );
                continue ;
            }
            // If we could not parse any extension break out of the loop.

            break ;
        }
        proof {
            lemma_parsed_after(
                *old(self),
                *self,
                expression.tokens(),
                expression.diagnostics(),
            );
        }
        expression
    }

    /// Parses a property access on `object`, which the parser has made of the tokens of
    /// `input` in front of the dot `dot`: the name of the property.
    #[verifier::rlimit(100)]
    #[verifier::spinoff_prover]
    fn parse_property_expression(
        &mut self,
        object: Expression,
        dot: GlyphToken,
        Ghost(input): Ghost<Seq<TokenView>>,
        Ghost(reported): Ghost<Seq<Diagnostic>>,
    ) -> (expression: Expression)
        requires
            old(self).wf(),
            produced(
                *old(self),
                input,
                reported,
                object.tokens() + seq![dot@],
                object.diagnostics(),
            ),
            object.wf(),
            object.parses_extended(old(self).spec_document(), old(self).scopes(), input),
            dot@.kind == TokenKind::Glyph(Glyph::Dot),
        ensures
            final(self).wf(),
            final(self).spec_document() == old(self).spec_document(),
            final(self).scopes() == old(self).scopes(),
            produced(*final(self), input, reported, expression.tokens(), expression.diagnostics()),
            final(self).remaining().len() <= old(self).remaining().len(),
            expression.wf(),
            expression is Property,
            expression.tokens().len() > 0,
            expression.parses_extended(old(self).spec_document(), old(self).scopes(), input),
    {
        let property = self.parse_identifier();
        let member = PropertyExpression::new(object, dot, property);
        proof {
            lemma_produced_split(input, object.tokens(), seq![dot@], old(self).remaining());
            lemma_produced_then(
                *old(self),
                *self,
                input,
                reported,
                object.tokens() + seq![dot@],
                object.diagnostics(),
                property.tokens(),
                property.diagnostics(),
            );
            member.lemma_parses(old(self).spec_document(), old(self).scopes(), input);
        }
        Expression::Property(Box::new(member))
    }

    /// Parses a call of `callee`, which the parser has made of the tokens of `input` in front
    /// of the parenthesis `paren_left`, which stands on the line on which the callee ends:
    /// the arguments, and the closing parenthesis.
    #[verifier::rlimit(100)]
    #[verifier::spinoff_prover]
    fn parse_call_expression(
        &mut self,
        callee: Expression,
        paren_left: GlyphToken,
        Ghost(input): Ghost<Seq<TokenView>>,
        Ghost(reported): Ghost<Seq<Diagnostic>>,
    ) -> (expression: Expression)
        requires
            old(self).wf(),
            old(self).fits(2),
            produced(
                *old(self),
                input,
                reported,
                callee.tokens() + seq![paren_left@],
                callee.diagnostics(),
            ),
            callee.wf(),
            callee.parses_extended(old(self).spec_document(), old(self).scopes(), input),
            paren_left@.kind == TokenKind::Glyph(Glyph::ParenLeft),
            same_line(old(self).spec_document(), paren_left@),
        ensures
            final(self).wf(),
            final(self).spec_document() == old(self).spec_document(),
            final(self).scopes() == old(self).scopes(),
            produced(*final(self), input, reported, expression.tokens(), expression.diagnostics()),
            final(self).remaining().len() <= old(self).remaining().len(),
            expression.wf(),
            expression is Call,
            expression.tokens().len() > 0,
            expression.parses_extended(old(self).spec_document(), old(self).scopes(), input),
        decreases old(self).remaining().len(), 6nat,
    {
        let arguments = self.parse_comma_list(Glyph::ParenRight);
        let ghost s1 = *self;
        let paren_right = self.parse_glyph(Glyph::ParenRight);
        let call = CallExpression::new(callee, paren_left, arguments, paren_right);
        proof {
            lemma_produced_split(input, callee.tokens(), seq![paren_left@], old(self).remaining());
            lemma_parsed_after(
                *old(self),
                s1,
                arguments_tokens(arguments@, arguments@.len()),
                arguments_diagnostics(arguments@, arguments@.len()),
            );
            lemma_produced_then(
                *old(self),
                s1,
                input,
                reported,
                callee.tokens() + seq![paren_left@],
                callee.diagnostics(),
                arguments_tokens(arguments@, arguments@.len()),
                arguments_diagnostics(arguments@, arguments@.len()),
            );
            lemma_produced_then(
                s1,
                *self,
                input,
                reported,
                callee.tokens() + seq![paren_left@] + arguments_tokens(
                    arguments@,
                    arguments@.len(),
                ),
                callee.diagnostics() + arguments_diagnostics(arguments@, arguments@.len()),
                paren_right.tokens(),
                paren_right.diagnostics(),
            );
            call.lemma_parses(old(self).spec_document(), old(self).scopes(), input);
        }
        Expression::Call(Box::new(call))
    }

    /// Parses an expression that begins with the next token, without what may extend it: a
    /// name, a constant, a conditional, a block, or an expression in parentheses.
    #[verifier::rlimit(100)]
    #[verifier::spinoff_prover]
    fn parse_primary_expression(&mut self) -> (expression: Expression)
        requires
            old(self).wf(),
            old(self).fits(0),
            can_start(ExpectedSyntax::Expression, old(self).remaining()[0].kind),
        ensures
            final(self).fits(4),
            parsed(*old(self), *final(self), expression.tokens(), expression.diagnostics()),
            expression.wf(),
            !(expression is Error),
            !(expression is Property),
            !(expression is Call),
            expression.tokens().len() > 0,
            expression.parses_primary(
                old(self).spec_document(),
                old(self).scopes(),
                old(self).remaining(),
            ),
        decreases old(self).remaining().len(), 1nat,
    {
        let token = self.advance();
        proof {
            token.lemma_kind();
        }
        match token {
            // Parse `VariableExpression`.
            Token::Identifier(token) => Expression::Variable(VariableExpression::new(token)),
            // Parse `NumberConstant`.
            Token::Number(token) => Expression::Constant(
                Constant::Number(NumberConstant::new(token)),
            ),
            Token::Glyph(token) => {
                let glyph = token.glyph();
                if glyph == Glyph::Keyword(Keyword::True) {
                    // Parse true `BooleanConstant`.
                    Expression::Constant(Constant::Boolean(BooleanConstant::new(token, true)))
                } else if glyph == Glyph::Keyword(Keyword::False) {
                    // Parse false `BooleanConstant`.
                    Expression::Constant(Constant::Boolean(BooleanConstant::new(token, false)))
                } else if glyph == Glyph::Keyword(Keyword::If) {
                    // Parse `ConditionalExpression`.
                    Expression::Conditional(
                        Box::new(
                            self.parse_conditional_expression(
                                token,
                                Ghost(old(self).remaining()),
                                Ghost(old(self).reported()),
                            ),
                        ),
                    )
                } else if glyph == Glyph::Keyword(Keyword::Do) {
                    // Parse `BlockExpression`.
                    let ghost s1 = *self;
                    let block = self.parse_block();
                    let expression = BlockExpression::new(token, block);
                    proof {
                        lemma_parsed_after(*old(self), s1, seq![token@], Seq::empty());
                        lemma_parsed_after_tokens(
                            *old(self),
                            s1,
                            *self,
                            seq![token@],
                            block.tokens(),
                            block.diagnostics(),
                        );
                        expression.lemma_parses(
                            old(self).spec_document(),
                            old(self).scopes(),
                            old(self).remaining(),
                        );
                    }
                    Expression::Block(expression)
                } else {
                    // Parse `WrappedExpression`.
                    Expression::Wrapped(
                        Box::new(
                            self.parse_wrapped_expression(
                                token,
                                Ghost(old(self).remaining()),
                                Ghost(old(self).reported()),
                            ),
                        ),
                    )
                }
            },
            _ => unreached(),
        }
    }

    /// Parses a conditional expression after its `if`, which is the first token of `input`:
    /// the condition, the block, and `else` with its block, if `else` follows.
    #[verifier::rlimit(100)]
    #[verifier::spinoff_prover]
    fn parse_conditional_expression(
        &mut self,
        if_: GlyphToken,
        Ghost(input): Ghost<Seq<TokenView>>,
        Ghost(reported): Ghost<Seq<Diagnostic>>,
    ) -> (conditional: ConditionalExpression)
        requires
            old(self).wf(),
            old(self).fits(4),
            produced(*old(self), input, reported, seq![if_@], Seq::empty()),
            is_glyph(if_, Glyph::Keyword(Keyword::If)),
        ensures
            final(self).wf(),
            final(self).fits(4),
            final(self).spec_document() == old(self).spec_document(),
            final(self).scopes() == old(self).scopes(),
            produced(*final(self), input, reported, conditional.tokens(), conditional.diagnostics()),
            conditional.wf(),
            conditional.tokens().len() > 0,
            conditional.parses(old(self).spec_document(), old(self).scopes(), input),
        decreases old(self).remaining().len(), 10nat,
    {
        let ghost document = self.spec_document();
        let ghost scopes = self.scopes();
        let test = self.parse_expression();
        let ghost s1 = *self;
        let consequent = self.parse_block();
        let ghost s2 = *self;
        let alternate = if let Some(else_) = self.try_parse_glyph(Glyph::Keyword(Keyword::Else)) {
            let ghost s3 = *self;
            let block = self.parse_block();
            let alternate = ConditionalExpressionAlternate::new(else_, block);
            proof {
                lemma_parsed_after(s2, s3, seq![else_@], Seq::empty());
                lemma_parsed_after_tokens(
                    s2,
                    s3,
                    *self,
                    seq![else_@],
                    block.tokens(),
                    block.diagnostics(),
                );
                alternate.lemma_parses(document, scopes, s2.remaining());
            }
            Some(alternate)
        } else {
            None
        };
        let ghost alternate_tokens = optional_alternate_tokens(alternate);
        let ghost alternate_diagnostics = optional_alternate_diagnostics(alternate);
        let conditional = ConditionalExpression::new(if_, test, consequent, alternate);
        proof {
            assert(input.skip(1) =~= old(self).remaining());
            lemma_parsed_after(*old(self), s1, test.tokens(), test.diagnostics());
            lemma_parsed_after(s1, s2, consequent.tokens(), consequent.diagnostics());
            lemma_produced_then(
                *old(self),
                s1,
                input,
                reported,
                seq![if_@],
                Seq::empty(),
                test.tokens(),
                test.diagnostics(),
            );
            assert(Seq::<Diagnostic>::empty() + test.diagnostics() =~= test.diagnostics());
            lemma_produced_then(
                s1,
                s2,
                input,
                reported,
                seq![if_@] + test.tokens(),
                test.diagnostics(),
                consequent.tokens(),
                consequent.diagnostics(),
            );
            lemma_produced_then(
                s2,
                *self,
                input,
                reported,
                seq![if_@] + test.tokens() + consequent.tokens(),
                test.diagnostics() + consequent.diagnostics(),
                alternate_tokens,
                alternate_diagnostics,
            );
            conditional.lemma_parses(document, scopes, input);
        }
        conditional
    }

    /// Parses an expression in parentheses after the parenthesis that opens it, which is the
    /// first token of `input`: the expression, and the closing parenthesis, which is a place
    /// to recover at for the errors inside the expression.
    #[verifier::rlimit(100)]
    #[verifier::spinoff_prover]
    fn parse_wrapped_expression(
        &mut self,
        paren_left: GlyphToken,
        Ghost(input): Ghost<Seq<TokenView>>,
        Ghost(reported): Ghost<Seq<Diagnostic>>,
    ) -> (wrapped: WrappedExpression)
        requires
            old(self).wf(),
            old(self).fits(4),
            produced(*old(self), input, reported, seq![paren_left@], Seq::empty()),
            is_glyph(paren_left, Glyph::ParenLeft),
        ensures
            final(self).wf(),
            final(self).fits(4),
            final(self).spec_document() == old(self).spec_document(),
            final(self).scopes() == old(self).scopes(),
            produced(*final(self), input, reported, wrapped.tokens(), wrapped.diagnostics()),
            wrapped.wf(),
            wrapped.tokens().len() > 0,
            wrapped.parses(old(self).spec_document(), old(self).scopes(), input),
        decreases old(self).remaining().len(), 10nat,
    {
        let ghost document = self.spec_document();
        let ghost scopes = self.scopes();
        proof {
            lemma_scope_round_trip(scopes, Glyph::ParenRight);
        }
        self.recover_at(Glyph::ParenRight);
        let expression = self.parse_expression();
        self.recover_done(Glyph::ParenRight);
        let ghost s1 = *self;
        assert(parsed(*old(self), s1, expression.tokens(), expression.diagnostics()));
        let paren_right = self.parse_glyph(Glyph::ParenRight);
        let wrapped = WrappedExpression::new(paren_left, expression, paren_right);
        proof {
            assert(input.skip(1) =~= old(self).remaining());
            lemma_parsed_after(*old(self), s1, expression.tokens(), expression.diagnostics());
            lemma_produced_then(
                *old(self),
                s1,
                input,
                reported,
                seq![paren_left@],
                Seq::empty(),
                expression.tokens(),
                expression.diagnostics(),
            );
            assert(Seq::<Diagnostic>::empty() + expression.diagnostics()
                =~= expression.diagnostics());
            lemma_produced_then(
                s1,
                *self,
                input,
                reported,
                seq![paren_left@] + expression.tokens(),
                expression.diagnostics(),
                paren_right.tokens(),
                paren_right.diagnostics(),
            );
            wrapped.lemma_parses(document, scopes, input);
        }
        wrapped
    }

    /// Parses a block: items between braces. The brace that closes the block is a place to
    /// recover at for the errors inside the block.
    #[verifier::rlimit(100)]
    #[verifier::spinoff_prover]
    fn parse_block(&mut self) -> (block: Block)
        requires
            old(self).wf(),
            old(self).fits(2),
        ensures
            parsed(*old(self), *final(self), block.tokens(), block.diagnostics()),
            block.wf(),
            block.parses(old(self).spec_document(), old(self).scopes(), old(self).remaining()),
        decreases old(self).remaining().len(), 9nat,
    {
        let ghost scopes = self.scopes();
        let brace_left = self.parse_glyph(Glyph::BraceLeft);
        let ghost s1 = *self;
        proof {
            lemma_scope_round_trip(scopes, Glyph::BraceRight);
        }
        self.recover_at(Glyph::BraceRight);
        let items = self.parse_item_list();
        self.recover_done(Glyph::BraceRight);
        let ghost s2 = *self;
        assert(parsed(
            s1,
            s2,
            items_tokens(items@, items@.len()),
            items_diagnostics(items@, items@.len()),
        ));
        let brace_right = self.parse_glyph(Glyph::BraceRight);
        let block = Block::new(brace_left, items, brace_right);
        proof {
            lemma_parsed_after(*old(self), s1, brace_left.tokens(), brace_left.diagnostics());
            lemma_parsed_after(
                s1,
                s2,
                items_tokens(items@, items@.len()),
                items_diagnostics(items@, items@.len()),
            );
            lemma_parsed_then(
                *old(self),
                s1,
                s2,
                brace_left.tokens(),
                brace_left.diagnostics(),
                items_tokens(items@, items@.len()),
                items_diagnostics(items@, items@.len()),
            );
            lemma_parsed_then(
                *old(self),
                s2,
                *self,
                brace_left.tokens() + items_tokens(items@, items@.len()),
                brace_left.diagnostics() + items_diagnostics(items@, items@.len()),
                brace_right.tokens(),
                brace_right.diagnostics(),
            );
            block.lemma_parses(old(self).spec_document(), scopes, old(self).remaining());
        }
        block
    }

    /// Parses an item of a list whose items commas separate: an expression, for the errors
    /// inside which the comma is a place to recover at, and then the comma if there is one,
    /// nothing where the parser stops, and else the error of a missing comma. Says whether
    /// the list ends after the item: it does unless the comma was taken.
    #[verifier::rlimit(100)]
    #[verifier::spinoff_prover]
    fn parse_comma_list_item(&mut self) -> (item: (CommaListItem, bool))
        requires
            old(self).wf(),
            old(self).fits(1),
        ensures
            parsed(*old(self), *final(self), item.0.tokens(), item.0.diagnostics()),
            item.0.wf(),
            item.0.parses(old(self).spec_document(), old(self).scopes(), old(self).remaining()),
            item.1 == !item.0.continues(),
            !item.1 ==> final(self).remaining().len() < old(self).remaining().len(),
        decreases old(self).remaining().len(), 4nat,
    {
        let ghost document = self.spec_document();
        let ghost scopes = self.scopes();
        let ghost input = self.remaining();
        proof {
            lemma_scope_round_trip(scopes, Glyph::Comma);
        }
        self.recover_at(Glyph::Comma);
        let item = self.parse_expression();
        self.recover_done(Glyph::Comma);
        let ghost s1 = *self;
        assert(parsed(*old(self), s1, item.tokens(), item.diagnostics()));
        proof {
            lemma_parsed_after(*old(self), s1, item.tokens(), item.diagnostics());
        }
        // If the next glyph is a comma then parse it and try to parse another item. If
        // this is a trailing comma then the list ends before another item.
        if let Some(comma) = self.try_parse_glyph(Glyph::Comma) {
            let list_item = CommaListItem::new(item, Some(GlyphNode::Found(comma)));
            proof {
                lemma_parsed_before_tokens(
                    *old(self),
                    s1,
                    *self,
                    item.tokens(),
                    item.diagnostics(),
                    seq![comma@],
                );
                assert(item.diagnostics() + GlyphNode::Found(comma).diagnostics()
                    =~= item.diagnostics());
                list_item.lemma_parses(document, scopes, input);
            }
            (list_item, false)
        } else if self.lookahead_stops() {
            // If there is no comma, but we do see where the list ends, then the item is the
            // last one.
            let list_item = CommaListItem::new(item, None);
            proof {
                lemma_parsed_before_tokens(
                    *old(self),
                    s1,
                    *self,
                    item.tokens(),
                    item.diagnostics(),
                    Seq::empty(),
                );
                assert(item.diagnostics() + Seq::<Diagnostic>::empty() =~= item.diagnostics());
                list_item.lemma_parses(document, scopes, input);
            }
            (list_item, true)
        } else {
            // Otherwise, we have an error: a comma is missing.
            let comma = self.parse_glyph(Glyph::Comma);
            let done = match &comma {
                GlyphNode::Missing(_, Some(_)) => false,
                _ => true,
            };
            proof {
                lemma_parsed_then(
                    *old(self),
                    s1,
                    *self,
                    item.tokens(),
                    item.diagnostics(),
                    comma.tokens(),
                    comma.diagnostics(),
                );
            }
            let list_item = CommaListItem::new(item, Some(comma));
            proof {
                list_item.lemma_parses(document, scopes, input);
            }
            (list_item, done)
        }
    }

    /// Parses a list of comma separated items until a specified token. The list may optionally have
    /// trailing commas. The list ends where the parser stops: at the end of the document or
    /// at a glyph for which a scope is open, as one is for `terminator` while the list is
    /// parsed. A comma that is missing between two items is an error.
    #[verifier::rlimit(100)]
    #[verifier::spinoff_prover]
    fn parse_comma_list(&mut self, terminator: Glyph) -> (items: Vec<CommaListItem>)
        requires
            old(self).wf(),
            old(self).fits(2),
        ensures
            parsed(
                *old(self),
                *final(self),
                arguments_tokens(items@, items@.len()),
                arguments_diagnostics(items@, items@.len()),
            ),
            arguments_wf(items@, items@.len()),
            arguments_parse(
                items@,
                items@.len(),
                old(self).spec_document(),
                old(self).scopes().insert(terminator),
                old(self).remaining(),
            ),
            arguments_end(items@, old(self).scopes().insert(terminator), old(self).remaining()),
        decreases old(self).remaining().len(), 5nat,
    {
        let mut items: Vec<CommaListItem> = Vec::new();
        let ghost document = self.spec_document();
        let ghost input = self.remaining();
        let ghost scopes = self.scopes().insert(terminator);
        proof {
            lemma_scope_round_trip(self.scopes(), terminator);
        }
        self.recover_at(terminator);
        let ghost start = *self;
        proof {
            lemma_parsed_nothing(*self);
        }
        // Keep parsing items until we find the token we want to stop at.
        let mut done = false;
        while !done
            invariant
                self.scopes() == scopes,
                document == old(self).spec_document(),
                input == old(self).remaining(),
                start.wf(),
                start.scopes() == scopes,
                start.remaining() == input,
                start.reported() == old(self).reported(),
                start.spec_document() == document,
                self.fits(1),
                parsed(
                    start,
                    *self,
                    arguments_tokens(items@, items@.len()),
                    arguments_diagnostics(items@, items@.len()),
                ),
                arguments_wf(items@, items@.len()),
                arguments_parse(items@, items@.len(), document, scopes, input),
                !done && items@.len() > 0 ==> items@.last().continues(),
                done ==> arguments_end(items@, scopes, input),
            decreases self.remaining().len() + (if done {
                0int
            } else {
                1int
            }),
        {
            let ghost before = *self;
            let ghost list = items@;
            proof {
                lemma_parsed_after(
                    start,
                    before,
                    arguments_tokens(list, list.len()),
                    arguments_diagnostics(list, list.len()),
                );
            }
            if self.lookahead_stops() {
                done = true;
            } else {
                let (list_item, last) = self.parse_comma_list_item();
                proof {
                    lemma_arguments_push(list, list_item);
                    lemma_arguments_parse_push(list, list_item, document, scopes, input);
                    lemma_parsed_then(
                        start,
                        before,
                        *self,
                        arguments_tokens(list, list.len()),
                        arguments_diagnostics(list, list.len()),
                        list_item.tokens(),
                        list_item.diagnostics(),
                    );
                    assert(list.push(list_item).last() == list_item);
                }
                items.push(list_item);
                done = last;
            }
        }
        self.recover_done(terminator);
        items
    }

    /// Parses a module from a token stream consuming _all_ tokens in the stream. Every scope
    /// that is opened on the way is closed again.
    #[verifier::rlimit(100)]
    #[verifier::spinoff_prover]
    pub fn parse_module(&mut self) -> (module: Module)
        requires
            old(self).wf(),
            old(self).fits(1),
            old(self).scopes() == Multiset::<Glyph>::empty(),
        ensures
            final(self).wf(),
            final(self).scopes() == Multiset::<Glyph>::empty(),
            module.tokens() == old(self).remaining(),
            final(self).reported() == old(self).reported() + module.diagnostics(),
            module.wf(),
            module.parses(old(self).spec_document(), old(self).remaining()),
    {
        // Parse all the items we can until we reach the end.
        let items = self.parse_item_list();
        proof {
            self.lemma_remaining();
            assert(self.remaining()[0].kind is End);
            assert(self.remaining().len() == 1);
            lemma_parsed_after(
                *old(self),
                *self,
                items_tokens(items@, items@.len()),
                items_diagnostics(items@, items@.len()),
            );
        }
        // Consume the ending token. We need it for our AST.
        let token = self.lexer.advance();
        proof {
            token.lemma_kind();
        }
        let end = match token {
            Token::End(end) => end,
            _ => unreached(),
        };
        let module = Module::new(items, end);
        proof {
            assert(old(self).remaining() =~= module.tokens());
            module.lemma_parses(old(self).spec_document(), old(self).remaining());
        }
        module
    }

    /// Is no scope open in which the parser would recover at a glyph?
    pub fn recoverable_is_empty(&self) -> (empty: bool)
        requires
            self.wf(),
        ensures
            empty == (self.scopes() == Multiset::<Glyph>::empty()),
    {
        self.recoverable.is_empty()
    }

    /// Parses a module from a token stream consuming _all_ tokens in the stream, and gives
    /// the diagnostics that were reported on the way.
    pub fn parse(lexer: Lexer<'a>) -> (result: (DiagnosticsCollection, Module))
        requires
            lexer.wf(),
        ensures
            result.1.tokens() == lexer.remaining(),
            result.1.parses(lexer.spec_document(), lexer.remaining()),
            result.0@ == result.1.diagnostics(),
            result.1.wf(),
    {
        let mut parser = Parser::new(lexer);
        let module = parser.parse_module();
        proof {
            assert(parser.reported() =~= module.diagnostics());
        }
        (parser.finish(), module)
    }
}

} // verus!
