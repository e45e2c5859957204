//! The syntax tree that the parser builds. Every token of a document ends up in exactly one
//! node of its tree, the tokens that the parser had to skip among them, so a tree gives back
//! the tokens it was parsed from.

use super::document::{Document, Position, Range};
use super::token::{
    lemma_token_views_push, token_views, EndToken, Glyph, GlyphToken, IdentifierToken, NumberToken, Token, TokenKind,
    TokenView,
};
use super::identifier::Keyword;
use crate::diagnostics::{
    unexpected_of, Diagnostic, DiagnosticRef, ErrorDiagnosticMessage, ExpectedSyntax,
};
use vstd::multiset::*;
use vstd::prelude::*;

verus! {

/// Can a token of kind `kind` be the first token of what `expected` stands for? This holds
/// for the parts of the grammar that the parser recovers for: a given glyph, a name, an
/// expression and a pattern.
pub open spec fn can_start(expected: ExpectedSyntax, kind: TokenKind) -> bool {
    match expected {
        ExpectedSyntax::Glyph(glyph) => kind == TokenKind::Glyph(glyph),
        ExpectedSyntax::Identifier => kind is Identifier,
        ExpectedSyntax::Expression => match kind {
            TokenKind::Identifier(_) => true,
            TokenKind::Number(_) => true,
            TokenKind::Glyph(glyph) => glyph == Glyph::Keyword(Keyword::True) || glyph
                == Glyph::Keyword(Keyword::False) || glyph == Glyph::Keyword(Keyword::If) || glyph
                == Glyph::Keyword(Keyword::Do) || glyph == Glyph::ParenLeft,
            _ => false,
        },
        ExpectedSyntax::Pattern => match kind {
            TokenKind::Identifier(_) => true,
            TokenKind::Glyph(glyph) => glyph == Glyph::Underscore,
            _ => false,
        },
        _ => false,
    }
}

/// Does the parser stop skipping at a token of kind `kind`? It stops at the end of the
/// document and at every glyph for which a scope is open.
pub open spec fn stops(scopes: Multiset<Glyph>, kind: TokenKind) -> bool {
    match kind {
        TokenKind::End => true,
        TokenKind::Glyph(glyph) => scopes.count(glyph) > 0,
        _ => false,
    }
}

/// The number of tokens at the start of `tokens` that the parser skips when it wants
/// `expected`: those before the first token at which it stops or with which `expected` can
/// begin.
pub open spec fn skip_len(
    scopes: Multiset<Glyph>,
    expected: ExpectedSyntax,
    tokens: Seq<TokenView>,
) -> nat
    decreases tokens.len(),
{
    if tokens.len() == 0 || stops(scopes, tokens[0].kind) || can_start(expected, tokens[0].kind) {
        0
    } else {
        1 + skip_len(scopes, expected, tokens.drop_first())
    }
}

/// The skipped tokens are among the given ones.
pub proof fn lemma_skip_len_bound(
    scopes: Multiset<Glyph>,
    expected: ExpectedSyntax,
    tokens: Seq<TokenView>,
)
    ensures
        skip_len(scopes, expected, tokens) <= tokens.len(),
    decreases tokens.len(),
{
    if tokens.len() > 0 {
        lemma_skip_len_bound(scopes, expected, tokens.drop_first());
    }
}

/// The error message that blames the token `token` where `expected` was wanted.
pub open spec fn blame(token: TokenView, expected: ExpectedSyntax) -> ErrorDiagnosticMessage {
    if token.kind is End {
        ErrorDiagnosticMessage::UnexpectedEnding { expected }
    } else {
        ErrorDiagnosticMessage::UnexpectedSyntax { unexpected: unexpected_of(token.kind), expected }
    }
}

/// What the parser leaves where it did not find what the grammar wants: the tokens that it
/// skipped while it looked for a place to go on, the diagnostic that it reported, and the
/// position at which it met the error.
#[derive(Debug, PartialEq, Eq)]
pub struct ErrorNode {
    skipped: Vec<Token>,
    diagnostic: DiagnosticRef,
    position: Position,
}

/// A glyph that the grammar wants at some place: found there, or missing, and then perhaps
/// found after some tokens that were skipped.
#[derive(Debug, PartialEq, Eq)]
pub enum GlyphNode {
    Found(GlyphToken),
    Missing(ErrorNode, Option<GlyphToken>),
}

/// A name that the grammar wants at some place: found there, or missing, and then perhaps
/// found after some tokens that were skipped.
#[derive(Debug, PartialEq, Eq)]
pub enum IdentifierNode {
    Found(IdentifierToken),
    Missing(ErrorNode, Option<IdentifierToken>),
}

/// A module: the items of a document, and its end.
#[derive(Debug, PartialEq, Eq)]
pub struct Module {
    items: Vec<Item>,
    end: EndToken,
}

/// A block: items between braces.
#[derive(Debug, PartialEq, Eq)]
pub struct Block {
    brace_left: GlyphNode,
    items: Vec<Item>,
    brace_right: GlyphNode,
}

/// What a module or a block is made of.
#[derive(Debug, PartialEq, Eq)]
pub enum Item {
    Statement(Statement),
}

/// A statement describes some action to be executed in the current scope.
#[derive(Debug, PartialEq, Eq)]
pub enum Statement {
    /// Binds a value to some names in the current scope.
    Binding(BindingStatement),
    /// Executes an expression only for the side effects.
    Expression(ExpressionStatement),
}

/// `let pattern = value;`
#[derive(Debug, PartialEq, Eq)]
pub struct BindingStatement {
    let_: GlyphToken,
    pattern: Pattern,
    equals: GlyphNode,
    value: Expression,
    semicolon: Option<GlyphToken>,
}

/// `expression;`
#[derive(Debug, PartialEq, Eq)]
pub struct ExpressionStatement {
    expression: Expression,
    semicolon: Option<GlyphToken>,
}

/// A constant value in the programmer’s code.
#[derive(Debug, PartialEq, Eq)]
pub enum Constant {
    Boolean(BooleanConstant),
    Number(NumberConstant),
}

/// `true` or `false`
#[derive(Debug, PartialEq, Eq)]
pub struct BooleanConstant {
    token: GlyphToken,
    value: bool,
}

/// A number literal.
#[derive(Debug, PartialEq, Eq)]
pub struct NumberConstant {
    token: NumberToken,
}

/// Some execution which returns a value.
#[derive(Debug, PartialEq, Eq)]
pub enum Expression {
    /// References a variable bound in this expression’s scope.
    Variable(VariableExpression),
    /// A constant value in the programmer’s code.
    Constant(Constant),
    /// `if test { ... } else { ... }`
    Conditional(Box<ConditionalExpression>),
    /// `do { ... }`
    Block(BlockExpression),
    /// `(expression)`
    Wrapped(Box<WrappedExpression>),
    /// `object.property`
    Property(Box<PropertyExpression>),
    /// `callee(arguments)`
    Call(Box<CallExpression>),
    /// The place of an expression that is missing, with the expression that was found after
    /// the skipped tokens, if one was.
    Error(Box<ErrorExpression>),
}

/// A name that stands for a value.
#[derive(Debug, PartialEq, Eq)]
pub struct VariableExpression {
    identifier: IdentifierToken,
}

/// `if test { ... } else { ... }`
#[derive(Debug, PartialEq, Eq)]
pub struct ConditionalExpression {
    if_: GlyphToken,
    test: Expression,
    consequent: Block,
    alternate: Option<ConditionalExpressionAlternate>,
}

/// `else { ... }`
#[derive(Debug, PartialEq, Eq)]
pub struct ConditionalExpressionAlternate {
    else_: GlyphToken,
    block: Block,
}

/// `do { ... }`
#[derive(Debug, PartialEq, Eq)]
pub struct BlockExpression {
    do_: GlyphToken,
    block: Block,
}

/// `(expression)`
#[derive(Debug, PartialEq, Eq)]
pub struct WrappedExpression {
    paren_left: GlyphToken,
    expression: Expression,
    paren_right: GlyphNode,
}

/// `object.property`
#[derive(Debug, PartialEq, Eq)]
pub struct PropertyExpression {
    object: Expression,
    dot: GlyphToken,
    property: IdentifierNode,
}

/// `callee(arguments)`
#[derive(Debug, PartialEq, Eq)]
pub struct CallExpression {
    callee: Expression,
    paren_left: GlyphToken,
    arguments: Vec<CommaListItem>,
    paren_right: GlyphNode,
}

/// An item of a list whose items commas separate, with the comma after it. The last item of
/// a list may have none; a comma that is missing between two items is an error node.
#[derive(Debug, PartialEq, Eq)]
pub struct CommaListItem {
    item: Expression,
    comma: Option<GlyphNode>,
}

/// The place of an expression that is missing.
#[derive(Debug, PartialEq, Eq)]
pub struct ErrorExpression {
    error: ErrorNode,
    recovered: Option<Expression>,
}

/// A pattern is used for binding a value to some names in the current block scope.
#[derive(Debug, PartialEq, Eq)]
pub enum Pattern {
    /// Binds the value to a name.
    Variable(VariablePattern),
    /// `_`: binds the value to nothing.
    Hole(HolePattern),
    /// The place of a pattern that is missing, with the pattern that was found after the
    /// skipped tokens, if one was.
    Error(Box<ErrorPattern>),
}

/// A name that a value is bound to.
#[derive(Debug, PartialEq, Eq)]
pub struct VariablePattern {
    identifier: IdentifierToken,
}

/// `_`
#[derive(Debug, PartialEq, Eq)]
pub struct HolePattern {
    underscore: GlyphToken,
}

/// The place of a pattern that is missing.
#[derive(Debug, PartialEq, Eq)]
pub struct ErrorPattern {
    error: ErrorNode,
    recovered: Option<Pattern>,
}

/// The tokens of an optional glyph.
pub open spec fn optional_glyph_tokens(token: Option<GlyphToken>) -> Seq<TokenView> {
    match token {
        Some(token) => seq![token@],
        None => Seq::empty(),
    }
}

/// Is an optional glyph, where it is there, the glyph `glyph`?
pub open spec fn optional_glyph_is(token: Option<GlyphToken>, glyph: Glyph) -> bool {
    match token {
        Some(token) => token@.kind == TokenKind::Glyph(glyph),
        None => true,
    }
}

impl ErrorNode {
    /// The tokens that were skipped.
    pub closed spec fn tokens(&self) -> Seq<TokenView> {
        token_views(self.skipped@)
    }

    /// The diagnostic that was reported for the error.
    pub closed spec fn diagnostic(&self) -> Diagnostic {
        self.diagnostic@
    }

    /// The offset at which the parser met the error.
    pub closed spec fn position(&self) -> nat {
        self.position@
    }

    /// The error node is one that the parser makes where it wants `expected`: none of the
    /// skipped tokens can begin it, none is the end of the document, and where tokens were
    /// skipped, the diagnostic blames the first of them.
    pub open spec fn wf(&self, expected: ExpectedSyntax) -> bool {
        &&& forall|i: int|
            0 <= i < self.tokens().len() ==> !can_start(expected, (#[trigger] self.tokens()[i]).kind)
                && !(self.tokens()[i].kind is End)
        &&& self.tokens().len() > 0 ==> self.diagnostic().spec_error() == blame(
            self.tokens()[0],
            expected,
        ) && self.position() == self.tokens()[0].start
    }
}

impl GlyphNode {
    /// The tokens of the node, in the order of the document.
    pub open spec fn tokens(&self) -> Seq<TokenView> {
        match self {
            GlyphNode::Found(token) => seq![token@],
            GlyphNode::Missing(error, recovered) => error.tokens() + optional_glyph_tokens(
                *recovered,
            ),
        }
    }

    /// The diagnostics that were reported for the node.
    pub open spec fn diagnostics(&self) -> Seq<Diagnostic> {
        match self {
            GlyphNode::Found(_) => Seq::empty(),
            GlyphNode::Missing(error, _) => seq![error.diagnostic()],
        }
    }

    /// The node stands where the grammar wants the glyph `glyph`.
    pub open spec fn wf(&self, glyph: Glyph) -> bool {
        match self {
            GlyphNode::Found(token) => token@.kind == TokenKind::Glyph(glyph),
            GlyphNode::Missing(error, recovered) => error.wf(ExpectedSyntax::Glyph(glyph))
                && optional_glyph_is(*recovered, glyph),
        }
    }
}

impl IdentifierNode {
    /// The tokens of the node, in the order of the document.
    pub open spec fn tokens(&self) -> Seq<TokenView> {
        match self {
            IdentifierNode::Found(token) => seq![token@],
            IdentifierNode::Missing(error, recovered) => error.tokens() + (match recovered {
                Some(token) => seq![token@],
                None => Seq::empty(),
            }),
        }
    }

    /// The diagnostics that were reported for the node.
    pub open spec fn diagnostics(&self) -> Seq<Diagnostic> {
        match self {
            IdentifierNode::Found(_) => Seq::empty(),
            IdentifierNode::Missing(error, _) => seq![error.diagnostic()],
        }
    }

    /// The node stands where the grammar wants a name.
    pub open spec fn wf(&self) -> bool {
        match self {
            IdentifierNode::Found(_) => true,
            IdentifierNode::Missing(error, _) => error.wf(ExpectedSyntax::Identifier),
        }
    }
}

/// The tokens of the first `n` items of `items`, in the order of the document.
pub open spec fn items_tokens(items: Seq<Item>, n: nat) -> Seq<TokenView>
    decreases items, n,
{
    if n == 0 || n > items.len() {
        Seq::empty()
    } else {
        items_tokens(items, (n - 1) as nat) + items[n - 1].tokens()
    }
}

/// The diagnostics that were reported for the first `n` items of `items`, in their order.
pub open spec fn items_diagnostics(items: Seq<Item>, n: nat) -> Seq<Diagnostic>
    decreases items, n,
{
    if n == 0 || n > items.len() {
        Seq::empty()
    } else {
        items_diagnostics(items, (n - 1) as nat) + items[n - 1].diagnostics()
    }
}

/// The tokens of the first `n` arguments of `arguments`, in the order of the document.
pub open spec fn arguments_tokens(arguments: Seq<CommaListItem>, n: nat) -> Seq<TokenView>
    decreases arguments, n,
{
    if n == 0 || n > arguments.len() {
        Seq::empty()
    } else {
        arguments_tokens(arguments, (n - 1) as nat) + arguments[n - 1].tokens()
    }
}

/// The diagnostics that were reported for the first `n` arguments of `arguments`.
pub open spec fn arguments_diagnostics(arguments: Seq<CommaListItem>, n: nat) -> Seq<Diagnostic>
    decreases arguments, n,
{
    if n == 0 || n > arguments.len() {
        Seq::empty()
    } else {
        arguments_diagnostics(arguments, (n - 1) as nat) + arguments[n - 1].diagnostics()
    }
}

impl Item {
    /// The tokens of the item, in the order of the document.
    pub open spec fn tokens(&self) -> Seq<TokenView>
        decreases self,
    {
        match self {
            Item::Statement(statement) => statement.tokens(),
        }
    }

    /// The diagnostics that were reported for the item, in their order.
    pub open spec fn diagnostics(&self) -> Seq<Diagnostic>
        decreases self,
    {
        match self {
            Item::Statement(statement) => statement.diagnostics(),
        }
    }
}

impl Statement {
    /// The tokens of the statement, in the order of the document.
    pub open spec fn tokens(&self) -> Seq<TokenView>
        decreases self,
    {
        match self {
            Statement::Binding(binding) => binding.tokens(),
            Statement::Expression(statement) => statement.tokens(),
        }
    }

    /// The diagnostics that were reported for the statement, in their order.
    pub open spec fn diagnostics(&self) -> Seq<Diagnostic>
        decreases self,
    {
        match self {
            Statement::Binding(binding) => binding.diagnostics(),
            Statement::Expression(statement) => statement.diagnostics(),
        }
    }
}

impl BindingStatement {
    /// The tokens of the statement, in the order of the document.
    pub closed spec fn tokens(&self) -> Seq<TokenView>
        decreases self,
    {
        seq![self.let_@] + self.pattern.tokens() + self.equals.tokens() + self.value.tokens()
            + optional_glyph_tokens(self.semicolon)
    }

    /// The diagnostics that were reported for the statement, in their order.
    pub closed spec fn diagnostics(&self) -> Seq<Diagnostic>
        decreases self,
    {
        self.pattern.diagnostics() + self.equals.diagnostics() + self.value.diagnostics()
    }
}

impl ExpressionStatement {
    /// The tokens of the statement, in the order of the document.
    pub closed spec fn tokens(&self) -> Seq<TokenView>
        decreases self,
    {
        self.expression.tokens() + optional_glyph_tokens(self.semicolon)
    }

    /// The diagnostics that were reported for the statement, in their order.
    pub closed spec fn diagnostics(&self) -> Seq<Diagnostic>
        decreases self,
    {
        self.expression.diagnostics()
    }
}

impl Block {
    /// The tokens of the block, in the order of the document.
    pub closed spec fn tokens(&self) -> Seq<TokenView>
        decreases self,
    {
        self.brace_left.tokens() + items_tokens(self.items@, self.items@.len())
            + self.brace_right.tokens()
    }

    /// The diagnostics that were reported for the block, in their order.
    pub closed spec fn diagnostics(&self) -> Seq<Diagnostic>
        decreases self,
    {
        self.brace_left.diagnostics() + items_diagnostics(self.items@, self.items@.len())
            + self.brace_right.diagnostics()
    }
}

impl Constant {
    /// The token of the constant.
    pub open spec fn tokens(&self) -> Seq<TokenView> {
        match self {
            Constant::Boolean(constant) => constant.tokens(),
            Constant::Number(constant) => constant.tokens(),
        }
    }
}

impl BooleanConstant {
    /// The token of the constant.
    pub closed spec fn tokens(&self) -> Seq<TokenView> {
        seq![self.token@]
    }

    /// The value of the constant.
    pub closed spec fn spec_value(&self) -> bool {
        self.value
    }
}

impl NumberConstant {
    /// The token of the constant.
    pub closed spec fn tokens(&self) -> Seq<TokenView> {
        seq![self.token@]
    }
}

impl VariableExpression {
    /// The token of the name.
    pub closed spec fn tokens(&self) -> Seq<TokenView> {
        seq![self.identifier@]
    }
}

impl Expression {
    /// The tokens of the expression, in the order of the document.
    pub open spec fn tokens(&self) -> Seq<TokenView>
        decreases self,
    {
        match self {
            Expression::Variable(variable) => variable.tokens(),
            Expression::Constant(constant) => constant.tokens(),
            Expression::Conditional(conditional) => conditional.tokens(),
            Expression::Block(block) => block.tokens(),
            Expression::Wrapped(wrapped) => wrapped.tokens(),
            Expression::Property(property) => property.tokens(),
            Expression::Call(call) => call.tokens(),
            Expression::Error(error) => error.tokens(),
        }
    }

    /// The diagnostics that were reported for the expression, in their order.
    pub open spec fn diagnostics(&self) -> Seq<Diagnostic>
        decreases self,
    {
        match self {
            Expression::Variable(_) => Seq::empty(),
            Expression::Constant(_) => Seq::empty(),
            Expression::Conditional(conditional) => conditional.diagnostics(),
            Expression::Block(block) => block.diagnostics(),
            Expression::Wrapped(wrapped) => wrapped.diagnostics(),
            Expression::Property(property) => property.diagnostics(),
            Expression::Call(call) => call.diagnostics(),
            Expression::Error(error) => error.diagnostics(),
        }
    }
}

impl ConditionalExpression {
    /// The tokens of the expression, in the order of the document.
    pub closed spec fn tokens(&self) -> Seq<TokenView>
        decreases self,
    {
        seq![self.if_@] + self.test.tokens() + self.consequent.tokens() + (match self.alternate {
            Some(alternate) => alternate.tokens(),
            None => Seq::empty(),
        })
    }

    /// The diagnostics that were reported for the expression, in their order.
    pub closed spec fn diagnostics(&self) -> Seq<Diagnostic>
        decreases self,
    {
        self.test.diagnostics() + self.consequent.diagnostics() + (match self.alternate {
            Some(alternate) => alternate.diagnostics(),
            None => Seq::empty(),
        })
    }
}

impl ConditionalExpressionAlternate {
    /// The tokens of the alternate, in the order of the document.
    pub closed spec fn tokens(&self) -> Seq<TokenView>
        decreases self,
    {
        seq![self.else_@] + self.block.tokens()
    }

    /// The diagnostics that were reported for the alternate, in their order.
    pub closed spec fn diagnostics(&self) -> Seq<Diagnostic>
        decreases self,
    {
        self.block.diagnostics()
    }
}

impl BlockExpression {
    /// The tokens of the expression, in the order of the document.
    pub closed spec fn tokens(&self) -> Seq<TokenView>
        decreases self,
    {
        seq![self.do_@] + self.block.tokens()
    }

    /// The diagnostics that were reported for the expression, in their order.
    pub closed spec fn diagnostics(&self) -> Seq<Diagnostic>
        decreases self,
    {
        self.block.diagnostics()
    }
}

impl WrappedExpression {
    /// The tokens of the expression, in the order of the document.
    pub closed spec fn tokens(&self) -> Seq<TokenView>
        decreases self,
    {
        seq![self.paren_left@] + self.expression.tokens() + self.paren_right.tokens()
    }

    /// The diagnostics that were reported for the expression, in their order.
    pub closed spec fn diagnostics(&self) -> Seq<Diagnostic>
        decreases self,
    {
        self.expression.diagnostics() + self.paren_right.diagnostics()
    }
}

impl PropertyExpression {
    /// The tokens of the expression, in the order of the document.
    pub closed spec fn tokens(&self) -> Seq<TokenView>
        decreases self,
    {
        self.object.tokens() + seq![self.dot@] + self.property.tokens()
    }

    /// The diagnostics that were reported for the expression, in their order.
    pub closed spec fn diagnostics(&self) -> Seq<Diagnostic>
        decreases self,
    {
        self.object.diagnostics() + self.property.diagnostics()
    }
}

impl CallExpression {
    /// The tokens of the expression, in the order of the document.
    pub closed spec fn tokens(&self) -> Seq<TokenView>
        decreases self,
    {
        self.callee.tokens() + seq![self.paren_left@] + arguments_tokens(
            self.arguments@,
            self.arguments@.len(),
        ) + self.paren_right.tokens()
    }

    /// The diagnostics that were reported for the expression, in their order.
    pub closed spec fn diagnostics(&self) -> Seq<Diagnostic>
        decreases self,
    {
        self.callee.diagnostics() + arguments_diagnostics(
            self.arguments@,
            self.arguments@.len(),
        ) + self.paren_right.diagnostics()
    }
}

impl CommaListItem {
    /// The tokens of the item and of its comma, in the order of the document.
    pub closed spec fn tokens(&self) -> Seq<TokenView>
        decreases self,
    {
        self.item.tokens() + (match self.comma {
            Some(comma) => comma.tokens(),
            None => Seq::empty(),
        })
    }

    /// The diagnostics that were reported for the item and for its comma, in their order.
    pub closed spec fn diagnostics(&self) -> Seq<Diagnostic>
        decreases self,
    {
        self.item.diagnostics() + (match self.comma {
            Some(comma) => comma.diagnostics(),
            None => Seq::empty(),
        })
    }
}

impl ErrorExpression {
    /// The tokens of the node, in the order of the document.
    pub closed spec fn tokens(&self) -> Seq<TokenView>
        decreases self,
    {
        self.error.tokens() + (match self.recovered {
            Some(expression) => expression.tokens(),
            None => Seq::empty(),
        })
    }

    /// The diagnostics that were reported for the node, in their order.
    pub closed spec fn diagnostics(&self) -> Seq<Diagnostic>
        decreases self,
    {
        seq![self.error.diagnostic()] + (match self.recovered {
            Some(expression) => expression.diagnostics(),
            None => Seq::empty(),
        })
    }
}

impl Pattern {
    /// The tokens of the pattern, in the order of the document.
    pub open spec fn tokens(&self) -> Seq<TokenView>
        decreases self,
    {
        match self {
            Pattern::Variable(variable) => variable.tokens(),
            Pattern::Hole(hole) => hole.tokens(),
            Pattern::Error(error) => error.tokens(),
        }
    }

    /// The diagnostics that were reported for the pattern, in their order.
    pub open spec fn diagnostics(&self) -> Seq<Diagnostic>
        decreases self,
    {
        match self {
            Pattern::Variable(_) => Seq::empty(),
            Pattern::Hole(_) => Seq::empty(),
            Pattern::Error(error) => error.diagnostics(),
        }
    }
}

impl VariablePattern {
    /// The token of the name.
    pub closed spec fn tokens(&self) -> Seq<TokenView> {
        seq![self.identifier@]
    }
}

impl HolePattern {
    /// The token of the underscore.
    pub closed spec fn tokens(&self) -> Seq<TokenView> {
        seq![self.underscore@]
    }
}

impl ErrorPattern {
    /// The tokens of the node, in the order of the document.
    pub closed spec fn tokens(&self) -> Seq<TokenView>
        decreases self,
    {
        self.error.tokens() + (match self.recovered {
            Some(pattern) => pattern.tokens(),
            None => Seq::empty(),
        })
    }

    /// The diagnostics that were reported for the node, in their order.
    pub closed spec fn diagnostics(&self) -> Seq<Diagnostic>
        decreases self,
    {
        seq![self.error.diagnostic()] + (match self.recovered {
            Some(pattern) => pattern.diagnostics(),
            None => Seq::empty(),
        })
    }
}

impl Module {
    /// The tokens of the module, in the order of the document.
    pub closed spec fn tokens(&self) -> Seq<TokenView> {
        items_tokens(self.items@, self.items@.len()) + seq![self.end@]
    }

    /// The diagnostics that were reported for the module, in their order.
    pub closed spec fn diagnostics(&self) -> Seq<Diagnostic> {
        items_diagnostics(self.items@, self.items@.len())
    }
}


impl Module {
    /// The items of the module.
    pub closed spec fn spec_items(&self) -> Vec<Item> {
        self.items
    }

    /// The items of the module.
    pub fn items(&self) -> (items_ref: &Vec<Item>)
        ensures
            *items_ref == self.spec_items(),
    {
        &self.items
    }

    /// The end of the document.
    pub closed spec fn spec_end(&self) -> EndToken {
        self.end
    }

    /// The end of the document.
    pub fn end(&self) -> (end_ref: &EndToken)
        ensures
            *end_ref == self.spec_end(),
    {
        &self.end
    }
}

impl Block {
    /// The brace that opens the block.
    pub closed spec fn spec_brace_left(&self) -> GlyphNode {
        self.brace_left
    }

    /// The brace that opens the block.
    pub fn brace_left(&self) -> (brace_left_ref: &GlyphNode)
        ensures
            *brace_left_ref == self.spec_brace_left(),
    {
        &self.brace_left
    }

    /// The items of the block.
    pub closed spec fn spec_items(&self) -> Vec<Item> {
        self.items
    }

    /// The items of the block.
    pub fn items(&self) -> (items_ref: &Vec<Item>)
        ensures
            *items_ref == self.spec_items(),
    {
        &self.items
    }

    /// The brace that closes the block.
    pub closed spec fn spec_brace_right(&self) -> GlyphNode {
        self.brace_right
    }

    /// The brace that closes the block.
    pub fn brace_right(&self) -> (brace_right_ref: &GlyphNode)
        ensures
            *brace_right_ref == self.spec_brace_right(),
    {
        &self.brace_right
    }
}

impl BindingStatement {
    /// The keyword `let`.
    pub closed spec fn spec_let(&self) -> GlyphToken {
        self.let_
    }

    /// The keyword `let`.
    pub fn let_(&self) -> (let_ref: &GlyphToken)
        ensures
            *let_ref == self.spec_let(),
    {
        &self.let_
    }

    /// The pattern that the value is bound to.
    pub closed spec fn spec_pattern(&self) -> Pattern {
        self.pattern
    }

    /// The pattern that the value is bound to.
    pub fn pattern(&self) -> (pattern_ref: &Pattern)
        ensures
            *pattern_ref == self.spec_pattern(),
    {
        &self.pattern
    }

    /// The equals sign.
    pub closed spec fn spec_equals(&self) -> GlyphNode {
        self.equals
    }

    /// The equals sign.
    pub fn equals(&self) -> (equals_ref: &GlyphNode)
        ensures
            *equals_ref == self.spec_equals(),
    {
        &self.equals
    }

    /// The value that is bound.
    pub closed spec fn spec_value(&self) -> Expression {
        self.value
    }

    /// The value that is bound.
    pub fn value(&self) -> (value_ref: &Expression)
        ensures
            *value_ref == self.spec_value(),
    {
        &self.value
    }

    /// The semicolon that ends the statement, if there is one.
    pub closed spec fn spec_semicolon(&self) -> Option<GlyphToken> {
        self.semicolon
    }

    /// The semicolon that ends the statement, if there is one.
    pub fn semicolon(&self) -> (semicolon_ref: &Option<GlyphToken>)
        ensures
            *semicolon_ref == self.spec_semicolon(),
    {
        &self.semicolon
    }
}

impl ExpressionStatement {
    /// The expression that is executed.
    pub closed spec fn spec_expression(&self) -> Expression {
        self.expression
    }

    /// The expression that is executed.
    pub fn expression(&self) -> (expression_ref: &Expression)
        ensures
            *expression_ref == self.spec_expression(),
    {
        &self.expression
    }

    /// The semicolon that ends the statement, if there is one.
    pub closed spec fn spec_semicolon(&self) -> Option<GlyphToken> {
        self.semicolon
    }

    /// The semicolon that ends the statement, if there is one.
    pub fn semicolon(&self) -> (semicolon_ref: &Option<GlyphToken>)
        ensures
            *semicolon_ref == self.spec_semicolon(),
    {
        &self.semicolon
    }
}

impl BooleanConstant {
    /// The keyword that is the constant.
    pub closed spec fn spec_token(&self) -> GlyphToken {
        self.token
    }

    /// The keyword that is the constant.
    pub fn token(&self) -> (token_ref: &GlyphToken)
        ensures
            *token_ref == self.spec_token(),
    {
        &self.token
    }
}

impl NumberConstant {
    /// The number that is the constant.
    pub closed spec fn spec_token(&self) -> NumberToken {
        self.token
    }

    /// The number that is the constant.
    pub fn token(&self) -> (token_ref: &NumberToken)
        ensures
            *token_ref == self.spec_token(),
    {
        &self.token
    }
}

impl VariableExpression {
    /// The name of the variable.
    pub closed spec fn spec_identifier(&self) -> IdentifierToken {
        self.identifier
    }

    /// The name of the variable.
    pub fn identifier(&self) -> (identifier_ref: &IdentifierToken)
        ensures
            *identifier_ref == self.spec_identifier(),
    {
        &self.identifier
    }
}

impl ConditionalExpression {
    /// The keyword `if`.
    pub closed spec fn spec_if(&self) -> GlyphToken {
        self.if_
    }

    /// The keyword `if`.
    pub fn if_(&self) -> (if_ref: &GlyphToken)
        ensures
            *if_ref == self.spec_if(),
    {
        &self.if_
    }

    /// The condition.
    pub closed spec fn spec_test(&self) -> Expression {
        self.test
    }

    /// The condition.
    pub fn test(&self) -> (test_ref: &Expression)
        ensures
            *test_ref == self.spec_test(),
    {
        &self.test
    }

    /// The block that is executed when the condition holds.
    pub closed spec fn spec_consequent(&self) -> Block {
        self.consequent
    }

    /// The block that is executed when the condition holds.
    pub fn consequent(&self) -> (consequent_ref: &Block)
        ensures
            *consequent_ref == self.spec_consequent(),
    {
        &self.consequent
    }

    /// What is executed when the condition does not hold, if anything.
    pub closed spec fn spec_alternate(&self) -> Option<ConditionalExpressionAlternate> {
        self.alternate
    }

    /// What is executed when the condition does not hold, if anything.
    pub fn alternate(&self) -> (alternate_ref: &Option<ConditionalExpressionAlternate>)
        ensures
            *alternate_ref == self.spec_alternate(),
    {
        &self.alternate
    }
}

impl ConditionalExpressionAlternate {
    /// The keyword `else`.
    pub closed spec fn spec_else(&self) -> GlyphToken {
        self.else_
    }

    /// The keyword `else`.
    pub fn else_(&self) -> (else_ref: &GlyphToken)
        ensures
            *else_ref == self.spec_else(),
    {
        &self.else_
    }

    /// The block that is executed.
    pub closed spec fn spec_block(&self) -> Block {
        self.block
    }

    /// The block that is executed.
    pub fn block(&self) -> (block_ref: &Block)
        ensures
            *block_ref == self.spec_block(),
    {
        &self.block
    }
}

impl BlockExpression {
    /// The keyword `do`.
    pub closed spec fn spec_do(&self) -> GlyphToken {
        self.do_
    }

    /// The keyword `do`.
    pub fn do_(&self) -> (do_ref: &GlyphToken)
        ensures
            *do_ref == self.spec_do(),
    {
        &self.do_
    }

    /// The block that is executed.
    pub closed spec fn spec_block(&self) -> Block {
        self.block
    }

    /// The block that is executed.
    pub fn block(&self) -> (block_ref: &Block)
        ensures
            *block_ref == self.spec_block(),
    {
        &self.block
    }
}

impl WrappedExpression {
    /// The parenthesis that opens.
    pub closed spec fn spec_paren_left(&self) -> GlyphToken {
        self.paren_left
    }

    /// The parenthesis that opens.
    pub fn paren_left(&self) -> (paren_left_ref: &GlyphToken)
        ensures
            *paren_left_ref == self.spec_paren_left(),
    {
        &self.paren_left
    }

    /// The expression between the parentheses.
    pub closed spec fn spec_expression(&self) -> Expression {
        self.expression
    }

    /// The expression between the parentheses.
    pub fn expression(&self) -> (expression_ref: &Expression)
        ensures
            *expression_ref == self.spec_expression(),
    {
        &self.expression
    }

    /// The parenthesis that closes.
    pub closed spec fn spec_paren_right(&self) -> GlyphNode {
        self.paren_right
    }

    /// The parenthesis that closes.
    pub fn paren_right(&self) -> (paren_right_ref: &GlyphNode)
        ensures
            *paren_right_ref == self.spec_paren_right(),
    {
        &self.paren_right
    }
}

impl PropertyExpression {
    /// The expression whose property is taken.
    pub closed spec fn spec_object(&self) -> Expression {
        self.object
    }

    /// The expression whose property is taken.
    pub fn object(&self) -> (object_ref: &Expression)
        ensures
            *object_ref == self.spec_object(),
    {
        &self.object
    }

    /// The dot.
    pub closed spec fn spec_dot(&self) -> GlyphToken {
        self.dot
    }

    /// The dot.
    pub fn dot(&self) -> (dot_ref: &GlyphToken)
        ensures
            *dot_ref == self.spec_dot(),
    {
        &self.dot
    }

    /// The name of the property.
    pub closed spec fn spec_property(&self) -> IdentifierNode {
        self.property
    }

    /// The name of the property.
    pub fn property(&self) -> (property_ref: &IdentifierNode)
        ensures
            *property_ref == self.spec_property(),
    {
        &self.property
    }
}

impl CallExpression {
    /// The expression that is called.
    pub closed spec fn spec_callee(&self) -> Expression {
        self.callee
    }

    /// The expression that is called.
    pub fn callee(&self) -> (callee_ref: &Expression)
        ensures
            *callee_ref == self.spec_callee(),
    {
        &self.callee
    }

    /// The parenthesis that opens the arguments.
    pub closed spec fn spec_paren_left(&self) -> GlyphToken {
        self.paren_left
    }

    /// The parenthesis that opens the arguments.
    pub fn paren_left(&self) -> (paren_left_ref: &GlyphToken)
        ensures
            *paren_left_ref == self.spec_paren_left(),
    {
        &self.paren_left
    }

    /// The arguments.
    pub closed spec fn spec_arguments(&self) -> Vec<CommaListItem> {
        self.arguments
    }

    /// The arguments.
    pub fn arguments(&self) -> (arguments_ref: &Vec<CommaListItem>)
        ensures
            *arguments_ref == self.spec_arguments(),
    {
        &self.arguments
    }

    /// The parenthesis that closes the arguments.
    pub closed spec fn spec_paren_right(&self) -> GlyphNode {
        self.paren_right
    }

    /// The parenthesis that closes the arguments.
    pub fn paren_right(&self) -> (paren_right_ref: &GlyphNode)
        ensures
            *paren_right_ref == self.spec_paren_right(),
    {
        &self.paren_right
    }
}

impl CommaListItem {
    /// The item.
    pub closed spec fn spec_item(&self) -> Expression {
        self.item
    }

    /// The item.
    pub fn item(&self) -> (item_ref: &Expression)
        ensures
            *item_ref == self.spec_item(),
    {
        &self.item
    }

    /// The comma after the item, if there is one.
    pub closed spec fn spec_comma(&self) -> Option<GlyphNode> {
        self.comma
    }

    /// The comma after the item, if there is one.
    pub fn comma(&self) -> (comma_ref: &Option<GlyphNode>)
        ensures
            *comma_ref == self.spec_comma(),
    {
        &self.comma
    }
}

impl ErrorExpression {
    /// The error that stands in the place of the expression.
    pub closed spec fn spec_error(&self) -> ErrorNode {
        self.error
    }

    /// The error that stands in the place of the expression.
    pub fn error(&self) -> (error_ref: &ErrorNode)
        ensures
            *error_ref == self.spec_error(),
    {
        &self.error
    }

    /// The expression that was found after the skipped tokens, if one was.
    pub closed spec fn spec_recovered(&self) -> Option<Expression> {
        self.recovered
    }

    /// The expression that was found after the skipped tokens, if one was.
    pub fn recovered(&self) -> (recovered_ref: &Option<Expression>)
        ensures
            *recovered_ref == self.spec_recovered(),
    {
        &self.recovered
    }
}

impl VariablePattern {
    /// The name that is bound.
    pub closed spec fn spec_identifier(&self) -> IdentifierToken {
        self.identifier
    }

    /// The name that is bound.
    pub fn identifier(&self) -> (identifier_ref: &IdentifierToken)
        ensures
            *identifier_ref == self.spec_identifier(),
    {
        &self.identifier
    }
}

impl HolePattern {
    /// The underscore.
    pub closed spec fn spec_underscore(&self) -> GlyphToken {
        self.underscore
    }

    /// The underscore.
    pub fn underscore(&self) -> (underscore_ref: &GlyphToken)
        ensures
            *underscore_ref == self.spec_underscore(),
    {
        &self.underscore
    }
}

impl ErrorPattern {
    /// The error that stands in the place of the pattern.
    pub closed spec fn spec_error(&self) -> ErrorNode {
        self.error
    }

    /// The error that stands in the place of the pattern.
    pub fn error(&self) -> (error_ref: &ErrorNode)
        ensures
            *error_ref == self.spec_error(),
    {
        &self.error
    }

    /// The pattern that was found after the skipped tokens, if one was.
    pub closed spec fn spec_recovered(&self) -> Option<Pattern> {
        self.recovered
    }

    /// The pattern that was found after the skipped tokens, if one was.
    pub fn recovered(&self) -> (recovered_ref: &Option<Pattern>)
        ensures
            *recovered_ref == self.spec_recovered(),
    {
        &self.recovered
    }
}


/// Is `token` the glyph `glyph`?
pub open spec fn is_glyph(token: GlyphToken, glyph: Glyph) -> bool {
    token@.kind == TokenKind::Glyph(glyph)
}

/// Do the first `n` items of `items` follow the grammar?
pub open spec fn items_wf(items: Seq<Item>, n: nat) -> bool
    decreases items, n,
{
    if n == 0 || n > items.len() {
        true
    } else {
        items_wf(items, (n - 1) as nat) && items[n - 1].wf()
    }
}

/// Do the first `n` arguments of `arguments` follow the grammar?
pub open spec fn arguments_wf(arguments: Seq<CommaListItem>, n: nat) -> bool
    decreases arguments, n,
{
    if n == 0 || n > arguments.len() {
        true
    } else {
        arguments_wf(arguments, (n - 1) as nat) && arguments[n - 1].wf()
    }
}

impl Item {
    /// The item follows the grammar: each token of it that the grammar fixes is the glyph
    /// that the grammar wants there, and each error node in it is one that the parser makes.
    pub open spec fn wf(&self) -> bool
        decreases self,
    {
        match self {
            Item::Statement(statement) => statement.wf(),
        }
    }
}

impl Statement {
    /// The statement follows the grammar.
    pub open spec fn wf(&self) -> bool
        decreases self,
    {
        match self {
            Statement::Binding(binding) => binding.wf(),
            Statement::Expression(statement) => statement.wf(),
        }
    }
}

impl BindingStatement {
    /// The statement follows the grammar: `let`, a pattern, `=`, a value, and perhaps `;`.
    pub closed spec fn wf(&self) -> bool
        decreases self,
    {
        &&& is_glyph(self.let_, Glyph::Keyword(Keyword::Let))
        &&& self.pattern.wf()
        &&& self.equals.wf(Glyph::Equals)
        &&& self.value.wf()
        &&& optional_glyph_is(self.semicolon, Glyph::Semicolon)
    }
}

impl ExpressionStatement {
    /// The statement follows the grammar: an expression, and perhaps `;`.
    pub closed spec fn wf(&self) -> bool
        decreases self,
    {
        &&& self.expression.wf()
        &&& optional_glyph_is(self.semicolon, Glyph::Semicolon)
    }
}

impl Block {
    /// The block follows the grammar: `{`, items, `}`.
    pub closed spec fn wf(&self) -> bool
        decreases self,
    {
        &&& self.brace_left.wf(Glyph::BraceLeft)
        &&& items_wf(self.items@, self.items@.len())
        &&& self.brace_right.wf(Glyph::BraceRight)
    }
}

impl BooleanConstant {
    /// The constant follows the grammar: its token is the keyword of its value.
    pub closed spec fn wf(&self) -> bool {
        is_glyph(
            self.token,
            Glyph::Keyword(
                if self.value {
                    Keyword::True
                } else {
                    Keyword::False
                },
            ),
        )
    }
}

impl Constant {
    /// The constant follows the grammar.
    pub open spec fn wf(&self) -> bool {
        match self {
            Constant::Boolean(constant) => constant.wf(),
            Constant::Number(_) => true,
        }
    }
}

impl Expression {
    /// The expression follows the grammar.
    pub open spec fn wf(&self) -> bool
        decreases self,
    {
        match self {
            Expression::Variable(_) => true,
            Expression::Constant(constant) => constant.wf(),
            Expression::Conditional(conditional) => conditional.wf(),
            Expression::Block(block) => block.wf(),
            Expression::Wrapped(wrapped) => wrapped.wf(),
            Expression::Property(property) => property.wf(),
            Expression::Call(call) => call.wf(),
            Expression::Error(error) => error.wf(),
        }
    }
}

impl ConditionalExpression {
    /// The expression follows the grammar: `if`, a condition, a block, and perhaps `else`
    /// and a block.
    pub closed spec fn wf(&self) -> bool
        decreases self,
    {
        &&& is_glyph(self.if_, Glyph::Keyword(Keyword::If))
        &&& self.test.wf()
        &&& self.consequent.wf()
        &&& match self.alternate {
            Some(alternate) => alternate.wf(),
            None => true,
        }
    }
}

impl ConditionalExpressionAlternate {
    /// The alternate follows the grammar: `else` and a block.
    pub closed spec fn wf(&self) -> bool
        decreases self,
    {
        &&& is_glyph(self.else_, Glyph::Keyword(Keyword::Else))
        &&& self.block.wf()
    }
}

impl BlockExpression {
    /// The expression follows the grammar: `do` and a block.
    pub closed spec fn wf(&self) -> bool
        decreases self,
    {
        &&& is_glyph(self.do_, Glyph::Keyword(Keyword::Do))
        &&& self.block.wf()
    }
}

impl WrappedExpression {
    /// The expression follows the grammar: `(`, an expression, `)`.
    pub closed spec fn wf(&self) -> bool
        decreases self,
    {
        &&& is_glyph(self.paren_left, Glyph::ParenLeft)
        &&& self.expression.wf()
        &&& self.paren_right.wf(Glyph::ParenRight)
    }
}

impl PropertyExpression {
    /// The expression follows the grammar: an expression, `.`, a name.
    pub closed spec fn wf(&self) -> bool
        decreases self,
    {
        &&& self.object.wf()
        &&& is_glyph(self.dot, Glyph::Dot)
        &&& self.property.wf()
    }
}

impl CallExpression {
    /// The expression follows the grammar: an expression, `(`, arguments, `)`.
    pub closed spec fn wf(&self) -> bool
        decreases self,
    {
        &&& self.callee.wf()
        &&& is_glyph(self.paren_left, Glyph::ParenLeft)
        &&& arguments_wf(self.arguments@, self.arguments@.len())
        &&& self.paren_right.wf(Glyph::ParenRight)
    }
}

impl CommaListItem {
    /// The item follows the grammar: an expression, and perhaps `,`.
    pub closed spec fn wf(&self) -> bool
        decreases self,
    {
        &&& self.item.wf()
        &&& match self.comma {
            Some(comma) => comma.wf(Glyph::Comma),
            None => true,
        }
    }
}

impl ErrorExpression {
    /// The node is one that the parser makes where it wants an expression: no skipped token
    /// can begin an expression, and what was found after them is an expression that follows
    /// the grammar and is no error node itself.
    pub closed spec fn wf(&self) -> bool
        decreases self,
    {
        &&& self.error.wf(ExpectedSyntax::Expression)
        &&& match self.recovered {
            Some(expression) => expression.wf() && !(expression is Error),
            None => true,
        }
    }
}

impl HolePattern {
    /// The pattern follows the grammar: its token is `_`.
    pub closed spec fn wf(&self) -> bool {
        is_glyph(self.underscore, Glyph::Underscore)
    }
}

impl Pattern {
    /// The pattern follows the grammar.
    pub open spec fn wf(&self) -> bool
        decreases self,
    {
        match self {
            Pattern::Variable(_) => true,
            Pattern::Hole(hole) => hole.wf(),
            Pattern::Error(error) => error.wf(),
        }
    }
}

impl ErrorPattern {
    /// The node is one that the parser makes where it wants a pattern: no skipped token can
    /// begin a pattern, and what was found after them is a pattern that follows the grammar
    /// and is no error node itself.
    pub closed spec fn wf(&self) -> bool
        decreases self,
    {
        &&& self.error.wf(ExpectedSyntax::Pattern)
        &&& match self.recovered {
            Some(pattern) => pattern.wf() && !(pattern is Error),
            None => true,
        }
    }
}

impl Module {
    /// The module follows the grammar: items, and the end of the document.
    pub closed spec fn wf(&self) -> bool {
        items_wf(self.items@, self.items@.len())
    }
}

impl ErrorNode {
    /// Makes the node of an error that the parser met at `position`, reported as
    /// `diagnostic`, and skipped the tokens `skipped` for.
    pub fn new(skipped: Vec<Token>, diagnostic: DiagnosticRef, position: Position) -> (node:
        ErrorNode)
        ensures
            node.tokens() == token_views(skipped@),
            node.diagnostic() == diagnostic@,
            node.position() == position@,
    {
        ErrorNode { skipped, diagnostic, position }
    }

    /// The tokens that were skipped.
    pub fn skipped(&self) -> (skipped: &Vec<Token>)
        ensures
            token_views(skipped@) == self.tokens(),
    {
        &self.skipped
    }

    /// The diagnostic that was reported for the error.
    pub fn diagnostic_ref(&self) -> (diagnostic: &DiagnosticRef)
        ensures
            diagnostic@ == self.diagnostic(),
    {
        &self.diagnostic
    }

    /// The range of the error: from the first skipped token to the last, or the empty range
    /// at the position of the error where no token was skipped.
    pub open spec fn spec_range(&self) -> (nat, nat) {
        if self.tokens().len() == 0 {
            (self.position(), self.position())
        } else if self.tokens()[0].start <= self.tokens().last().end {
            (self.tokens()[0].start, self.tokens().last().end)
        } else {
            (self.tokens().last().end, self.tokens()[0].start)
        }
    }

    /// The range of the error: from the first skipped token to the last, or the empty range
    /// at the position of the error where no token was skipped.
    pub fn range(&self) -> (range: Range)
        ensures
            range.start_index() == self.spec_range().0,
            range.end_index() == self.spec_range().1,
    {
        let n = self.skipped.len();
        if n == 0 {
            Range::position(self.position)
        } else {
            assert(self.tokens()[0] == self.skipped@[0]@);
            assert(self.tokens().last() == self.skipped@[n - 1]@);
            Range::between(self.skipped[0].range().start(), self.skipped[n - 1].range().end())
        }
    }
}

impl Module {
    /// A module of the items `items`, which ends with `end`.
    pub fn new(items: Vec<Item>, end: EndToken) -> (module: Module)
        ensures
            module.spec_items() == items,
            module.spec_end() == end,
            module.tokens() == items_tokens(items@, items@.len()) + seq![end@],
            module.diagnostics() == items_diagnostics(items@, items@.len()),
            module.wf() == items_wf(items@, items@.len()),
    {
        Module { items, end }
    }
}

impl Block {
    /// A block of the items `items` between the two braces.
    pub fn new(brace_left: GlyphNode, items: Vec<Item>, brace_right: GlyphNode) -> (block: Block)
        ensures
            block.spec_brace_left() == brace_left,
            block.spec_items() == items,
            block.spec_brace_right() == brace_right,
            block.tokens() == brace_left.tokens() + items_tokens(items@, items@.len())
                + brace_right.tokens(),
            block.diagnostics() == brace_left.diagnostics() + items_diagnostics(
                items@,
                items@.len(),
            ) + brace_right.diagnostics(),
            block.wf() == (brace_left.wf(Glyph::BraceLeft) && items_wf(items@, items@.len())
                && brace_right.wf(Glyph::BraceRight)),
    {
        Block { brace_left, items, brace_right }
    }
}

impl BindingStatement {
    /// The statement `let pattern = value;`.
    pub fn new(
        let_: GlyphToken,
        pattern: Pattern,
        equals: GlyphNode,
        value: Expression,
        semicolon: Option<GlyphToken>,
    ) -> (statement: BindingStatement)
        ensures
            statement.spec_let() == let_,
            statement.spec_pattern() == pattern,
            statement.spec_equals() == equals,
            statement.spec_value() == value,
            statement.spec_semicolon() == semicolon,
            statement.tokens() == seq![let_@] + pattern.tokens() + equals.tokens() + value.tokens()
                + optional_glyph_tokens(semicolon),
            statement.diagnostics() == pattern.diagnostics() + equals.diagnostics()
                + value.diagnostics(),
            statement.wf() == (is_glyph(let_, Glyph::Keyword(Keyword::Let)) && pattern.wf()
                && equals.wf(Glyph::Equals) && value.wf() && optional_glyph_is(
                semicolon,
                Glyph::Semicolon,
            )),
    {
        BindingStatement { let_, pattern, equals, value, semicolon }
    }
}

impl ExpressionStatement {
    /// The statement `expression;`.
    pub fn new(expression: Expression, semicolon: Option<GlyphToken>) -> (statement:
        ExpressionStatement)
        ensures
            statement.spec_expression() == expression,
            statement.spec_semicolon() == semicolon,
            statement.tokens() == expression.tokens() + optional_glyph_tokens(semicolon),
            statement.diagnostics() == expression.diagnostics(),
            statement.wf() == (expression.wf() && optional_glyph_is(semicolon, Glyph::Semicolon)),
    {
        ExpressionStatement { expression, semicolon }
    }
}

impl BooleanConstant {
    /// The constant `true` or `false`, as `value` says, written as `token`.
    pub fn new(token: GlyphToken, value: bool) -> (constant: BooleanConstant)
        ensures
            constant.spec_token() == token,
            constant.spec_value() == value,
            constant.tokens() == seq![token@],
            constant.wf() == is_glyph(
                token,
                Glyph::Keyword(
                    if value {
                        Keyword::True
                    } else {
                        Keyword::False
                    },
                ),
            ),
    {
        BooleanConstant { token, value }
    }

    /// The value of the constant.
    pub fn value(&self) -> (value: bool)
        ensures
            value == self.spec_value(),
    {
        self.value
    }
}

impl NumberConstant {
    /// The constant that is written as `token`.
    pub fn new(token: NumberToken) -> (constant: NumberConstant)
        ensures
            constant.spec_token() == token,
            constant.tokens() == seq![token@],
    {
        NumberConstant { token }
    }
}

impl VariableExpression {
    /// The variable that is written as `identifier`.
    pub fn new(identifier: IdentifierToken) -> (variable: VariableExpression)
        ensures
            variable.spec_identifier() == identifier,
            variable.tokens() == seq![identifier@],
    {
        VariableExpression { identifier }
    }
}

impl ConditionalExpression {
    /// The expression `if test consequent alternate`.
    pub fn new(
        if_: GlyphToken,
        test: Expression,
        consequent: Block,
        alternate: Option<ConditionalExpressionAlternate>,
    ) -> (conditional: ConditionalExpression)
        ensures
            conditional.spec_if() == if_,
            conditional.spec_test() == test,
            conditional.spec_consequent() == consequent,
            conditional.spec_alternate() == alternate,
            conditional.tokens() == seq![if_@] + test.tokens() + consequent.tokens() + (
            match alternate {
                Some(alternate) => alternate.tokens(),
                None => Seq::empty(),
            }),
            conditional.diagnostics() == test.diagnostics() + consequent.diagnostics() + (
            match alternate {
                Some(alternate) => alternate.diagnostics(),
                None => Seq::empty(),
            }),
            conditional.wf() == (is_glyph(if_, Glyph::Keyword(Keyword::If)) && test.wf()
                && consequent.wf() && match alternate {
                Some(alternate) => alternate.wf(),
                None => true,
            }),
    {
        ConditionalExpression { if_, test, consequent, alternate }
    }
}

impl ConditionalExpressionAlternate {
    /// The alternate `else block`.
    pub fn new(else_: GlyphToken, block: Block) -> (alternate: ConditionalExpressionAlternate)
        ensures
            alternate.spec_else() == else_,
            alternate.spec_block() == block,
            alternate.tokens() == seq![else_@] + block.tokens(),
            alternate.diagnostics() == block.diagnostics(),
            alternate.wf() == (is_glyph(else_, Glyph::Keyword(Keyword::Else)) && block.wf()),
    {
        ConditionalExpressionAlternate { else_, block }
    }
}

impl BlockExpression {
    /// The expression `do block`.
    pub fn new(do_: GlyphToken, block: Block) -> (expression: BlockExpression)
        ensures
            expression.spec_do() == do_,
            expression.spec_block() == block,
            expression.tokens() == seq![do_@] + block.tokens(),
            expression.diagnostics() == block.diagnostics(),
            expression.wf() == (is_glyph(do_, Glyph::Keyword(Keyword::Do)) && block.wf()),
    {
        BlockExpression { do_, block }
    }
}

impl WrappedExpression {
    /// The expression `(expression)`.
    pub fn new(paren_left: GlyphToken, expression: Expression, paren_right: GlyphNode) -> (wrapped:
        WrappedExpression)
        ensures
            wrapped.spec_paren_left() == paren_left,
            wrapped.spec_expression() == expression,
            wrapped.spec_paren_right() == paren_right,
            wrapped.tokens() == seq![paren_left@] + expression.tokens() + paren_right.tokens(),
            wrapped.diagnostics() == expression.diagnostics() + paren_right.diagnostics(),
            wrapped.wf() == (is_glyph(paren_left, Glyph::ParenLeft) && expression.wf()
                && paren_right.wf(Glyph::ParenRight)),
    {
        WrappedExpression { paren_left, expression, paren_right }
    }
}

impl PropertyExpression {
    /// The expression `object.property`.
    pub fn new(object: Expression, dot: GlyphToken, property: IdentifierNode) -> (expression:
        PropertyExpression)
        ensures
            expression.spec_object() == object,
            expression.spec_dot() == dot,
            expression.spec_property() == property,
            expression.tokens() == object.tokens() + seq![dot@] + property.tokens(),
            expression.diagnostics() == object.diagnostics() + property.diagnostics(),
            expression.wf() == (object.wf() && is_glyph(dot, Glyph::Dot) && property.wf()),
    {
        PropertyExpression { object, dot, property }
    }
}

impl CallExpression {
    /// The expression `callee(arguments)`.
    pub fn new(
        callee: Expression,
        paren_left: GlyphToken,
        arguments: Vec<CommaListItem>,
        paren_right: GlyphNode,
    ) -> (call: CallExpression)
        ensures
            call.spec_callee() == callee,
            call.spec_paren_left() == paren_left,
            call.spec_arguments() == arguments,
            call.spec_paren_right() == paren_right,
            call.tokens() == callee.tokens() + seq![paren_left@] + arguments_tokens(
                arguments@,
                arguments@.len(),
            ) + paren_right.tokens(),
            call.diagnostics() == callee.diagnostics() + arguments_diagnostics(
                arguments@,
                arguments@.len(),
            ) + paren_right.diagnostics(),
            call.wf() == (callee.wf() && is_glyph(paren_left, Glyph::ParenLeft) && arguments_wf(
                arguments@,
                arguments@.len(),
            ) && paren_right.wf(Glyph::ParenRight)),
    {
        CallExpression { callee, paren_left, arguments, paren_right }
    }
}

impl CommaListItem {
    /// An item of a list, with the comma after it.
    pub fn new(item: Expression, comma: Option<GlyphNode>) -> (list_item: CommaListItem)
        ensures
            list_item.spec_item() == item,
            list_item.spec_comma() == comma,
            list_item.tokens() == item.tokens() + (match comma {
                Some(comma) => comma.tokens(),
                None => Seq::empty(),
            }),
            list_item.diagnostics() == item.diagnostics() + (match comma {
                Some(comma) => comma.diagnostics(),
                None => Seq::empty(),
            }),
            list_item.wf() == (item.wf() && match comma {
                Some(comma) => comma.wf(Glyph::Comma),
                None => true,
            }),
    {
        CommaListItem { item, comma }
    }
}

impl ErrorExpression {
    /// The place of a missing expression, with what was found after the skipped tokens.
    pub fn new(error: ErrorNode, recovered: Option<Expression>) -> (expression: ErrorExpression)
        ensures
            expression.spec_error() == error,
            expression.spec_recovered() == recovered,
            expression.tokens() == error.tokens() + (match recovered {
                Some(expression) => expression.tokens(),
                None => Seq::empty(),
            }),
            expression.diagnostics() == seq![error.diagnostic()] + (match recovered {
                Some(expression) => expression.diagnostics(),
                None => Seq::empty(),
            }),
            expression.wf() == (error.wf(ExpectedSyntax::Expression) && match recovered {
                Some(expression) => expression.wf() && !(expression is Error),
                None => true,
            }),
    {
        ErrorExpression { error, recovered }
    }
}

impl VariablePattern {
    /// The pattern that binds the name `identifier`.
    pub fn new(identifier: IdentifierToken) -> (pattern: VariablePattern)
        ensures
            pattern.spec_identifier() == identifier,
            pattern.tokens() == seq![identifier@],
    {
        VariablePattern { identifier }
    }
}

impl HolePattern {
    /// The pattern `_`.
    pub fn new(underscore: GlyphToken) -> (pattern: HolePattern)
        ensures
            pattern.spec_underscore() == underscore,
            pattern.tokens() == seq![underscore@],
            pattern.wf() == is_glyph(underscore, Glyph::Underscore),
    {
        HolePattern { underscore }
    }
}

impl ErrorPattern {
    /// The place of a missing pattern, with what was found after the skipped tokens.
    pub fn new(error: ErrorNode, recovered: Option<Pattern>) -> (pattern: ErrorPattern)
        ensures
            pattern.spec_error() == error,
            pattern.spec_recovered() == recovered,
            pattern.tokens() == error.tokens() + (match recovered {
                Some(pattern) => pattern.tokens(),
                None => Seq::empty(),
            }),
            pattern.diagnostics() == seq![error.diagnostic()] + (match recovered {
                Some(pattern) => pattern.diagnostics(),
                None => Seq::empty(),
            }),
            pattern.wf() == (error.wf(ExpectedSyntax::Pattern) && match recovered {
                Some(pattern) => pattern.wf() && !(pattern is Error),
                None => true,
            }),
    {
        ErrorPattern { error, recovered }
    }
}


/// Adds a copy of `token` to `out`.
fn push_token(out: &mut Vec<Token>, token: Token)
    ensures
        token_views(final(out)@) == token_views(old(out)@) + seq![token@],
{
    out.push(token);
    assert(token_views(out@) =~= token_views(old(out)@) + seq![token@]);
}

/// Adds a copy of the glyph token `token` to `out`.
fn push_glyph(out: &mut Vec<Token>, token: &GlyphToken)
    ensures
        token_views(final(out)@) == token_views(old(out)@) + seq![token@],
{
    push_token(out, Token::Glyph(token.clone()));
}

/// Adds a copy of the glyph token `token` to `out`, if there is one.
fn push_optional_glyph(out: &mut Vec<Token>, token: &Option<GlyphToken>)
    ensures
        token_views(final(out)@) == token_views(old(out)@) + optional_glyph_tokens(*token),
{
    match token {
        Some(token) => push_glyph(out, token),
        None => {
            assert(token_views(out@) =~= token_views(old(out)@) + optional_glyph_tokens(*token));
        },
    }
}

/// Adds a copy of the identifier token `token` to `out`.
fn push_identifier(out: &mut Vec<Token>, token: &IdentifierToken)
    ensures
        token_views(final(out)@) == token_views(old(out)@) + seq![token@],
{
    push_token(out, Token::Identifier(token.clone()));
}

impl ErrorNode {
    /// Adds copies of the skipped tokens to `out`.
    pub fn push_tokens(&self, out: &mut Vec<Token>)
        ensures
            token_views(final(out)@) == token_views(old(out)@) + self.tokens(),
    {
        let mut i: usize = 0;
        assert(token_views(out@) =~= token_views(old(out)@) + self.tokens().take(0));
        while i < self.skipped.len()
            invariant
                i <= self.skipped@.len(),
                token_views(out@) == token_views(old(out)@) + self.tokens().take(i as int),
            decreases self.skipped@.len() - i,
        {
            let ghost before = out@;
            out.push(self.skipped[i].clone());
            proof {
                lemma_token_views_push(before, self.skipped@[i as int]);
                assert(self.tokens().take(i + 1) =~= self.tokens().take(i as int).push(
                    self.skipped@[i as int]@,
                ));
            }
            assert(token_views(out@) =~= token_views(old(out)@) + self.tokens().take(i + 1));
            i += 1;
        }
        assert(self.tokens().take(i as int) =~= self.tokens());
    }
}

impl GlyphNode {
    /// Adds copies of the tokens of the node to `out`, in the order of the document.
    pub fn push_tokens(&self, out: &mut Vec<Token>)
        ensures
            token_views(final(out)@) == token_views(old(out)@) + self.tokens(),
    {
        match self {
            GlyphNode::Found(token) => push_glyph(out, token),
            GlyphNode::Missing(error, recovered) => {
                error.push_tokens(out);
                push_optional_glyph(out, recovered);
                assert(token_views(out@) =~= token_views(old(out)@) + self.tokens());
            },
        }
    }
}

impl IdentifierNode {
    /// Adds copies of the tokens of the node to `out`, in the order of the document.
    pub fn push_tokens(&self, out: &mut Vec<Token>)
        ensures
            token_views(final(out)@) == token_views(old(out)@) + self.tokens(),
    {
        match self {
            IdentifierNode::Found(token) => push_identifier(out, token),
            IdentifierNode::Missing(error, recovered) => {
                error.push_tokens(out);
                match recovered {
                    Some(token) => push_identifier(out, token),
                    None => {},
                }
                assert(token_views(out@) =~= token_views(old(out)@) + self.tokens());
            },
        }
    }
}

impl Item {
    /// Adds copies of the tokens of the item to `out`, in the order of the document.
    pub fn push_tokens(&self, out: &mut Vec<Token>)
        ensures
            token_views(final(out)@) == token_views(old(out)@) + self.tokens(),
        decreases self,
    {
        match self {
            Item::Statement(statement) => statement.push_tokens(out),
        }
    }
}

/// Adds copies of the tokens of `items` to `out`, in the order of the document.
fn push_items_tokens(items: &Vec<Item>, out: &mut Vec<Token>)
    ensures
        token_views(final(out)@) == token_views(old(out)@) + items_tokens(items@, items@.len()),
    decreases items,
{
    let mut i: usize = 0;
    assert(token_views(out@) =~= token_views(old(out)@) + items_tokens(items@, 0));
    while i < items.len()
        invariant
            i <= items@.len(),
            token_views(out@) == token_views(old(out)@) + items_tokens(items@, i as nat),
        decreases items@.len() - i,
    {
        items[i].push_tokens(out);
        assert(token_views(out@) =~= token_views(old(out)@) + items_tokens(
            items@,
            (i + 1) as nat,
        ));
        i += 1;
    }
}

/// Adds copies of the tokens of `arguments` to `out`, in the order of the document.
fn push_arguments_tokens(arguments: &Vec<CommaListItem>, out: &mut Vec<Token>)
    ensures
        token_views(final(out)@) == token_views(old(out)@) + arguments_tokens(
            arguments@,
            arguments@.len(),
        ),
    decreases arguments,
{
    let mut i: usize = 0;
    assert(token_views(out@) =~= token_views(old(out)@) + arguments_tokens(arguments@, 0));
    while i < arguments.len()
        invariant
            i <= arguments@.len(),
            token_views(out@) == token_views(old(out)@) + arguments_tokens(arguments@, i as nat),
        decreases arguments@.len() - i,
    {
        arguments[i].push_tokens(out);
        assert(token_views(out@) =~= token_views(old(out)@) + arguments_tokens(
            arguments@,
            (i + 1) as nat,
        ));
        i += 1;
    }
}

impl Statement {
    /// Adds copies of the tokens of the statement to `out`, in the order of the document.
    pub fn push_tokens(&self, out: &mut Vec<Token>)
        ensures
            token_views(final(out)@) == token_views(old(out)@) + self.tokens(),
        decreases self,
    {
        match self {
            Statement::Binding(binding) => {
                push_glyph(out, &binding.let_);
                binding.pattern.push_tokens(out);
                binding.equals.push_tokens(out);
                binding.value.push_tokens(out);
                push_optional_glyph(out, &binding.semicolon);
                assert(token_views(out@) =~= token_views(old(out)@) + self.tokens());
            },
            Statement::Expression(statement) => {
                statement.expression.push_tokens(out);
                push_optional_glyph(out, &statement.semicolon);
                assert(token_views(out@) =~= token_views(old(out)@) + self.tokens());
            },
        }
    }
}

impl Block {
    /// Adds copies of the tokens of the block to `out`, in the order of the document.
    pub fn push_tokens(&self, out: &mut Vec<Token>)
        ensures
            token_views(final(out)@) == token_views(old(out)@) + self.tokens(),
        decreases self,
    {
        self.brace_left.push_tokens(out);
        push_items_tokens(&self.items, out);
        self.brace_right.push_tokens(out);
        assert(token_views(out@) =~= token_views(old(out)@) + self.tokens());
    }
}

impl Pattern {
    /// Adds copies of the tokens of the pattern to `out`, in the order of the document.
    pub fn push_tokens(&self, out: &mut Vec<Token>)
        ensures
            token_views(final(out)@) == token_views(old(out)@) + self.tokens(),
        decreases self,
    {
        match self {
            Pattern::Variable(variable) => push_identifier(out, &variable.identifier),
            Pattern::Hole(hole) => push_glyph(out, &hole.underscore),
            Pattern::Error(error) => {
                error.error.push_tokens(out);
                match &error.recovered {
                    Some(pattern) => pattern.push_tokens(out),
                    None => {},
                }
                assert(token_views(out@) =~= token_views(old(out)@) + self.tokens());
            },
        }
    }
}

impl CommaListItem {
    /// Adds copies of the tokens of the item and of its comma to `out`.
    pub fn push_tokens(&self, out: &mut Vec<Token>)
        ensures
            token_views(final(out)@) == token_views(old(out)@) + self.tokens(),
        decreases self,
    {
        self.item.push_tokens(out);
        match &self.comma {
            Some(comma) => comma.push_tokens(out),
            None => {},
        }
        assert(token_views(out@) =~= token_views(old(out)@) + self.tokens());
    }
}

impl Expression {
    /// Adds copies of the tokens of the expression to `out`, in the order of the document.
    pub fn push_tokens(&self, out: &mut Vec<Token>)
        ensures
            token_views(final(out)@) == token_views(old(out)@) + self.tokens(),
        decreases self,
    {
        match self {
            Expression::Variable(variable) => push_identifier(out, &variable.identifier),
            Expression::Constant(Constant::Boolean(constant)) => push_glyph(out, &constant.token),
            Expression::Constant(Constant::Number(constant)) => push_token(
                out,
                Token::Number(constant.token.clone()),
            ),
            Expression::Conditional(conditional) => {
                push_glyph(out, &conditional.if_);
                conditional.test.push_tokens(out);
                conditional.consequent.push_tokens(out);
                let ghost middle = out@;
                match &conditional.alternate {
                    Some(alternate) => {
                        push_glyph(out, &alternate.else_);
                        alternate.block.push_tokens(out);
                        assert(token_views(out@) =~= token_views(middle) + alternate.tokens());
                    },
                    None => {},
                }
                assert(token_views(out@) =~= token_views(old(out)@) + self.tokens());
            },
            Expression::Block(block) => {
                push_glyph(out, &block.do_);
                block.block.push_tokens(out);
                assert(token_views(out@) =~= token_views(old(out)@) + self.tokens());
            },
            Expression::Wrapped(wrapped) => {
                push_glyph(out, &wrapped.paren_left);
                wrapped.expression.push_tokens(out);
                wrapped.paren_right.push_tokens(out);
                assert(token_views(out@) =~= token_views(old(out)@) + self.tokens());
            },
            Expression::Property(property) => {
                property.object.push_tokens(out);
                push_glyph(out, &property.dot);
                property.property.push_tokens(out);
                assert(token_views(out@) =~= token_views(old(out)@) + self.tokens());
            },
            Expression::Call(call) => {
                call.callee.push_tokens(out);
                push_glyph(out, &call.paren_left);
                push_arguments_tokens(&call.arguments, out);
                call.paren_right.push_tokens(out);
                assert(token_views(out@) =~= token_views(old(out)@) + self.tokens());
            },
            Expression::Error(error) => {
                error.error.push_tokens(out);
                match &error.recovered {
                    Some(expression) => expression.push_tokens(out),
                    None => {},
                }
                assert(token_views(out@) =~= token_views(old(out)@) + self.tokens());
            },
        }
    }
}

impl Module {
    /// The tokens of the module, in the order of the document: the tokens that the module
    /// was parsed from.
    pub fn into_tokens(self) -> (tokens: Vec<Token>)
        ensures
            token_views(tokens@) == self.tokens(),
    {
        let mut tokens: Vec<Token> = Vec::new();
        assert(token_views(tokens@) =~= Seq::<TokenView>::empty());
        push_items_tokens(&self.items, &mut tokens);
        push_token(&mut tokens, Token::End(self.end.clone()));
        assert(token_views(tokens@) =~= self.tokens());
        tokens
    }
}


/// The tokens of an optional identifier.
pub open spec fn optional_identifier_tokens(token: Option<IdentifierToken>) -> Seq<TokenView> {
    match token {
        Some(token) => seq![token@],
        None => Seq::empty(),
    }
}

/// The tokens of an optional pattern.
pub open spec fn optional_pattern_tokens(pattern: Option<Pattern>) -> Seq<TokenView> {
    match pattern {
        Some(pattern) => pattern.tokens(),
        None => Seq::empty(),
    }
}

/// The diagnostics of an optional pattern.
pub open spec fn optional_pattern_diagnostics(pattern: Option<Pattern>) -> Seq<Diagnostic> {
    match pattern {
        Some(pattern) => pattern.diagnostics(),
        None => Seq::empty(),
    }
}

/// The tokens of an optional expression.
pub open spec fn optional_expression_tokens(expression: Option<Expression>) -> Seq<TokenView> {
    match expression {
        Some(expression) => expression.tokens(),
        None => Seq::empty(),
    }
}

/// The diagnostics of an optional expression.
pub open spec fn optional_expression_diagnostics(expression: Option<Expression>) -> Seq<
    Diagnostic,
> {
    match expression {
        Some(expression) => expression.diagnostics(),
        None => Seq::empty(),
    }
}


/// What holds of the first items of a sequence does not depend on the items after them.
pub proof fn lemma_items_prefix(items: Seq<Item>, longer: Seq<Item>, n: nat)
    requires
        n <= items.len() <= longer.len(),
        forall|i: int| 0 <= i < items.len() ==> items[i] == longer[i],
    ensures
        items_tokens(longer, n) == items_tokens(items, n),
        items_diagnostics(longer, n) == items_diagnostics(items, n),
        items_wf(longer, n) == items_wf(items, n),
    decreases n,
{
    if n > 0 {
        lemma_items_prefix(items, longer, (n - 1) as nat);
    }
}

/// The tokens, the diagnostics and the grammar of a sequence of items with one more item.
pub proof fn lemma_items_push(items: Seq<Item>, item: Item)
    ensures
        items_tokens(items.push(item), items.len() + 1) == items_tokens(items, items.len())
            + item.tokens(),
        items_diagnostics(items.push(item), items.len() + 1) == items_diagnostics(
            items,
            items.len(),
        ) + item.diagnostics(),
        items_wf(items.push(item), items.len() + 1) == (items_wf(items, items.len())
            && item.wf()),
{
    lemma_items_prefix(items, items.push(item), items.len());
}

/// What holds of the first arguments of a sequence does not depend on those after them.
pub proof fn lemma_arguments_prefix(
    arguments: Seq<CommaListItem>,
    longer: Seq<CommaListItem>,
    n: nat,
)
    requires
        n <= arguments.len() <= longer.len(),
        forall|i: int| 0 <= i < arguments.len() ==> arguments[i] == longer[i],
    ensures
        arguments_tokens(longer, n) == arguments_tokens(arguments, n),
        arguments_diagnostics(longer, n) == arguments_diagnostics(arguments, n),
        arguments_wf(longer, n) == arguments_wf(arguments, n),
    decreases n,
{
    if n > 0 {
        lemma_arguments_prefix(arguments, longer, (n - 1) as nat);
    }
}

/// The tokens, the diagnostics and the grammar of a sequence of arguments with one more.
pub proof fn lemma_arguments_push(arguments: Seq<CommaListItem>, argument: CommaListItem)
    ensures
        arguments_tokens(arguments.push(argument), arguments.len() + 1) == arguments_tokens(
            arguments,
            arguments.len(),
        ) + argument.tokens(),
        arguments_diagnostics(arguments.push(argument), arguments.len() + 1)
            == arguments_diagnostics(arguments, arguments.len()) + argument.diagnostics(),
        arguments_wf(arguments.push(argument), arguments.len() + 1) == (arguments_wf(
            arguments,
            arguments.len(),
        ) && argument.wf()),
{
    lemma_arguments_prefix(arguments, arguments.push(argument), arguments.len());
}


/// Does `token` begin on the line on which the token before it ended?
pub open spec fn same_line(document: &Document, token: TokenView) -> bool {
    document.spec_line(token.full_start) == document.spec_line(token.start)
}

/// What is left of `input` after `tokens` are taken from its front.
pub open spec fn after(input: Seq<TokenView>, tokens: Seq<TokenView>) -> Seq<TokenView> {
    input.skip(tokens.len() as int)
}

/// Does `token` extend the expression in front of it? A dot does, and so does a parenthesis
/// on the line on which the expression ends.
pub open spec fn extends(document: &Document, token: TokenView) -> bool {
    token.kind == TokenKind::Glyph(Glyph::Dot) || (token.kind == TokenKind::Glyph(
        Glyph::ParenLeft,
    ) && same_line(document, token))
}

/// An optional glyph is parsed from `input`: it is there exactly if `input` begins with the
/// glyph, and then it is the first token of `input`.
pub open spec fn optional_glyph_parses(
    token: Option<GlyphToken>,
    glyph: Glyph,
    input: Seq<TokenView>,
) -> bool {
    if input[0].kind == TokenKind::Glyph(glyph) {
        token is Some && token->0@ == input[0]
    } else {
        token is None
    }
}

impl ErrorNode {
    /// The error node is the one that the parser makes when it wants `expected` and `input`
    /// is left: it holds the tokens that are skipped, it stands at the first token of
    /// `input`, and its diagnostic blames that token.
    pub open spec fn recovers(
        &self,
        scopes: Multiset<Glyph>,
        expected: ExpectedSyntax,
        input: Seq<TokenView>,
    ) -> bool {
        &&& self.tokens() == input.take(skip_len(scopes, expected, input) as int)
        &&& self.diagnostic().spec_error() == blame(input[0], expected)
        &&& self.diagnostic().spec_range().start_index() == input[0].start
        &&& self.diagnostic().spec_range().end_index() == if input[0].kind is End {
            input[0].start
        } else {
            input[0].end
        }
        &&& self.position() == input[0].start
    }
}

impl GlyphNode {
    /// The node is the one that the parser makes when it wants `glyph` and `input` is left.
    pub open spec fn parses(
        &self,
        scopes: Multiset<Glyph>,
        glyph: Glyph,
        input: Seq<TokenView>,
    ) -> bool {
        match self {
            GlyphNode::Found(token) => input[0].kind == TokenKind::Glyph(glyph) && token@
                == input[0],
            GlyphNode::Missing(error, recovered) => input[0].kind != TokenKind::Glyph(glyph)
                && error.recovers(scopes, ExpectedSyntax::Glyph(glyph), input)
                && optional_glyph_parses(*recovered, glyph, after(input, error.tokens())),
        }
    }

    /// Did the parser take the glyph, at once or after it skipped tokens?
    pub open spec fn has_glyph(&self) -> bool {
        match self {
            GlyphNode::Found(_) => true,
            GlyphNode::Missing(_, recovered) => recovered is Some,
        }
    }
}

impl IdentifierNode {
    /// The node is the one that the parser makes when it wants a name and `input` is left.
    pub open spec fn parses(&self, scopes: Multiset<Glyph>, input: Seq<TokenView>) -> bool {
        match self {
            IdentifierNode::Found(token) => input[0].kind is Identifier && token@ == input[0],
            IdentifierNode::Missing(error, recovered) => !(input[0].kind is Identifier)
                && error.recovers(scopes, ExpectedSyntax::Identifier, input) && (if after(
                input,
                error.tokens(),
            )[0].kind is Identifier {
                recovered is Some && recovered->0@ == after(input, error.tokens())[0]
            } else {
                recovered is None
            }),
        }
    }
}

impl ErrorPattern {
    /// The node is the one that the parser makes when it wants a pattern and `input`, which
    /// begins no pattern, is left.
    pub closed spec fn parses(&self, scopes: Multiset<Glyph>, input: Seq<TokenView>) -> bool
        decreases self, 0nat,
    {
        &&& self.error.recovers(scopes, ExpectedSyntax::Pattern, input)
        &&& match self.recovered {
            Some(pattern) => can_start(
                ExpectedSyntax::Pattern,
                after(input, self.error.tokens())[0].kind,
            ) && !(pattern is Error) && pattern.parses(scopes, after(input, self.error.tokens())),
            None => !can_start(ExpectedSyntax::Pattern, after(input, self.error.tokens())[0].kind),
        }
    }

    /// What it means that the node is the one that the parser makes.
    pub proof fn lemma_parses(&self, scopes: Multiset<Glyph>, input: Seq<TokenView>)
        ensures
            self.parses(scopes, input) == (self.spec_error().recovers(
                scopes,
                ExpectedSyntax::Pattern,
                input,
            ) && match self.spec_recovered() {
                Some(pattern) => can_start(
                    ExpectedSyntax::Pattern,
                    after(input, self.spec_error().tokens())[0].kind,
                ) && !(pattern is Error) && pattern.parses(
                    scopes,
                    after(input, self.spec_error().tokens()),
                ),
                None => !can_start(
                    ExpectedSyntax::Pattern,
                    after(input, self.spec_error().tokens())[0].kind,
                ),
            }),
    {
    }
}

impl Pattern {
    /// The pattern is the one that the parser makes when `input` is left: a name or `_`
    /// where `input` begins with one, and an error node otherwise.
    pub open spec fn parses(&self, scopes: Multiset<Glyph>, input: Seq<TokenView>) -> bool
        decreases self, 1nat,
    {
        match self {
            Pattern::Variable(variable) => input[0].kind is Identifier && variable.tokens()
                == seq![input[0]],
            Pattern::Hole(hole) => input[0].kind == TokenKind::Glyph(Glyph::Underscore)
                && hole.tokens() == seq![input[0]],
            Pattern::Error(error) => !can_start(ExpectedSyntax::Pattern, input[0].kind)
                && error.parses(scopes, input),
        }
    }
}

/// The first `n` items of `items` are those that the parser makes, one after the other,
/// when `input` is left: each begins at a token at which the parser does not stop.
pub open spec fn items_parse(
    items: Seq<Item>,
    n: nat,
    document: &Document,
    scopes: Multiset<Glyph>,
    input: Seq<TokenView>,
) -> bool
    decreases items, n,
{
    if n == 0 || n > items.len() {
        true
    } else {
        &&& items_parse(items, (n - 1) as nat, document, scopes, input)
        &&& !stops(scopes, after(input, items_tokens(items, (n - 1) as nat))[0].kind)
        &&& items[n - 1].parses(
            document,
            scopes,
            after(input, items_tokens(items, (n - 1) as nat)),
        )
    }
}

/// The first `n` arguments of `arguments` are those that the parser makes, one after the
/// other, when `input` is left: each begins at a token at which the parser does not stop,
/// and each but the last is followed by its comma.
pub open spec fn arguments_parse(
    arguments: Seq<CommaListItem>,
    n: nat,
    document: &Document,
    scopes: Multiset<Glyph>,
    input: Seq<TokenView>,
) -> bool
    decreases arguments, n,
{
    if n == 0 || n > arguments.len() {
        true
    } else {
        &&& arguments_parse(arguments, (n - 1) as nat, document, scopes, input)
        &&& n > 1 ==> arguments[n - 2].continues()
        &&& !stops(scopes, after(input, arguments_tokens(arguments, (n - 1) as nat))[0].kind)
        &&& arguments[n - 1].parses(
            document,
            scopes,
            after(input, arguments_tokens(arguments, (n - 1) as nat)),
        )
    }
}

/// A list of arguments ends where the parser makes it end: after an item that no comma
/// follows, or at a token at which the parser stops.
pub open spec fn arguments_end(
    arguments: Seq<CommaListItem>,
    scopes: Multiset<Glyph>,
    input: Seq<TokenView>,
) -> bool {
    arguments.len() == 0 || arguments.last().continues() ==> stops(
        scopes,
        after(input, arguments_tokens(arguments, arguments.len()))[0].kind,
    )
}

impl Item {
    /// The item is the one that the parser makes when `input` is left.
    pub open spec fn parses(
        &self,
        document: &Document,
        scopes: Multiset<Glyph>,
        input: Seq<TokenView>,
    ) -> bool
        decreases self, 0nat,
    {
        match self {
            Item::Statement(statement) => statement.parses(document, scopes, input),
        }
    }
}

impl Statement {
    /// The statement is the one that the parser makes when `input` is left: a binding where
    /// `input` begins with `let`, and an expression statement otherwise. Inside the statement
    /// the semicolon is a glyph to recover at.
    pub open spec fn parses(
        &self,
        document: &Document,
        scopes: Multiset<Glyph>,
        input: Seq<TokenView>,
    ) -> bool
        decreases self, 0nat,
    {
        match self {
            Statement::Binding(binding) => input[0].kind == TokenKind::Glyph(
                Glyph::Keyword(Keyword::Let),
            ) && binding.parses(document, scopes.insert(Glyph::Semicolon), input),
            Statement::Expression(statement) => input[0].kind != TokenKind::Glyph(
                Glyph::Keyword(Keyword::Let),
            ) && statement.parses(document, scopes.insert(Glyph::Semicolon), input),
        }
    }
}

impl BindingStatement {
    /// The statement is the one that the parser makes when `input`, which begins with `let`,
    /// is left. Inside the pattern the equals sign is a glyph to recover at.
    pub closed spec fn parses(
        &self,
        document: &Document,
        scopes: Multiset<Glyph>,
        input: Seq<TokenView>,
    ) -> bool
        decreases self, 0nat,
    {
        let input1 = input.skip(1);
        let input2 = after(input1, self.pattern.tokens());
        let input3 = after(input2, self.equals.tokens());
        let input4 = after(input3, self.value.tokens());
        &&& self.let_@ == input[0]
        &&& self.pattern.parses(scopes.insert(Glyph::Equals), input1)
        &&& self.equals.parses(scopes, Glyph::Equals, input2)
        &&& self.value.parses(document, scopes, input3)
        &&& optional_glyph_parses(self.semicolon, Glyph::Semicolon, input4)
    }

    /// What it means that the statement is the one that the parser makes.
    pub proof fn lemma_parses(
        &self,
        document: &Document,
        scopes: Multiset<Glyph>,
        input: Seq<TokenView>,
    )
        ensures
            self.parses(document, scopes, input) == ({
                let input1 = input.skip(1);
                let input2 = after(input1, self.spec_pattern().tokens());
                let input3 = after(input2, self.spec_equals().tokens());
                let input4 = after(input3, self.spec_value().tokens());
                &&& self.spec_let()@ == input[0]
                &&& self.spec_pattern().parses(scopes.insert(Glyph::Equals), input1)
                &&& self.spec_equals().parses(scopes, Glyph::Equals, input2)
                &&& self.spec_value().parses(document, scopes, input3)
                &&& optional_glyph_parses(self.spec_semicolon(), Glyph::Semicolon, input4)
            }),
    {
    }
}

impl ExpressionStatement {
    /// The statement is the one that the parser makes when `input`, which does not begin
    /// with `let`, is left.
    pub closed spec fn parses(
        &self,
        document: &Document,
        scopes: Multiset<Glyph>,
        input: Seq<TokenView>,
    ) -> bool
        decreases self, 0nat,
    {
        &&& self.expression.parses(document, scopes, input)
        &&& optional_glyph_parses(
            self.semicolon,
            Glyph::Semicolon,
            after(input, self.expression.tokens()),
        )
    }

    /// What it means that the statement is the one that the parser makes.
    pub proof fn lemma_parses(
        &self,
        document: &Document,
        scopes: Multiset<Glyph>,
        input: Seq<TokenView>,
    )
        ensures
            self.parses(document, scopes, input) == (self.spec_expression().parses(
                document,
                scopes,
                input,
            ) && optional_glyph_parses(
                self.spec_semicolon(),
                Glyph::Semicolon,
                after(input, self.spec_expression().tokens()),
            )),
    {
    }
}

impl Block {
    /// The block is the one that the parser makes when `input` is left. Inside the block the
    /// closing brace is a glyph to recover at, and the items end where the parser stops.
    pub closed spec fn parses(
        &self,
        document: &Document,
        scopes: Multiset<Glyph>,
        input: Seq<TokenView>,
    ) -> bool
        decreases self, 0nat,
    {
        let input1 = after(input, self.brace_left.tokens());
        let input2 = after(input1, items_tokens(self.items@, self.items@.len()));
        &&& self.brace_left.parses(scopes, Glyph::BraceLeft, input)
        &&& items_parse(
            self.items@,
            self.items@.len(),
            document,
            scopes.insert(Glyph::BraceRight),
            input1,
        )
        &&& stops(scopes.insert(Glyph::BraceRight), input2[0].kind)
        &&& self.brace_right.parses(scopes, Glyph::BraceRight, input2)
    }

    /// What it means that the block is the one that the parser makes.
    pub proof fn lemma_parses(
        &self,
        document: &Document,
        scopes: Multiset<Glyph>,
        input: Seq<TokenView>,
    )
        ensures
            self.parses(document, scopes, input) == ({
                let input1 = after(input, self.spec_brace_left().tokens());
                let input2 = after(
                    input1,
                    items_tokens(self.spec_items()@, self.spec_items()@.len()),
                );
                &&& self.spec_brace_left().parses(scopes, Glyph::BraceLeft, input)
                &&& items_parse(
                    self.spec_items()@,
                    self.spec_items()@.len(),
                    document,
                    scopes.insert(Glyph::BraceRight),
                    input1,
                )
                &&& stops(scopes.insert(Glyph::BraceRight), input2[0].kind)
                &&& self.spec_brace_right().parses(scopes, Glyph::BraceRight, input2)
            }),
    {
    }
}

impl ErrorExpression {
    /// The node is the one that the parser makes when it wants an expression and `input`,
    /// which begins no expression, is left.
    pub closed spec fn parses(
        &self,
        document: &Document,
        scopes: Multiset<Glyph>,
        input: Seq<TokenView>,
    ) -> bool
        decreases self, 0nat,
    {
        &&& self.error.recovers(scopes, ExpectedSyntax::Expression, input)
        &&& match self.recovered {
            Some(expression) => can_start(
                ExpectedSyntax::Expression,
                after(input, self.error.tokens())[0].kind,
            ) && expression.parses_started(document, scopes, after(input, self.error.tokens())),
            None => !can_start(
                ExpectedSyntax::Expression,
                after(input, self.error.tokens())[0].kind,
            ),
        }
    }

    /// What it means that the node is the one that the parser makes.
    pub proof fn lemma_parses(
        &self,
        document: &Document,
        scopes: Multiset<Glyph>,
        input: Seq<TokenView>,
    )
        ensures
            self.parses(document, scopes, input) == (self.spec_error().recovers(
                scopes,
                ExpectedSyntax::Expression,
                input,
            ) && match self.spec_recovered() {
                Some(expression) => can_start(
                    ExpectedSyntax::Expression,
                    after(input, self.spec_error().tokens())[0].kind,
                ) && expression.parses_started(
                    document,
                    scopes,
                    after(input, self.spec_error().tokens()),
                ),
                None => !can_start(
                    ExpectedSyntax::Expression,
                    after(input, self.spec_error().tokens())[0].kind,
                ),
            }),
    {
    }
}

impl ConditionalExpression {
    /// The expression is the one that the parser makes when `input`, which begins with
    /// `if`, is left.
    pub closed spec fn parses(
        &self,
        document: &Document,
        scopes: Multiset<Glyph>,
        input: Seq<TokenView>,
    ) -> bool
        decreases self, 0nat,
    {
        let input1 = input.skip(1);
        let input2 = after(input1, self.test.tokens());
        let input3 = after(input2, self.consequent.tokens());
        &&& self.if_@ == input[0]
        &&& self.test.parses(document, scopes, input1)
        &&& self.consequent.parses(document, scopes, input2)
        &&& match self.alternate {
            Some(alternate) => input3[0].kind == TokenKind::Glyph(Glyph::Keyword(Keyword::Else))
                && alternate.parses(document, scopes, input3),
            None => input3[0].kind != TokenKind::Glyph(Glyph::Keyword(Keyword::Else)),
        }
    }

    /// What it means that the expression is the one that the parser makes.
    pub proof fn lemma_parses(
        &self,
        document: &Document,
        scopes: Multiset<Glyph>,
        input: Seq<TokenView>,
    )
        ensures
            self.parses(document, scopes, input) == ({
                let input1 = input.skip(1);
                let input2 = after(input1, self.spec_test().tokens());
                let input3 = after(input2, self.spec_consequent().tokens());
                &&& self.spec_if()@ == input[0]
                &&& self.spec_test().parses(document, scopes, input1)
                &&& self.spec_consequent().parses(document, scopes, input2)
                &&& match self.spec_alternate() {
                    Some(alternate) => input3[0].kind == TokenKind::Glyph(
                        Glyph::Keyword(Keyword::Else),
                    ) && alternate.parses(document, scopes, input3),
                    None => input3[0].kind != TokenKind::Glyph(Glyph::Keyword(Keyword::Else)),
                }
            }),
    {
    }
}

impl ConditionalExpressionAlternate {
    /// The alternate is the one that the parser makes when `input`, which begins with
    /// `else`, is left.
    pub closed spec fn parses(
        &self,
        document: &Document,
        scopes: Multiset<Glyph>,
        input: Seq<TokenView>,
    ) -> bool
        decreases self, 0nat,
    {
        &&& self.else_@ == input[0]
        &&& self.block.parses(document, scopes, input.skip(1))
    }

    /// What it means that the alternate is the one that the parser makes.
    pub proof fn lemma_parses(
        &self,
        document: &Document,
        scopes: Multiset<Glyph>,
        input: Seq<TokenView>,
    )
        ensures
            self.parses(document, scopes, input) == (self.spec_else()@ == input[0]
                && self.spec_block().parses(document, scopes, input.skip(1))),
    {
    }
}

impl BlockExpression {
    /// The expression is the one that the parser makes when `input`, which begins with
    /// `do`, is left.
    pub closed spec fn parses(
        &self,
        document: &Document,
        scopes: Multiset<Glyph>,
        input: Seq<TokenView>,
    ) -> bool
        decreases self, 0nat,
    {
        &&& self.do_@ == input[0]
        &&& self.block.parses(document, scopes, input.skip(1))
    }

    /// What it means that the expression is the one that the parser makes.
    pub proof fn lemma_parses(
        &self,
        document: &Document,
        scopes: Multiset<Glyph>,
        input: Seq<TokenView>,
    )
        ensures
            self.parses(document, scopes, input) == (self.spec_do()@ == input[0]
                && self.spec_block().parses(document, scopes, input.skip(1))),
    {
    }
}

impl WrappedExpression {
    /// The expression is the one that the parser makes when `input`, which begins with `(`,
    /// is left. Inside the parentheses the closing one is a glyph to recover at.
    pub closed spec fn parses(
        &self,
        document: &Document,
        scopes: Multiset<Glyph>,
        input: Seq<TokenView>,
    ) -> bool
        decreases self, 0nat,
    {
        &&& self.paren_left@ == input[0]
        &&& self.expression.parses(document, scopes.insert(Glyph::ParenRight), input.skip(1))
        &&& self.paren_right.parses(
            scopes,
            Glyph::ParenRight,
            after(input.skip(1), self.expression.tokens()),
        )
    }

    /// What it means that the expression is the one that the parser makes.
    pub proof fn lemma_parses(
        &self,
        document: &Document,
        scopes: Multiset<Glyph>,
        input: Seq<TokenView>,
    )
        ensures
            self.parses(document, scopes, input) == (self.spec_paren_left()@ == input[0]
                && self.spec_expression().parses(
                document,
                scopes.insert(Glyph::ParenRight),
                input.skip(1),
            ) && self.spec_paren_right().parses(
                scopes,
                Glyph::ParenRight,
                after(input.skip(1), self.spec_expression().tokens()),
            )),
    {
    }
}

impl PropertyExpression {
    /// The expression is the one that the parser makes when `input` is left: an expression
    /// with its extensions, then a dot, then the name of the property.
    pub closed spec fn parses(
        &self,
        document: &Document,
        scopes: Multiset<Glyph>,
        input: Seq<TokenView>,
    ) -> bool
        decreases self, 0nat,
    {
        let input1 = after(input, self.object.tokens());
        &&& self.object.parses_extended(document, scopes, input)
        &&& input1[0].kind == TokenKind::Glyph(Glyph::Dot)
        &&& self.dot@ == input1[0]
        &&& self.property.parses(scopes, input1.skip(1))
    }

    /// What it means that the expression is the one that the parser makes.
    pub proof fn lemma_parses(
        &self,
        document: &Document,
        scopes: Multiset<Glyph>,
        input: Seq<TokenView>,
    )
        ensures
            self.parses(document, scopes, input) == ({
                let input1 = after(input, self.spec_object().tokens());
                &&& self.spec_object().parses_extended(document, scopes, input)
                &&& input1[0].kind == TokenKind::Glyph(Glyph::Dot)
                &&& self.spec_dot()@ == input1[0]
                &&& self.spec_property().parses(scopes, input1.skip(1))
            }),
    {
    }
}

impl CallExpression {
    /// The expression is the one that the parser makes when `input` is left: an expression
    /// with its extensions, then on the same line a parenthesis, the arguments, and the
    /// closing parenthesis, which is a glyph to recover at inside the arguments.
    pub closed spec fn parses(
        &self,
        document: &Document,
        scopes: Multiset<Glyph>,
        input: Seq<TokenView>,
    ) -> bool
        decreases self, 0nat,
    {
        let input1 = after(input, self.callee.tokens());
        let input2 = input1.skip(1);
        let input3 = after(input2, arguments_tokens(self.arguments@, self.arguments@.len()));
        &&& self.callee.parses_extended(document, scopes, input)
        &&& input1[0].kind == TokenKind::Glyph(Glyph::ParenLeft)
        &&& same_line(document, input1[0])
        &&& self.paren_left@ == input1[0]
        &&& arguments_parse(
            self.arguments@,
            self.arguments@.len(),
            document,
            scopes.insert(Glyph::ParenRight),
            input2,
        )
        &&& arguments_end(self.arguments@, scopes.insert(Glyph::ParenRight), input2)
        &&& self.paren_right.parses(scopes, Glyph::ParenRight, input3)
    }

    /// What it means that the expression is the one that the parser makes.
    pub proof fn lemma_parses(
        &self,
        document: &Document,
        scopes: Multiset<Glyph>,
        input: Seq<TokenView>,
    )
        ensures
            self.parses(document, scopes, input) == ({
                let input1 = after(input, self.spec_callee().tokens());
                let input2 = input1.skip(1);
                let input3 = after(
                    input2,
                    arguments_tokens(self.spec_arguments()@, self.spec_arguments()@.len()),
                );
                &&& self.spec_callee().parses_extended(document, scopes, input)
                &&& input1[0].kind == TokenKind::Glyph(Glyph::ParenLeft)
                &&& same_line(document, input1[0])
                &&& self.spec_paren_left()@ == input1[0]
                &&& arguments_parse(
                    self.spec_arguments()@,
                    self.spec_arguments()@.len(),
                    document,
                    scopes.insert(Glyph::ParenRight),
                    input2,
                )
                &&& arguments_end(
                    self.spec_arguments()@,
                    scopes.insert(Glyph::ParenRight),
                    input2,
                )
                &&& self.spec_paren_right().parses(scopes, Glyph::ParenRight, input3)
            }),
    {
    }
}

impl CommaListItem {
    /// Is the item followed by its comma, so that the list goes on after it?
    pub closed spec fn continues(&self) -> bool {
        match self.comma {
            Some(comma) => comma.has_glyph(),
            None => false,
        }
    }

    /// The item is the one that the parser makes when `input` is left: an expression, inside
    /// which the comma is a glyph to recover at, and then the comma if there is one, nothing
    /// where the parser stops, and else an error node for the comma that is missing.
    pub closed spec fn parses(
        &self,
        document: &Document,
        scopes: Multiset<Glyph>,
        input: Seq<TokenView>,
    ) -> bool
        decreases self, 0nat,
    {
        let input1 = after(input, self.item.tokens());
        &&& self.item.parses(document, scopes.insert(Glyph::Comma), input)
        &&& match self.comma {
            Some(comma) => comma.parses(scopes, Glyph::Comma, input1) && (comma is Missing
                ==> !stops(scopes, input1[0].kind)),
            None => input1[0].kind != TokenKind::Glyph(Glyph::Comma) && stops(
                scopes,
                input1[0].kind,
            ),
        }
    }

    /// What it means that the item is the one that the parser makes.
    pub proof fn lemma_parses(
        &self,
        document: &Document,
        scopes: Multiset<Glyph>,
        input: Seq<TokenView>,
    )
        ensures
            self.continues() == match self.spec_comma() {
                Some(comma) => comma.has_glyph(),
                None => false,
            },
            self.parses(document, scopes, input) == ({
                let input1 = after(input, self.spec_item().tokens());
                &&& self.spec_item().parses(document, scopes.insert(Glyph::Comma), input)
                &&& match self.spec_comma() {
                    Some(comma) => comma.parses(scopes, Glyph::Comma, input1) && (comma is Missing
                        ==> !stops(scopes, input1[0].kind)),
                    None => input1[0].kind != TokenKind::Glyph(Glyph::Comma) && stops(
                        scopes,
                        input1[0].kind,
                    ),
                }
            }),
    {
    }
}

impl Expression {
    /// The expression is the one that the parser makes when `input` is left: an expression
    /// with its extensions where `input` begins one, and an error node otherwise.
    pub open spec fn parses(
        &self,
        document: &Document,
        scopes: Multiset<Glyph>,
        input: Seq<TokenView>,
    ) -> bool
        decreases self, 3nat,
    {
        match self {
            Expression::Error(error) => !can_start(ExpectedSyntax::Expression, input[0].kind)
                && error.parses(document, scopes, input),
            _ => can_start(ExpectedSyntax::Expression, input[0].kind) && self.parses_started(
                document,
                scopes,
                input,
            ),
        }
    }

    /// The expression is the one that the parser makes when `input`, which begins an
    /// expression, is left: it holds every extension that follows.
    pub open spec fn parses_started(
        &self,
        document: &Document,
        scopes: Multiset<Glyph>,
        input: Seq<TokenView>,
    ) -> bool
        decreases self, 2nat,
    {
        &&& self.parses_extended(document, scopes, input)
        &&& !extends(document, after(input, self.tokens())[0])
    }

    /// The expression is one that the parser makes on the way when `input`, which begins an
    /// expression, is left: a first expression with some of the extensions that follow it.
    pub open spec fn parses_extended(
        &self,
        document: &Document,
        scopes: Multiset<Glyph>,
        input: Seq<TokenView>,
    ) -> bool
        decreases self, 1nat,
    {
        match self {
            Expression::Property(property) => property.parses(document, scopes, input),
            Expression::Call(call) => call.parses(document, scopes, input),
            _ => self.parses_primary(document, scopes, input),
        }
    }

    /// The expression is the first expression that the parser makes when `input`, which
    /// begins an expression, is left: what the first token of `input` asks for.
    pub open spec fn parses_primary(
        &self,
        document: &Document,
        scopes: Multiset<Glyph>,
        input: Seq<TokenView>,
    ) -> bool
        decreases self, 0nat,
    {
        match self {
            Expression::Variable(variable) => input[0].kind is Identifier && variable.tokens()
                == seq![input[0]],
            Expression::Constant(Constant::Number(constant)) => input[0].kind is Number
                && constant.tokens() == seq![input[0]],
            Expression::Constant(Constant::Boolean(constant)) => constant.wf()
                && constant.tokens() == seq![input[0]],
            Expression::Conditional(conditional) => input[0].kind == TokenKind::Glyph(
                Glyph::Keyword(Keyword::If),
            ) && conditional.parses(document, scopes, input),
            Expression::Block(block) => input[0].kind == TokenKind::Glyph(
                Glyph::Keyword(Keyword::Do),
            ) && block.parses(document, scopes, input),
            Expression::Wrapped(wrapped) => input[0].kind == TokenKind::Glyph(Glyph::ParenLeft)
                && wrapped.parses(document, scopes, input),
            _ => false,
        }
    }
}

impl Module {
    /// The module is the one that the parser makes of the tokens `input` of a document: its
    /// items, which end at the end of the document, and the end token.
    pub closed spec fn parses(&self, document: &Document, input: Seq<TokenView>) -> bool {
        let rest = after(input, items_tokens(self.items@, self.items@.len()));
        &&& items_parse(self.items@, self.items@.len(), document, Multiset::empty(), input)
        &&& rest[0].kind is End
        &&& self.end@ == rest[0]
    }

    /// What it means that the module is the one that the parser makes.
    pub proof fn lemma_parses(&self, document: &Document, input: Seq<TokenView>)
        ensures
            self.parses(document, input) == ({
                let rest = after(
                    input,
                    items_tokens(self.spec_items()@, self.spec_items()@.len()),
                );
                &&& items_parse(
                    self.spec_items()@,
                    self.spec_items()@.len(),
                    document,
                    Multiset::empty(),
                    input,
                )
                &&& rest[0].kind is End
                &&& self.spec_end()@ == rest[0]
            }),
    {
    }
}


/// Whether the first items of a sequence are those that the parser makes does not depend on
/// the items after them.
pub proof fn lemma_items_parse_prefix(
    items: Seq<Item>,
    longer: Seq<Item>,
    n: nat,
    document: &Document,
    scopes: Multiset<Glyph>,
    input: Seq<TokenView>,
)
    requires
        n <= items.len() <= longer.len(),
        forall|i: int| 0 <= i < items.len() ==> items[i] == longer[i],
    ensures
        items_parse(longer, n, document, scopes, input) == items_parse(
            items,
            n,
            document,
            scopes,
            input,
        ),
    decreases n,
{
    if n > 0 {
        lemma_items_parse_prefix(items, longer, (n - 1) as nat, document, scopes, input);
        lemma_items_prefix(items, longer, (n - 1) as nat);
    }
}

/// What it means that a sequence of items with one more item is the one that the parser
/// makes.
pub proof fn lemma_items_parse_push(
    items: Seq<Item>,
    item: Item,
    document: &Document,
    scopes: Multiset<Glyph>,
    input: Seq<TokenView>,
)
    ensures
        items_parse(items.push(item), items.len() + 1, document, scopes, input) == (items_parse(
            items,
            items.len(),
            document,
            scopes,
            input,
        ) && !stops(scopes, after(input, items_tokens(items, items.len()))[0].kind)
            && item.parses(document, scopes, after(input, items_tokens(items, items.len())))),
{
    lemma_items_parse_prefix(items, items.push(item), items.len(), document, scopes, input);
    lemma_items_prefix(items, items.push(item), items.len());
}

/// Whether the first arguments of a sequence are those that the parser makes does not
/// depend on the arguments after them.
pub proof fn lemma_arguments_parse_prefix(
    arguments: Seq<CommaListItem>,
    longer: Seq<CommaListItem>,
    n: nat,
    document: &Document,
    scopes: Multiset<Glyph>,
    input: Seq<TokenView>,
)
    requires
        n <= arguments.len() <= longer.len(),
        forall|i: int| 0 <= i < arguments.len() ==> arguments[i] == longer[i],
    ensures
        arguments_parse(longer, n, document, scopes, input) == arguments_parse(
            arguments,
            n,
            document,
            scopes,
            input,
        ),
    decreases n,
{
    if n > 0 {
        lemma_arguments_parse_prefix(arguments, longer, (n - 1) as nat, document, scopes, input);
        lemma_arguments_prefix(arguments, longer, (n - 1) as nat);
    }
}

/// What it means that a sequence of arguments with one more argument is the one that the
/// parser makes.
pub proof fn lemma_arguments_parse_push(
    arguments: Seq<CommaListItem>,
    argument: CommaListItem,
    document: &Document,
    scopes: Multiset<Glyph>,
    input: Seq<TokenView>,
)
    ensures
        arguments_parse(arguments.push(argument), arguments.len() + 1, document, scopes, input)
            == (arguments_parse(arguments, arguments.len(), document, scopes, input) && (
        arguments.len() > 0 ==> arguments.last().continues()) && !stops(
            scopes,
            after(input, arguments_tokens(arguments, arguments.len()))[0].kind,
        ) && argument.parses(
            document,
            scopes,
            after(input, arguments_tokens(arguments, arguments.len())),
        )),
{
    lemma_arguments_parse_prefix(
        arguments,
        arguments.push(argument),
        arguments.len(),
        document,
        scopes,
        input,
    );
    lemma_arguments_prefix(arguments, arguments.push(argument), arguments.len());
}


/// The range that `tokens` span: from the start of the first to the end of the last, and
/// where there are none, the empty range at the offset `anchor`.
pub open spec fn span_of(tokens: Seq<TokenView>, anchor: nat) -> (nat, nat) {
    if tokens.len() == 0 {
        (anchor, anchor)
    } else if tokens[0].start <= tokens.last().end {
        (tokens[0].start, tokens.last().end)
    } else {
        (tokens.last().end, tokens[0].start)
    }
}

/// The range that `tokens` span, or the empty range at `anchor` where there are none.
fn span(tokens: &Vec<Token>, anchor: Position) -> (range: Range)
    ensures
        range.start_index() == span_of(token_views(tokens@), anchor@).0,
        range.end_index() == span_of(token_views(tokens@), anchor@).1,
{
    let n = tokens.len();
    if n == 0 {
        Range::position(anchor)
    } else {
        assert(token_views(tokens@)[0] == tokens@[0]@);
        assert(token_views(tokens@).last() == tokens@[n - 1]@);
        Range::between(tokens[0].range().start(), tokens[n - 1].range().end())
    }
}

impl ErrorNode {
    /// The position at which the parser met the error.
    pub fn error_position(&self) -> (position: Position)
        ensures
            position@ == self.position(),
    {
        self.position
    }
}

impl Pattern {
    /// Where the pattern stands if it holds no token: the position of its error.
    pub open spec fn spec_anchor(&self) -> nat {
        match self {
            Pattern::Error(error) => error.spec_error().position(),
            _ => 0,
        }
    }

    /// The range that the pattern spans: from its first token to its last, or the empty
    /// range at the position of its error where it holds no token.
    pub open spec fn spec_range(&self) -> (nat, nat) {
        span_of(self.tokens(), self.spec_anchor())
    }

    /// The range that the pattern spans.
    pub fn range(&self) -> (range: Range)
        ensures
            range.start_index() == self.spec_range().0,
            range.end_index() == self.spec_range().1,
    {
        let anchor = match self {
            Pattern::Error(error) => error.error().error_position(),
            _ => Position::new(0),
        };
        let mut tokens: Vec<Token> = Vec::new();
        assert(token_views(tokens@) =~= Seq::<TokenView>::empty());
        self.push_tokens(&mut tokens);
        assert(token_views(tokens@) =~= self.tokens());
        span(&tokens, anchor)
    }
}

impl Expression {
    /// Where the expression stands if it holds no token: the position of its error.
    pub open spec fn spec_anchor(&self) -> nat {
        match self {
            Expression::Error(error) => error.spec_error().position(),
            _ => 0,
        }
    }

    /// The range that the expression spans: from its first token to its last, or the empty
    /// range at the position of its error where it holds no token.
    pub open spec fn spec_range(&self) -> (nat, nat) {
        span_of(self.tokens(), self.spec_anchor())
    }

    /// Where the expression stands if it holds no token.
    pub fn anchor(&self) -> (anchor: Position)
        ensures
            anchor@ == self.spec_anchor(),
    {
        match self {
            Expression::Error(error) => error.error().error_position(),
            _ => Position::new(0),
        }
    }

    /// The range that the expression spans.
    pub fn range(&self) -> (range: Range)
        ensures
            range.start_index() == self.spec_range().0,
            range.end_index() == self.spec_range().1,
    {
        let mut tokens: Vec<Token> = Vec::new();
        assert(token_views(tokens@) =~= Seq::<TokenView>::empty());
        self.push_tokens(&mut tokens);
        assert(token_views(tokens@) =~= self.tokens());
        span(&tokens, self.anchor())
    }
}

impl Statement {
    /// Where the statement stands if it holds no token: the position of the error of its
    /// expression.
    pub open spec fn spec_anchor(&self) -> nat {
        match self {
            Statement::Binding(_) => 0,
            Statement::Expression(statement) => statement.spec_expression().spec_anchor(),
        }
    }

    /// The range that the statement spans: from its first token to its last, or the empty
    /// range at the position of its error where it holds no token.
    pub open spec fn spec_range(&self) -> (nat, nat) {
        span_of(self.tokens(), self.spec_anchor())
    }

    /// The range that the statement spans.
    pub fn range(&self) -> (range: Range)
        ensures
            range.start_index() == self.spec_range().0,
            range.end_index() == self.spec_range().1,
    {
        let anchor = match self {
            Statement::Binding(_) => Position::new(0),
            Statement::Expression(statement) => statement.expression().anchor(),
        };
        let mut tokens: Vec<Token> = Vec::new();
        assert(token_views(tokens@) =~= Seq::<TokenView>::empty());
        self.push_tokens(&mut tokens);
        assert(token_views(tokens@) =~= self.tokens());
        span(&tokens, anchor)
    }
}

impl Item {
    /// The range that the item spans: from its first token to its last, or the empty range
    /// at the position of its error where it holds no token.
    pub open spec fn spec_range(&self) -> (nat, nat) {
        match self {
            Item::Statement(statement) => statement.spec_range(),
        }
    }

    /// The range that the item spans.
    pub fn range(&self) -> (range: Range)
        ensures
            range.start_index() == self.spec_range().0,
            range.end_index() == self.spec_range().1,
    {
        match self {
            Item::Statement(statement) => statement.range(),
        }
    }
}

impl Block {
    /// Where the block stands if it holds no token: the position of the error of its
    /// opening brace.
    pub open spec fn spec_anchor(&self) -> nat {
        match self.spec_brace_left() {
            GlyphNode::Missing(error, _) => error.position(),
            GlyphNode::Found(_) => 0,
        }
    }

    /// The range that the block spans: from its first token to its last, or the empty range
    /// at the position of its error where it holds no token.
    pub open spec fn spec_range(&self) -> (nat, nat) {
        span_of(self.tokens(), self.spec_anchor())
    }

    /// The range that the block spans.
    pub fn range(&self) -> (range: Range)
        ensures
            range.start_index() == self.spec_range().0,
            range.end_index() == self.spec_range().1,
    {
        let anchor = match &self.brace_left {
            GlyphNode::Missing(error, _) => error.error_position(),
            GlyphNode::Found(_) => Position::new(0),
        };
        let mut tokens: Vec<Token> = Vec::new();
        assert(token_views(tokens@) =~= Seq::<TokenView>::empty());
        self.push_tokens(&mut tokens);
        assert(token_views(tokens@) =~= self.tokens());
        span(&tokens, anchor)
    }
}

impl Module {
    /// Adds copies of the tokens of the module to `out`, in the order of the document.
    pub fn push_tokens(&self, out: &mut Vec<Token>)
        ensures
            token_views(final(out)@) == token_views(old(out)@) + self.tokens(),
    {
        push_items_tokens(&self.items, out);
        push_token(out, Token::End(self.end.clone()));
        assert(token_views(out@) =~= token_views(old(out)@) + self.tokens());
    }

    /// The range that the module spans: from its first token to the end of the document.
    pub open spec fn spec_range(&self) -> (nat, nat) {
        span_of(self.tokens(), 0)
    }

    /// The range that the module spans.
    pub fn range(&self) -> (range: Range)
        ensures
            range.start_index() == self.spec_range().0,
            range.end_index() == self.spec_range().1,
    {
        let mut tokens: Vec<Token> = Vec::new();
        assert(token_views(tokens@) =~= Seq::<TokenView>::empty());
        self.push_tokens(&mut tokens);
        assert(token_views(tokens@) =~= self.tokens());
        span(&tokens, Position::new(0))
    }
}


/// The tokens of an optional alternate of a conditional expression.
pub open spec fn optional_alternate_tokens(
    alternate: Option<ConditionalExpressionAlternate>,
) -> Seq<TokenView> {
    match alternate {
        Some(alternate) => alternate.tokens(),
        None => Seq::empty(),
    }
}

/// The diagnostics of an optional alternate of a conditional expression.
pub open spec fn optional_alternate_diagnostics(
    alternate: Option<ConditionalExpressionAlternate>,
) -> Seq<Diagnostic> {
    match alternate {
        Some(alternate) => alternate.diagnostics(),
        None => Seq::empty(),
    }
}

} // verus!
