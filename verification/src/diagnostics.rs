//! Diagnostic messages are our primary way to communicate with the user. We better be really sure
//! our messages are good.
//!
//! # Style Guide
//!
//! - Keep diagnostic messages short. Preferably a single, clear, sentence.
//! - Write messages in first-person plural. That is, use “we”.
//! - When speaking, present tense instead of past tense. Instead of “we found” say “we see”.
//! - Use language the programmer will understand. Not language the compiler understands. Instead
//!   of compiler speak like “identifier” use a phrase like “variable name”.
//! - Any text that might be written in code should use the code markup of `Markup`.
//! - The message in related information should be present somewhere in the main message of a
//!   diagnostic.

use crate::language::{Constant, LogicalOperator, PrefixOperator};
use crate::source::document::{len_utf8, range_text, Document, Position, Range};
use crate::source::identifier::{Identifier, IdentifierKeyword};
use crate::source::token::{Glyph, Token, TokenKind};
use crate::utils::markup::{simple_string, Markup, SegmentView};
use crate::utils::text::{decimal_digits, push_decimal, string_push};
use std::rc::Rc;
use vstd::std_specs::iter::IteratorSpec;
use vstd::prelude::*;
use vstd::string::*;

verus! {

/// A diagnostic is some message presented to the user about their program. Diagnostics contain a
/// range of characters which the diagnostic points to. Diagnostics are only valid in the scope of
/// some resource since while they contain a range they do not contain the document that range
/// applies to.
#[derive(Debug, PartialEq, Eq)]
pub struct Diagnostic {
    /// The range of our diagnostic.
    pub range: Range,
    /// A representation of every possible diagnostic message.
    message: DiagnosticMessage,
}

/// The diagnostic message, by its severity. Only errors are reported so far: they must be
/// resolved by the programmer, and they prevent the program from being deployed.
#[derive(Debug, PartialEq, Eq)]
pub enum DiagnosticMessage {
    Error(ErrorDiagnosticMessage),
}

/// What went wrong, with what the message needs to say so.
#[derive(Debug, PartialEq, Eq)]
pub enum ErrorDiagnosticMessage {
    /// The parser ran into syntax it did not recognize.
    UnexpectedSyntax { unexpected: UnexpectedSyntax, expected: ExpectedSyntax },
    /// The parser ran into the end of the source document unexpectedly.
    UnexpectedEnding { expected: ExpectedSyntax },
    /// Could not find a declaration for an identifier.
    IdentifierNotFound { identifier: Identifier },
    /// A declaration with this name already exists.
    DeclarationNameAlreadyUsed { identifier: Identifier, declaration_range: Range },
    /// While trying to type check a declaration we ended up checking ourselves.
    DeclarationCycleDetected { identifier: Identifier, declaration_range: Range },
    /// Tried to extend a declaration which is not a base class.
    CanOnlyExtendBaseClass { identifier: Identifier, declaration_range: Range },
    /// We found two types that were incompatible with one another during subtyping.
    IncompatibleTypes {
        operation: OperationSnippet,
        range1: Range,
        snippet1: TypeKindSnippet,
        range2: Range,
        snippet2: TypeKindSnippet,
    },
    /// We found two functions that had different parameter list lengths.
    IncompatibleFunctionParameterLengths {
        operation: OperationSnippet,
        range1: Range,
        len1: usize,
        range2: Range,
        len2: usize,
    },
    /// We found a function parameter that needs a type annotation since we can’t infer one.
    MissingFunctionParameterType { pattern: PatternSnippet },
    /// We found the programmer trying to call a type that is not a function.
    CannotCall { callee_range: Range, callee_type: TypeKindSnippet },
}

/// Some syntax the Brite parser did not expect.
#[derive(Clone, Copy, Debug, PartialEq, Eq, Structural)]
pub enum UnexpectedSyntax {
    /// An unexpected glyph.
    Glyph(Glyph),
    /// An unexpected identifier.
    Identifier,
    /// An unexpected number.
    Number,
    /// An unexpected character.
    Char(char),
}

/// Some syntax the Brite expected but did not receive.
#[derive(Clone, Copy, Debug, PartialEq, Eq, Structural)]
pub enum ExpectedSyntax {
    /// Expected a particular glyph.
    Glyph(Glyph),
    /// Expected an identifier.
    Identifier,
    /// Expected an identifier keyword.
    IdentifierKeyword(IdentifierKeyword),
    /// Expected the end of a block comment.
    BlockCommentEnd,
    /// Expected a decimal digit.
    DecimalDigit,
    /// Expected a binary digit.
    BinaryDigit,
    /// Expected a hexadecimal digit.
    HexadecimalDigit,
    /// Expected a declaration.
    Declaration,
    /// Expected a class member.
    ClassMember,
    /// Expected a statement.
    Statement,
    /// Expected an expression.
    Expression,
    /// Expected a pattern.
    Pattern,
    /// Expected a type.
    Type,
}

/// A snippet describing some operation that we were trying to perform when a diagnostic occurred.
#[derive(Clone, Debug, PartialEq, Eq)]
pub enum OperationSnippet {
    /// An annotated expression failed to type check.
    ExpressionAnnotation(ExpressionSnippet),
    /// An annotated binding statement failed to type check.
    BindingStatementAnnotation(PatternSnippet, ExpressionSnippet),
    /// An annotated function return type failed to type check.
    FunctionReturnAnnotation(Option<StatementSnippet>),
    /// Calling a function failed to type check.
    FunctionCall(ExpressionSnippet),
    /// Some use of an operator failed to type check.
    OperatorExpression(OperatorSnippet),
}

/// A snippet describing any operator we might use in Brite programs.
#[derive(Clone, Copy, Debug, PartialEq, Eq, Structural)]
pub enum OperatorSnippet {
    /// `!`
    Not,
    /// `&&`
    And,
    /// `||`
    Or,
}

/// A snippet of some type for error message printing.
#[derive(Clone, Copy, Debug, PartialEq, Eq, Structural)]
pub enum TypeKindSnippet {
    /// The never type.
    Never,
    /// The void type.
    Void,
    /// The boolean type.
    Boolean,
    /// The number type.
    Number,
    /// The integer type.
    Integer,
    /// The float type.
    Float,
    /// A function type.
    Function,
}

/// A snippet of a [`Vec`]. May contain up to 2 items.
#[derive(Clone, Debug, PartialEq, Eq)]
pub enum VecSnippet<Item> {
    Vec0,
    Vec1(Item),
    Vec2(Item, Item),
    VecN(Item, Item),
}

/// A snippet of some statement for error message printing.
#[derive(Clone, Debug, PartialEq, Eq)]
pub enum StatementSnippet {
    /// Some expression.
    Expression(ExpressionSnippet),
    /// Some statement that binds a pattern in our current scope.
    Binding(PatternSnippet, ExpressionSnippet),
}

/// A snippet of some expression for error message printing. We try to keep the snippet small. A
/// mere description of the full expression.
#[derive(Debug, PartialEq, Eq)]
pub enum ExpressionSnippet {
    /// Some constant value in the program.
    Constant(Constant),
    /// A reference to some value in the program.
    Reference(Identifier),
    /// A function expression. We only keep some of the parameters in the function
    /// expression snippet.
    Function(VecSnippet<PatternSnippet>),
    /// A call expression. We only remember the callee.
    Call(Box<ExpressionSnippet>),
    /// Some expression using a prefix operator.
    Prefix(PrefixOperator, Box<ExpressionSnippet>),
    /// Some infix expression using a logical operator.
    Logical(Box<ExpressionSnippet>, LogicalOperator, Box<ExpressionSnippet>),
    /// A block expression which contains some statements.
    Block,
}

/// A snippet of some pattern for error message printing.
#[derive(Debug, PartialEq, Eq)]
pub enum PatternSnippet {
    /// A binding for some value in the program.
    Binding(Identifier),
}

impl<Item> VecSnippet<Item> {
    /// The snippet of the items that `iter` yields: all of them if there are at most two, and
    /// else the first two, with a mark that more follow. At most three items are taken from
    /// the iterator.
    pub fn from_iter<I: Iterator<Item = Item>>(mut iter: I) -> (snippet: VecSnippet<Item>)
        ensures
            iter.obeys_prophetic_iter_laws() ==> snippet == if iter.remaining().len() == 0 {
                VecSnippet::<Item>::Vec0
            } else if iter.remaining().len() == 1 {
                VecSnippet::Vec1(iter.remaining()[0])
            } else if iter.remaining().len() == 2 {
                VecSnippet::Vec2(iter.remaining()[0], iter.remaining()[1])
            } else {
                VecSnippet::VecN(iter.remaining()[0], iter.remaining()[1])
            },
    {
        match iter.next() {
            None => VecSnippet::Vec0,
            Some(item1) => match iter.next() {
                None => VecSnippet::Vec1(item1),
                Some(item2) => match iter.next() {
                    None => VecSnippet::Vec2(item1, item2),
                    Some(_) => VecSnippet::VecN(item1, item2),
                },
            },
        }
    }
}


impl Clone for PatternSnippet {
    fn clone(&self) -> (copy: PatternSnippet)
        ensures
            copy == *self,
    {
        match self {
            PatternSnippet::Binding(identifier) => PatternSnippet::Binding(identifier.clone()),
        }
    }
}

impl Clone for ExpressionSnippet {
    fn clone(&self) -> (copy: ExpressionSnippet)
        ensures
            copy == *self,
        decreases self,
    {
        match self {
            ExpressionSnippet::Constant(constant) => ExpressionSnippet::Constant(constant.clone()),
            ExpressionSnippet::Reference(identifier) => ExpressionSnippet::Reference(
                identifier.clone(),
            ),
            ExpressionSnippet::Function(parameters) => ExpressionSnippet::Function(
                match parameters {
                    VecSnippet::Vec0 => VecSnippet::Vec0,
                    VecSnippet::Vec1(item) => VecSnippet::Vec1(item.clone()),
                    VecSnippet::Vec2(item1, item2) => VecSnippet::Vec2(
                        item1.clone(),
                        item2.clone(),
                    ),
                    VecSnippet::VecN(item1, item2) => VecSnippet::VecN(
                        item1.clone(),
                        item2.clone(),
                    ),
                },
            ),
            ExpressionSnippet::Call(callee) => ExpressionSnippet::Call(
                Box::new((&**callee).clone()),
            ),
            ExpressionSnippet::Prefix(operator, operand) => ExpressionSnippet::Prefix(
                *operator,
                Box::new((&**operand).clone()),
            ),
            ExpressionSnippet::Logical(left, operator, right) => ExpressionSnippet::Logical(
                Box::new((&**left).clone()),
                *operator,
                Box::new((&**right).clone()),
            ),
            ExpressionSnippet::Block => ExpressionSnippet::Block,
        }
    }
}


/// A message that is one piece of prose.
pub open spec fn plain(text: Seq<char>) -> Seq<SegmentView> {
    seq![SegmentView::Plain(text)]
}

/// A message that is one piece of code.
pub open spec fn code(text: Seq<char>) -> Seq<SegmentView> {
    seq![SegmentView::Code(text)]
}

/// The word for a small number: up to twenty. Larger numbers are written in digits.
pub open spec fn spec_cardinal(n: nat) -> Option<Seq<char>> {
    if n == 0 {
        Some("zero"@)
    } else if n == 1 {
        Some("one"@)
    } else if n == 2 {
        Some("two"@)
    } else if n == 3 {
        Some("three"@)
    } else if n == 4 {
        Some("four"@)
    } else if n == 5 {
        Some("five"@)
    } else if n == 6 {
        Some("six"@)
    } else if n == 7 {
        Some("seven"@)
    } else if n == 8 {
        Some("eight"@)
    } else if n == 9 {
        Some("nine"@)
    } else if n == 10 {
        Some("ten"@)
    } else if n == 11 {
        Some("eleven"@)
    } else if n == 12 {
        Some("twelve"@)
    } else if n == 13 {
        Some("thirteen"@)
    } else if n == 14 {
        Some("fourteen"@)
    } else if n == 15 {
        Some("fifteen"@)
    } else if n == 16 {
        Some("sixteen"@)
    } else if n == 17 {
        Some("seventeen"@)
    } else if n == 18 {
        Some("eighteen"@)
    } else if n == 19 {
        Some("nineteen"@)
    } else if n == 20 {
        Some("twenty"@)
    } else {
        None
    }
}

/// Converts a number to its cardinal string representation. We use a word for small numbers
/// and we return `None` for larger numbers.
pub fn cardinal(n: usize) -> (word: Option<&'static str>)
    ensures
        word is Some <==> n <= 20,
        match word {
            Some(word) => spec_cardinal(n as nat) == Some(word@),
            None => spec_cardinal(n as nat) is None,
        },
{
    match n {
        0 => Some("zero"),
        1 => Some("one"),
        2 => Some("two"),
        3 => Some("three"),
        4 => Some("four"),
        5 => Some("five"),
        6 => Some("six"),
        7 => Some("seven"),
        8 => Some("eight"),
        9 => Some("nine"),
        10 => Some("ten"),
        11 => Some("eleven"),
        12 => Some("twelve"),
        13 => Some("thirteen"),
        14 => Some("fourteen"),
        15 => Some("fifteen"),
        16 => Some("sixteen"),
        17 => Some("seventeen"),
        18 => Some("eighteen"),
        19 => Some("nineteen"),
        20 => Some("twenty"),
        _ => None,
    }
}

/// How a number of arguments is written: the number as a word or in digits, and after it,
/// where `unit` asks for it, the word for what is counted.
pub open spec fn argument_len_text(len: nat, unit: bool) -> Seq<SegmentView> {
    plain(
        match spec_cardinal(len) {
            Some(word) => word,
            None => decimal_digits(len),
        },
    ) + (if !unit {
        Seq::empty()
    } else if len == 1 {
        plain(" argument"@)
    } else {
        plain(" arguments"@)
    })
}

/// Writes a number of arguments.
fn argument_len(message: &mut Markup, len: usize, unit: bool)
    ensures
        final(message)@ == old(message)@ + argument_len_text(len as nat, unit),
{
    match cardinal(len) {
        Some(word) => message.text(word),
        None => {
            let mut digits = String::new();
            push_decimal(&mut digits, len as u64);
            assert(digits@ =~= decimal_digits(len as nat));
            message.text(digits.as_str());
        },
    }
    if unit {
        if len == 1 {
            message.text(" argument");
        } else {
            message.text(" arguments");
        }
    }
    assert(message@ =~= old(message)@ + argument_len_text(len as nat, unit));
}

impl UnexpectedSyntax {
    /// How the message names what was found.
    pub open spec fn markup(self) -> Seq<SegmentView> {
        match self {
            UnexpectedSyntax::Glyph(glyph) => code(glyph.text()),
            UnexpectedSyntax::Identifier => plain("a variable name"@),
            UnexpectedSyntax::Number => plain("a number"@),
            UnexpectedSyntax::Char(c) => if c == '\n' {
                code("\\n"@)
            } else if c == '\r' {
                code("\\r"@)
            } else if c == '\t' {
                code("\\t"@)
            } else {
                code(seq![c])
            },
        }
    }

    /// Writes what was found.
    pub fn print(&self, message: &mut Markup)
        ensures
            final(message)@ == old(message)@ + self.markup(),
    {
        match self {
            UnexpectedSyntax::Glyph(glyph) => message.code(glyph.as_str()),
            UnexpectedSyntax::Identifier => message.text("a variable name"),
            UnexpectedSyntax::Number => message.text("a number"),
            UnexpectedSyntax::Char(c) => {
                if *c == '\n' {
                    message.code("\\n")
                } else if *c == '\r' {
                    message.code("\\r")
                } else if *c == '\t' {
                    message.code("\\t")
                } else {
                    let mut text = String::new();
                    string_push(&mut text, *c);
                    assert(text@ =~= seq![*c]);
                    message.code(text.as_str())
                }
            },
        }
        assert(message@ =~= old(message)@ + self.markup());
    }
}

impl ExpectedSyntax {
    /// How the message names what was wanted.
    pub open spec fn markup(self) -> Seq<SegmentView> {
        match self {
            ExpectedSyntax::Glyph(glyph) => code(glyph.text()),
            ExpectedSyntax::Identifier => plain("a name"@),
            ExpectedSyntax::IdentifierKeyword(keyword) => code(keyword.text()),
            ExpectedSyntax::BlockCommentEnd => code("*/"@),
            ExpectedSyntax::DecimalDigit => plain("a number"@),
            ExpectedSyntax::BinaryDigit => plain("a binary digit"@),
            ExpectedSyntax::HexadecimalDigit => plain("a hexadecimal digit"@),
            ExpectedSyntax::Declaration => plain("a function"@),
            ExpectedSyntax::ClassMember => plain("a function"@),
            ExpectedSyntax::Statement => plain("a statement"@),
            ExpectedSyntax::Expression => plain("an expression"@),
            ExpectedSyntax::Pattern => plain("a variable name"@),
            ExpectedSyntax::Type => plain("a type"@),
        }
    }

    /// Writes what was wanted.
    pub fn print(&self, message: &mut Markup)
        ensures
            final(message)@ == old(message)@ + self.markup(),
    {
        match self {
            ExpectedSyntax::Glyph(glyph) => message.code(glyph.as_str()),
            ExpectedSyntax::Identifier => message.text("a name"),
            ExpectedSyntax::IdentifierKeyword(keyword) => message.code(keyword.as_str()),
            ExpectedSyntax::BlockCommentEnd => message.code("*/"),
            // If the user types `0b` or `0x` then, presumably, they know what they are doing and
            // want a binary or hexadecimal number. Otherwise we say that we want a _number_
            // instead of a “digit” because “number” is simpler vocabulary.
            ExpectedSyntax::DecimalDigit => message.text("a number"),
            ExpectedSyntax::BinaryDigit => message.text("a binary digit"),
            ExpectedSyntax::HexadecimalDigit => message.text("a hexadecimal digit"),
            // While a declaration or class member may be something else other than a function we
            // still say that we want a function: functions are the most common of them.
            ExpectedSyntax::Declaration => message.text("a function"),
            ExpectedSyntax::ClassMember => message.text("a function"),
            ExpectedSyntax::Statement => message.text("a statement"),
            ExpectedSyntax::Expression => message.text("an expression"),
            // The programmer should not need to be familiar with language like “pattern”. Most of
            // the time when we expect a pattern what we really want is a variable name.
            ExpectedSyntax::Pattern => message.text("a variable name"),
            ExpectedSyntax::Type => message.text("a type"),
        }
        assert(message@ =~= old(message)@ + self.markup());
    }
}

impl PatternSnippet {
    /// The pattern as code.
    pub open spec fn text(&self) -> Seq<char> {
        match self {
            PatternSnippet::Binding(identifier) => identifier@,
        }
    }

    /// Writes the pattern as code.
    pub fn print(&self, code: &mut String)
        ensures
            final(code)@ == old(code)@ + self.text(),
    {
        match self {
            PatternSnippet::Binding(identifier) => code.append(identifier.as_str()),
        }
    }
}

/// The parameters of a function as code: up to two of them, and a mark where more follow.
pub open spec fn parameters_text(parameters: VecSnippet<PatternSnippet>) -> Seq<char> {
    match parameters {
        VecSnippet::Vec0 => Seq::empty(),
        VecSnippet::Vec1(item) => item.text(),
        VecSnippet::Vec2(item1, item2) => item1.text() + ", "@ + item2.text(),
        VecSnippet::VecN(item1, item2) => item1.text() + ", "@ + item2.text() + ", ..."@,
    }
}

/// A prefix operator as code.
pub open spec fn prefix_operator_text(operator: PrefixOperator) -> Seq<char> {
    match operator {
        PrefixOperator::Not => "!"@,
        PrefixOperator::Negative => "-"@,
        PrefixOperator::Positive => "+"@,
    }
}

/// A logical operator as code, with a space on either side.
pub open spec fn logical_operator_text(operator: LogicalOperator) -> Seq<char> {
    match operator {
        LogicalOperator::And => " && "@,
        LogicalOperator::Or => " || "@,
    }
}

impl ExpressionSnippet {
    /// The expression as code, shortened to what a message can hold.
    pub open spec fn text(&self) -> Seq<char>
        decreases self,
    {
        match self {
            ExpressionSnippet::Constant(constant) => constant.text(),
            ExpressionSnippet::Reference(identifier) => identifier@,
            ExpressionSnippet::Function(parameters) => "fun("@ + parameters_text(*parameters)
                + ") { ... }"@,
            ExpressionSnippet::Call(callee) => callee.text() + "()"@,
            ExpressionSnippet::Prefix(operator, operand) => prefix_operator_text(*operator)
                + operand.text(),
            ExpressionSnippet::Logical(left, operator, right) => left.text()
                + logical_operator_text(*operator) + right.text(),
            ExpressionSnippet::Block => "do { ... }"@,
        }
    }

    /// Writes the expression as code.
    pub fn print(&self, code: &mut String)
        ensures
            final(code)@ == old(code)@ + self.text(),
        decreases self,
    {
        match self {
            ExpressionSnippet::Constant(constant) => {
                let text = constant.print();
                code.append(text.as_str());
            },
            ExpressionSnippet::Reference(identifier) => code.append(identifier.as_str()),
            ExpressionSnippet::Function(parameters) => {
                code.append("fun(");
                match parameters {
                    VecSnippet::Vec0 => {},
                    VecSnippet::Vec1(item) => item.print(code),
                    VecSnippet::Vec2(item1, item2) => {
                        item1.print(code);
                        code.append(", ");
                        item2.print(code);
                    },
                    VecSnippet::VecN(item1, item2) => {
                        item1.print(code);
                        code.append(", ");
                        item2.print(code);
                        code.append(", ...");
                    },
                }
                code.append(") { ... }");
            },
            ExpressionSnippet::Call(callee) => {
                callee.print(code);
                code.append("()");
            },
            ExpressionSnippet::Prefix(operator, operand) => {
                match operator {
                    PrefixOperator::Not => code.append("!"),
                    PrefixOperator::Negative => code.append("-"),
                    PrefixOperator::Positive => code.append("+"),
                }
                operand.print(code);
            },
            ExpressionSnippet::Logical(left, operator, right) => {
                left.print(code);
                match operator {
                    LogicalOperator::And => code.append(" && "),
                    LogicalOperator::Or => code.append(" || "),
                }
                right.print(code);
            },
            ExpressionSnippet::Block => code.append("do { ... }"),
        }
        assert(code@ =~= old(code)@ + self.text());
    }
}

impl StatementSnippet {
    /// The statement as code.
    pub open spec fn text(&self) -> Seq<char> {
        match self {
            StatementSnippet::Expression(expression) => expression.text(),
            StatementSnippet::Binding(pattern, value) => "let "@ + pattern.text() + " = "@
                + value.text(),
        }
    }

    /// Writes the statement as code.
    pub fn print(&self, code: &mut String)
        ensures
            final(code)@ == old(code)@ + self.text(),
    {
        match self {
            StatementSnippet::Expression(expression) => expression.print(code),
            StatementSnippet::Binding(pattern, value) => {
                code.append("let ");
                pattern.print(code);
                code.append(" = ");
                value.print(code);
            },
        }
        assert(code@ =~= old(code)@ + self.text());
    }
}

impl OperatorSnippet {
    /// The operator as code.
    pub open spec fn text(self) -> Seq<char> {
        match self {
            OperatorSnippet::Not => "!"@,
            OperatorSnippet::And => "&&"@,
            OperatorSnippet::Or => "||"@,
        }
    }
}

impl OperationSnippet {
    /// How the message says what could not be done.
    pub open spec fn markup(&self) -> Seq<SegmentView> {
        match self {
            OperationSnippet::ExpressionAnnotation(value) => plain(
                "Can not change the type of "@,
            ) + code(value.text()),
            OperationSnippet::BindingStatementAnnotation(pattern, value) => plain("Can not set "@)
                + code(pattern.text()) + plain(" to "@) + code(value.text()),
            OperationSnippet::FunctionReturnAnnotation(Some(statement)) => plain(
                "Can not return "@,
            ) + code(statement.text()),
            OperationSnippet::FunctionReturnAnnotation(None) => plain("Can not return "@) + plain(
                "nothing"@,
            ),
            OperationSnippet::FunctionCall(callee) => plain("Can not call "@) + code(
                callee.text(),
            ),
            OperationSnippet::OperatorExpression(operator) => plain("Can not use "@) + code(
                operator.text(),
            ),
        }
    }

    /// Writes what could not be done.
    pub fn print(&self, message: &mut Markup)
        ensures
            final(message)@ == old(message)@ + self.markup(),
    {
        match self {
            OperationSnippet::ExpressionAnnotation(value) => {
                message.text("Can not change the type of ");
                let mut code = String::new();
                value.print(&mut code);
                assert(code@ =~= value.text());
                message.code(code.as_str());
            },
            OperationSnippet::BindingStatementAnnotation(pattern, value) => {
                message.text("Can not set ");
                let mut code = String::new();
                pattern.print(&mut code);
                assert(code@ =~= pattern.text());
                message.code(code.as_str());
                message.text(" to ");
                let mut code = String::new();
                value.print(&mut code);
                assert(code@ =~= value.text());
                message.code(code.as_str());
            },
            OperationSnippet::FunctionReturnAnnotation(statement) => {
                message.text("Can not return ");
                match statement {
                    Some(statement) => {
                        let mut code = String::new();
                        statement.print(&mut code);
                        assert(code@ =~= statement.text());
                        message.code(code.as_str());
                    },
                    // A return without a value is reported in words of its own wherever the
                    // types are at odds, so this is only written for other failures.
                    None => message.text("nothing"),
                }
            },
            OperationSnippet::FunctionCall(callee) => {
                message.text("Can not call ");
                let mut code = String::new();
                callee.print(&mut code);
                assert(code@ =~= callee.text());
                message.code(code.as_str());
            },
            OperationSnippet::OperatorExpression(operator) => {
                message.text("Can not use ");
                match operator {
                    OperatorSnippet::Not => message.code("!"),
                    OperatorSnippet::And => message.code("&&"),
                    OperatorSnippet::Or => message.code("||"),
                }
            },
        }
        assert(message@ =~= old(message)@ + self.markup());
    }
}

impl TypeKindSnippet {
    /// How the message names the type, with or without the article in front of it.
    pub open spec fn markup(self, article: bool) -> Seq<SegmentView> {
        match self {
            TypeKindSnippet::Never => code("Never"@),
            TypeKindSnippet::Void => code("Void"@),
            TypeKindSnippet::Boolean => (if article {
                plain("a "@)
            } else {
                Seq::empty()
            }) + code("Bool"@),
            TypeKindSnippet::Number => (if article {
                plain("a "@)
            } else {
                Seq::empty()
            }) + code("Num"@),
            TypeKindSnippet::Integer => (if article {
                plain("an "@)
            } else {
                Seq::empty()
            }) + code("Int"@),
            TypeKindSnippet::Float => (if article {
                plain("a "@)
            } else {
                Seq::empty()
            }) + code("Float"@),
            TypeKindSnippet::Function => (if article {
                plain("a "@)
            } else {
                Seq::empty()
            }) + plain("function"@),
        }
    }

    /// Writes the name of the type. The variable name `article` comes from the [grammatical
    /// element][1] of the same name.
    ///
    /// [1]: https://en.wikipedia.org/wiki/Article_(grammar)
    pub fn print(&self, message: &mut Markup, article: bool)
        ensures
            final(message)@ == old(message)@ + self.markup(article),
    {
        match self {
            TypeKindSnippet::Never => message.code("Never"),
            TypeKindSnippet::Void => message.code("Void"),
            TypeKindSnippet::Boolean => {
                if article {
                    message.text("a ");
                }
                message.code("Bool")
            },
            TypeKindSnippet::Number => {
                if article {
                    message.text("a ");
                }
                message.code("Num")
            },
            TypeKindSnippet::Integer => {
                if article {
                    message.text("an ");
                }
                message.code("Int")
            },
            TypeKindSnippet::Float => {
                if article {
                    message.text("a ");
                }
                message.code("Float")
            },
            TypeKindSnippet::Function => {
                if article {
                    message.text("a ");
                }
                message.text("function")
            },
        }
        assert(message@ =~= old(message)@ + self.markup(article));
    }
}


/// What stands for a token in a message that says the token was not expected. The end of
/// the document is reported in words of its own and has no entry here.
pub open spec fn unexpected_of(kind: TokenKind) -> UnexpectedSyntax {
    match kind {
        TokenKind::Glyph(glyph) => UnexpectedSyntax::Glyph(glyph),
        TokenKind::Identifier(_) => UnexpectedSyntax::Identifier,
        TokenKind::Number(_) => UnexpectedSyntax::Number,
        TokenKind::Unexpected(c) => UnexpectedSyntax::Char(c),
        TokenKind::End => UnexpectedSyntax::Identifier,
    }
}

/// What a piece of related information holds: where it points, and what it says.
pub struct RelatedView {
    pub range: Range,
    pub message: Seq<SegmentView>,
}

/// Related information for a diagnostic in case the primary message was not enough. Most
/// importantly, related information carries a location so we can point to source code which
/// contributed to an error.
pub struct DiagnosticRelatedInformation {
    range: Range,
    message: Markup,
}

impl View for DiagnosticRelatedInformation {
    type V = RelatedView;

    closed spec fn view(&self) -> RelatedView {
        RelatedView { range: self.range, message: self.message@ }
    }
}

impl DiagnosticRelatedInformation {
    /// Where the information points.
    pub fn range(&self) -> (range: Range)
        ensures
            range == self@.range,
    {
        self.range
    }

    /// What the information says.
    pub fn message(&self) -> (message: &Markup)
        ensures
            message@ == self@.message,
    {
        &self.message
    }
}

/// What the related information of a sequence holds, one by one.
pub open spec fn related_views(related: Seq<DiagnosticRelatedInformation>) -> Seq<RelatedView> {
    Seq::new(related.len(), |i: int| related[i]@)
}

/// One piece of related information, unless the diagnostic already points at its range.
pub open spec fn related_unless_intersects(
    range: Range,
    other: Range,
    message: Seq<SegmentView>,
) -> Seq<RelatedView> {
    if range.spec_intersects(other) {
        Seq::empty()
    } else {
        seq![RelatedView { range: other, message }]
    }
}

/// The message of an error that is reported at `range`.
pub open spec fn error_markup(range: Range, error: ErrorDiagnosticMessage) -> Seq<SegmentView> {
    match error {
        ErrorDiagnosticMessage::UnexpectedSyntax { unexpected, expected } => plain("We want "@)
            + expected.markup() + (if unexpected == UnexpectedSyntax::Char('\n') || unexpected
            == UnexpectedSyntax::Char('\r') {
            plain(" but the line ends."@)
        } else {
            plain(" but we have "@) + unexpected.markup() + plain("."@)
        }),
        ErrorDiagnosticMessage::UnexpectedEnding { expected } => plain("We want "@)
            + expected.markup() + plain(" but the file ends."@),
        ErrorDiagnosticMessage::IdentifierNotFound { identifier } => plain("Can not find "@)
            + code(identifier@) + plain("."@),
        ErrorDiagnosticMessage::DeclarationNameAlreadyUsed { identifier, declaration_range } => plain(
            "Can not use the name "@,
        ) + code(identifier@) + plain(" again."@),
        ErrorDiagnosticMessage::DeclarationCycleDetected { identifier, declaration_range } => plain(
            "Can not use "@,
        ) + code(identifier@) + plain(" because it would create a circular reference."@),
        ErrorDiagnosticMessage::CanOnlyExtendBaseClass { identifier, declaration_range } => plain(
            "Can not extend "@,
        ) + code(identifier@) + plain(" because it is not a base class."@),
        ErrorDiagnosticMessage::IncompatibleTypes {
            operation,
            range1,
            snippet1,
            range2,
            snippet2,
        } => if operation == OperationSnippet::FunctionReturnAnnotation(None) && snippet1
            == TypeKindSnippet::Void {
            plain("We need "@) + snippet2.markup(true) + plain(
                " to be returned from this function."@,
            )
        } else {
            operation.markup() + plain(" because "@) + snippet1.markup(true) + plain(" is not "@)
                + snippet2.markup(true) + plain("."@)
        },
        ErrorDiagnosticMessage::IncompatibleFunctionParameterLengths {
            operation,
            range1,
            len1,
            range2,
            len2,
        } => operation.markup() + plain(" because we have "@) + argument_len_text(
            len1 as nat,
            true,
        ) + (if len1 < len2 {
            plain(" but we need "@)
        } else {
            plain(" but we only need "@)
        }) + argument_len_text(len2 as nat, false) + plain("."@),
        ErrorDiagnosticMessage::MissingFunctionParameterType { pattern } => plain(
            "We need a type for "@,
        ) + code(pattern.text()) + plain("."@),
        ErrorDiagnosticMessage::CannotCall { callee_range, callee_type } => plain("Cannot call "@)
            + callee_type.markup(true) + plain("."@),
    }
}

/// The related information of an error that is reported at `range`: the other places that
/// the message speaks of, but for those that `range` already points at.
pub open spec fn error_related(range: Range, error: ErrorDiagnosticMessage) -> Seq<RelatedView> {
    match error {
        ErrorDiagnosticMessage::DeclarationNameAlreadyUsed { identifier, declaration_range } => seq![
            RelatedView { range: declaration_range, message: code(identifier@) },
        ],
        ErrorDiagnosticMessage::DeclarationCycleDetected { identifier, declaration_range } => seq![
            RelatedView { range: declaration_range, message: code(identifier@) },
        ],
        ErrorDiagnosticMessage::CanOnlyExtendBaseClass { identifier, declaration_range } => seq![
            RelatedView { range: declaration_range, message: code(identifier@) },
        ],
        ErrorDiagnosticMessage::IncompatibleTypes {
            operation,
            range1,
            snippet1,
            range2,
            snippet2,
        } => if operation == OperationSnippet::FunctionReturnAnnotation(None) && snippet1
            == TypeKindSnippet::Void {
            related_unless_intersects(range, range2, snippet2.markup(false))
        } else {
            related_unless_intersects(range, range1, snippet1.markup(false))
                + related_unless_intersects(range, range2, snippet2.markup(false))
        },
        ErrorDiagnosticMessage::IncompatibleFunctionParameterLengths {
            operation,
            range1,
            len1,
            range2,
            len2,
        } => related_unless_intersects(range, range1, argument_len_text(len1 as nat, true))
            + related_unless_intersects(range, range2, argument_len_text(len2 as nat, true)),
        ErrorDiagnosticMessage::CannotCall { callee_range, callee_type } => related_unless_intersects(
            range,
            callee_range,
            callee_type.markup(false),
        ),
        _ => Seq::empty(),
    }
}

/// Adds a piece of related information that points at `range` and names `identifier`.
fn related_identifier(
    related_information: &mut Vec<DiagnosticRelatedInformation>,
    range: Range,
    identifier: &Identifier,
)
    ensures
        related_views(final(related_information)@) == related_views(old(related_information)@).push(
            RelatedView { range, message: code(identifier@) },
        ),
{
    let mut message = Markup::new();
    message.code(identifier.as_str());
    assert(message@ =~= code(identifier@));
    related_information.push(DiagnosticRelatedInformation { range, message });
    assert(related_views(related_information@) =~= related_views(old(related_information)@).push(
        RelatedView { range, message: code(identifier@) },
    ));
}

/// Adds a piece of related information that points at `range` and names a type.
fn related_type(
    related_information: &mut Vec<DiagnosticRelatedInformation>,
    range: Range,
    snippet: &TypeKindSnippet,
)
    ensures
        related_views(final(related_information)@) == related_views(old(related_information)@).push(
            RelatedView { range, message: snippet.markup(false) },
        ),
{
    let mut message = Markup::new();
    snippet.print(&mut message, false);
    assert(message@ =~= snippet.markup(false));
    related_information.push(DiagnosticRelatedInformation { range, message });
    assert(related_views(related_information@) =~= related_views(old(related_information)@).push(
        RelatedView { range, message: snippet.markup(false) },
    ));
}

/// Adds a piece of related information that points at `range` and gives a number of
/// arguments.
fn related_argument_len(
    related_information: &mut Vec<DiagnosticRelatedInformation>,
    range: Range,
    len: usize,
)
    ensures
        related_views(final(related_information)@) == related_views(old(related_information)@).push(
            RelatedView { range, message: argument_len_text(len as nat, true) },
        ),
{
    let mut message = Markup::new();
    argument_len(&mut message, len, true);
    assert(message@ =~= argument_len_text(len as nat, true));
    related_information.push(DiagnosticRelatedInformation { range, message });
    assert(related_views(related_information@) =~= related_views(old(related_information)@).push(
        RelatedView { range, message: argument_len_text(len as nat, true) },
    ));
}

impl Diagnostic {
    /// Where the diagnostic points.
    pub closed spec fn spec_range(&self) -> Range {
        self.range
    }

    /// What the diagnostic reports.
    pub closed spec fn spec_error(&self) -> ErrorDiagnosticMessage {
        match self.message {
            DiagnosticMessage::Error(error) => error,
        }
    }

    /// The message of the diagnostic.
    pub open spec fn spec_message(&self) -> Seq<SegmentView> {
        error_markup(self.spec_range(), self.spec_error())
    }

    /// The related information of the diagnostic.
    pub open spec fn spec_related(&self) -> Seq<RelatedView> {
        error_related(self.spec_range(), self.spec_error())
    }

    fn new(range: Range, message: DiagnosticMessage) -> (diagnostic: Diagnostic)
        ensures
            diagnostic.range == range,
            diagnostic.message == message,
    {
        Diagnostic { range, message }
    }

    fn error(range: Range, message: ErrorDiagnosticMessage) -> (diagnostic: Diagnostic)
        ensures
            diagnostic.spec_range() == range,
            diagnostic.spec_error() == message,
    {
        Self::new(range, DiagnosticMessage::Error(message))
    }

    /// Where the diagnostic points.
    pub fn range(&self) -> (range: Range)
        ensures
            range == self.spec_range(),
    {
        self.range
    }

    /// The parser ran into syntax it did not recognize.
    pub fn unexpected_syntax(
        range: Range,
        unexpected: UnexpectedSyntax,
        expected: ExpectedSyntax,
    ) -> (diagnostic: Diagnostic)
        ensures
            diagnostic.spec_range() == range,
            diagnostic.spec_error() == (ErrorDiagnosticMessage::UnexpectedSyntax {
                unexpected,
                expected,
            }),
    {
        Self::error(range, ErrorDiagnosticMessage::UnexpectedSyntax { unexpected, expected })
    }

    /// The parser ran into a character it did not recognize.
    pub fn unexpected_char(start: Position, unexpected: char, expected: ExpectedSyntax) -> (diagnostic:
        Diagnostic)
        requires
            start@ + len_utf8(unexpected) <= u32::MAX,
        ensures
            diagnostic.spec_range().start_index() == start@,
            diagnostic.spec_range().len() == len_utf8(unexpected),
            diagnostic.spec_error() == (ErrorDiagnosticMessage::UnexpectedSyntax {
                unexpected: UnexpectedSyntax::Char(unexpected),
                expected,
            }),
    {
        Self::unexpected_syntax(
            Range::single_char(start, unexpected),
            UnexpectedSyntax::Char(unexpected),
            expected,
        )
    }

    /// The parser ran into a token it did not recognize. The end of the document is reported
    /// as an unexpected ending at the position where it stands.
    pub fn unexpected_token(token: &Token, expected: ExpectedSyntax) -> (diagnostic: Diagnostic)
        ensures
            diagnostic.spec_range().start_index() == token@.start,
            diagnostic.spec_range().end_index() == if token@.kind is End {
                token@.start
            } else {
                token@.end
            },
            diagnostic.spec_error() == if token@.kind is End {
                ErrorDiagnosticMessage::UnexpectedEnding { expected }
            } else {
                ErrorDiagnosticMessage::UnexpectedSyntax {
                    unexpected: unexpected_of(token@.kind),
                    expected,
                }
            },
    {
        match token {
            Token::Glyph(glyph) => Self::unexpected_syntax(
                token.range(),
                UnexpectedSyntax::Glyph(glyph.glyph()),
                expected,
            ),
            Token::Identifier(_) => {
                proof {
                    token.lemma_kind();
                }
                Self::unexpected_syntax(token.range(), UnexpectedSyntax::Identifier, expected)
            },
            Token::Number(_) => {
                proof {
                    token.lemma_kind();
                }
                Self::unexpected_syntax(token.range(), UnexpectedSyntax::Number, expected)
            },
            Token::Unexpected(unexpected) => Self::unexpected_syntax(
                token.range(),
                UnexpectedSyntax::Char(unexpected.unexpected()),
                expected,
            ),
            Token::End(end) => {
                let range = end.full_range();
                let diagnostic = Self::unexpected_ending(range.start(), expected);
                proof {
                    token.lemma_kind();
                }
                diagnostic
            },
        }
    }

    /// The parser ran into the end of the source document unexpectedly.
    pub fn unexpected_ending(position: Position, expected: ExpectedSyntax) -> (diagnostic:
        Diagnostic)
        ensures
            diagnostic.spec_range().start_index() == position@,
            diagnostic.spec_range().len() == 0,
            diagnostic.spec_error() == (ErrorDiagnosticMessage::UnexpectedEnding { expected }),
    {
        Self::error(Range::position(position), ErrorDiagnosticMessage::UnexpectedEnding { expected })
    }

    /// Could not find a declaration for an identifier.
    pub fn identifier_not_found(range: Range, identifier: Identifier) -> (diagnostic: Diagnostic)
        ensures
            diagnostic.spec_range() == range,
            diagnostic.spec_error() == (ErrorDiagnosticMessage::IdentifierNotFound { identifier }),
    {
        Self::error(range, ErrorDiagnosticMessage::IdentifierNotFound { identifier })
    }

    /// A declaration with this name already exists.
    ///
    /// The first range is the range of the duplicated name. The second range is the range of the
    /// declaration that was already declared.
    pub fn declaration_name_already_used(
        range: Range,
        identifier: Identifier,
        declaration_range: Range,
    ) -> (diagnostic: Diagnostic)
        ensures
            diagnostic.spec_range() == range,
            diagnostic.spec_error() == (ErrorDiagnosticMessage::DeclarationNameAlreadyUsed {
                identifier,
                declaration_range,
            }),
    {
        Self::error(
            range,
            ErrorDiagnosticMessage::DeclarationNameAlreadyUsed { identifier, declaration_range },
        )
    }

    /// While trying to type check a declaration we ended up checking ourselves.
    ///
    /// The first range is the range of the declaration which references itself.
    pub fn declaration_cycle_detected(
        range: Range,
        identifier: Identifier,
        declaration_range: Range,
    ) -> (diagnostic: Diagnostic)
        ensures
            diagnostic.spec_range() == range,
            diagnostic.spec_error() == (ErrorDiagnosticMessage::DeclarationCycleDetected {
                identifier,
                declaration_range,
            }),
    {
        Self::error(
            range,
            ErrorDiagnosticMessage::DeclarationCycleDetected { identifier, declaration_range },
        )
    }

    /// Tried to extend a declaration which is not a base class.
    ///
    /// The first range is the range of the bad extends name. The second range is the range of the
    /// declaration that is not a base class.
    pub fn can_only_extend_base_class(
        range: Range,
        identifier: Identifier,
        declaration_range: Range,
    ) -> (diagnostic: Diagnostic)
        ensures
            diagnostic.spec_range() == range,
            diagnostic.spec_error() == (ErrorDiagnosticMessage::CanOnlyExtendBaseClass {
                identifier,
                declaration_range,
            }),
    {
        Self::error(
            range,
            ErrorDiagnosticMessage::CanOnlyExtendBaseClass { identifier, declaration_range },
        )
    }

    /// We found two types that were incompatible with one another during subtyping.
    ///
    /// We will report the error at the first range. The second and third ranges will be used as
    /// related locations if the information is necessary.
    pub fn incompatible_types(
        range: Range,
        operation: OperationSnippet,
        type1: (Range, TypeKindSnippet),
        type2: (Range, TypeKindSnippet),
    ) -> (diagnostic: Diagnostic)
        ensures
            diagnostic.spec_range() == range,
            diagnostic.spec_error() == (ErrorDiagnosticMessage::IncompatibleTypes {
                operation,
                range1: type1.0,
                snippet1: type1.1,
                range2: type2.0,
                snippet2: type2.1,
            }),
    {
        Self::error(
            range,
            ErrorDiagnosticMessage::IncompatibleTypes {
                operation,
                range1: type1.0,
                snippet1: type1.1,
                range2: type2.0,
                snippet2: type2.1,
            },
        )
    }

    /// We found two functions that had different parameter list lengths.
    pub fn incompatible_function_parameter_lengths(
        range: Range,
        operation: OperationSnippet,
        function1: (Range, usize),
        function2: (Range, usize),
    ) -> (diagnostic: Diagnostic)
        ensures
            diagnostic.spec_range() == range,
            diagnostic.spec_error() == (
            ErrorDiagnosticMessage::IncompatibleFunctionParameterLengths {
                operation,
                range1: function1.0,
                len1: function1.1,
                range2: function2.0,
                len2: function2.1,
            }),
    {
        Self::error(
            range,
            ErrorDiagnosticMessage::IncompatibleFunctionParameterLengths {
                operation,
                range1: function1.0,
                len1: function1.1,
                range2: function2.0,
                len2: function2.1,
            },
        )
    }

    /// We found a pattern that needs a type annotation since we can’t infer one.
    pub fn missing_function_parameter_type(range: Range, pattern: PatternSnippet) -> (diagnostic:
        Diagnostic)
        ensures
            diagnostic.spec_range() == range,
            diagnostic.spec_error() == (ErrorDiagnosticMessage::MissingFunctionParameterType {
                pattern,
            }),
    {
        Self::error(range, ErrorDiagnosticMessage::MissingFunctionParameterType { pattern })
    }

    /// We found the programmer trying to call a type that is not a function.
    pub fn cannot_call(range: Range, callee_range: Range, callee_type: TypeKindSnippet) -> (diagnostic:
        Diagnostic)
        ensures
            diagnostic.spec_range() == range,
            diagnostic.spec_error() == (ErrorDiagnosticMessage::CannotCall {
                callee_range,
                callee_type,
            }),
    {
        Self::error(range, ErrorDiagnosticMessage::CannotCall { callee_range, callee_type })
    }
}



impl Diagnostic {
    /// Creates a human readable diagnostic message for a given diagnostic. Also may create some
    /// related information regarding the error. Remember that this generates a new message every
    /// time it is called instead of fetching a pre-generated message.
    pub fn message(&self) -> (message: (Markup, Vec<DiagnosticRelatedInformation>))
        ensures
            message.0@ == self.spec_message(),
            related_views(message.1@) == self.spec_related(),
    {
        match &self.message {
            DiagnosticMessage::Error(message) => self.error_message(message),
        }
    }

    /// Writes the message of the error `error_message`, reported where this diagnostic
    /// points, and collects the related information that goes with it.
    pub fn error_message(&self, error_message: &ErrorDiagnosticMessage) -> (message: (
        Markup,
        Vec<DiagnosticRelatedInformation>,
    ))
        ensures
            message.0@ == error_markup(self.spec_range(), *error_message),
            related_views(message.1@) == error_related(self.spec_range(), *error_message),
    {
        let mut message = Markup::new();
        let mut related_information: Vec<DiagnosticRelatedInformation> = Vec::new();
        assert(related_views(related_information@) =~= Seq::<RelatedView>::empty());
        match error_message {
            // - The message starts with what we wanted and ends with what we found. This gets to
            //   the resolution of the error message faster. In most cases the programmer only
            //   really needs to see “We want an expression” to know the solution.
            //
            // - Instead of “we found a `%` character” we print the message as “we have `%`”. The
            //   latter is shorter. It is also very hard to choose correctly between “a” and “an”
            //   for arbitrary user input.
            //
            // - For unexpected tokens when we expected a pattern we say “We want a variable
            //   name” because the word “pattern” is compiler speak.
            ErrorDiagnosticMessage::UnexpectedSyntax { unexpected, expected } => {
                message.text("We want ");
                expected.print(&mut message);
                let line_ends = match unexpected {
                    UnexpectedSyntax::Char(c) => *c == '\n' || *c == '\r',
                    _ => false,
                };
                if line_ends {
                    message.text(" but the line ends.");
                } else {
                    message.text(" but we have ");
                    unexpected.print(&mut message);
                    message.text(".");
                }
            },
            // Follows the same format as the unexpected token error. Except instead of saying “we
            // found the end of the file” we say “We want an expression but the file ends.” This
            // is less abstract than saying “we found the file’s end.”
            ErrorDiagnosticMessage::UnexpectedEnding { expected } => {
                message.text("We want ");
                expected.print(&mut message);
                message.text(" but the file ends.");
            },
            // We tell the user directly that the name they were looking for is missing. “does not
            // exist” is a bit harsh. Instead we use “can not find” which is simple and to the
            // point.
            ErrorDiagnosticMessage::IdentifierNotFound { identifier } => {
                message.text("Can not find ");
                message.code(identifier.as_str());
                message.text(".");
            },
            // Tell the programmer that they can not use their name a second time. We also make sure
            // that we point out the first place they use the declaration name in related
            // information in case the programmer is confused.
            ErrorDiagnosticMessage::DeclarationNameAlreadyUsed { identifier, declaration_range } => {
                message.text("Can not use the name ");
                message.code(identifier.as_str());
                message.text(" again.");
                related_identifier(&mut related_information, *declaration_range, identifier);
            },
            // We choose to use the range where we detected the cycle as the range for this
            // diagnostic and reference the declaration in related information. This way the user
            // can see where the cycle is formed.
            ErrorDiagnosticMessage::DeclarationCycleDetected { identifier, declaration_range } => {
                message.text("Can not use ");
                message.code(identifier.as_str());
                message.text(" because it would create a circular reference.");
                related_identifier(&mut related_information, *declaration_range, identifier);
            },
            // Tell the programmer they can’t extend the declaration because it is not a base class.
            // Make sure we point to the declaration in related information so the programmer can
            // see that, indeed, the declaration that is not a base class.
            ErrorDiagnosticMessage::CanOnlyExtendBaseClass { identifier, declaration_range } => {
                message.text("Can not extend ");
                message.code(identifier.as_str());
                message.text(" because it is not a base class.");
                related_identifier(&mut related_information, *declaration_range, identifier);
            },
            ErrorDiagnosticMessage::IncompatibleTypes {
                operation,
                range1,
                snippet1,
                range2,
                snippet2,
            } => {
                let returns_nothing = match (operation, snippet1) {
                    (OperationSnippet::FunctionReturnAnnotation(None), TypeKindSnippet::Void) => true,
                    _ => false,
                };
                if returns_nothing {
                    // A function that returns nothing where a value is needed gets words of its
                    // own: the message that would be written otherwise isn’t great.
                    message.text("We need ");
                    snippet2.print(&mut message, true);
                    message.text(" to be returned from this function.");
                    if !self.range.intersects(*range2) {
                        related_type(&mut related_information, *range2, snippet2);
                    }
                } else {
                    // We start our error message by referencing the operation. This allows us to
                    // tie our incompatibility _to an actual place in the programmer’s code_.
                    //
                    // We then tell the programmer the type we found and _then_ the type we
                    // expected.
                    //
                    // We use the related information to tell the user the exact location of the
                    // expected type. We also show them the exact location of the actual type, but
                    // only if our diagnostic wasn’t already pointing to the actual type.
                    operation.print(&mut message);
                    message.text(" because ");
                    snippet1.print(&mut message, true);
                    message.text(" is not ");
                    snippet2.print(&mut message, true);
                    message.text(".");
                    if !self.range.intersects(*range1) {
                        related_type(&mut related_information, *range1, snippet1);
                    }
                    if !self.range.intersects(*range2) {
                        related_type(&mut related_information, *range2, snippet2);
                    }
                }
            },
            // We tell the programmer we can not perform their operation because we don’t have the
            // right number of arguments. In related information we then point them to the
            // function we found and the function we expect.
            //
            // - We use the word “argument” over “parameter” since “argument” is more common.
            // - We don’t print out the two types since they would be really big.
            ErrorDiagnosticMessage::IncompatibleFunctionParameterLengths {
                operation,
                range1,
                len1,
                range2,
                len2,
            } => {
                operation.print(&mut message);
                message.text(" because we have ");
                argument_len(&mut message, *len1, true);
                if *len1 < *len2 {
                    message.text(" but we need ");
                } else {
                    message.text(" but we only need ");
                }
                argument_len(&mut message, *len2, false);
                message.text(".");
                if !self.range.intersects(*range1) {
                    related_argument_len(&mut related_information, *range1, *len1);
                }
                if !self.range.intersects(*range2) {
                    related_argument_len(&mut related_information, *range2, *len2);
                }
            },
            // We want a message here that helps the programmer know that they need to add a type
            // annotation without saying the word “annotation” since that falls in the category
            // of technical language the programmer doesn’t need to know.
            ErrorDiagnosticMessage::MissingFunctionParameterType { pattern } => {
                message.text("We need a type for ");
                let mut code = String::new();
                pattern.print(&mut code);
                assert(code@ =~= pattern.text());
                message.code(code.as_str());
                message.text(".");
            },
            // Tell the user we cannot call their type which is not a function. Also point to where
            // that type is defined.
            ErrorDiagnosticMessage::CannotCall { callee_range, callee_type } => {
                message.text("Cannot call ");
                callee_type.print(&mut message, true);
                message.text(".");
                if !self.range.intersects(*callee_range) {
                    related_type(&mut related_information, *callee_range, callee_type);
                }
            },
        }
        assert(message@ =~= error_markup(self.spec_range(), *error_message));
        assert(related_views(related_information@) =~= error_related(
            self.spec_range(),
            *error_message,
        ));
        (message, related_information)
    }

    /// How the diagnostic reads on one line: its range in round brackets, then its message.
    pub open spec fn simple_text(&self, document: &Document) -> Seq<char> {
        "("@ + range_text(document, self.spec_range()) + ") "@ + simple_string(
            self.spec_message(),
        )
    }

    /// Writes the diagnostic on one line: its range in round brackets, then its message.
    pub fn to_simple_string(&self, document: &Document) -> (text: String)
        ensures
            text@ == self.simple_text(document),
    {
        let (message, _) = self.message();
        let mut text = String::from_str("(");
        text.append(self.range.display(document).as_str());
        text.append(") ");
        text.append(message.to_simple_string().as_str());
        assert(text@ =~= self.simple_text(document));
        text
    }
}

/// A reference to a diagnostic. Can only be created by calling `DiagnosticsCollection::report()` so
/// it forces the programmer to report a diagnostic before being able to use a `DiagnosticRef`.
#[derive(Clone, Debug, PartialEq, Eq)]
pub struct DiagnosticRef(Rc<Diagnostic>);

impl View for DiagnosticRef {
    type V = Diagnostic;

    /// The diagnostic that the reference points to.
    closed spec fn view(&self) -> Diagnostic {
        *self.0
    }
}

impl DiagnosticRef {
    /// The diagnostic that the reference points to.
    pub fn diagnostic(&self) -> (diagnostic: &Diagnostic)
        ensures
            *diagnostic == self@,
    {
        &self.0
    }
}

/// `Rc::clone` of std makes one more pointer to the same value.
#[verifier::external_body]
fn rc_clone(rc: &Rc<Diagnostic>) -> (copy: Rc<Diagnostic>)
    ensures
        copy == rc,
{
    Rc::clone(rc)
}

/// A collection of diagnostics.
pub struct DiagnosticsCollection {
    diagnostics: Vec<Rc<Diagnostic>>,
}

impl View for DiagnosticsCollection {
    type V = Seq<Diagnostic>;

    /// The diagnostics that were reported, in the order in which they were.
    closed spec fn view(&self) -> Seq<Diagnostic> {
        Seq::new(self.diagnostics@.len(), |i: int| *self.diagnostics@[i])
    }
}

/// How reported diagnostics read as a list: a line for each diagnostic, and under it an
/// indented line for each piece of its related information.
pub open spec fn markdown_text(document: &Document, diagnostics: Seq<Diagnostic>) -> Seq<char>
    decreases diagnostics.len(),
{
    if diagnostics.len() == 0 {
        Seq::empty()
    } else {
        markdown_text(document, diagnostics.drop_last()) + "- "@
            + diagnostics.last().simple_text(document) + "\n"@ + related_markdown_text(
            document,
            diagnostics.last().spec_related(),
        )
    }
}

/// How related information reads in the list: an indented line for each piece.
pub open spec fn related_markdown_text(document: &Document, related: Seq<RelatedView>) -> Seq<char>
    decreases related.len(),
{
    if related.len() == 0 {
        Seq::empty()
    } else {
        related_markdown_text(document, related.drop_last()) + "  - ("@ + range_text(
            document,
            related.last().range,
        ) + ") "@ + simple_string(related.last().message) + "\n"@
    }
}

impl DiagnosticsCollection {
    /// Creates a new diagnostic collection.
    pub fn new() -> (collection: DiagnosticsCollection)
        ensures
            collection@ == Seq::<Diagnostic>::empty(),
    {
        let collection = DiagnosticsCollection { diagnostics: Vec::new() };
        assert(collection@ =~= Seq::<Diagnostic>::empty());
        collection
    }

    /// Reports a diagnostic in our diagnostic collection.
    pub fn report(&mut self, diagnostic: Diagnostic) -> (reference: DiagnosticRef)
        ensures
            final(self)@ == old(self)@.push(diagnostic),
            reference@ == diagnostic,
    {
        let diagnostic = Rc::new(diagnostic);
        self.diagnostics.push(rc_clone(&diagnostic));
        assert(self@ =~= old(self)@.push(*diagnostic));
        DiagnosticRef(diagnostic)
    }

    /// Is this diagnostic collection empty?
    pub fn is_empty(&self) -> (empty: bool)
        ensures
            empty == (self@.len() == 0),
    {
        self.diagnostics.len() == 0
    }

    /// The number of diagnostics that were reported.
    pub fn len(&self) -> (len: usize)
        ensures
            len == self@.len(),
    {
        self.diagnostics.len()
    }

    /// The diagnostic that was reported as number `index`, counted from zero.
    pub fn get(&self, index: usize) -> (diagnostic: &Diagnostic)
        requires
            index < self@.len(),
        ensures
            *diagnostic == self@[index as int],
    {
        &self.diagnostics[index]
    }

    /// Prints our diagnostic collection to a markdown list for debugging purposes.
    pub fn markdown_list(&self, document: &Document) -> (output: String)
        ensures
            output@ == markdown_text(document, self@),
    {
        let mut output = String::new();
        let mut i: usize = 0;
        while i < self.diagnostics.len()
            invariant
                i <= self.diagnostics@.len(),
                output@ == markdown_text(document, self@.subrange(0, i as int)),
            decreases self.diagnostics@.len() - i,
        {
            let diagnostic = &self.diagnostics[i];
            let ghost before = output@;
            proof {
                assert(self@.subrange(0, i + 1).drop_last() =~= self@.subrange(0, i as int));
                assert(self@.subrange(0, i + 1).last() == **diagnostic);
            }
            let (_, related_information) = diagnostic.message();
            output.append("- ");
            output.append(diagnostic.to_simple_string(document).as_str());
            output.append("\n");
            let ghost line = output@;
            let ghost related = related_views(related_information@);
            assert(line =~= before + "- "@ + diagnostic.simple_text(document) + "\n"@);
            let mut j: usize = 0;
            while j < related_information.len()
                invariant
                    j <= related_information@.len(),
                    related == related_views(related_information@),
                    output@ == line + related_markdown_text(document, related.subrange(0, j as int)),
                decreases related_information@.len() - j,
            {
                let info = &related_information[j];
                let ghost inner = output@;
                proof {
                    assert(related.subrange(0, j + 1).drop_last() =~= related.subrange(
                        0,
                        j as int,
                    ));
                    assert(related.subrange(0, j + 1).last() == info@);
                }
                output.append("  - (");
                output.append(info.range().display(document).as_str());
                output.append(") ");
                output.append(info.message().to_simple_string().as_str());
                output.append("\n");
                assert(output@ =~= inner + "  - ("@ + range_text(document, info@.range) + ") "@
                    + simple_string(info@.message) + "\n"@);
                j += 1;
            }
            assert(related.subrange(0, j as int) =~= related);
            i += 1;
        }
        assert(self@.subrange(0, i as int) =~= self@);
        output
    }
}

} // verus!
