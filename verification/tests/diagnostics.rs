use brite::diagnostics::{
    cardinal, Diagnostic, DiagnosticsCollection, ExpectedSyntax, ExpressionSnippet,
    OperationSnippet, OperatorSnippet, PatternSnippet, StatementSnippet, TypeKindSnippet,
    UnexpectedSyntax, VecSnippet,
};
use brite::language::{Constant, LogicalOperator, PrefixOperator};
use brite::source::document::{Document, Position, Range};
use brite::source::identifier::{Identifier, IdentifierKeyword};
use brite::source::lexer::Lexer;
use brite::source::number::Number;
use brite::source::token::Glyph;
use brite::utils::markup::Markup;
use brite::utils::text::push_decimal;

fn document(text: &str) -> Document {
    Document::new("/path/to/document.txt".into(), text.into())
}

fn range(start: u32, length: u32) -> Range {
    Range::new(Position::new(start), length)
}

fn identifier(name: &str) -> Identifier {
    Identifier::new(String::from(name))
}

fn reference(name: &str) -> ExpressionSnippet {
    ExpressionSnippet::Reference(identifier(name))
}

fn binding(name: &str) -> PatternSnippet {
    PatternSnippet::Binding(identifier(name))
}

fn message(diagnostic: &Diagnostic) -> String {
    diagnostic.message().0.to_simple_string()
}

fn related(diagnostic: &Diagnostic) -> Vec<(Range, String)> {
    diagnostic
        .message()
        .1
        .iter()
        .map(|info| (info.range(), info.message().to_simple_string()))
        .collect()
}

#[test]
fn message_unexpected_syntax() {
    let diagnostic = Diagnostic::unexpected_syntax(
        range(0, 1),
        UnexpectedSyntax::Glyph(Glyph::Equals),
        ExpectedSyntax::Pattern,
    );
    assert_eq!(message(&diagnostic), "We want a variable name but we have `=`.");
    assert_eq!(diagnostic.range, range(0, 1));
    assert_eq!(diagnostic.range(), range(0, 1));
    assert!(related(&diagnostic).is_empty());
    let diagnostic = Diagnostic::unexpected_syntax(
        range(0, 1),
        UnexpectedSyntax::Identifier,
        ExpectedSyntax::Glyph(Glyph::ParenRight),
    );
    assert_eq!(message(&diagnostic), "We want `)` but we have a variable name.");
    let diagnostic = Diagnostic::unexpected_syntax(
        range(0, 1),
        UnexpectedSyntax::Number,
        ExpectedSyntax::Identifier,
    );
    assert_eq!(message(&diagnostic), "We want a name but we have a number.");
}

#[test]
fn message_unexpected_char() {
    let diagnostic =
        Diagnostic::unexpected_char(Position::new(3), '%', ExpectedSyntax::Expression);
    assert_eq!(message(&diagnostic), "We want an expression but we have `%`.");
    assert_eq!(diagnostic.range, range(3, 1));
    let diagnostic =
        Diagnostic::unexpected_char(Position::new(3), '\u{1F701}', ExpectedSyntax::BinaryDigit);
    assert_eq!(message(&diagnostic), "We want a binary digit but we have `\u{1F701}`.");
    assert_eq!(diagnostic.range, range(3, 4));
    let diagnostic = Diagnostic::unexpected_char(Position::new(3), '\n', ExpectedSyntax::DecimalDigit);
    assert_eq!(message(&diagnostic), "We want a number but the line ends.");
    let diagnostic =
        Diagnostic::unexpected_char(Position::new(3), '\r', ExpectedSyntax::HexadecimalDigit);
    assert_eq!(message(&diagnostic), "We want a hexadecimal digit but the line ends.");
    let diagnostic =
        Diagnostic::unexpected_char(Position::new(3), '\t', ExpectedSyntax::BlockCommentEnd);
    assert_eq!(message(&diagnostic), "We want `*/` but we have `\\t`.");
}

#[test]
fn message_unexpected_token() {
    let document = document("x 1 = # ");
    let tokens = Lexer::tokens(&document);
    let messages: Vec<String> = tokens
        .iter()
        .map(|token| message(&Diagnostic::unexpected_token(token, ExpectedSyntax::Statement)))
        .collect();
    assert_eq!(
        messages,
        vec![
            "We want a statement but we have a variable name.",
            "We want a statement but we have a number.",
            "We want a statement but we have `=`.",
            "We want a statement but we have `#`.",
            "We want a statement but the file ends.",
        ]
    );
    let ranges: Vec<Range> = tokens
        .iter()
        .map(|token| Diagnostic::unexpected_token(token, ExpectedSyntax::Statement).range)
        .collect();
    assert_eq!(ranges, vec![range(0, 1), range(2, 1), range(4, 1), range(6, 1), range(8, 0)]);
}

#[test]
fn message_unexpected_ending() {
    let diagnostic = Diagnostic::unexpected_ending(Position::new(9), ExpectedSyntax::Type);
    assert_eq!(message(&diagnostic), "We want a type but the file ends.");
    assert_eq!(diagnostic.range, range(9, 0));
    let diagnostic = Diagnostic::unexpected_ending(
        Position::new(9),
        ExpectedSyntax::IdentifierKeyword(IdentifierKeyword::Base),
    );
    assert_eq!(message(&diagnostic), "We want `base` but the file ends.");
    let diagnostic = Diagnostic::unexpected_ending(Position::new(9), ExpectedSyntax::Declaration);
    assert_eq!(message(&diagnostic), "We want a function but the file ends.");
    let diagnostic = Diagnostic::unexpected_ending(Position::new(9), ExpectedSyntax::ClassMember);
    assert_eq!(message(&diagnostic), "We want a function but the file ends.");
}

#[test]
fn message_identifiers() {
    let diagnostic = Diagnostic::identifier_not_found(range(1, 2), identifier("foo"));
    assert_eq!(message(&diagnostic), "Can not find `foo`.");
    assert!(related(&diagnostic).is_empty());
    let diagnostic =
        Diagnostic::declaration_name_already_used(range(1, 2), identifier("foo"), range(9, 3));
    assert_eq!(message(&diagnostic), "Can not use the name `foo` again.");
    assert_eq!(related(&diagnostic), vec![(range(9, 3), String::from("`foo`"))]);
    let diagnostic =
        Diagnostic::declaration_cycle_detected(range(1, 2), identifier("foo"), range(9, 3));
    assert_eq!(
        message(&diagnostic),
        "Can not use `foo` because it would create a circular reference."
    );
    assert_eq!(related(&diagnostic), vec![(range(9, 3), String::from("`foo`"))]);
    let diagnostic =
        Diagnostic::can_only_extend_base_class(range(1, 2), identifier("foo"), range(9, 3));
    assert_eq!(message(&diagnostic), "Can not extend `foo` because it is not a base class.");
    assert_eq!(related(&diagnostic), vec![(range(9, 3), String::from("`foo`"))]);
}

#[test]
fn message_incompatible_types() {
    let diagnostic = Diagnostic::incompatible_types(
        range(0, 5),
        OperationSnippet::FunctionCall(reference("f")),
        (range(2, 1), TypeKindSnippet::Boolean),
        (range(20, 3), TypeKindSnippet::Integer),
    );
    assert_eq!(message(&diagnostic), "Can not call `f` because a `Bool` is not an `Int`.");
    // The diagnostic already points at the first type, so only the second is related.
    assert_eq!(related(&diagnostic), vec![(range(20, 3), String::from("`Int`"))]);
    let diagnostic = Diagnostic::incompatible_types(
        range(0, 5),
        OperationSnippet::BindingStatementAnnotation(binding("x"), reference("y")),
        (range(10, 1), TypeKindSnippet::Function),
        (range(20, 3), TypeKindSnippet::Never),
    );
    assert_eq!(message(&diagnostic), "Can not set `x` to `y` because a function is not `Never`.");
    assert_eq!(
        related(&diagnostic),
        vec![(range(10, 1), String::from("function")), (range(20, 3), String::from("`Never`"))]
    );
    let diagnostic = Diagnostic::incompatible_types(
        range(0, 5),
        OperationSnippet::ExpressionAnnotation(reference("y")),
        (range(0, 1), TypeKindSnippet::Number),
        (range(5, 3), TypeKindSnippet::Float),
    );
    assert_eq!(
        message(&diagnostic),
        "Can not change the type of `y` because a `Num` is not a `Float`."
    );
    assert!(related(&diagnostic).is_empty());
    let diagnostic = Diagnostic::incompatible_types(
        range(0, 5),
        OperationSnippet::OperatorExpression(OperatorSnippet::And),
        (range(0, 1), TypeKindSnippet::Void),
        (range(5, 3), TypeKindSnippet::Boolean),
    );
    assert_eq!(message(&diagnostic), "Can not use `&&` because `Void` is not a `Bool`.");
}

#[test]
fn message_function_returns_nothing() {
    let diagnostic = Diagnostic::incompatible_types(
        range(0, 5),
        OperationSnippet::FunctionReturnAnnotation(None),
        (range(2, 1), TypeKindSnippet::Void),
        (range(20, 3), TypeKindSnippet::Integer),
    );
    assert_eq!(message(&diagnostic), "We need an `Int` to be returned from this function.");
    assert_eq!(related(&diagnostic), vec![(range(20, 3), String::from("`Int`"))]);
    let diagnostic = Diagnostic::incompatible_types(
        range(0, 5),
        OperationSnippet::FunctionReturnAnnotation(None),
        (range(2, 1), TypeKindSnippet::Void),
        (range(4, 3), TypeKindSnippet::Integer),
    );
    assert!(related(&diagnostic).is_empty());
    // Without a void type the message is the ordinary one.
    let diagnostic = Diagnostic::incompatible_types(
        range(0, 5),
        OperationSnippet::FunctionReturnAnnotation(None),
        (range(2, 1), TypeKindSnippet::Boolean),
        (range(4, 3), TypeKindSnippet::Integer),
    );
    assert_eq!(message(&diagnostic), "Can not return nothing because a `Bool` is not an `Int`.");
    let diagnostic = Diagnostic::incompatible_types(
        range(0, 5),
        OperationSnippet::FunctionReturnAnnotation(Some(StatementSnippet::Binding(
            binding("x"),
            reference("y"),
        ))),
        (range(2, 1), TypeKindSnippet::Void),
        (range(4, 3), TypeKindSnippet::Integer),
    );
    assert_eq!(
        message(&diagnostic),
        "Can not return `let x = y` because `Void` is not an `Int`."
    );
}

#[test]
fn message_parameter_lengths() {
    let diagnostic = Diagnostic::incompatible_function_parameter_lengths(
        range(0, 5),
        OperationSnippet::FunctionCall(reference("f")),
        (range(10, 1), 1),
        (range(20, 3), 3),
    );
    assert_eq!(
        message(&diagnostic),
        "Can not call `f` because we have one argument but we need three."
    );
    assert_eq!(
        related(&diagnostic),
        vec![
            (range(10, 1), String::from("one argument")),
            (range(20, 3), String::from("three arguments")),
        ]
    );
    let diagnostic = Diagnostic::incompatible_function_parameter_lengths(
        range(0, 5),
        OperationSnippet::FunctionCall(reference("f")),
        (range(0, 1), 21),
        (range(20, 3), 0),
    );
    assert_eq!(
        message(&diagnostic),
        "Can not call `f` because we have 21 arguments but we only need zero."
    );
    assert_eq!(related(&diagnostic), vec![(range(20, 3), String::from("zero arguments"))]);
    let diagnostic = Diagnostic::incompatible_function_parameter_lengths(
        range(0, 5),
        OperationSnippet::FunctionCall(reference("f")),
        (range(0, 1), 2),
        (range(2, 3), 2),
    );
    assert_eq!(
        message(&diagnostic),
        "Can not call `f` because we have two arguments but we only need two."
    );
}

#[test]
fn message_missing_type_and_cannot_call() {
    let diagnostic = Diagnostic::missing_function_parameter_type(range(0, 1), binding("x"));
    assert_eq!(message(&diagnostic), "We need a type for `x`.");
    let diagnostic = Diagnostic::cannot_call(range(0, 4), range(10, 1), TypeKindSnippet::Integer);
    assert_eq!(message(&diagnostic), "Cannot call an `Int`.");
    assert_eq!(related(&diagnostic), vec![(range(10, 1), String::from("`Int`"))]);
    let diagnostic = Diagnostic::cannot_call(range(0, 4), range(4, 1), TypeKindSnippet::Void);
    assert_eq!(message(&diagnostic), "Cannot call `Void`.");
    assert!(related(&diagnostic).is_empty());
}

#[test]
fn error_message_of_another_error() {
    let diagnostic = Diagnostic::identifier_not_found(range(1, 2), identifier("foo"));
    let other = Diagnostic::cannot_call(range(0, 4), range(4, 1), TypeKindSnippet::Number);
    let (markup, related) = diagnostic.message();
    assert_eq!(markup.to_simple_string(), "Can not find `foo`.");
    assert!(related.is_empty());
    assert_eq!(message(&other), "Cannot call a `Num`.");
}

#[test]
fn snippets_print() {
    let mut code = String::from("> ");
    ExpressionSnippet::Logical(
        Box::new(ExpressionSnippet::Prefix(PrefixOperator::Not, Box::new(reference("a")))),
        LogicalOperator::Or,
        Box::new(ExpressionSnippet::Call(Box::new(reference("f")))),
    )
    .print(&mut code);
    assert_eq!(code, "> !a || f()");
    let print = |snippet: ExpressionSnippet| {
        let mut code = String::new();
        snippet.print(&mut code);
        code
    };
    assert_eq!(print(ExpressionSnippet::Block), "do { ... }");
    assert_eq!(print(ExpressionSnippet::Constant(Constant::Boolean(true))), "true");
    assert_eq!(print(ExpressionSnippet::Constant(Constant::Boolean(false))), "false");
    assert_eq!(
        print(ExpressionSnippet::Constant(Constant::Number(Number::new(String::from("0x2A"))))),
        "0x2A"
    );
    assert_eq!(print(ExpressionSnippet::Function(VecSnippet::Vec0)), "fun() { ... }");
    assert_eq!(print(ExpressionSnippet::Function(VecSnippet::Vec1(binding("a")))), "fun(a) { ... }");
    assert_eq!(
        print(ExpressionSnippet::Function(VecSnippet::Vec2(binding("a"), binding("b")))),
        "fun(a, b) { ... }"
    );
    assert_eq!(
        print(ExpressionSnippet::Function(VecSnippet::VecN(binding("a"), binding("b")))),
        "fun(a, b, ...) { ... }"
    );
    assert_eq!(
        print(ExpressionSnippet::Prefix(PrefixOperator::Negative, Box::new(reference("a")))),
        "-a"
    );
    assert_eq!(
        print(ExpressionSnippet::Prefix(PrefixOperator::Positive, Box::new(reference("a")))),
        "+a"
    );
    assert_eq!(
        print(ExpressionSnippet::Logical(
            Box::new(reference("a")),
            LogicalOperator::And,
            Box::new(reference("b"))
        )),
        "a && b"
    );
    let mut code = String::new();
    StatementSnippet::Expression(reference("a")).print(&mut code);
    binding("b").print(&mut code);
    assert_eq!(code, "ab");
    let snippet = ExpressionSnippet::Call(Box::new(reference("f")));
    assert_eq!(snippet.clone(), snippet);
    assert_eq!(binding("b").clone(), binding("b"));
}

#[test]
fn snippets_print_markup() {
    let mut markup = Markup::new();
    TypeKindSnippet::Integer.print(&mut markup, true);
    markup.text(" / ");
    TypeKindSnippet::Integer.print(&mut markup, false);
    markup.text(" / ");
    TypeKindSnippet::Function.print(&mut markup, false);
    markup.text(" / ");
    UnexpectedSyntax::Char('x').print(&mut markup);
    markup.text(" / ");
    ExpectedSyntax::Glyph(Glyph::BraceLeft).print(&mut markup);
    markup.text(" / ");
    OperationSnippet::OperatorExpression(OperatorSnippet::Not).print(&mut markup);
    markup.text(" / ");
    OperationSnippet::OperatorExpression(OperatorSnippet::Or).print(&mut markup);
    markup.code("a`b");
    assert_eq!(
        markup.to_simple_string(),
        "an `Int` / `Int` / function / `x` / `{` / Can not use `!` / Can not use `||``a`b`"
    );
    assert_eq!(Markup::new().to_simple_string(), "");
}

#[test]
fn cardinal_numbers() {
    assert_eq!(cardinal(0), Some("zero"));
    assert_eq!(cardinal(1), Some("one"));
    assert_eq!(cardinal(7), Some("seven"));
    assert_eq!(cardinal(13), Some("thirteen"));
    assert_eq!(cardinal(20), Some("twenty"));
    assert_eq!(cardinal(21), None);
    assert_eq!(cardinal(usize::MAX), None);
}

#[test]
fn decimal_numbers() {
    let decimal = |n: u64| {
        let mut text = String::from("#");
        push_decimal(&mut text, n);
        text
    };
    assert_eq!(decimal(0), "#0");
    assert_eq!(decimal(7), "#7");
    assert_eq!(decimal(10), "#10");
    assert_eq!(decimal(1234567890), "#1234567890");
    assert_eq!(decimal(u64::MAX), "#18446744073709551615");
}

#[test]
fn vec_snippet_from_iter() {
    assert_eq!(VecSnippet::from_iter(Vec::<u8>::new().into_iter()), VecSnippet::Vec0);
    assert_eq!(VecSnippet::from_iter(vec![1].into_iter()), VecSnippet::Vec1(1));
    assert_eq!(VecSnippet::from_iter(vec![1, 2].into_iter()), VecSnippet::Vec2(1, 2));
    assert_eq!(VecSnippet::from_iter(vec![1, 2, 3].into_iter()), VecSnippet::VecN(1, 2));
    // At most three items are taken from the iterator.
    let mut iter = vec![1, 2, 3, 4, 5].into_iter();
    assert_eq!(VecSnippet::from_iter(&mut iter), VecSnippet::VecN(1, 2));
    assert_eq!(iter.next(), Some(4));
}

#[test]
fn collection_reports() {
    let mut collection = DiagnosticsCollection::new();
    assert!(collection.is_empty());
    assert_eq!(collection.len(), 0);
    let first = collection.report(Diagnostic::identifier_not_found(range(0, 3), identifier("foo")));
    assert!(!collection.is_empty());
    let second = collection.report(Diagnostic::cannot_call(
        range(4, 3),
        range(10, 1),
        TypeKindSnippet::Integer,
    ));
    assert_eq!(collection.len(), 2);
    // A reference points to the diagnostic that was reported.
    assert_eq!(first.diagnostic(), collection.get(0));
    assert_eq!(second.diagnostic(), collection.get(1));
    assert_eq!(first.clone(), first);
    assert_eq!(first.diagnostic().range, range(0, 3));
    assert_eq!(message(second.diagnostic()), "Cannot call an `Int`.");
}

#[test]
fn collection_markdown_list() {
    let document = document("foo\nbar(1)\n\nf");
    let mut collection = DiagnosticsCollection::new();
    assert_eq!(collection.markdown_list(&document), "");
    collection.report(Diagnostic::identifier_not_found(range(0, 3), identifier("foo")));
    collection.report(Diagnostic::incompatible_types(
        range(4, 6),
        OperationSnippet::FunctionCall(reference("bar")),
        (range(0, 3), TypeKindSnippet::Boolean),
        (range(12, 1), TypeKindSnippet::Integer),
    ));
    collection.report(Diagnostic::unexpected_ending(Position::new(13), ExpectedSyntax::Expression));
    assert_eq!(
        collection.markdown_list(&document),
        "- (1:1-1:4) Can not find `foo`.\n\
         - (2:1-2:7) Can not call `bar` because a `Bool` is not an `Int`.\n\
         \x20 - (1:1-1:4) `Bool`\n\
         \x20 - (4:1-4:2) `Int`\n\
         - (4:2) We want an expression but the file ends.\n"
    );
    assert_eq!(
        collection.get(2).to_simple_string(&document),
        "(4:2) We want an expression but the file ends."
    );
}
