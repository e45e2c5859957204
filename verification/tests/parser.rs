use brite::diagnostics::DiagnosticsCollection;
use brite::source::ast::{
    Constant, Expression, GlyphNode, IdentifierNode, Item, Module, Pattern, Statement,
};
use brite::source::document::{Document, Position, Range};
use brite::source::lexer::Lexer;
use brite::source::parse;
use brite::source::parser::{starts, Parser};
use brite::source::recovery::RecoverySet;
use brite::source::token::{Glyph, Token};
use brite::diagnostics::ExpectedSyntax;

fn document(text: &str) -> Document {
    Document::new("/path/to/document.txt".into(), text.into())
}

/// Parses `text` and checks what holds of every document: the tree gives back the tokens of
/// the document, and no scope is left open.
fn parse_checked(text: &str) -> (Document, DiagnosticsCollection, Module) {
    let document = document(text);
    let tokens = Lexer::tokens(&document);
    let (_, module) = parse(&document);
    assert_eq!(module.into_tokens(), tokens, "in {:?}", text);
    let (diagnostics, module) = Parser::parse(Lexer::new(&document));
    assert_eq!(module.into_tokens(), tokens, "in {:?}", text);
    assert_eq!(messages(&document, &diagnostics), messages(&document, &parse(&document).0));
    let (diagnostics, module) = parse(&document);
    (document, diagnostics, module)
}

fn messages(document: &Document, diagnostics: &DiagnosticsCollection) -> Vec<String> {
    (0..diagnostics.len()).map(|i| diagnostics.get(i).to_simple_string(document)).collect()
}

fn statement(module: &Module, index: usize) -> &Statement {
    match &module.items()[index] {
        Item::Statement(statement) => statement,
    }
}

fn name(expression: &Expression) -> &str {
    match expression {
        Expression::Variable(variable) => variable.identifier().identifier().as_str(),
        other => panic!("not a variable: {:?}", other),
    }
}

#[test]
fn parse_missing_pattern() {
    let (document, diagnostics, module) = parse_checked("let = 1;");
    assert_eq!(
        messages(&document, &diagnostics),
        vec!["(1:5-1:6) We want a variable name but we have `=`."]
    );
    assert_eq!(module.items().len(), 1);
    let binding = match statement(&module, 0) {
        Statement::Binding(binding) => binding,
        other => panic!("not a binding: {:?}", other),
    };
    assert!(binding.let_().glyph() == Glyph::Keyword(brite::source::identifier::Keyword::Let));
    match binding.pattern() {
        Pattern::Error(error) => {
            assert_eq!(error.error().skipped().len(), 0);
            assert!(error.recovered().is_none());
            // The error stands at the position before the equals sign, and covers nothing.
            assert_eq!(error.error().range(), Range::new(Position::new(4), 0));
            assert_eq!(error.error().diagnostic_ref().diagnostic(), diagnostics.get(0));
        }
        other => panic!("not an error: {:?}", other),
    }
    match binding.equals() {
        GlyphNode::Found(token) => assert_eq!(token.glyph(), Glyph::Equals),
        other => panic!("not found: {:?}", other),
    }
    match binding.value() {
        Expression::Constant(Constant::Number(number)) => {
            assert_eq!(number.token().number().as_str(), "1")
        }
        other => panic!("not a number: {:?}", other),
    }
    assert_eq!(binding.semicolon().as_ref().unwrap().glyph(), Glyph::Semicolon);
}

#[test]
fn parse_binding() {
    let (_, diagnostics, module) = parse_checked("let x = y;");
    assert!(diagnostics.is_empty());
    assert_eq!(module.items().len(), 1);
    match statement(&module, 0) {
        Statement::Binding(binding) => {
            match binding.pattern() {
                Pattern::Variable(variable) => {
                    assert_eq!(variable.identifier().identifier().as_str(), "x")
                }
                other => panic!("not a variable: {:?}", other),
            }
            assert_eq!(name(binding.value()), "y");
        }
        other => panic!("not a binding: {:?}", other),
    }
}

#[test]
fn parse_hole_pattern_and_missing_semicolon() {
    let (_, diagnostics, module) = parse_checked("let _ = true");
    assert!(diagnostics.is_empty());
    match statement(&module, 0) {
        Statement::Binding(binding) => {
            assert!(matches!(binding.pattern(), Pattern::Hole(_)));
            match binding.value() {
                Expression::Constant(Constant::Boolean(constant)) => assert!(constant.value()),
                other => panic!("not a boolean: {:?}", other),
            }
            assert!(binding.semicolon().is_none());
        }
        other => panic!("not a binding: {:?}", other),
    }
}

#[test]
fn parse_expression_statements() {
    let (_, diagnostics, module) = parse_checked("a; b\nfalse;");
    assert!(diagnostics.is_empty());
    assert_eq!(module.items().len(), 3);
    for (index, expected) in ["a", "b"].iter().enumerate() {
        match statement(&module, index) {
            Statement::Expression(statement) => assert_eq!(&name(statement.expression()), expected),
            other => panic!("not an expression: {:?}", other),
        }
    }
    match statement(&module, 2) {
        Statement::Expression(statement) => match statement.expression() {
            Expression::Constant(Constant::Boolean(constant)) => assert!(!constant.value()),
            other => panic!("not a boolean: {:?}", other),
        },
        other => panic!("not an expression: {:?}", other),
    }
}

#[test]
fn parse_conditional() {
    let (_, diagnostics, module) = parse_checked("if a { b; } else { c }");
    assert!(diagnostics.is_empty());
    match statement(&module, 0) {
        Statement::Expression(statement) => match statement.expression() {
            Expression::Conditional(conditional) => {
                assert_eq!(name(conditional.test()), "a");
                assert_eq!(conditional.consequent().items().len(), 1);
                let alternate = conditional.alternate().as_ref().unwrap();
                assert_eq!(alternate.block().items().len(), 1);
                assert!(matches!(alternate.block().brace_right(), GlyphNode::Found(_)));
            }
            other => panic!("not a conditional: {:?}", other),
        },
        other => panic!("not an expression: {:?}", other),
    }
    let (_, diagnostics, module) = parse_checked("if a {}");
    assert!(diagnostics.is_empty());
    match statement(&module, 0) {
        Statement::Expression(statement) => match statement.expression() {
            Expression::Conditional(conditional) => {
                assert!(conditional.alternate().is_none());
                assert_eq!(conditional.consequent().items().len(), 0);
            }
            other => panic!("not a conditional: {:?}", other),
        },
        other => panic!("not an expression: {:?}", other),
    }
}

#[test]
fn parse_block_and_wrapped() {
    let (_, diagnostics, module) = parse_checked("do { let x = (y); x }");
    assert!(diagnostics.is_empty());
    match statement(&module, 0) {
        Statement::Expression(statement) => match statement.expression() {
            Expression::Block(block) => {
                assert_eq!(block.block().items().len(), 2);
                match &block.block().items()[0] {
                    Item::Statement(Statement::Binding(binding)) => match binding.value() {
                        Expression::Wrapped(wrapped) => {
                            assert_eq!(name(wrapped.expression()), "y");
                            assert!(matches!(wrapped.paren_right(), GlyphNode::Found(_)));
                        }
                        other => panic!("not wrapped: {:?}", other),
                    },
                    other => panic!("not a binding: {:?}", other),
                }
            }
            other => panic!("not a block: {:?}", other),
        },
        other => panic!("not an expression: {:?}", other),
    }
}

#[test]
fn parse_property_and_call() {
    let (_, diagnostics, module) = parse_checked("a.b(c, d,).e()");
    assert!(diagnostics.is_empty());
    assert_eq!(module.items().len(), 1);
    let expression = match statement(&module, 0) {
        Statement::Expression(statement) => statement.expression(),
        other => panic!("not an expression: {:?}", other),
    };
    let call = match expression {
        Expression::Call(call) => call,
        other => panic!("not a call: {:?}", other),
    };
    assert_eq!(call.arguments().len(), 0);
    let property = match call.callee() {
        Expression::Property(property) => property,
        other => panic!("not a property: {:?}", other),
    };
    match property.property() {
        IdentifierNode::Found(token) => assert_eq!(token.identifier().as_str(), "e"),
        other => panic!("not found: {:?}", other),
    }
    let call = match property.object() {
        Expression::Call(call) => call,
        other => panic!("not a call: {:?}", other),
    };
    assert_eq!(call.arguments().len(), 2);
    assert_eq!(name(call.arguments()[0].item()), "c");
    assert_eq!(name(call.arguments()[1].item()), "d");
    // The list has a trailing comma.
    assert!(matches!(call.arguments()[1].comma(), Some(GlyphNode::Found(_))));
    match call.callee() {
        Expression::Property(property) => assert_eq!(name(property.object()), "a"),
        other => panic!("not a property: {:?}", other),
    }
}

#[test]
fn parse_call_needs_the_same_line() {
    let (_, diagnostics, module) = parse_checked("f\n(a)");
    assert!(diagnostics.is_empty());
    assert_eq!(module.items().len(), 2);
    match statement(&module, 1) {
        Statement::Expression(statement) => {
            assert!(matches!(statement.expression(), Expression::Wrapped(_)))
        }
        other => panic!("not an expression: {:?}", other),
    }
    let (_, diagnostics, module) = parse_checked("f /* g */ (a)");
    assert!(diagnostics.is_empty());
    assert_eq!(module.items().len(), 1);
}

#[test]
fn parse_skips_to_an_expression() {
    let (document, diagnostics, module) = parse_checked("let x = # % y;");
    assert_eq!(
        messages(&document, &diagnostics),
        vec!["(1:9-1:10) We want an expression but we have `#`."]
    );
    match statement(&module, 0) {
        Statement::Binding(binding) => match binding.value() {
            Expression::Error(error) => {
                assert_eq!(error.error().skipped().len(), 2);
                assert!(matches!(error.error().skipped()[0], Token::Unexpected(_)));
                assert_eq!(error.error().range(), Range::new(Position::new(8), 3));
                assert_eq!(name(error.recovered().as_ref().unwrap()), "y");
            }
            other => panic!("not an error: {:?}", other),
        },
        other => panic!("not a binding: {:?}", other),
    }
}

#[test]
fn parse_stops_at_the_end() {
    let (document, diagnostics, module) = parse_checked("let x =");
    assert_eq!(
        messages(&document, &diagnostics),
        vec!["(1:8) We want an expression but the file ends."]
    );
    assert_eq!(module.items().len(), 1);
    let (document, diagnostics, _) = parse_checked("(a");
    assert_eq!(messages(&document, &diagnostics), vec!["(1:3) We want `)` but the file ends."]);
    let (document, diagnostics, _) = parse_checked("a.");
    assert_eq!(messages(&document, &diagnostics), vec!["(1:3) We want a name but the file ends."]);
}

#[test]
fn parse_recovers_at_glyphs_in_scope() {
    // The semicolon ends the statement, so the expression stops there.
    let (document, diagnostics, module) = parse_checked("let x = ; y;");
    assert_eq!(
        messages(&document, &diagnostics),
        vec!["(1:9-1:10) We want an expression but we have `;`."]
    );
    assert_eq!(module.items().len(), 2);
    // The brace closes the block, so what is wrong inside does not reach beyond it.
    let (document, diagnostics, module) = parse_checked("do { let = } z");
    assert_eq!(
        messages(&document, &diagnostics),
        vec![
            "(1:10-1:11) We want a variable name but we have `=`.",
            "(1:12-1:13) We want an expression but we have `}`.",
        ]
    );
    assert_eq!(module.items().len(), 2);
    // A missing comma between two arguments.
    let (document, diagnostics, module) = parse_checked("f(a b)");
    assert_eq!(messages(&document, &diagnostics), vec!["(1:5-1:6) We want `,` but we have a variable name."]);
    assert_eq!(module.items().len(), 1);
}

#[test]
fn parse_reports_one_diagnostic_for_each_error() {
    for (text, count) in [
        ("let = 1;", 1),
        ("let x 1;", 2),
        ("let x = ;", 1),
        ("let = ;", 2),
        ("let", 3),
        ("let # x = 1;", 1),
        ("let x # = 1;", 1),
        ("let x = # 1;", 1),
        ("let x = 1 #;", 1),
        ("let x = 1;", 0),
        ("", 0),
    ] {
        let (_, diagnostics, _) = parse_checked(text);
        assert_eq!(diagnostics.len(), count, "in {:?}", text);
    }
}

#[test]
fn parse_everything() {
    for text in [
        "",
        " ",
        ";",
        ";;;",
        "}",
        "{",
        ")(",
        "((((",
        "))))",
        "let let let",
        "if if if",
        "else",
        "do do do {{{",
        "a.b.c.",
        "f(,)",
        "f(a,,b)",
        "f(a b c)",
        "f(do { g(; })",
        "( do { ) }",
        "if { } else else { }",
        "/* never closed",
        "\u{FFFD}\u{FFFD}",
        "let \u{1F701} = \u{25B3};",
        "\u{00E9}.\u{4E01}()",
        "_ = _;",
        "1 2 3",
        "true.false(if)",
        "\r\r\n\n\t let\nx\n=\n1\n;\n",
    ] {
        parse_checked(text);
    }
}

#[test]
fn parser_leaves_no_scope_open() {
    for text in ["let = 1;", "f(do { g(; })", "((((", "do { let x = (y); x }", ""] {
        let document = document(text);
        let mut parser = Parser::new(Lexer::new(&document));
        assert!(parser.recoverable_is_empty());
        let module = parser.parse_module();
        assert!(parser.recoverable_is_empty(), "in {:?}", text);
        let diagnostics = parser.finish();
        assert_eq!(diagnostics.len(), parse(&document).0.len());
        assert_eq!(module.into_tokens(), Lexer::tokens(&document));
    }
}

#[test]
fn starts_tells_what_a_token_can_begin() {
    let document = document("a 1 ( _ = if");
    let tokens = Lexer::tokens(&document);
    let expression: Vec<bool> = tokens.iter().map(|t| starts(ExpectedSyntax::Expression, t)).collect();
    assert_eq!(expression, vec![true, true, true, false, false, true, false]);
    let pattern: Vec<bool> = tokens.iter().map(|t| starts(ExpectedSyntax::Pattern, t)).collect();
    assert_eq!(pattern, vec![true, false, false, true, false, false, false]);
    let name: Vec<bool> = tokens.iter().map(|t| starts(ExpectedSyntax::Identifier, t)).collect();
    assert_eq!(name, vec![true, false, false, false, false, false, false]);
    let equals: Vec<bool> =
        tokens.iter().map(|t| starts(ExpectedSyntax::Glyph(Glyph::Equals), t)).collect();
    assert_eq!(equals, vec![false, false, false, false, true, false, false]);
    assert!(tokens.iter().all(|t| !starts(ExpectedSyntax::Statement, t)));
}

#[test]
fn nodes_span_their_tokens() {
    let (_, _, module) = parse_checked("let = 1;");
    assert_eq!(module.range(), Range::new(Position::new(0), 8));
    assert_eq!(module.items()[0].range(), Range::new(Position::new(0), 8));
    match statement(&module, 0) {
        Statement::Binding(binding) => {
            // The missing pattern covers nothing, at the position before the equals sign.
            assert_eq!(binding.pattern().range(), Range::new(Position::new(4), 0));
            assert_eq!(binding.value().range(), Range::new(Position::new(6), 1));
        }
        other => panic!("not a binding: {:?}", other),
    }
    let (_, _, module) = parse_checked("  a.b\n do { x } ");
    assert_eq!(module.range(), Range::new(Position::new(2), 14));
    assert_eq!(statement(&module, 0).range(), Range::new(Position::new(2), 3));
    match statement(&module, 1) {
        Statement::Expression(statement) => match statement.expression() {
            Expression::Block(block) => {
                assert_eq!(block.block().range(), Range::new(Position::new(10), 5));
                assert_eq!(statement.expression().range(), Range::new(Position::new(7), 8));
            }
            other => panic!("not a block: {:?}", other),
        },
        other => panic!("not an expression: {:?}", other),
    }
    // A statement that holds no token stands where its error is.
    let (_, diagnostics, module) = parse_checked("( ; )");
    assert_eq!(diagnostics.len(), 3);
    match statement(&module, 0) {
        Statement::Expression(statement) => match statement.expression() {
            Expression::Wrapped(wrapped) => {
                assert_eq!(wrapped.expression().range(), Range::new(Position::new(2), 0));
            }
            other => panic!("not wrapped: {:?}", other),
        },
        other => panic!("not an expression: {:?}", other),
    }
}

#[test]
fn recovery_scopes_nest() {
    let mut set = RecoverySet::new();
    assert!(set.is_empty());
    assert!(!set.contains(Glyph::Semicolon));
    set.enter(Glyph::Semicolon);
    set.enter(Glyph::Equals);
    set.enter(Glyph::Semicolon);
    assert!(set.contains(Glyph::Semicolon));
    assert!(set.contains(Glyph::Equals));
    assert!(!set.contains(Glyph::Comma));
    set.leave(Glyph::Semicolon);
    // One scope is still open for the semicolon.
    assert!(set.contains(Glyph::Semicolon));
    set.leave(Glyph::Equals);
    assert!(!set.contains(Glyph::Equals));
    assert!(!set.is_empty());
    set.leave(Glyph::Semicolon);
    assert!(!set.contains(Glyph::Semicolon));
    assert!(set.is_empty());
    // To close a scope that is not open changes nothing.
    set.leave(Glyph::Semicolon);
    assert!(set.is_empty());
}
