use brite::checker::avt::{
    Block, Declaration, Expression, ExpressionKind, Function, FunctionDeclaration, FunctionType,
    Module, Pattern, PatternKind, Statement, StatementKind, Type, TypeKind,
};
use brite::diagnostics::{Diagnostic, DiagnosticsCollection, TypeKindSnippet};
use brite::language::{Constant, LogicalOperator};
use brite::source::document::{Position, Range};
use brite::source::identifier::Identifier;

fn range(start: u32, length: u32) -> Range {
    Range::new(Position::new(start), length)
}

fn identifier(name: &str) -> Identifier {
    Identifier::new(String::from(name))
}

#[test]
fn avt_expressions() {
    let expression = Expression::constant(range(0, 4), Constant::Boolean(true));
    assert_eq!(expression.range, range(0, 4));
    assert!(matches!(expression.kind, ExpressionKind::Constant(Constant::Boolean(true))));
    let expression = Expression::reference(range(1, 3), identifier("foo"));
    assert_eq!(expression.range, range(1, 3));
    match &expression.kind {
        ExpressionKind::Reference(name) => assert_eq!(name.as_str(), "foo"),
        other => panic!("not a reference: {:?}", other),
    }
    let expression = Expression::logical(
        range(0, 6),
        LogicalOperator::And,
        Expression::reference(range(0, 1), identifier("a")),
        Expression::unimplemented(range(5, 1)),
    );
    match &expression.kind {
        ExpressionKind::Logical(logical) => {
            assert_eq!(logical.operator, LogicalOperator::And);
            assert_eq!(logical.left.range, range(0, 1));
            assert!(matches!(logical.right.kind, ExpressionKind::Unimplemented));
        }
        other => panic!("not a logical expression: {:?}", other),
    }
    let expression = Expression::block(range(0, 2), Block::new(range(0, 2), Vec::new()));
    match &expression.kind {
        ExpressionKind::Block(block) => {
            assert_eq!(block.range, range(0, 2));
            assert!(block.statements.is_empty());
        }
        other => panic!("not a block: {:?}", other),
    }
}

#[test]
fn avt_error_expression() {
    let mut diagnostics = DiagnosticsCollection::new();
    let error = diagnostics.report(Diagnostic::identifier_not_found(range(0, 3), identifier("foo")));
    let expression = Expression::error(
        range(0, 3),
        error.clone(),
        Some(Expression::reference(range(0, 3), identifier("foo"))),
    );
    match &expression.kind {
        ExpressionKind::Error(inner) => {
            assert_eq!(inner.error, error);
            assert_eq!(inner.expression.as_ref().unwrap().range, range(0, 3));
        }
        other => panic!("not an error: {:?}", other),
    }
    let expression = Expression::error(range(0, 3), error, None);
    match &expression.kind {
        ExpressionKind::Error(inner) => assert!(inner.expression.is_none()),
        other => panic!("not an error: {:?}", other),
    }
}

#[test]
fn avt_statements_and_functions() {
    let statement = Statement::expression(range(0, 2), Expression::unimplemented(range(0, 1)));
    assert_eq!(statement.range, range(0, 2));
    assert!(matches!(statement.kind, StatementKind::Expression(_)));
    let statement = Statement::binding(
        range(0, 9),
        Pattern::binding(range(4, 1), identifier("x")),
        Expression::unimplemented(range(8, 1)),
    );
    match &statement.kind {
        StatementKind::Binding(binding) => {
            assert_eq!(binding.pattern.range, range(4, 1));
            match &binding.pattern.kind {
                PatternKind::Binding(name) => assert_eq!(name.as_str(), "x"),
            }
            assert_eq!(binding.value.range, range(8, 1));
        }
        other => panic!("not a binding: {:?}", other),
    }
    let function = Function::new(
        vec![Pattern::binding(range(4, 1), identifier("x"))],
        Block::new(range(7, 2), vec![statement]),
    );
    assert_eq!(function.parameters.len(), 1);
    assert_eq!(function.body.statements.len(), 1);
    let expression = Expression::function(range(0, 9), function);
    assert!(matches!(expression.kind, ExpressionKind::Function(_)));
    let declaration = FunctionDeclaration::new(
        identifier("f"),
        Function::new(Vec::new(), Block::new(range(0, 0), Vec::new())),
    );
    assert_eq!(declaration.name.as_str(), "f");
    assert!(declaration.function.parameters.is_empty());
    let module = Module::new(vec![Declaration::Function(declaration), Declaration::Unimplemented]);
    assert_eq!(module.declarations.len(), 2);
}

#[test]
fn avt_types() {
    let kinds = [
        (Type::never(range(0, 1)), TypeKindSnippet::Never),
        (Type::void(range(0, 1)), TypeKindSnippet::Void),
        (Type::boolean(range(0, 1)), TypeKindSnippet::Boolean),
        (Type::number(range(0, 1)), TypeKindSnippet::Number),
        (Type::integer(range(0, 1)), TypeKindSnippet::Integer),
        (Type::float(range(0, 1)), TypeKindSnippet::Float),
        (
            Type::function(range(0, 1), vec![Type::boolean(range(2, 1))], Type::void(range(4, 1))),
            TypeKindSnippet::Function,
        ),
    ];
    for (type_, snippet) in kinds {
        match type_ {
            Type::Valid { range: type_range, kind } => {
                assert_eq!(type_range, range(0, 1));
                assert_eq!(kind.snippet(), snippet);
            }
            other => panic!("not a valid type: {:?}", other),
        }
    }
    let function = FunctionType::new(vec![Type::boolean(range(2, 1))], Type::void(range(4, 1)));
    assert_eq!(function.parameters.len(), 1);
    match Type::from_function(range(0, 5), function) {
        Type::Valid { kind: TypeKind::Function(function), .. } => {
            assert!(matches!(*function.return_, Type::Valid { kind: TypeKind::Void, .. }));
        }
        other => panic!("not a function type: {:?}", other),
    }
    let mut diagnostics = DiagnosticsCollection::new();
    let error = diagnostics.report(Diagnostic::identifier_not_found(range(0, 3), identifier("foo")));
    match Type::error(error.clone()) {
        Type::Error { error: inner } => assert_eq!(inner, error),
        other => panic!("not an error type: {:?}", other),
    }
}
