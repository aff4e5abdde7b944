use anvyl_compiler::ast::evaluator::{ASTEvaluator, EvaluationError};
use anvyl_compiler::ast::expressions::ASTExpression;
use anvyl_compiler::ast::lexer::{Lexer, TextSpan, Token};
use anvyl_compiler::ast::parser::Parser;
use anvyl_compiler::ast::{ASTVisitor, AST};
use anvyl_compiler::diagnostics::DiagnosticsBag;

fn parse(input: &str) -> AST {
    let mut lexer = Lexer::new(input);
    let mut tokens: Vec<Token> = Vec::new();
    while let Some(token) = lexer.next_token() {
        tokens.push(token);
    }
    let mut parser = Parser::new(tokens, DiagnosticsBag::new());
    let mut ast = AST::new();
    while let Some(statement) = parser.next_statement() {
        ast.add_statement(statement);
    }
    assert!(parser.diagnostics_bag().is_empty());
    ast
}

fn evaluate(input: &str) -> ASTEvaluator {
    let mut ast = parse(input);
    let mut evaluator = ASTEvaluator::new();
    ast.visit(&mut evaluator);
    evaluator
}

fn value(input: &str) -> Option<i64> {
    let evaluator = evaluate(input);
    assert_eq!(evaluator.error, None);
    evaluator.last_value
}

#[test]
fn new_evaluator_holds_nothing() {
    let evaluator = ASTEvaluator::new();
    assert_eq!(evaluator.last_value, None);
    assert_eq!(evaluator.error, None);
    assert!(evaluator.variables.is_empty());
    assert_eq!(evaluator.result(), Ok(None));
}

#[test]
fn multiply_binds_tighter_than_add() {
    assert_eq!(value("2 + 3 * 4"), Some(14));
}

#[test]
fn subtraction_is_left_associative() {
    assert_eq!(value("10 - 3 - 2"), Some(5));
}

#[test]
fn parenthesized_expression_is_transparent() {
    assert_eq!(value("7 + 3 * (2 - 1)"), Some(10));
    assert_eq!(value("(1 + 2) * 3"), Some(9));
    assert_eq!(value("((42))"), Some(42));
}

#[test]
fn let_binds_and_later_statements_read() {
    let evaluator = evaluate("let x = 5; let y = x + 1;");
    assert_eq!(evaluator.error, None);
    assert_eq!(evaluator.variables.get("x"), Some(&5));
    assert_eq!(evaluator.variables.get("y"), Some(&6));
    assert_eq!(evaluator.last_value, Some(6));
    assert_eq!(evaluator.result(), Ok(Some(6)));
}

#[test]
fn division_by_zero_is_an_error() {
    let evaluator = evaluate("let z = 1 / 0;");
    assert_eq!(evaluator.error, Some(EvaluationError::DivisionByZero));
    assert_eq!(evaluator.result(), Err(EvaluationError::DivisionByZero));
    assert_eq!(evaluator.last_value, None);
    assert_eq!(evaluator.variables.get("z"), None);
    assert_eq!(evaluate("0 / 0").error, Some(EvaluationError::DivisionByZero));
    assert_eq!(evaluate("5 / (2 - 2)").error, Some(EvaluationError::DivisionByZero));
}

#[test]
fn unbound_variable_is_an_error() {
    let evaluator = evaluate("1 + nope");
    assert_eq!(
        evaluator.error,
        Some(EvaluationError::UnboundVariable {
            identifier: "nope".to_string(),
            span: TextSpan::new(4, 8, "nope".to_string()),
        })
    );
    assert_eq!(evaluator.last_value, None);
    let evaluator = evaluate("let a = a;");
    assert_eq!(
        evaluator.error,
        Some(EvaluationError::UnboundVariable {
            identifier: "a".to_string(),
            span: TextSpan::new(8, 9, "a".to_string()),
        })
    );
    assert_eq!(evaluator.variables.get("a"), None);
}

#[test]
fn left_operand_fails_first() {
    let evaluator = evaluate("(1 / 0) + nope");
    assert_eq!(evaluator.error, Some(EvaluationError::DivisionByZero));
    let evaluator = evaluate("nope + 1 / 0");
    assert!(matches!(evaluator.error, Some(EvaluationError::UnboundVariable { .. })));
}

#[test]
fn evaluation_stops_at_the_first_failure() {
    let evaluator = evaluate("let a = 1; let b = a / 0; let c = 3; 4");
    assert_eq!(evaluator.error, Some(EvaluationError::DivisionByZero));
    assert_eq!(evaluator.variables.get("a"), Some(&1));
    assert_eq!(evaluator.variables.get("b"), None);
    assert_eq!(evaluator.variables.get("c"), None);
    assert_eq!(evaluator.last_value, None);
}

#[test]
fn rebinding_replaces_the_value() {
    let evaluator = evaluate("let x = 1; let x = x + 1; let x = x * 10;");
    assert_eq!(evaluator.variables.get("x"), Some(&20));
    assert_eq!(evaluator.variables.len(), 1);
}

#[test]
fn division_truncates_toward_zero() {
    assert_eq!(value("7 / 2"), Some(3));
    assert_eq!(value("(0 - 7) / 2"), Some(-3));
    assert_eq!(value("7 / (0 - 2)"), Some(-3));
    assert_eq!(value("(0 - 7) / (0 - 2)"), Some(3));
    assert_eq!(value("1 / 2"), Some(0));
}

#[test]
fn arithmetic_wraps_around() {
    assert_eq!(value("9223372036854775807 + 1"), Some(i64::MIN));
    assert_eq!(value("0 - 9223372036854775807 - 2"), Some(i64::MAX));
    assert_eq!(value("9223372036854775807 * 2"), Some(-2));
    assert_eq!(value("(0 - 9223372036854775807 - 1) / (0 - 1)"), Some(i64::MIN));
}

#[test]
fn last_value_is_that_of_the_last_statement() {
    assert_eq!(value("1 2 3"), Some(3));
    assert_eq!(value("let a = 4; a * a"), Some(16));
    assert_eq!(value(""), None);
}

#[test]
fn error_node_has_no_value() {
    let mut evaluator = ASTEvaluator::new();
    let span = TextSpan::new(0, 1, "+".to_string());
    evaluator.visit_expression(&ASTExpression::error(span.clone()));
    assert_eq!(evaluator.error, Some(EvaluationError::MissingExpression { span }));
    assert_eq!(evaluator.last_value, None);
}

#[test]
fn visiting_single_nodes() {
    let mut evaluator = ASTEvaluator::new();
    evaluator.visit_expression(&ASTExpression::number(3));
    assert_eq!(evaluator.last_value, Some(3));
    let mut ast = parse("let n = 2; n + 1");
    evaluator.visit_statement(&ast.statements[0]);
    assert_eq!(evaluator.variables.get("n"), Some(&2));
    evaluator.visit_statement(&ast.statements[1]);
    assert_eq!(evaluator.last_value, Some(3));
    ast.visit(&mut evaluator);
    assert_eq!(evaluator.last_value, Some(3));
    assert_eq!(evaluator.error.clone(), None);
}

#[test]
fn default_visits_dispatch_on_the_kind() {
    let mut ast = parse("let n = 2 * (3 + 4); n - 1");
    let mut by_default = ASTEvaluator::new();
    let mut by_visit = ASTEvaluator::new();
    for statement in &ast.statements {
        by_default.default_visit_statement(statement);
        by_visit.visit_statement(statement);
    }
    assert_eq!(by_default.last_value, Some(13));
    assert_eq!(by_default.last_value, by_visit.last_value);
    assert_eq!(by_default.variables.get("n"), Some(&14));
    let mut evaluator = ASTEvaluator::new();
    evaluator.default_visit_expression(&ASTExpression::number(8));
    assert_eq!(evaluator.last_value, Some(8));
    ast.visit(&mut evaluator);
    assert_eq!(evaluator.last_value, Some(13));
}
