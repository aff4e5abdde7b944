use anvyl_compiler::ast::expressions::{
    ASTBinaryOperator, ASTBinaryOperatorKind, ASTExpression, ASTExpressionKind,
    ASTNumberExpression, ASTVariableExpression,
};
use anvyl_compiler::ast::lexer::{Lexer, TextSpan, Token, TokenKind};
use anvyl_compiler::ast::parser::{Counter, Parser, MAX_NESTING};
use anvyl_compiler::ast::statements::{ASTLetStatement, ASTStatement, ASTStatementKind};
use anvyl_compiler::ast::AST;
use anvyl_compiler::diagnostics::{Diagnostic, DiagnosticKind, DiagnosticsBag};

fn lex(input: &str) -> Vec<Token> {
    let mut lexer = Lexer::new(input);
    let mut tokens = Vec::new();
    while let Some(token) = lexer.next_token() {
        tokens.push(token);
    }
    tokens
}

fn parse(input: &str) -> (AST, Vec<Diagnostic>) {
    let mut parser = Parser::new(lex(input), DiagnosticsBag::new());
    let mut ast = AST::new();
    while let Some(statement) = parser.next_statement() {
        ast.add_statement(statement);
    }
    (ast, parser.into_diagnostics().diagnostics)
}

fn shape(expression: &ASTExpression) -> String {
    match expression.kind() {
        ASTExpressionKind::Error(span) => format!("<error {}>", span.get_text()),
        ASTExpressionKind::Number(number) => format!("{}", number.number()),
        ASTExpressionKind::Variable(variable) => variable.identifier().to_string(),
        ASTExpressionKind::Parenthesized(parenthesized) => {
            format!("({})", shape(&parenthesized.inner))
        }
        ASTExpressionKind::Binary(binary) => format!(
            "[{} {} {}]",
            shape(&binary.left),
            binary.operator.token.span.get_text(),
            shape(&binary.right)
        ),
    }
}

fn statement_shape(statement: &ASTStatement) -> String {
    match statement.kind() {
        ASTStatementKind::Expression(expression) => shape(expression),
        ASTStatementKind::LetStatement(let_statement) => format!(
            "let {} = {}",
            let_statement.identifier.span.get_text(),
            shape(&let_statement.initializer)
        ),
    }
}

fn shapes(input: &str) -> Vec<String> {
    let (ast, _) = parse(input);
    ast.statements.iter().map(statement_shape).collect()
}

fn messages(input: &str) -> Vec<String> {
    let (_, diagnostics) = parse(input);
    diagnostics.iter().map(|diagnostic| diagnostic.message.clone()).collect()
}

#[test]
fn empty_input_has_no_statement() {
    let mut parser = Parser::new(Vec::new(), DiagnosticsBag::new());
    assert!(parser.next_statement().is_none());
    assert!(parser.next_statement().is_none());
    assert!(parser.diagnostics_bag().is_empty());
    let (ast, diagnostics) = parse("  \n \t ");
    assert!(ast.statements.is_empty());
    assert!(diagnostics.is_empty());
}

#[test]
fn multiplication_binds_tighter_than_addition() {
    assert_eq!(shapes("2 + 3 * 4"), vec!["[2 + [3 * 4]]"]);
    assert_eq!(shapes("2 * 3 + 4"), vec!["[[2 * 3] + 4]"]);
    assert_eq!(shapes("1 + 2 * 3 - 4 / 5"), vec!["[[1 + [2 * 3]] - [4 / 5]]"]);
    assert!(messages("2 * 3 + 4").is_empty());
}

#[test]
fn equal_precedence_groups_to_the_left() {
    assert_eq!(shapes("10 - 3 - 2"), vec!["[[10 - 3] - 2]"]);
    assert_eq!(shapes("8 / 4 * 2 / 1"), vec!["[[[8 / 4] * 2] / 1]"]);
    assert_eq!(shapes("1 - 2 + 3"), vec!["[[1 - 2] + 3]"]);
}

#[test]
fn parentheses_group() {
    assert_eq!(shapes("7 + 3 * (2 - 1)"), vec!["[7 + [3 * ([2 - 1])]]"]);
    assert_eq!(shapes("((1))"), vec!["((1))"]);
    assert_eq!(shapes("(1 + 2) * 3"), vec!["[([1 + 2]) * 3]"]);
    assert!(messages("7 + 3 * (2 - 1)").is_empty());
}

#[test]
fn layout_does_not_matter() {
    assert_eq!(shapes("1\n+\n\t2"), vec!["[1 + 2]"]);
    assert_eq!(shapes("let\nx\n=\n5\n;"), vec!["let x = 5"]);
}

#[test]
fn identifiers_are_variables() {
    assert_eq!(shapes("a * b + c"), vec!["[[a * b] + c]"]);
    let (ast, diagnostics) = parse("abc");
    assert!(diagnostics.is_empty());
    match ast.statements[0].kind() {
        ASTStatementKind::Expression(expression) => match expression.kind() {
            ASTExpressionKind::Variable(variable) => {
                assert_eq!(variable.identifier(), "abc");
                assert_eq!(variable.identifier.kind, TokenKind::Identifier);
                assert_eq!(variable.identifier.span, TextSpan::new(0, 3, "abc".to_string()));
            }
            other => panic!("not a variable: {:?}", other),
        },
        other => panic!("not an expression: {:?}", other),
    }
}

#[test]
fn let_statements() {
    assert_eq!(
        shapes("let a = 10 + 11; let b = 20; let c = (a * b) + e;"),
        vec!["let a = [10 + 11]", "let b = 20", "let c = [([a * b]) + e]"]
    );
    assert!(messages("let a = 10 + 11; let b = 20; let c = (a * b) + e;").is_empty());
    let (ast, _) = parse("let x = 5;");
    match ast.statements[0].kind() {
        ASTStatementKind::LetStatement(let_statement) => {
            assert_eq!(let_statement.identifier.kind, TokenKind::Identifier);
            assert_eq!(let_statement.identifier.span, TextSpan::new(4, 5, "x".to_string()));
        }
        other => panic!("not a let statement: {:?}", other),
    }
}

#[test]
fn expressions_follow_each_other_without_separator() {
    assert_eq!(shapes("1 2"), vec!["1", "2"]);
    assert_eq!(shapes("1 + 2 (3)"), vec!["[1 + 2]", "(3)"]);
    assert!(messages("1 2").is_empty());
}

#[test]
fn operator_token_is_kept() {
    let (ast, _) = parse("1 + 2");
    match ast.statements[0].kind() {
        ASTStatementKind::Expression(expression) => match expression.kind() {
            ASTExpressionKind::Binary(binary) => {
                assert_eq!(binary.operator.kind, ASTBinaryOperatorKind::Add);
                assert_eq!(binary.operator.token.kind, TokenKind::Plus);
                assert_eq!(binary.operator.token.span, TextSpan::new(2, 3, "+".to_string()));
                assert_eq!(binary.operator.precedence(), 1);
            }
            other => panic!("not binary: {:?}", other),
        },
        other => panic!("not an expression: {:?}", other),
    }
}

#[test]
fn token_that_starts_no_expression_becomes_an_error_node() {
    let (ast, diagnostics) = parse("+");
    assert_eq!(ast.statements.len(), 1);
    match ast.statements[0].kind() {
        ASTStatementKind::Expression(expression) => match expression.kind() {
            ASTExpressionKind::Error(span) => {
                assert_eq!(*span, TextSpan::new(0, 1, "+".to_string()))
            }
            other => panic!("not an error node: {:?}", other),
        },
        other => panic!("not an expression: {:?}", other),
    }
    assert_eq!(diagnostics.len(), 1);
    assert_eq!(diagnostics[0].kind, DiagnosticKind::Error);
    assert_eq!(diagnostics[0].message, "Expected expression, found '+'");
    assert_eq!(diagnostics[0].span, TextSpan::new(0, 1, "+".to_string()));
}

#[test]
fn bad_token_is_diagnosed_by_the_parser() {
    let (ast, diagnostics) = parse("1 + @");
    assert_eq!(shapes("1 + @"), vec!["[1 + <error @>]"]);
    assert_eq!(ast.statements.len(), 1);
    assert_eq!(diagnostics.len(), 1);
    assert_eq!(diagnostics[0].message, "Expected expression, found 'Bad'");
    assert_eq!(diagnostics[0].span, TextSpan::new(4, 5, "@".to_string()));
}

#[test]
fn recovery_skips_a_single_token() {
    assert_eq!(shapes("; 1 + 2"), vec!["<error ;>", "[1 + 2]"]);
    assert_eq!(messages("; 1 + 2"), vec!["Expected expression, found ';'"]);
    assert_eq!(shapes(") * 2"), vec!["[<error )> * 2]"]);
}

#[test]
fn keyword_in_place_of_an_expression() {
    let (_, diagnostics) = parse("1 + if");
    assert_eq!(diagnostics.len(), 1);
    let message = &diagnostics[0].message;
    assert!(message.starts_with("Expected expression, found '"));
    assert!(message.ends_with("' keyword"));
    assert!(message.contains("if"));
    assert_eq!(diagnostics[0].span, TextSpan::new(4, 6, "if".to_string()));
}

#[test]
fn missing_right_parenthesis_at_the_end() {
    assert_eq!(shapes("(1"), vec!["(1)"]);
    let (_, diagnostics) = parse("(1");
    assert_eq!(diagnostics.len(), 1);
    assert_eq!(diagnostics[0].kind, DiagnosticKind::Error);
    assert_eq!(diagnostics[0].message, "Expected ), found EOF");
    assert_eq!(diagnostics[0].span, TextSpan::new(2, 2, String::new()));
    assert_eq!(messages("((1)"), vec!["Expected ), found EOF"]);
    assert_eq!(shapes("((1)"), vec!["((1))"]);
}

#[test]
fn wrong_token_in_place_of_right_parenthesis() {
    assert_eq!(shapes("(1 2"), vec!["(1)"]);
    assert_eq!(messages("(1 2"), vec!["Expected ), found 2"]);
    assert_eq!(shapes("(1 ; 2"), vec!["(1)", "2"]);
    assert_eq!(messages("(1 ; 2"), vec!["Expected ), found ;"]);
}

#[test]
fn operator_at_the_end_of_the_input() {
    assert_eq!(shapes("1 +"), vec!["[1 + <error >]"]);
    assert_eq!(messages("1 +"), vec!["Expected expression, found 'EOF'"]);
    let (_, diagnostics) = parse("1 +  ");
    assert_eq!(diagnostics[0].span, TextSpan::new(5, 5, String::new()));
    assert_eq!(shapes("("), vec!["(<error >)"]);
    assert_eq!(
        messages("("),
        vec!["Expected expression, found 'EOF'", "Expected ), found EOF"]
    );
}

#[test]
fn let_statement_reports_each_mismatch_and_goes_on() {
    assert_eq!(shapes("let x 5;"), vec!["let x = <error ;>"]);
    assert_eq!(
        messages("let x 5;"),
        vec![
            "Expected =, found 5",
            "Expected expression, found ';'",
            "Expected ;, found EOF",
        ]
    );
    assert_eq!(shapes("let x = 5"), vec!["let x = 5"]);
    assert_eq!(messages("let x = 5"), vec!["Expected ;, found EOF"]);
    assert_eq!(shapes("let 1 = 2;"), vec!["let 1 = 2"]);
    assert_eq!(messages("let 1 = 2;"), vec!["Expected Identifier, found 1"]);
    assert_eq!(shapes("let x = 1 let y = 2;"), vec!["let x = 1", "y", "<error =>", "2", "<error ;>"]);
}

#[test]
fn let_alone() {
    let (ast, diagnostics) = parse("let");
    assert_eq!(ast.statements.len(), 1);
    let found: Vec<&str> = diagnostics.iter().map(|d| d.message.as_str()).collect();
    assert_eq!(
        found,
        vec![
            "Expected Identifier, found EOF",
            "Expected =, found EOF",
            "Expected expression, found 'EOF'",
            "Expected ;, found EOF",
        ]
    );
    for diagnostic in &diagnostics {
        assert_eq!(diagnostic.span, TextSpan::new(3, 3, String::new()));
    }
}

#[test]
fn diagnostics_are_added_to_those_already_in_the_bag() {
    let mut bag = DiagnosticsBag::new();
    bag.report_warning("earlier".to_string(), TextSpan::new(0, 0, String::new()));
    let mut parser = Parser::new(lex("+"), bag);
    assert!(parser.next_statement().is_some());
    assert!(parser.next_statement().is_none());
    let diagnostics = parser.into_diagnostics().diagnostics;
    assert_eq!(diagnostics.len(), 2);
    assert_eq!(diagnostics[0].message, "earlier");
    assert_eq!(diagnostics[0].kind, DiagnosticKind::Warning);
    assert_eq!(diagnostics[1].message, "Expected expression, found '+'");
}

fn nested(levels: usize) -> String {
    let mut input = String::new();
    for _ in 0..levels {
        input.push('(');
    }
    input.push('1');
    for _ in 0..levels {
        input.push(')');
    }
    input
}

fn chain(operators: usize) -> String {
    let mut input = String::from("1");
    for _ in 0..operators {
        input.push_str(" + 1");
    }
    input
}

fn nesting(expression: &ASTExpression) -> usize {
    match expression.kind() {
        ASTExpressionKind::Parenthesized(parenthesized) => 1 + nesting(&parenthesized.inner),
        ASTExpressionKind::Binary(binary) => {
            1 + nesting(&binary.left).max(nesting(&binary.right))
        }
        _ => 0,
    }
}

fn deepest(ast: &AST) -> usize {
    ast.statements
        .iter()
        .map(|statement| match statement.kind() {
            ASTStatementKind::Expression(expression) => nesting(expression),
            ASTStatementKind::LetStatement(let_statement) => nesting(&let_statement.initializer),
        })
        .max()
        .unwrap_or(0)
}

#[test]
fn nesting_up_to_the_limit_is_parsed() {
    assert_eq!(MAX_NESTING, 256);
    let (ast, diagnostics) = parse(&nested(MAX_NESTING));
    assert_eq!(ast.statements.len(), 1);
    assert!(diagnostics.is_empty());
    assert_eq!(deepest(&ast), MAX_NESTING);
    let (ast, diagnostics) = parse(&chain(MAX_NESTING));
    assert_eq!(ast.statements.len(), 1);
    assert!(diagnostics.is_empty());
    assert_eq!(deepest(&ast), MAX_NESTING);
}

#[test]
fn parenthesis_beyond_the_limit_is_reported() {
    let (ast, diagnostics) = parse(&nested(MAX_NESTING + 1));
    assert!(!diagnostics.is_empty());
    assert_eq!(diagnostics[0].kind, DiagnosticKind::Error);
    assert_eq!(diagnostics[0].message, "Expression is nested too deeply");
    assert_eq!(diagnostics[0].span, TextSpan::new(MAX_NESTING, MAX_NESTING + 1, "(".to_string()));
    assert!(deepest(&ast) <= MAX_NESTING);
}

#[test]
fn operator_beyond_the_limit_is_reported() {
    let input = chain(MAX_NESTING + 1);
    let (ast, diagnostics) = parse(&input);
    assert_eq!(diagnostics.len(), 1);
    assert_eq!(diagnostics[0].message, "Expression is nested too deeply");
    let at = input.len() - 3;
    assert_eq!(diagnostics[0].span, TextSpan::new(at, at + 1, "+".to_string()));
    assert_eq!(ast.statements.len(), 2);
    assert_eq!(deepest(&ast), MAX_NESTING);
    assert_eq!(statement_shape(&ast.statements[1]), "1");
}

#[test]
fn pathological_nesting_ends_with_diagnostics() {
    let mut input = String::new();
    for _ in 0..20000 {
        input.push('(');
    }
    let (ast, diagnostics) = parse(&input);
    assert!(diagnostics.len() > 20000 / 3);
    assert!(ast.statements.len() > 1);
    assert!(deepest(&ast) <= MAX_NESTING);
    let (ast, _) = parse(&chain(20000));
    assert!(deepest(&ast) <= MAX_NESTING);
}

#[test]
fn counter_counts() {
    let mut counter = Counter::new();
    assert_eq!(counter.get_value(), 0);
    assert_eq!(counter.increment(), 0);
    assert_eq!(counter.increment(), 1);
    assert_eq!(counter.get_value(), 2);
}

#[test]
fn node_constructors() {
    let token = Token::new(TokenKind::Identifier, TextSpan::new(0, 1, "x".to_string()));
    let plus = Token::new(TokenKind::Plus, TextSpan::new(2, 3, "+".to_string()));
    let number = ASTExpression::number(4);
    assert!(matches!(number.kind(), ASTExpressionKind::Number(n) if n.number() == 4));
    assert_eq!(ASTNumberExpression::new(9).number(), 9);
    let variable = ASTExpression::identifier(token.clone());
    assert_eq!(shape(&variable), "x");
    assert_eq!(ASTVariableExpression::new(token.clone()).identifier(), "x");
    let operator = ASTBinaryOperator::new(ASTBinaryOperatorKind::Add, plus.clone());
    assert_eq!(operator.clone().token, plus);
    let binary = ASTExpression::binary(variable, operator, number);
    assert_eq!(shape(&binary), "[x + 4]");
    let parenthesized = ASTExpression::parenthesized(binary);
    assert_eq!(shape(&parenthesized), "([x + 4])");
    let error = ASTExpression::error(TextSpan::new(0, 1, "?".to_string()));
    assert_eq!(shape(&error), "<error ?>");
    let statement = ASTStatement::expression(parenthesized);
    assert_eq!(statement_shape(&statement), "([x + 4])");
    let let_statement = ASTStatement::let_statement(token.clone(), ASTExpression::number(1));
    assert_eq!(statement_shape(&let_statement), "let x = 1");
    let inner = ASTLetStatement::new(token, ASTExpression::number(2));
    let made = ASTStatement::new(ASTStatementKind::LetStatement(inner));
    assert_eq!(statement_shape(&made), "let x = 2");
    let made = ASTExpression::new(ASTExpressionKind::Number(ASTNumberExpression::new(3)));
    assert_eq!(shape(&made), "3");
}

#[test]
fn operator_precedence() {
    let token = Token::new(TokenKind::Plus, TextSpan::new(0, 1, "+".to_string()));
    for (kind, precedence) in [
        (ASTBinaryOperatorKind::Add, 1),
        (ASTBinaryOperatorKind::Subtract, 1),
        (ASTBinaryOperatorKind::Multiply, 2),
        (ASTBinaryOperatorKind::Divide, 2),
    ] {
        assert_eq!(ASTBinaryOperator::new(kind, token.clone()).precedence(), precedence);
    }
}
