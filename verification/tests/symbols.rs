use anvyl_compiler::ast::evaluator::ASTEvaluator;
use anvyl_compiler::ast::lexer::{Lexer, TextSpan, Token};
use anvyl_compiler::ast::parser::Parser;
use anvyl_compiler::ast::symbols::SymbolChecker;
use anvyl_compiler::ast::AST;
use anvyl_compiler::diagnostics::{Diagnostic, DiagnosticKind, DiagnosticsBag};

fn check(input: &str) -> Vec<Diagnostic> {
    let mut lexer = Lexer::new(input);
    let mut tokens: Vec<Token> = Vec::new();
    while let Some(token) = lexer.next_token() {
        tokens.push(token);
    }
    let mut parser = Parser::new(tokens, DiagnosticsBag::new());
    let mut ast = AST::new();
    while let Some(statement) = parser.next_statement() {
        ast.add_statement(statement);
    }
    let bag = parser.into_diagnostics();
    assert!(bag.is_empty());
    let mut checker = SymbolChecker::new(bag);
    ast.visit(&mut checker);
    assert_eq!(checker.diagnostics_bag().is_empty(), checker.diagnostics_bag().diagnostics.is_empty());
    checker.into_diagnostics().diagnostics
}

#[test]
fn undeclared_variable_in_initializer() {
    let diagnostics = check("let a = b;");
    assert_eq!(diagnostics.len(), 1);
    assert_eq!(diagnostics[0].kind, DiagnosticKind::Error);
    assert_eq!(diagnostics[0].span, TextSpan::new(8, 9, "b".to_string()));
    assert_eq!(diagnostics[0].message, "Undeclared variable 'b'");
}

#[test]
fn declared_variables_pass() {
    assert!(check("let x = 5; let y = x + 1;").is_empty());
    assert!(check("let a = 1; let b = 2; (a * b) + a").is_empty());
    assert!(check("1 + 2").is_empty());
    assert!(check("").is_empty());
}

#[test]
fn identifier_is_declared_before_its_initializer_is_checked() {
    assert!(check("let a = a;").is_empty());
    assert!(check("let a = (a + 1) * a;").is_empty());
}

#[test]
fn use_before_declaration_is_reported() {
    let diagnostics = check("a let a = 1; a");
    assert_eq!(diagnostics.len(), 1);
    assert_eq!(diagnostics[0].span, TextSpan::new(0, 1, "a".to_string()));
}

#[test]
fn every_undeclared_use_is_reported_in_order() {
    let diagnostics = check("let a = b + c * b; d\n(e)");
    let found: Vec<(usize, &str)> = diagnostics
        .iter()
        .map(|diagnostic| (diagnostic.span.start(), diagnostic.message.as_str()))
        .collect();
    assert_eq!(
        found,
        vec![
            (8, "Undeclared variable 'b'"),
            (12, "Undeclared variable 'c'"),
            (16, "Undeclared variable 'b'"),
            (19, "Undeclared variable 'd'"),
            (22, "Undeclared variable 'e'"),
        ]
    );
}

#[test]
fn earlier_diagnostics_are_kept() {
    let mut bag = DiagnosticsBag::new();
    bag.report_error("earlier".to_string(), TextSpan::new(0, 0, String::new()));
    let mut lexer = Lexer::new("x");
    let mut tokens: Vec<Token> = Vec::new();
    while let Some(token) = lexer.next_token() {
        tokens.push(token);
    }
    let mut parser = Parser::new(tokens, DiagnosticsBag::new());
    let mut ast = AST::new();
    while let Some(statement) = parser.next_statement() {
        ast.add_statement(statement);
    }
    let mut checker = SymbolChecker::new(bag);
    ast.visit(&mut checker);
    let diagnostics = checker.into_diagnostics().diagnostics;
    assert_eq!(diagnostics.len(), 2);
    assert_eq!(diagnostics[0].message, "earlier");
    assert_eq!(diagnostics[1].message, "Undeclared variable 'x'");
}

/// The phases in their order; each later phase runs only while the bag is
/// empty.
fn run(input: &str) -> Result<Option<i64>, Vec<Diagnostic>> {
    let mut lexer = Lexer::new(input);
    let mut tokens: Vec<Token> = Vec::new();
    while let Some(token) = lexer.next_token() {
        tokens.push(token);
    }
    let mut parser = Parser::new(tokens, DiagnosticsBag::new());
    let mut ast = AST::new();
    while let Some(statement) = parser.next_statement() {
        ast.add_statement(statement);
    }
    let bag = parser.into_diagnostics();
    if !bag.is_empty() {
        return Err(bag.diagnostics);
    }
    let mut checker = SymbolChecker::new(bag);
    ast.visit(&mut checker);
    let bag = checker.into_diagnostics();
    if !bag.is_empty() {
        return Err(bag.diagnostics);
    }
    let mut evaluator = ASTEvaluator::new();
    ast.visit(&mut evaluator);
    assert_eq!(evaluator.error, None);
    Ok(evaluator.last_value)
}

#[test]
fn undeclared_variable_halts_before_evaluation() {
    match run("let a = b;") {
        Err(diagnostics) => {
            assert_eq!(diagnostics.len(), 1);
            assert_eq!(diagnostics[0].kind, DiagnosticKind::Error);
            assert_eq!(diagnostics[0].span, TextSpan::new(8, 9, "b".to_string()));
        }
        Ok(value) => panic!("evaluated to {:?}", value),
    }
}

#[test]
fn syntax_error_halts_before_symbol_checking() {
    match run("let a = ; b") {
        Err(diagnostics) => {
            assert!(diagnostics
                .iter()
                .all(|diagnostic| diagnostic.message.starts_with("Expected")));
        }
        Ok(value) => panic!("evaluated to {:?}", value),
    }
}

#[test]
fn clean_program_runs_through() {
    assert_eq!(run("let x = 5; let y = x + 1;").ok(), Some(Some(6)));
    assert_eq!(run("2 + 3 * 4").ok(), Some(Some(14)));
}
