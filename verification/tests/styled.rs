use anvyl_compiler::ast::expressions::ASTExpression;
use anvyl_compiler::ast::lexer::{TextSpan, Token, TokenKind};
use anvyl_compiler::ast::printer::ASTPrinter;
use anvyl_compiler::ast::syntax::{SyntaxColors, SyntaxRole};
use anvyl_compiler::ast::ASTVisitor;
use anvyl_compiler::diagnostics::printer::DiagnosticsPrinter;
use anvyl_compiler::diagnostics::{Diagnostic, DiagnosticKind, DiagnosticsBag};
use anvyl_compiler::text::SourceText;
use console::Style;

#[test]
fn styles_of_the_roles() {
    assert_eq!(SyntaxColors::error(), Style::new().red());
    assert_eq!(SyntaxColors::warning(), Style::new().yellow());
    assert_eq!(SyntaxColors::number(), Style::new().cyan());
    assert_eq!(SyntaxColors::variable(), Style::new().green());
    assert_eq!(SyntaxColors::text(), Style::new().bright().white());
    assert_eq!(SyntaxColors::string(), Style::new().green());
    assert_eq!(SyntaxColors::keyword(), Style::new().magenta());
    assert_eq!(SyntaxColors::comment(), Style::new().green().italic());
    assert_eq!(SyntaxColors::of_role(SyntaxRole::Error), SyntaxColors::error());
    assert_eq!(SyntaxColors::of_role(SyntaxRole::Warning), SyntaxColors::warning());
    assert_eq!(SyntaxColors::of_role(SyntaxRole::Number), SyntaxColors::number());
    assert_eq!(SyntaxColors::of_role(SyntaxRole::Variable), SyntaxColors::variable());
    assert_eq!(SyntaxColors::of_role(SyntaxRole::Text), SyntaxColors::text());
    assert_eq!(SyntaxColors::of_role(SyntaxRole::String), SyntaxColors::string());
    assert_eq!(SyntaxColors::of_role(SyntaxRole::Keyword), SyntaxColors::keyword());
    assert_eq!(SyntaxColors::of_role(SyntaxRole::Comment), SyntaxColors::comment());
}

#[test]
fn token_roles_and_colors() {
    for kind in [TokenKind::Let, TokenKind::If, TokenKind::Else] {
        assert_eq!(SyntaxColors::get_token_role(&kind), SyntaxRole::Keyword);
        assert_eq!(SyntaxColors::get_token_color(&kind), SyntaxColors::keyword());
    }
    assert_eq!(SyntaxColors::get_token_role(&TokenKind::Number(4)), SyntaxRole::Number);
    assert_eq!(SyntaxColors::get_token_color(&TokenKind::Number(4)), SyntaxColors::number());
    for kind in [
        TokenKind::Semicolon,
        TokenKind::Plus,
        TokenKind::Identifier,
        TokenKind::Bad,
        TokenKind::Whitespace,
    ] {
        assert_eq!(SyntaxColors::get_token_role(&kind), SyntaxRole::Text);
        assert_eq!(SyntaxColors::get_token_color(&kind), SyntaxColors::text());
    }
}

#[test]
fn printer_writes_escape_sequences_where_styling_is_on() {
    console::set_colors_enabled(true);
    let mut printer = ASTPrinter::new();
    printer.visit_expression(&ASTExpression::number(5));
    assert_eq!(printer.result(), "\u{1b}[36m5\u{1b}[0m");
    let mut printer = ASTPrinter::new();
    let token = Token::new(TokenKind::Identifier, TextSpan::new(0, 1, "x".to_string()));
    printer.visit_expression(&ASTExpression::identifier(token));
    assert_eq!(printer.result(), "\u{1b}[32mx\u{1b}[0m");
}

#[test]
fn keyword_in_a_message_is_styled_where_styling_is_on() {
    console::set_colors_enabled(true);
    let mut bag = DiagnosticsBag::new();
    let found = Token::new(TokenKind::Let, TextSpan::new(0, 3, "let".to_string()));
    bag.report_expected_expression(&found);
    assert_eq!(
        bag.diagnostics[0].message,
        "Expected expression, found '\u{1b}[35mlet\u{1b}[0m' keyword"
    );
}

#[test]
fn covered_text_is_coloured_and_underlined_where_styling_is_on() {
    console::set_colors_enabled(true);
    let text = SourceText::new("let a = b;");
    let diagnostics: [Diagnostic; 0] = [];
    let printer = DiagnosticsPrinter::new(&text, &diagnostics);
    let diagnostic = Diagnostic::new(
        DiagnosticKind::Error,
        "Undeclared variable 'b'".to_string(),
        TextSpan::new(8, 9, "b".to_string()),
    );
    assert_eq!(
        printer.stringify_diagnostic(&diagnostic),
        "let a = \u{1b}[31m\u{1b}[4mb\u{1b}[0m;\n        ^\n        |\n        +-- Undeclared variable 'b'"
    );
    let diagnostic = Diagnostic::new(
        DiagnosticKind::Warning,
        "unused".to_string(),
        TextSpan::new(4, 5, "a".to_string()),
    );
    assert_eq!(
        printer.stringify_diagnostic(&diagnostic),
        "let \u{1b}[33m\u{1b}[4ma\u{1b}[0m = b;\n    ^\n    |\n    +-- unused"
    );
}
