//! The items that most users of the crate need, under one path.

pub use crate::ast::evaluator::{ASTEvaluator, EvaluationError};
pub use crate::ast::expressions::{
    ASTBinaryExpression, ASTBinaryOperator, ASTBinaryOperatorKind, ASTExpression,
    ASTExpressionKind, ASTNumberExpression, ASTParenthesizedExpression, ASTVariableExpression,
};
pub use crate::ast::lexer::{Lexer, TextSpan, Token, TokenKind};
pub use crate::ast::parser::{Counter, Parser};
pub use crate::ast::printer::ASTPrinter;
pub use crate::ast::statements::{ASTLetStatement, ASTStatement, ASTStatementKind};
pub use crate::ast::symbols::SymbolChecker;
pub use crate::ast::syntax::SyntaxColors;
pub use crate::ast::{ASTVisitor, AST};
pub use crate::diagnostics::printer::DiagnosticsPrinter;
pub use crate::diagnostics::{Diagnostic, DiagnosticKind, DiagnosticsBag};
pub use crate::pipeline::{check, evaluate, parse, run, tokenize, Outcome, Run};
pub use crate::text::SourceText;
