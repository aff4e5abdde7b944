//! Statement nodes of the syntax tree.

use crate::ast::expressions::ASTExpression;
use crate::ast::lexer::Token;
use vstd::prelude::*;

verus! {

/// The kinds of statement, each with what it holds.
#[derive(Debug)]
pub enum ASTStatementKind {
    Expression(ASTExpression),
    LetStatement(ASTLetStatement),
}

/// A statement.
#[derive(Debug)]
pub struct ASTStatement {
    pub kind: ASTStatementKind,
}

impl ASTStatement {
    /// The statement that is `expression`.
    pub open spec fn expression_node(expression: ASTExpression) -> ASTStatement {
        ASTStatement { kind: ASTStatementKind::Expression(expression) }
    }

    /// The statement that binds `identifier` to the value of `initializer`.
    pub open spec fn let_node(identifier: Token, initializer: ASTExpression) -> ASTStatement {
        ASTStatement {
            kind: ASTStatementKind::LetStatement(ASTLetStatement { identifier, initializer }),
        }
    }

    /// How deeply the expression of the statement is nested.
    pub open spec fn nesting(self) -> nat {
        match self.kind {
            ASTStatementKind::Expression(expression) => expression.nesting(),
            ASTStatementKind::LetStatement(let_statement) => let_statement.initializer.nesting(),
        }
    }

    /// A statement of the given kind.
    pub fn new(kind: ASTStatementKind) -> (statement: Self)
        ensures
            statement.kind == kind,
    {
        Self { kind }
    }

    /// An expression as a statement.
    pub fn expression(expr: ASTExpression) -> (statement: Self)
        ensures
            statement == Self::expression_node(expr),
    {
        ASTStatement::new(ASTStatementKind::Expression(expr))
    }

    /// A `let` statement.
    pub fn let_statement(identifier: Token, initializer: ASTExpression) -> (statement: Self)
        ensures
            statement == Self::let_node(identifier, initializer),
    {
        ASTStatement::new(
            ASTStatementKind::LetStatement(ASTLetStatement::new(identifier, initializer)),
        )
    }

    /// The kind of the statement.
    pub fn kind(&self) -> (kind: &ASTStatementKind)
        ensures
            *kind == self.kind,
    {
        &self.kind
    }
}

/// A `let` statement: the identifier and the expression whose value it is
/// bound to.
#[derive(Debug)]
pub struct ASTLetStatement {
    pub identifier: Token,
    pub initializer: ASTExpression,
}

impl ASTLetStatement {
    /// The statement that binds `identifier` to the value of `initializer`.
    pub fn new(identifier: Token, initializer: ASTExpression) -> (statement: Self)
        ensures
            statement.identifier == identifier,
            statement.initializer == initializer,
    {
        Self { identifier, initializer }
    }
}

} // verus!
