//! Expression nodes of the syntax tree.

use crate::ast::lexer::{TextSpan, Token};
use vstd::prelude::*;

verus! {

/// The kinds of expression, each with what it holds.
#[derive(Debug)]
pub enum ASTExpressionKind {
    Error(TextSpan),
    Number(ASTNumberExpression),
    Binary(ASTBinaryExpression),
    Parenthesized(ASTParenthesizedExpression),
    Variable(ASTVariableExpression),
}

/// An expression: a node of the tree that owns its operands.
#[derive(Debug)]
pub struct ASTExpression {
    pub kind: ASTExpressionKind,
}

impl ASTExpression {
    /// The literal node of `value`.
    pub open spec fn number_node(value: i64) -> ASTExpression {
        ASTExpression { kind: ASTExpressionKind::Number(ASTNumberExpression { value }) }
    }

    /// The node that applies `operator` to `left` and `right`.
    pub open spec fn binary_node(
        left: ASTExpression,
        operator: ASTBinaryOperator,
        right: ASTExpression,
    ) -> ASTExpression {
        ASTExpression {
            kind: ASTExpressionKind::Binary(
                ASTBinaryExpression { left: Box::new(left), operator, right: Box::new(right) },
            ),
        }
    }

    /// The node of `expression` in parentheses.
    pub open spec fn parenthesized_node(expression: ASTExpression) -> ASTExpression {
        ASTExpression {
            kind: ASTExpressionKind::Parenthesized(
                ASTParenthesizedExpression { inner: Box::new(expression) },
            ),
        }
    }

    /// The node that reads the variable named by `identifier`.
    pub open spec fn variable_node(identifier: Token) -> ASTExpression {
        ASTExpression { kind: ASTExpressionKind::Variable(ASTVariableExpression { identifier }) }
    }

    /// The node that marks a place where no expression could be parsed.
    pub open spec fn error_node(span: TextSpan) -> ASTExpression {
        ASTExpression { kind: ASTExpressionKind::Error(span) }
    }

    /// How deeply the expression is nested: zero for a number, a variable
    /// and an error node, and one more than its deepest operand for a binary
    /// or a parenthesized expression.
    pub open spec fn nesting(self) -> nat
        decreases self,
    {
        match self.kind {
            ASTExpressionKind::Error(_) => 0,
            ASTExpressionKind::Number(_) => 0,
            ASTExpressionKind::Variable(_) => 0,
            ASTExpressionKind::Parenthesized(parenthesized) => 1 + (*parenthesized.inner).nesting(),
            ASTExpressionKind::Binary(binary) => {
                let left = (*binary.left).nesting();
                let right = (*binary.right).nesting();
                if left >= right {
                    1 + left
                } else {
                    1 + right
                }
            },
        }
    }

    /// An expression of the given kind.
    pub fn new(kind: ASTExpressionKind) -> (expression: Self)
        ensures
            expression.kind == kind,
    {
        Self { kind }
    }

    /// A number literal.
    pub fn number(value: i64) -> (expression: Self)
        ensures
            expression == Self::number_node(value),
    {
        ASTExpression::new(ASTExpressionKind::Number(ASTNumberExpression::new(value)))
    }

    /// A binary operation; the node owns both operands.
    pub fn binary(left: ASTExpression, operator: ASTBinaryOperator, right: ASTExpression) -> (expression:
        Self)
        ensures
            expression == Self::binary_node(left, operator, right),
    {
        ASTExpression::new(
            ASTExpressionKind::Binary(
                ASTBinaryExpression { left: Box::new(left), operator, right: Box::new(right) },
            ),
        )
    }

    /// An expression in parentheses.
    pub fn parenthesized(expression: ASTExpression) -> (parenthesized: Self)
        ensures
            parenthesized == Self::parenthesized_node(expression),
    {
        ASTExpression::new(
            ASTExpressionKind::Parenthesized(
                ASTParenthesizedExpression { inner: Box::new(expression) },
            ),
        )
    }

    /// A reference to the variable that `identifier` names.
    pub fn identifier(identifier: Token) -> (expression: Self)
        ensures
            expression == Self::variable_node(identifier),
    {
        ASTExpression::new(ASTExpressionKind::Variable(ASTVariableExpression::new(identifier)))
    }

    /// A placeholder for the expression that could not be parsed at `span`.
    pub fn error(span: TextSpan) -> (expression: Self)
        ensures
            expression == Self::error_node(span),
    {
        ASTExpression::new(ASTExpressionKind::Error(span))
    }

    /// The kind of the expression.
    pub fn kind(&self) -> (kind: &ASTExpressionKind)
        ensures
            *kind == self.kind,
    {
        &self.kind
    }
}

/// A number literal.
#[derive(Debug)]
pub struct ASTNumberExpression {
    pub value: i64,
}

impl ASTNumberExpression {
    /// The literal of `value`.
    pub fn new(value: i64) -> (expression: Self)
        ensures
            expression.value == value,
    {
        Self { value }
    }

    /// The value of the literal.
    pub fn number(&self) -> (value: i64)
        ensures
            value == self.value,
    {
        self.value
    }
}

/// A binary operation with its two operands.
#[derive(Debug)]
pub struct ASTBinaryExpression {
    pub left: Box<ASTExpression>,
    pub operator: ASTBinaryOperator,
    pub right: Box<ASTExpression>,
}

/// The four arithmetic operations.
#[derive(Debug, Clone, Copy, PartialEq, Eq, Structural)]
pub enum ASTBinaryOperatorKind {
    Add,
    Subtract,
    Multiply,
    Divide,
}

impl ASTBinaryOperatorKind {
    /// How tightly the operator binds: multiplication and division bind
    /// tighter than addition and subtraction.
    pub open spec fn binding(self) -> u8 {
        match self {
            ASTBinaryOperatorKind::Add | ASTBinaryOperatorKind::Subtract => 1,
            ASTBinaryOperatorKind::Multiply | ASTBinaryOperatorKind::Divide => 2,
        }
    }
}

/// A binary operator and the token that stands for it in the source.
#[derive(Debug)]
pub struct ASTBinaryOperator {
    pub kind: ASTBinaryOperatorKind,
    pub token: Token,
}

impl Clone for ASTBinaryOperator {
    fn clone(&self) -> (operator: Self)
        ensures
            operator == *self,
    {
        ASTBinaryOperator { kind: self.kind, token: self.token.clone() }
    }
}

impl ASTBinaryOperator {
    /// The operator of the given kind, written as `token`.
    pub fn new(kind: ASTBinaryOperatorKind, token: Token) -> (operator: Self)
        ensures
            operator.kind == kind,
            operator.token == token,
    {
        Self { kind, token }
    }

    /// How tightly the operator binds: 1 for `+` and `-`, 2 for `*` and `/`.
    pub fn precedence(&self) -> (precedence: u8)
        ensures
            precedence == self.kind.binding(),
    {
        match self.kind {
            ASTBinaryOperatorKind::Add | ASTBinaryOperatorKind::Subtract => 1,
            ASTBinaryOperatorKind::Multiply | ASTBinaryOperatorKind::Divide => 2,
        }
    }
}

/// An expression in parentheses.
#[derive(Debug)]
pub struct ASTParenthesizedExpression {
    pub inner: Box<ASTExpression>,
}

/// A reference to a variable.
#[derive(Debug)]
pub struct ASTVariableExpression {
    pub identifier: Token,
}

impl ASTVariableExpression {
    /// A reference to the variable that `identifier` names.
    pub fn new(identifier: Token) -> (expression: Self)
        ensures
            expression.identifier == identifier,
    {
        Self { identifier }
    }

    /// The name of the variable.
    pub fn identifier(&self) -> (name: &str)
        ensures
            name@ == self.identifier.span.literal@,
    {
        self.identifier.span.literal.as_str()
    }
}

} // verus!
