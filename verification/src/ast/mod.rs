//! The syntax tree and the passes over it.

use crate::ast::expressions::{
    ASTBinaryExpression, ASTExpression, ASTExpressionKind, ASTNumberExpression,
    ASTParenthesizedExpression, ASTVariableExpression,
};
use crate::ast::lexer::TextSpan;
use crate::ast::statements::{ASTLetStatement, ASTStatement, ASTStatementKind};
use vstd::prelude::*;

pub mod evaluator;
pub mod expressions;
pub mod lexer;
pub mod parser;
pub mod printer;
pub mod statements;
pub mod symbols;
pub mod syntax;

verus! {

/// A pass over the syntax tree: one method for each kind of node.
///
/// What a pass does is stated by its two relations, `statement_effect` and
/// `expression_effect`; the contract of each method says that the relation
/// holds between the pass before and after the visit of that node.
///
/// `visit_statement` and `visit_expression` are the entrances. A pass that
/// has nothing to do at a node as such hands it on to
/// `default_visit_statement` or `default_visit_expression`, which dispatch on
/// the kind of the node. The passes of this crate visit the operands of a
/// binary expression from left to right.
pub trait ASTVisitor: Sized {
    /// What has to hold of the pass between two visits.
    spec fn ready(&self) -> bool;

    /// True when the visit of `statement` may take the pass from `before`
    /// to `after`.
    spec fn statement_effect(before: Self, statement: ASTStatement, after: Self) -> bool;

    /// True when the visit of `expression` may take the pass from `before`
    /// to `after`.
    spec fn expression_effect(before: Self, expression: ASTExpression, after: Self) -> bool;

    /// Visits `statement` by the method for its kind.
    fn default_visit_statement(&mut self, statement: &ASTStatement)
        requires
            old(self).ready(),
        ensures
            final(self).ready(),
            Self::statement_effect(*old(self), *statement, *final(self)),
    ;

    /// Visits `statement`.
    fn visit_statement(&mut self, statement: &ASTStatement)
        requires
            old(self).ready(),
        ensures
            final(self).ready(),
            Self::statement_effect(*old(self), *statement, *final(self)),
    ;

    /// Visits `expression` by the method for its kind.
    fn default_visit_expression(&mut self, expression: &ASTExpression)
        requires
            old(self).ready(),
        ensures
            final(self).ready(),
            Self::expression_effect(*old(self), *expression, *final(self)),
    ;

    /// Visits `expression`.
    fn visit_expression(&mut self, expression: &ASTExpression)
        requires
            old(self).ready(),
        ensures
            final(self).ready(),
            Self::expression_effect(*old(self), *expression, *final(self)),
    ;

    fn visit_variable_expression(&mut self, expression: &ASTVariableExpression)
        requires
            old(self).ready(),
        ensures
            final(self).ready(),
            Self::expression_effect(
                *old(self),
                (ASTExpression { kind: ASTExpressionKind::Variable(*expression) }),
                *final(self),
            ),
    ;

    fn visit_let_statement(&mut self, let_statement: &ASTLetStatement)
        requires
            old(self).ready(),
        ensures
            final(self).ready(),
            Self::statement_effect(
                *old(self),
                (ASTStatement { kind: ASTStatementKind::LetStatement(*let_statement) }),
                *final(self),
            ),
    ;

    fn visit_error_expression(&mut self, span: &TextSpan)
        requires
            old(self).ready(),
        ensures
            final(self).ready(),
            Self::expression_effect(
                *old(self),
                (ASTExpression { kind: ASTExpressionKind::Error(*span) }),
                *final(self),
            ),
    ;

    fn visit_number_expression(&mut self, expression: &ASTNumberExpression)
        requires
            old(self).ready(),
        ensures
            final(self).ready(),
            Self::expression_effect(
                *old(self),
                (ASTExpression { kind: ASTExpressionKind::Number(*expression) }),
                *final(self),
            ),
    ;

    fn visit_binary_expression(&mut self, expression: &ASTBinaryExpression)
        requires
            old(self).ready(),
        ensures
            final(self).ready(),
            Self::expression_effect(
                *old(self),
                (ASTExpression { kind: ASTExpressionKind::Binary(*expression) }),
                *final(self),
            ),
    ;

    fn visit_parenthesized_expression(&mut self, expression: &ASTParenthesizedExpression)
        requires
            old(self).ready(),
        ensures
            final(self).ready(),
            Self::expression_effect(
                *old(self),
                (ASTExpression { kind: ASTExpressionKind::Parenthesized(*expression) }),
                *final(self),
            ),
    ;
}

/// True when the visits of `statements`, one after the other, may take the
/// pass from `before` to `after`.
pub open spec fn statements_effect<V: ASTVisitor>(
    before: V,
    statements: Seq<ASTStatement>,
    after: V,
) -> bool
    decreases statements.len(),
{
    if statements.len() == 0 {
        after == before
    } else {
        exists|between: V|
            #![trigger V::statement_effect(between, statements.last(), after)]
            statements_effect(before, statements.drop_last(), between) && V::statement_effect(
                between,
                statements.last(),
                after,
            )
    }
}

/// A program: its statements in their order.
#[derive(Debug)]
pub struct AST {
    pub statements: Vec<ASTStatement>,
}

impl AST {
    /// A program without statements.
    pub fn new() -> (ast: Self)
        ensures
            ast.statements@ == Seq::<ASTStatement>::empty(),
    {
        Self { statements: Vec::new() }
    }

    /// Adds `statement` after the others.
    pub fn add_statement(&mut self, statement: ASTStatement)
        ensures
            final(self).statements@ == old(self).statements@.push(statement),
    {
        self.statements.push(statement);
    }

    /// Lets `visitor` visit the statements in their order.
    pub fn visit<V: ASTVisitor>(&mut self, visitor: &mut V)
        requires
            old(visitor).ready(),
        ensures
            final(self).statements == old(self).statements,
            final(visitor).ready(),
            statements_effect(*old(visitor), old(self).statements@, *final(visitor)),
    {
        let mut i: usize = 0;
        while i < self.statements.len()
            invariant
                self.statements == old(self).statements,
                i <= self.statements.len(),
                visitor.ready(),
                statements_effect(*old(visitor), self.statements@.take(i as int), *visitor),
            decreases self.statements.len() - i,
        {
            let ghost between = *visitor;
            visitor.visit_statement(&self.statements[i]);
            proof {
                let next = self.statements@.take(i + 1);
                assert(next.drop_last() == self.statements@.take(i as int));
                assert(next.last() == self.statements@[i as int]);
                assert(statements_effect(*old(visitor), next.drop_last(), between)
                    && V::statement_effect(between, next.last(), *visitor));
                assert(statements_effect(*old(visitor), next, *visitor));
            }
            i += 1;
        }
        proof {
            assert(self.statements@.take(i as int) == self.statements@);
        }
    }
}

} // verus!
