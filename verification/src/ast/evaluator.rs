//! The evaluator: a pass that computes the value of a program.

use crate::ast::expressions::{
    ASTBinaryExpression, ASTBinaryOperatorKind, ASTExpression, ASTExpressionKind,
    ASTNumberExpression, ASTParenthesizedExpression, ASTVariableExpression,
};
use crate::ast::lexer::TextSpan;
use crate::ast::statements::{ASTLetStatement, ASTStatement, ASTStatementKind};
use crate::ast::{statements_effect, ASTVisitor};
use vstd::hash_map::StringHashMap;
use vstd::prelude::*;

verus! {

/// Why a program has no value.
#[derive(Debug, PartialEq, Eq)]
pub enum EvaluationError {
    /// A variable is read that no `let` statement has bound.
    UnboundVariable { identifier: String, span: TextSpan },
    /// The right operand of a division is zero.
    DivisionByZero,
    /// The tree holds an error node, left where the parser found no
    /// expression.
    MissingExpression { span: TextSpan },
}

impl Clone for EvaluationError {
    fn clone(&self) -> (error: Self)
        ensures
            error == *self,
    {
        match self {
            EvaluationError::UnboundVariable { identifier, span } => {
                EvaluationError::UnboundVariable {
                    identifier: identifier.clone(),
                    span: span.clone(),
                }
            },
            EvaluationError::DivisionByZero => EvaluationError::DivisionByZero,
            EvaluationError::MissingExpression { span } => EvaluationError::MissingExpression {
                span: span.clone(),
            },
        }
    }
}

/// The quotient of `left` by `right`, rounded toward zero; the one quotient
/// that `i64` cannot hold, that of the smallest number by minus one, wraps
/// around to the smallest number.
pub open spec fn quotient(left: i64, right: i64) -> i64 {
    match left.checked_div(right) {
        Some(q) => q,
        None => i64::MIN,
    }
}

/// The value of `left operator right`. Sums, differences and products are
/// computed in 64-bit two's complement, so they wrap around on overflow.
pub open spec fn apply_operator(
    operator: ASTBinaryOperatorKind,
    left: i64,
    right: i64,
) -> Result<i64, EvaluationError> {
    match operator {
        ASTBinaryOperatorKind::Add => Ok(left.wrapping_add(right)),
        ASTBinaryOperatorKind::Subtract => Ok(left.wrapping_sub(right)),
        ASTBinaryOperatorKind::Multiply => Ok(left.wrapping_mul(right)),
        ASTBinaryOperatorKind::Divide => if right == 0 {
            Err(EvaluationError::DivisionByZero)
        } else {
            Ok(quotient(left, right))
        },
    }
}

/// The value of `expression` where the variables have the values that
/// `variables` gives them. Operands are evaluated from left to right, and
/// the first failure is the failure of the whole.
pub open spec fn value_of(variables: Map<Seq<char>, i64>, expression: ASTExpression) -> Result<
    i64,
    EvaluationError,
>
    decreases expression,
{
    match expression.kind {
        ASTExpressionKind::Error(span) => Err(EvaluationError::MissingExpression { span }),
        ASTExpressionKind::Number(number) => Ok(number.value),
        ASTExpressionKind::Variable(variable) => {
            let name = variable.identifier.span.literal;
            if variables.contains_key(name@) {
                Ok(variables[name@])
            } else {
                Err(
                    EvaluationError::UnboundVariable {
                        identifier: name,
                        span: variable.identifier.span,
                    },
                )
            }
        },
        ASTExpressionKind::Parenthesized(parenthesized) => value_of(
            variables,
            *parenthesized.inner,
        ),
        ASTExpressionKind::Binary(binary) => match value_of(variables, *binary.left) {
            Err(error) => Err(error),
            Ok(left) => match value_of(variables, *binary.right) {
                Err(error) => Err(error),
                Ok(right) => apply_operator(binary.operator.kind, left, right),
            },
        },
    }
}

/// What an evaluator holds: the value computed last, the values of the
/// variables, and the failure that stopped the evaluation, if one did.
pub struct Evaluation {
    pub last_value: Option<i64>,
    pub variables: Map<Seq<char>, i64>,
    pub error: Option<EvaluationError>,
}

impl Evaluation {
    /// The evaluation after `expression`: a failed evaluation stays as it
    /// is; else the value becomes the last value, or the failure is kept and
    /// no value is left.
    pub open spec fn after_expression(self, expression: ASTExpression) -> Evaluation {
        if self.error is Some {
            self
        } else {
            match value_of(self.variables, expression) {
                Ok(value) => Evaluation {
                    last_value: Some(value),
                    variables: self.variables,
                    error: None,
                },
                Err(error) => Evaluation {
                    last_value: None,
                    variables: self.variables,
                    error: Some(error),
                },
            }
        }
    }

    /// The evaluation after `statement`: a `let` statement evaluates its
    /// initializer and then binds the identifier to the value, in place of
    /// an earlier binding of the same name; where the initializer fails,
    /// nothing is bound.
    pub open spec fn after_statement(self, statement: ASTStatement) -> Evaluation {
        match statement.kind {
            ASTStatementKind::Expression(expression) => self.after_expression(expression),
            ASTStatementKind::LetStatement(let_statement) => if self.error is Some {
                self
            } else {
                match value_of(self.variables, let_statement.initializer) {
                    Ok(value) => Evaluation {
                        last_value: Some(value),
                        variables: self.variables.insert(
                            let_statement.identifier.span.literal@,
                            value,
                        ),
                        error: None,
                    },
                    Err(error) => Evaluation {
                        last_value: None,
                        variables: self.variables,
                        error: Some(error),
                    },
                }
            },
        }
    }

    /// The evaluation after `statements`, one after the other.
    pub open spec fn after_statements(self, statements: Seq<ASTStatement>) -> Evaluation
        decreases statements.len(),
    {
        if statements.len() == 0 {
            self
        } else {
            self.after_statements(statements.drop_last()).after_statement(statements.last())
        }
    }
}

/// A pass that evaluates the statements it visits, one after the other.
pub struct ASTEvaluator {
    pub last_value: Option<i64>,
    pub variables: StringHashMap<i64>,
    pub error: Option<EvaluationError>,
}

impl View for ASTEvaluator {
    type V = Evaluation;

    open spec fn view(&self) -> Evaluation {
        Evaluation {
            last_value: self.last_value,
            variables: self.variables@,
            error: self.error,
        }
    }
}

impl ASTEvaluator {
    /// An evaluator that has computed no value and knows no variable.
    pub fn new() -> (evaluator: Self)
        ensures
            evaluator@ == (Evaluation {
                last_value: None,
                variables: Map::empty(),
                error: None,
            }),
    {
        Self { last_value: None, variables: StringHashMap::new(), error: None }
    }

    /// The value computed last, or the failure that stopped the evaluation.
    pub fn result(&self) -> (result: Result<Option<i64>, EvaluationError>)
        ensures
            result == match self.error {
                Some(error) => Err::<Option<i64>, EvaluationError>(error),
                None => Ok(self.last_value),
            },
    {
        match &self.error {
            Some(error) => Err(error.clone()),
            None => Ok(self.last_value),
        }
    }

    /// Stops the evaluation with `error`.
    fn fail(&mut self, error: EvaluationError)
        ensures
            final(self)@ == (Evaluation {
                last_value: None,
                variables: old(self)@.variables,
                error: Some(error),
            }),
    {
        self.last_value = None;
        self.error = Some(error);
    }
}

/// What `AST::visit` leaves in an evaluator is the evaluation after the
/// statements.
pub proof fn lemma_evaluates(before: ASTEvaluator, statements: Seq<ASTStatement>, after: ASTEvaluator)
    requires
        statements_effect(before, statements, after),
    ensures
        after@ == before@.after_statements(statements),
    decreases statements.len(),
{
    if statements.len() > 0 {
        let between = choose|between: ASTEvaluator|
            #![trigger ASTEvaluator::statement_effect(between, statements.last(), after)]
            statements_effect(before, statements.drop_last(), between)
                && ASTEvaluator::statement_effect(between, statements.last(), after);
        lemma_evaluates(before, statements.drop_last(), between);
    }
}

impl ASTVisitor for ASTEvaluator {
    open spec fn ready(&self) -> bool {
        true
    }

    open spec fn statement_effect(before: Self, statement: ASTStatement, after: Self) -> bool {
        after@ == before@.after_statement(statement)
    }

    open spec fn expression_effect(before: Self, expression: ASTExpression, after: Self) -> bool {
        after@ == before@.after_expression(expression)
    }

    fn default_visit_statement(&mut self, statement: &ASTStatement)
        decreases statement, 1int,
    {
        match statement.kind() {
            ASTStatementKind::Expression(expr) => self.visit_expression(expr),
            ASTStatementKind::LetStatement(let_stmt) => self.visit_let_statement(let_stmt),
        }
    }

    fn visit_statement(&mut self, statement: &ASTStatement)
        decreases statement, 2int,
    {
        self.default_visit_statement(statement);
    }

    fn default_visit_expression(&mut self, expression: &ASTExpression)
        decreases expression, 1int,
    {
        match expression.kind() {
            ASTExpressionKind::Error(span) => self.visit_error_expression(span),
            ASTExpressionKind::Number(expr) => self.visit_number_expression(expr),
            ASTExpressionKind::Binary(expr) => self.visit_binary_expression(expr),
            ASTExpressionKind::Variable(expr) => self.visit_variable_expression(expr),
            ASTExpressionKind::Parenthesized(parenthesized) => {
                self.visit_parenthesized_expression(parenthesized)
            },
        }
    }

    fn visit_expression(&mut self, expression: &ASTExpression)
        decreases expression, 2int,
    {
        self.default_visit_expression(expression);
    }

    fn visit_variable_expression(&mut self, expression: &ASTVariableExpression) {
        if self.error.is_some() {
            return ;
        }
        match self.variables.get(expression.identifier()) {
            Some(value) => {
                self.last_value = Some(*value);
            },
            None => {
                self.fail(
                    EvaluationError::UnboundVariable {
                        identifier: expression.identifier.span.clone_text(),
                        span: expression.identifier.span.clone(),
                    },
                );
            },
        }
    }

    fn visit_let_statement(&mut self, let_statement: &ASTLetStatement)
        decreases let_statement, 0int,
    {
        self.visit_expression(&let_statement.initializer);
        if self.error.is_some() {
            return ;
        }
        match self.last_value {
            Some(value) => {
                self.variables.insert(let_statement.identifier.span.clone_text(), value);
            },
            None => {},
        }
    }

    fn visit_error_expression(&mut self, span: &TextSpan) {
        if self.error.is_some() {
            return ;
        }
        self.fail(EvaluationError::MissingExpression { span: span.clone() });
    }

    fn visit_number_expression(&mut self, expression: &ASTNumberExpression) {
        if self.error.is_some() {
            return ;
        }
        self.last_value = Some(expression.number());
    }

    fn visit_binary_expression(&mut self, expression: &ASTBinaryExpression)
        decreases expression, 0int,
    {
        if self.error.is_some() {
            return ;
        }
        self.visit_expression(&expression.left);
        let left = match self.last_value {
            Some(value) => value,
            None => {
                return ;
            },
        };
        self.visit_expression(&expression.right);
        let right = match self.last_value {
            Some(value) => value,
            None => {
                return ;
            },
        };
        match expression.operator.kind {
            ASTBinaryOperatorKind::Add => {
                self.last_value = Some(left.wrapping_add(right));
            },
            ASTBinaryOperatorKind::Subtract => {
                self.last_value = Some(left.wrapping_sub(right));
            },
            ASTBinaryOperatorKind::Multiply => {
                self.last_value = Some(left.wrapping_mul(right));
            },
            ASTBinaryOperatorKind::Divide => {
                if right == 0 {
                    self.fail(EvaluationError::DivisionByZero);
                } else {
                    self.last_value = Some(
                        match left.checked_div(right) {
                            Some(q) => q,
                            None => i64::MIN,
                        },
                    );
                }
            },
        }
    }

    fn visit_parenthesized_expression(&mut self, expression: &ASTParenthesizedExpression)
        decreases expression, 0int,
    {
        self.visit_expression(&expression.inner);
    }
}

} // verus!
