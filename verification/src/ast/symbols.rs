//! The symbol checker: a pass that reports the variables that are used
//! without a declaration.

use crate::ast::expressions::{
    ASTBinaryExpression, ASTExpression, ASTExpressionKind, ASTNumberExpression,
    ASTParenthesizedExpression, ASTVariableExpression,
};
use crate::ast::lexer::TextSpan;
use crate::ast::statements::{ASTLetStatement, ASTStatement, ASTStatementKind};
use crate::ast::{statements_effect, ASTVisitor};
use crate::diagnostics::{
    filed, lemma_filed_both, lemma_filed_nothing, lemma_filed_one, Diagnostic, DiagnosticsBag,
    Report,
};
use vstd::hash_map::StringHashMap;
use vstd::prelude::*;

verus! {

/// One report for each use in `expression` of a variable that is not in
/// `declared`, in the order of the uses from left to right.
pub open spec fn undeclared_uses(declared: Set<Seq<char>>, expression: ASTExpression) -> Seq<Report>
    decreases expression,
{
    match expression.kind {
        ASTExpressionKind::Error(_) => Seq::empty(),
        ASTExpressionKind::Number(_) => Seq::empty(),
        ASTExpressionKind::Variable(variable) => if declared.contains(
            variable.identifier.span.literal@,
        ) {
            Seq::empty()
        } else {
            seq![Report::UndeclaredVariable { identifier: variable.identifier }]
        },
        ASTExpressionKind::Parenthesized(parenthesized) => undeclared_uses(
            declared,
            *parenthesized.inner,
        ),
        ASTExpressionKind::Binary(binary) => undeclared_uses(declared, *binary.left)
            + undeclared_uses(declared, *binary.right),
    }
}

/// The names that are declared after `statement`: a `let` statement
/// declares its identifier.
pub open spec fn declared_after(declared: Set<Seq<char>>, statement: ASTStatement) -> Set<
    Seq<char>,
> {
    match statement.kind {
        ASTStatementKind::Expression(_) => declared,
        ASTStatementKind::LetStatement(let_statement) => declared.insert(
            let_statement.identifier.span.literal@,
        ),
    }
}

/// The reports of `statement`. A `let` statement declares its identifier
/// before its initializer is checked, so the initializer may use it.
pub open spec fn undeclared_in(declared: Set<Seq<char>>, statement: ASTStatement) -> Seq<Report> {
    match statement.kind {
        ASTStatementKind::Expression(expression) => undeclared_uses(declared, expression),
        ASTStatementKind::LetStatement(let_statement) => undeclared_uses(
            declared_after(declared, statement),
            let_statement.initializer,
        ),
    }
}

/// The names that are declared after `statements`.
pub open spec fn declared_after_all(declared: Set<Seq<char>>, statements: Seq<ASTStatement>) -> Set<
    Seq<char>,
>
    decreases statements.len(),
{
    if statements.len() == 0 {
        declared
    } else {
        declared_after(declared_after_all(declared, statements.drop_last()), statements.last())
    }
}

/// The reports of `statements`, each statement checked against the names
/// that are declared after the statements before it.
pub open spec fn undeclared_in_all(declared: Set<Seq<char>>, statements: Seq<ASTStatement>) -> Seq<
    Report,
>
    decreases statements.len(),
{
    if statements.len() == 0 {
        Seq::empty()
    } else {
        undeclared_in_all(declared, statements.drop_last()) + undeclared_in(
            declared_after_all(declared, statements.drop_last()),
            statements.last(),
        )
    }
}

/// A pass that reports each use of a variable that no earlier `let` has
/// declared.
pub struct SymbolChecker {
    symbols: StringHashMap<()>,
    diagnostics: DiagnosticsBag,
}

impl SymbolChecker {
    /// The names declared so far.
    pub closed spec fn declared(&self) -> Set<Seq<char>> {
        self.symbols@.dom()
    }

    /// The diagnostics collected so far.
    pub closed spec fn diagnostics(&self) -> Seq<Diagnostic> {
        self.diagnostics@
    }

    /// A checker that knows no name yet and adds what it finds to
    /// `diagnostics`.
    pub fn new(diagnostics: DiagnosticsBag) -> (checker: Self)
        ensures
            checker.declared() == Set::<Seq<char>>::empty(),
            checker.diagnostics() == diagnostics@,
    {
        Self { symbols: StringHashMap::new(), diagnostics }
    }

    /// The diagnostics collected so far.
    pub fn diagnostics_bag(&self) -> (bag: &DiagnosticsBag)
        ensures
            bag@ == self.diagnostics(),
    {
        &self.diagnostics
    }

    /// Gives up the checker for the diagnostics that it collected.
    pub fn into_diagnostics(self) -> (bag: DiagnosticsBag)
        ensures
            bag@ == self.diagnostics(),
    {
        self.diagnostics
    }
}

/// What `AST::visit` leaves in a checker: the names that the statements
/// declare, and one diagnostic for each undeclared use in them.
pub proof fn lemma_checks(before: SymbolChecker, statements: Seq<ASTStatement>, after: SymbolChecker)
    requires
        statements_effect(before, statements, after),
    ensures
        after.declared() == declared_after_all(before.declared(), statements),
        filed(
            before.diagnostics(),
            after.diagnostics(),
            undeclared_in_all(before.declared(), statements),
        ),
    decreases statements.len(),
{
    if statements.len() == 0 {
        lemma_filed_nothing(before.diagnostics());
    } else {
        let between = choose|between: SymbolChecker|
            #![trigger SymbolChecker::statement_effect(between, statements.last(), after)]
            statements_effect(before, statements.drop_last(), between)
                && SymbolChecker::statement_effect(between, statements.last(), after);
        lemma_checks(before, statements.drop_last(), between);
        lemma_filed_both(
            before.diagnostics(),
            between.diagnostics(),
            after.diagnostics(),
            undeclared_in_all(before.declared(), statements.drop_last()),
            undeclared_in(between.declared(), statements.last()),
        );
    }
}

impl ASTVisitor for SymbolChecker {
    open spec fn ready(&self) -> bool {
        true
    }

    open spec fn statement_effect(before: Self, statement: ASTStatement, after: Self) -> bool {
        &&& after.declared() == declared_after(before.declared(), statement)
        &&& filed(
            before.diagnostics(),
            after.diagnostics(),
            undeclared_in(before.declared(), statement),
        )
    }

    open spec fn expression_effect(before: Self, expression: ASTExpression, after: Self) -> bool {
        &&& after.declared() == before.declared()
        &&& filed(
            before.diagnostics(),
            after.diagnostics(),
            undeclared_uses(before.declared(), expression),
        )
    }

    fn default_visit_statement(&mut self, statement: &ASTStatement)
        decreases statement, 1int,
    {
        match statement.kind() {
            ASTStatementKind::Expression(expr) => self.visit_expression(expr),
            ASTStatementKind::LetStatement(let_stmt) => self.visit_let_statement(let_stmt),
        }
    }

    fn visit_statement(&mut self, statement: &ASTStatement)
        decreases statement, 2int,
    {
        self.default_visit_statement(statement);
    }

    fn default_visit_expression(&mut self, expression: &ASTExpression)
        decreases expression, 1int,
    {
        match expression.kind() {
            ASTExpressionKind::Error(span) => self.visit_error_expression(span),
            ASTExpressionKind::Number(expr) => self.visit_number_expression(expr),
            ASTExpressionKind::Binary(expr) => self.visit_binary_expression(expr),
            ASTExpressionKind::Variable(expr) => self.visit_variable_expression(expr),
            ASTExpressionKind::Parenthesized(parenthesized) => {
                self.visit_parenthesized_expression(parenthesized)
            },
        }
    }

    fn visit_expression(&mut self, expression: &ASTExpression)
        decreases expression, 2int,
    {
        self.default_visit_expression(expression);
    }

    fn visit_variable_expression(&mut self, expression: &ASTVariableExpression) {
        let ghost before = self.diagnostics@;
        if self.symbols.get(expression.identifier()).is_none() {
            self.diagnostics.report_undeclared_variable(
                expression.identifier.span.clone_text(),
                expression.identifier.span.clone(),
            );
            proof {
                lemma_filed_one(
                    before,
                    self.diagnostics@,
                    Report::UndeclaredVariable { identifier: expression.identifier },
                );
            }
        } else {
            proof {
                lemma_filed_nothing(before);
            }
        }
    }

    fn visit_let_statement(&mut self, let_statement: &ASTLetStatement)
        decreases let_statement, 0int,
    {
        self.symbols.insert(let_statement.identifier.span.clone_text(), ());
        self.visit_expression(&let_statement.initializer);
    }

    fn visit_error_expression(&mut self, span: &TextSpan) {
        proof {
            lemma_filed_nothing(self.diagnostics@);
        }
    }

    fn visit_number_expression(&mut self, expression: &ASTNumberExpression) {
        proof {
            lemma_filed_nothing(self.diagnostics@);
        }
    }

    fn visit_binary_expression(&mut self, expression: &ASTBinaryExpression)
        decreases expression, 0int,
    {
        let ghost before = self.diagnostics@;
        self.visit_expression(&expression.left);
        let ghost between = self.diagnostics@;
        self.visit_expression(&expression.right);
        proof {
            lemma_filed_both(
                before,
                between,
                self.diagnostics@,
                undeclared_uses(old(self).declared(), *expression.left),
                undeclared_uses(old(self).declared(), *expression.right),
            );
        }
    }

    fn visit_parenthesized_expression(&mut self, expression: &ASTParenthesizedExpression)
        decreases expression, 0int,
    {
        self.visit_expression(&expression.inner);
    }
}

} // verus!
