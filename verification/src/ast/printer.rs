//! The printer: a pass that writes a program back as styled text.

use crate::ast::expressions::{
    ASTBinaryExpression, ASTExpression, ASTExpressionKind, ASTNumberExpression,
    ASTParenthesizedExpression, ASTVariableExpression,
};
use crate::ast::lexer::TextSpan;
use crate::ast::statements::{ASTLetStatement, ASTStatement, ASTStatementKind};
use crate::ast::syntax::{apply_style, is_styled, SyntaxColors};
use crate::ast::ASTVisitor;
use crate::text::decimal::{decimal_string, decimal_text};
use vstd::prelude::*;
use vstd::string::*;

verus! {

/// True when `text` is `expression` as the printer writes it, however the
/// terminal renders the styles: numbers in decimal, operators with a blank
/// on either side, each part in the style of its kind.
pub open spec fn shows_expression(expression: ASTExpression, text: Seq<char>) -> bool
    decreases expression,
{
    match expression.kind {
        ASTExpressionKind::Error(span) => is_styled(span.literal@, text),
        ASTExpressionKind::Number(number) => is_styled(decimal_text(number.value as int), text),
        ASTExpressionKind::Variable(variable) => is_styled(
            variable.identifier.span.literal@,
            text,
        ),
        ASTExpressionKind::Parenthesized(parenthesized) => exists|
            open: Seq<char>,
            inner: Seq<char>,
            close: Seq<char>,
        |
            #![trigger open + inner + close]
            {
                &&& is_styled("("@, open)
                &&& shows_expression(*parenthesized.inner, inner)
                &&& is_styled(")"@, close)
                &&& text == open + inner + close
            },
        ASTExpressionKind::Binary(binary) => exists|
            left: Seq<char>,
            operator: Seq<char>,
            right: Seq<char>,
        |
            #![trigger left + " "@ + operator + " "@ + right]
            {
                &&& shows_expression(*binary.left, left)
                &&& is_styled(binary.operator.token.span.literal@, operator)
                &&& shows_expression(*binary.right, right)
                &&& text == left + " "@ + operator + " "@ + right
            },
    }
}

/// True when `text` is `statement` as the printer writes it: an expression
/// as it stands, a `let` statement on a line of its own.
pub open spec fn shows_statement(statement: ASTStatement, text: Seq<char>) -> bool {
    match statement.kind {
        ASTStatementKind::Expression(expression) => shows_expression(expression, text),
        ASTStatementKind::LetStatement(let_statement) => exists|
            keyword: Seq<char>,
            name: Seq<char>,
            equals: Seq<char>,
            value: Seq<char>,
            semicolon: Seq<char>,
        |
            #![trigger keyword + " "@ + name + equals + value + semicolon + "\n"@]
            {
                &&& is_styled("let"@, keyword)
                &&& is_styled(let_statement.identifier.span.literal@, name)
                &&& is_styled(" = "@, equals)
                &&& shows_expression(let_statement.initializer, value)
                &&& is_styled(";"@, semicolon)
                &&& text == keyword + " "@ + name + equals + value + semicolon + "\n"@
            },
    }
}

/// A pass that writes the nodes it visits as styled text.
pub struct ASTPrinter {
    result: String,
}

impl View for ASTPrinter {
    type V = Seq<char>;

    closed spec fn view(&self) -> Seq<char> {
        self.result@
    }
}

impl ASTPrinter {
    /// A printer that has written nothing.
    pub fn new() -> (printer: Self)
        ensures
            printer@ == Seq::<char>::empty(),
    {
        Self { result: String::new() }
    }

    /// The text written so far.
    pub fn result(&self) -> (result: String)
        ensures
            result@ == self@,
    {
        self.result.clone()
    }

    fn push(&mut self, text: &str)
        ensures
            final(self)@ == old(self)@ + text@,
    {
        self.result.append(text);
    }

    fn push_whitespace(&mut self)
        ensures
            final(self)@ == old(self)@ + " "@,
    {
        self.result.append(" ");
    }

    fn push_newline(&mut self)
        ensures
            final(self)@ == old(self)@ + "\n"@,
    {
        self.result.append("\n");
    }
}

impl ASTVisitor for ASTPrinter {
    open spec fn ready(&self) -> bool {
        true
    }

    open spec fn statement_effect(before: Self, statement: ASTStatement, after: Self) -> bool {
        exists|text: Seq<char>|
            #![trigger before@ + text]
            shows_statement(statement, text) && after@ == before@ + text
    }

    open spec fn expression_effect(before: Self, expression: ASTExpression, after: Self) -> bool {
        exists|text: Seq<char>|
            #![trigger before@ + text]
            shows_expression(expression, text) && after@ == before@ + text
    }

    fn default_visit_statement(&mut self, statement: &ASTStatement)
        decreases statement, 1int,
    {
        match statement.kind() {
            ASTStatementKind::Expression(expr) => {
                self.visit_expression(expr);
                proof {
                    let text = choose|text: Seq<char>|
                        #![trigger old(self)@ + text]
                        shows_expression(*expr, text) && self@ == old(self)@ + text;
                    assert(shows_statement(*statement, text) && self@ == old(self)@ + text);
                }
            },
            ASTStatementKind::LetStatement(let_stmt) => self.visit_let_statement(let_stmt),
        }
    }

    fn visit_statement(&mut self, statement: &ASTStatement)
        decreases statement, 2int,
    {
        self.default_visit_statement(statement);
    }

    fn default_visit_expression(&mut self, expression: &ASTExpression)
        decreases expression, 1int,
    {
        match expression.kind() {
            ASTExpressionKind::Error(span) => self.visit_error_expression(span),
            ASTExpressionKind::Number(expr) => self.visit_number_expression(expr),
            ASTExpressionKind::Binary(expr) => self.visit_binary_expression(expr),
            ASTExpressionKind::Variable(expr) => self.visit_variable_expression(expr),
            ASTExpressionKind::Parenthesized(parenthesized) => {
                self.visit_parenthesized_expression(parenthesized)
            },
        }
    }

    fn visit_expression(&mut self, expression: &ASTExpression)
        decreases expression, 2int,
    {
        self.default_visit_expression(expression);
    }

    fn visit_error_expression(&mut self, span: &TextSpan) {
        let shown = apply_style(&SyntaxColors::error(), span.get_text());
        self.push(shown.as_str());
        assert(self@ == old(self)@ + shown@);
    }

    fn visit_number_expression(&mut self, expression: &ASTNumberExpression) {
        let shown = apply_style(
            &SyntaxColors::number(),
            decimal_string(expression.number()).as_str(),
        );
        self.push(shown.as_str());
        assert(self@ == old(self)@ + shown@);
    }

    fn visit_let_statement(&mut self, let_statement: &ASTLetStatement)
        decreases let_statement, 0int,
    {
        let keyword = apply_style(&SyntaxColors::keyword(), "let");
        self.push(keyword.as_str());
        self.push_whitespace();
        let name = apply_style(&SyntaxColors::text(), let_statement.identifier.span.get_text());
        self.push(name.as_str());
        let equals = apply_style(&SyntaxColors::text(), " = ");
        self.push(equals.as_str());
        let ghost before = self@;
        self.visit_expression(&let_statement.initializer);
        let ghost between = self@;
        let semicolon = apply_style(&SyntaxColors::text(), ";");
        self.push(semicolon.as_str());
        self.push_newline();
        proof {
            let value = choose|text: Seq<char>|
                #![trigger before + text]
                shows_expression(let_statement.initializer, text) && between == before + text;
            let text = keyword@ + " "@ + name@ + equals@ + value + semicolon@ + "\n"@;
            assert(self@ =~= old(self)@ + text);
            assert(shows_statement(
                (ASTStatement { kind: ASTStatementKind::LetStatement(*let_statement) }),
                text,
            ));
            assert(self@ == old(self)@ + text);
        }
    }

    fn visit_binary_expression(&mut self, bin_expr: &ASTBinaryExpression)
        decreases bin_expr, 0int,
    {
        self.visit_expression(&bin_expr.left);
        let ghost first = self@;
        self.push_whitespace();
        let operator = apply_style(&SyntaxColors::text(), bin_expr.operator.token.span.get_text());
        self.push(operator.as_str());
        self.push_whitespace();
        let ghost before = self@;
        self.visit_expression(&bin_expr.right);
        proof {
            let left = choose|text: Seq<char>|
                #![trigger old(self)@ + text]
                shows_expression(*bin_expr.left, text) && first == old(self)@ + text;
            let right = choose|text: Seq<char>|
                #![trigger before + text]
                shows_expression(*bin_expr.right, text) && self@ == before + text;
            let text = left + " "@ + operator@ + " "@ + right;
            assert(self@ =~= old(self)@ + text);
            assert(shows_expression(
                (ASTExpression { kind: ASTExpressionKind::Binary(*bin_expr) }),
                text,
            ));
            assert(self@ == old(self)@ + text);
        }
    }

    fn visit_parenthesized_expression(&mut self, paren_expr: &ASTParenthesizedExpression)
        decreases paren_expr, 0int,
    {
        let open = apply_style(&SyntaxColors::text(), "(");
        self.push(open.as_str());
        let ghost before = self@;
        self.visit_expression(&paren_expr.inner);
        let ghost between = self@;
        let close = apply_style(&SyntaxColors::text(), ")");
        self.push(close.as_str());
        proof {
            let inner = choose|text: Seq<char>|
                #![trigger before + text]
                shows_expression(*paren_expr.inner, text) && between == before + text;
            let text = open@ + inner + close@;
            assert(self@ =~= old(self)@ + text);
            assert(shows_expression(
                (ASTExpression { kind: ASTExpressionKind::Parenthesized(*paren_expr) }),
                text,
            ));
            assert(self@ == old(self)@ + text);
        }
    }

    fn visit_variable_expression(&mut self, var_expr: &ASTVariableExpression) {
        let shown = apply_style(&SyntaxColors::variable(), var_expr.identifier());
        self.push(shown.as_str());
        assert(self@ == old(self)@ + shown@);
    }
}

} // verus!
