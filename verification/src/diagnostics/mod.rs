//! Diagnostics: what the phases report, and the bag that collects it.

use crate::ast::lexer::{TextSpan, Token, TokenKind};
use crate::ast::syntax::{apply_style, is_styled, SyntaxColors};
use crate::diagnostics::printer::DiagnosticsPrinter;
use crate::text::SourceText;
use vstd::prelude::*;
use vstd::string::*;

pub mod printer;

verus! {

/// How grave a diagnostic is.
#[derive(Debug, Clone, Copy, PartialEq, Eq, Structural)]
pub enum DiagnosticKind {
    Error,
    Warning,
}

/// A message about a stretch of the source text.
#[derive(Debug)]
pub struct Diagnostic {
    pub kind: DiagnosticKind,
    pub message: String,
    pub span: TextSpan,
}

impl Diagnostic {
    /// The diagnostic of the given kind, message and span.
    pub fn new(kind: DiagnosticKind, message: String, span: TextSpan) -> (diagnostic: Self)
        ensures
            diagnostic.kind == kind,
            diagnostic.message == message,
            diagnostic.span == span,
    {
        Self { kind, message, span }
    }

    /// A printer that renders `diagnostics` against `text`.
    pub fn printer<'a>(text: &'a SourceText, diagnostics: &'a [Diagnostic]) -> (printer:
        DiagnosticsPrinter<'a>)
        ensures
            printer.text() == text,
            printer.diagnostics() == diagnostics,
    {
        DiagnosticsPrinter::new(text, diagnostics)
    }
}

/// The message that reports a token of kind `found` where one of kind
/// `expected` had to stand.
pub open spec fn unexpected_token_message(expected: TokenKind, found: TokenKind) -> Seq<char> {
    "Expected "@ + expected.text() + ", found "@ + found.text()
}

/// The message that reports a token of kind `found` where an expression had
/// to start; `shown` is the text of a keyword as the keyword style renders it.
pub open spec fn expected_expression_message(found: TokenKind, shown: Seq<char>) -> Seq<char> {
    if found.is_keyword() {
        "Expected expression, found '"@ + shown + "' keyword"@
    } else {
        "Expected expression, found '"@ + found.text() + "'"@
    }
}

/// True when `message` reports a token of kind `found` where an expression
/// had to start, however the terminal renders the keyword style.
pub open spec fn is_expected_expression_message(found: TokenKind, message: Seq<char>) -> bool {
    exists|shown: Seq<char>|
        is_styled(found.text(), shown) && message == expected_expression_message(found, shown)
}

/// The message that reports the use of a variable that no `let` has declared.
pub open spec fn undeclared_variable_message(name: Seq<char>) -> Seq<char> {
    "Undeclared variable '"@ + name + "'"@
}

/// The message that reports an expression that is nested deeper than the
/// parser goes.
pub open spec fn nested_too_deep_message() -> Seq<char> {
    "Expression is nested too deeply"@
}

/// What a phase finds wrong with a program; each report is filed as one
/// diagnostic.
pub enum Report {
    /// A token of another kind stands where one of kind `expected` had to.
    UnexpectedToken { expected: TokenKind, found: Token },
    /// A token that starts no expression stands where one had to start.
    ExpectedExpression { found: Token },
    /// At the token `found` an expression would be nested deeper than the
    /// parser goes.
    NestedTooDeep { found: Token },
    /// A variable is used that no `let` statement has declared.
    UndeclaredVariable { identifier: Token },
}

impl Report {
    /// True when `diagnostic` is the error that tells of this report: it
    /// carries the span of the token found and the report's message.
    pub open spec fn filed_as(self, diagnostic: Diagnostic) -> bool {
        match self {
            Report::UnexpectedToken { expected, found } => {
                &&& diagnostic.kind == DiagnosticKind::Error
                &&& diagnostic.span == found.span
                &&& diagnostic.message@ == unexpected_token_message(expected, found.kind)
            },
            Report::ExpectedExpression { found } => {
                &&& diagnostic.kind == DiagnosticKind::Error
                &&& diagnostic.span == found.span
                &&& is_expected_expression_message(found.kind, diagnostic.message@)
            },
            Report::NestedTooDeep { found } => {
                &&& diagnostic.kind == DiagnosticKind::Error
                &&& diagnostic.span == found.span
                &&& diagnostic.message@ == nested_too_deep_message()
            },
            Report::UndeclaredVariable { identifier } => {
                &&& diagnostic.kind == DiagnosticKind::Error
                &&& diagnostic.span == identifier.span
                &&& diagnostic.message@ == undeclared_variable_message(identifier.span.literal@)
            },
        }
    }
}

/// True when `after` is `before` followed by one diagnostic for each of
/// `reports`, in their order.
pub open spec fn filed(
    before: Seq<Diagnostic>,
    after: Seq<Diagnostic>,
    reports: Seq<Report>,
) -> bool {
    &&& after.len() == before.len() + reports.len()
    &&& forall|i: int| 0 <= i < before.len() ==> after[i] == before[i]
    &&& forall|i: int|
        0 <= i < reports.len() ==> #[trigger] reports[i].filed_as(after[before.len() + i])
}

/// Nothing filed leaves the diagnostics as they are.
pub proof fn lemma_filed_nothing(diagnostics: Seq<Diagnostic>)
    ensures
        filed(diagnostics, diagnostics, Seq::empty()),
{
}

/// One diagnostic added is one report filed.
pub proof fn lemma_filed_one(before: Seq<Diagnostic>, after: Seq<Diagnostic>, report: Report)
    requires
        after.len() == before.len() + 1,
        after.drop_last() == before,
        report.filed_as(after.last()),
    ensures
        filed(before, after, seq![report]),
{
    assert forall|i: int| 0 <= i < before.len() implies after[i] == before[i] by {
        assert(after.drop_last()[i] == after[i]);
    }
}

/// Reports filed one batch after the other are filed as one batch.
pub proof fn lemma_filed_both(
    before: Seq<Diagnostic>,
    between: Seq<Diagnostic>,
    after: Seq<Diagnostic>,
    first: Seq<Report>,
    second: Seq<Report>,
)
    requires
        filed(before, between, first),
        filed(between, after, second),
    ensures
        filed(before, after, first + second),
{
    let both = first + second;
    assert forall|i: int| 0 <= i < both.len() implies #[trigger] both[i].filed_as(
        after[before.len() + i],
    ) by {
        if i < first.len() {
            assert(first[i].filed_as(between[before.len() + i]));
            assert(after[before.len() + i] == between[before.len() + i]);
        } else {
            assert(second[i - first.len()].filed_as(after[between.len() + (i - first.len())]));
        }
    }
}

/// The diagnostics of all phases, in the order in which they were reported.
#[derive(Debug)]
pub struct DiagnosticsBag {
    pub diagnostics: Vec<Diagnostic>,
}

impl View for DiagnosticsBag {
    type V = Seq<Diagnostic>;

    open spec fn view(&self) -> Seq<Diagnostic> {
        self.diagnostics@
    }
}

impl DiagnosticsBag {
    /// An empty bag.
    pub fn new() -> (bag: Self)
        ensures
            bag@ == Seq::<Diagnostic>::empty(),
    {
        Self { diagnostics: Vec::new() }
    }

    /// Whether nothing has been reported.
    pub fn is_empty(&self) -> (empty: bool)
        ensures
            empty == (self@.len() == 0),
    {
        self.diagnostics.is_empty()
    }

    /// Adds an error.
    pub fn report_error(&mut self, message: String, span: TextSpan)
        ensures
            final(self)@ == old(self)@.push(
                (Diagnostic { kind: DiagnosticKind::Error, message, span }),
            ),
    {
        let error = Diagnostic::new(DiagnosticKind::Error, message, span);
        self.diagnostics.push(error);
    }

    /// Adds a warning.
    pub fn report_warning(&mut self, message: String, span: TextSpan)
        ensures
            final(self)@ == old(self)@.push(
                (Diagnostic { kind: DiagnosticKind::Warning, message, span }),
            ),
    {
        let warning = Diagnostic::new(DiagnosticKind::Warning, message, span);
        self.diagnostics.push(warning);
    }

    /// Adds the error that a token of kind `expected` had to stand where
    /// `found` stands.
    pub fn report_unexpected_token(&mut self, expected: &TokenKind, found: &Token)
        ensures
            final(self)@.len() == old(self)@.len() + 1,
            final(self)@.drop_last() == old(self)@,
            final(self)@.last().kind == DiagnosticKind::Error,
            final(self)@.last().span == found.span,
            final(self)@.last().message@ == unexpected_token_message(*expected, found.kind),
    {
        let mut message = String::from_str("Expected ");
        message.append(expected.to_string().as_str());
        message.append(", found ");
        message.append(found.kind.to_string().as_str());
        self.report_error(message, found.span.clone());
    }

    /// The text of the message that `report_expected_expression` files, given
    /// the keyword's text as the keyword style rendered it.
    pub fn expected_expression_text(found: &TokenKind, shown: &str) -> (message: String)
        ensures
            message@ == expected_expression_message(*found, shown@),
    {
        let mut message = String::from_str("Expected expression, found '");
        if found.is_keyword() {
            message.append(shown);
            message.append("' keyword");
        } else {
            message.append(found.to_string().as_str());
            message.append("'");
        }
        message
    }

    /// Adds the error that an expression had to start where `found` stands. A
    /// keyword is shown in the keyword style, as the terminal renders it.
    pub fn report_expected_expression(&mut self, found: &Token)
        ensures
            final(self)@.len() == old(self)@.len() + 1,
            final(self)@.drop_last() == old(self)@,
            final(self)@.last().kind == DiagnosticKind::Error,
            final(self)@.last().span == found.span,
            is_expected_expression_message(found.kind, final(self)@.last().message@),
    {
        let text = found.kind.to_string();
        let message = if found.kind.is_keyword() {
            let shown = apply_style(&SyntaxColors::keyword(), text.as_str());
            Self::expected_expression_text(&found.kind, shown.as_str())
        } else {
            let message = Self::expected_expression_text(&found.kind, text.as_str());
            assert(is_styled(found.kind.text(), text@) && message@
                == expected_expression_message(found.kind, text@));
            message
        };
        self.report_error(message, found.span.clone());
    }

    /// Adds the error that at the token `found` an expression would be nested
    /// deeper than the parser goes.
    pub fn report_nested_too_deep(&mut self, found: &Token)
        ensures
            final(self)@.len() == old(self)@.len() + 1,
            final(self)@.drop_last() == old(self)@,
            final(self)@.last().kind == DiagnosticKind::Error,
            final(self)@.last().span == found.span,
            final(self)@.last().message@ == nested_too_deep_message(),
    {
        let message = String::from_str("Expression is nested too deeply");
        self.report_error(message, found.span.clone());
    }

    /// Adds the error that the variable `name`, used at `span`, is not declared.
    pub fn report_undeclared_variable(&mut self, name: String, span: TextSpan)
        ensures
            final(self)@.len() == old(self)@.len() + 1,
            final(self)@.drop_last() == old(self)@,
            final(self)@.last().kind == DiagnosticKind::Error,
            final(self)@.last().span == span,
            final(self)@.last().message@ == undeclared_variable_message(name@),
    {
        let mut message = String::from_str("Undeclared variable '");
        message.append(name.as_str());
        message.append("'");
        self.report_error(message, span);
    }
}


impl IntoIterator for DiagnosticsBag {
    type IntoIter = std::vec::IntoIter<Diagnostic>;

    type Item = Diagnostic;

    /// Hands the diagnostics out in the order in which they were reported.
    fn into_iter(self) -> (iter: Self::IntoIter)
        ensures
            iter == vstd::std_specs::vec::spec_into_iter(self.diagnostics),
    {
        self.diagnostics.into_iter()
    }
}

} // verus!
