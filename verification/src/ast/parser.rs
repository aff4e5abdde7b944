//! The parser: precedence climbing over the significant tokens.
//!
//! What the parser does is stated by the specification functions
//! `parse_primary_expression`, `parse_binary_expression`, `parse_operators`
//! and `parse_statement` below; the executable parser is proved to compute
//! them and to file one diagnostic for each report they list.
//!
//! The parser ends on every input: at the end of the tokens it reads an end
//! token that starts no expression and is no operator, and it builds no
//! expression that is nested deeper than `MAX_NESTING`, so that neither the
//! parser nor a pass over the tree needs a deep stack.

use crate::ast::expressions::{ASTBinaryOperator, ASTBinaryOperatorKind, ASTExpression};
use crate::ast::lexer::{TextSpan, Token, TokenKind};
use crate::ast::statements::ASTStatement;
use crate::diagnostics::{
    filed, lemma_filed_both, lemma_filed_nothing, lemma_filed_one, Diagnostic, DiagnosticsBag,
    Report,
};
use vstd::prelude::*;

verus! {

/// A counter that starts at zero.
pub struct Counter {
    value: usize,
}

impl View for Counter {
    type V = usize;

    closed spec fn view(&self) -> usize {
        self.value
    }
}

impl Counter {
    /// A counter at zero.
    pub fn new() -> (counter: Self)
        ensures
            counter@ == 0,
    {
        Self { value: 0 }
    }

    /// Adds one and returns the value from before.
    pub fn increment(&mut self) -> (current: usize)
        requires
            old(self)@ < usize::MAX,
        ensures
            current == old(self)@,
            final(self)@ == old(self)@ + 1,
    {
        let current = self.value;
        self.value = current + 1;
        current
    }

    /// The value of the counter.
    pub fn get_value(&self) -> (value: usize)
        ensures
            value == self@,
    {
        self.value
    }
}

/// The token that stands for the end of the input.
pub open spec fn end_token(end: TextSpan) -> Token {
    Token { kind: TokenKind::EOF, span: end }
}

/// The token at `position`; past the last token, the end token.
pub open spec fn token_at(tokens: Seq<Token>, end: TextSpan, position: int) -> Token {
    if 0 <= position < tokens.len() {
        tokens[position]
    } else {
        end_token(end)
    }
}

/// The position after the token at `position` has been consumed: the end of
/// the input is never passed.
pub open spec fn position_after(tokens: Seq<Token>, position: int) -> int {
    if position < tokens.len() {
        position + 1
    } else {
        position
    }
}

/// The report, if any, of expecting a token of kind `expected` at `position`.
pub open spec fn expectation(
    tokens: Seq<Token>,
    end: TextSpan,
    position: int,
    expected: TokenKind,
) -> Seq<Report> {
    let found = token_at(tokens, end, position);
    if found.kind != expected {
        seq![Report::UnexpectedToken { expected, found }]
    } else {
        Seq::empty()
    }
}

/// The binary operator that a token of the given kind denotes.
pub open spec fn operator_kind(kind: TokenKind) -> Option<ASTBinaryOperatorKind> {
    match kind {
        TokenKind::Plus => Some(ASTBinaryOperatorKind::Add),
        TokenKind::Minus => Some(ASTBinaryOperatorKind::Subtract),
        TokenKind::Asterisk => Some(ASTBinaryOperatorKind::Multiply),
        TokenKind::Slash => Some(ASTBinaryOperatorKind::Divide),
        _ => None,
    }
}

/// The binary operator at `position`, if a token stands there that denotes one.
pub open spec fn operator_at(tokens: Seq<Token>, position: int) -> Option<ASTBinaryOperator> {
    if 0 <= position < tokens.len() {
        match operator_kind(tokens[position].kind) {
            Some(kind) => Some(ASTBinaryOperator { kind, token: tokens[position] }),
            None => None,
        }
    } else {
        None
    }
}

/// An expression read from the tokens: the tree, the position after it and
/// what was found wrong on the way.
pub struct Parsed {
    pub expression: ASTExpression,
    pub next: int,
    pub reports: Seq<Report>,
}

/// A statement read from the tokens.
pub struct ParsedStatement {
    pub statement: ASTStatement,
    pub next: int,
    pub reports: Seq<Report>,
}

/// How deeply an expression may be nested. The parser builds no deeper
/// tree, whatever the input: where a parenthesis or an operator would take an
/// expression beyond the limit, it is reported and left out.
pub const MAX_NESTING: usize = 256;

/// A primary expression takes one token: a number is a literal, an
/// identifier a variable, a left parenthesis opens an expression that a right
/// parenthesis has to close, and any other token is reported and becomes an
/// error node that carries its span. `depth` is how deeply the expression may
/// be nested; a left parenthesis where it is zero is reported and becomes an
/// error node too.
pub open spec fn parse_primary_expression(
    tokens: Seq<Token>,
    end: TextSpan,
    position: int,
    depth: int,
) -> Parsed
    decreases tokens.len() - position, 0int,
{
    let token = token_at(tokens, end, position);
    let next = position_after(tokens, position);
    match token.kind {
        TokenKind::Number(value) => Parsed {
            expression: ASTExpression::number_node(value),
            next,
            reports: Seq::empty(),
        },
        TokenKind::Identifier => Parsed {
            expression: ASTExpression::variable_node(token),
            next,
            reports: Seq::empty(),
        },
        TokenKind::LeftParen => if depth <= 0 {
            Parsed {
                expression: ASTExpression::error_node(token.span),
                next,
                reports: seq![Report::NestedTooDeep { found: token }],
            }
        } else {
            let inner = parse_binary_expression(tokens, end, position + 1, 0, depth - 1);
            Parsed {
                expression: ASTExpression::parenthesized_node(inner.expression),
                next: position_after(tokens, inner.next),
                reports: inner.reports + expectation(
                    tokens,
                    end,
                    inner.next,
                    TokenKind::RightParen,
                ),
            }
        },
        _ => Parsed {
            expression: ASTExpression::error_node(token.span),
            next,
            reports: seq![Report::ExpectedExpression { found: token }],
        },
    }
}

/// A binary expression is a primary expression followed by the operators
/// that bind tighter than `precedence`, each with its right operand.
///
/// The test on `left.next` only serves the proof that the definition is
/// well founded: `lemma_parse_progress` shows that it always holds.
pub open spec fn parse_binary_expression(
    tokens: Seq<Token>,
    end: TextSpan,
    position: int,
    precedence: int,
    depth: int,
) -> Parsed
    decreases tokens.len() - position, 2int,
{
    let left = parse_primary_expression(tokens, end, position, depth);
    if position <= left.next <= tokens.len() {
        let whole = parse_operators(tokens, end, left.next, left.expression, precedence, depth);
        Parsed {
            expression: whole.expression,
            next: whole.next,
            reports: left.reports + whole.reports,
        }
    } else {
        left
    }
}

/// The climbing loop: while the token at `position` is an operator that
/// binds tighter than `precedence`, it is consumed, its right operand is
/// read with the operator's own precedence as the new threshold, and the two
/// operands become the left operand of what follows. An operator of the same
/// precedence as the threshold is therefore left to the enclosing loop, which
/// makes chains of equal precedence group to the left.
///
/// An operator whose left operand is already nested `depth` deep is consumed
/// and reported, and the loop ends there.
///
/// The test on `right.next` only serves the proof that the definition is
/// well founded: `lemma_parse_progress` shows that it always holds.
pub open spec fn parse_operators(
    tokens: Seq<Token>,
    end: TextSpan,
    position: int,
    left: ASTExpression,
    precedence: int,
    depth: int,
) -> Parsed
    decreases tokens.len() - position, 1int,
{
    match operator_at(tokens, position) {
        Some(operator) => {
            if operator.kind.binding() <= precedence {
                Parsed { expression: left, next: position, reports: Seq::empty() }
            } else if left.nesting() >= depth {
                Parsed {
                    expression: left,
                    next: position + 1,
                    reports: seq![Report::NestedTooDeep { found: operator.token }],
                }
            } else {
                let right = parse_binary_expression(
                    tokens,
                    end,
                    position + 1,
                    operator.kind.binding() as int,
                    depth - 1,
                );
                if position < right.next <= tokens.len() {
                    let whole = parse_operators(
                        tokens,
                        end,
                        right.next,
                        ASTExpression::binary_node(left, operator, right.expression),
                        precedence,
                        depth,
                    );
                    Parsed {
                        expression: whole.expression,
                        next: whole.next,
                        reports: right.reports + whole.reports,
                    }
                } else {
                    Parsed { expression: left, next: position, reports: Seq::empty() }
                }
            }
        },
        None => Parsed { expression: left, next: position, reports: Seq::empty() },
    }
}

/// An expression is a binary expression whose operators all count, nested
/// no deeper than `MAX_NESTING`.
pub open spec fn parse_expression(tokens: Seq<Token>, end: TextSpan, position: int) -> Parsed {
    parse_binary_expression(tokens, end, position, 0, MAX_NESTING as int)
}

/// A `let` statement: the keyword, an identifier, `=`, an expression and
/// `;`, in that order. Each token that is not what is expected there is
/// reported and consumed all the same.
pub open spec fn parse_let_statement(tokens: Seq<Token>, end: TextSpan, position: int) -> ParsedStatement {
    let at_name = position_after(tokens, position);
    let at_equals = position_after(tokens, at_name);
    let at_value = position_after(tokens, at_equals);
    let value = parse_expression(tokens, end, at_value);
    ParsedStatement {
        statement: ASTStatement::let_node(token_at(tokens, end, at_name), value.expression),
        next: position_after(tokens, value.next),
        reports: expectation(tokens, end, position, TokenKind::Let) + expectation(
            tokens,
            end,
            at_name,
            TokenKind::Identifier,
        ) + expectation(tokens, end, at_equals, TokenKind::Equals) + value.reports + expectation(
            tokens,
            end,
            value.next,
            TokenKind::Semicolon,
        ),
    }
}

/// A statement is a `let` statement where the keyword stands, else an
/// expression.
pub open spec fn parse_statement(tokens: Seq<Token>, end: TextSpan, position: int) -> ParsedStatement {
    if token_at(tokens, end, position).kind == TokenKind::Let {
        parse_let_statement(tokens, end, position)
    } else {
        let parsed = parse_expression(tokens, end, position);
        ParsedStatement {
            statement: ASTStatement::expression_node(parsed.expression),
            next: parsed.next,
            reports: parsed.reports,
        }
    }
}

/// A statement takes at least one token and ends within the tokens.
pub proof fn lemma_statement_progress(tokens: Seq<Token>, end: TextSpan, position: int)
    requires
        0 <= position < tokens.len(),
    ensures
        position < parse_statement(tokens, end, position).next <= tokens.len(),
{
    lemma_parse_progress(tokens, end, position, 0, MAX_NESTING as int);
    let at_name = position_after(tokens, position);
    let at_equals = position_after(tokens, at_name);
    let at_value = position_after(tokens, at_equals);
    lemma_parse_progress(tokens, end, at_value, 0, MAX_NESTING as int);
}

/// A program read from the tokens: its statements and what was found wrong
/// on the way.
pub struct ParsedProgram {
    pub statements: Seq<ASTStatement>,
    pub reports: Seq<Report>,
}

/// A program is the statements from `position` on, one after the other,
/// until no token is left.
pub open spec fn parse_program(tokens: Seq<Token>, end: TextSpan, position: int) -> ParsedProgram
    decreases tokens.len() - position,
    via parse_program_decreases
{
    if 0 <= position < tokens.len() {
        let first = parse_statement(tokens, end, position);
        let rest = parse_program(tokens, end, first.next);
        ParsedProgram {
            statements: seq![first.statement] + rest.statements,
            reports: first.reports + rest.reports,
        }
    } else {
        ParsedProgram { statements: Seq::empty(), reports: Seq::empty() }
    }
}

#[via_fn]
proof fn parse_program_decreases(tokens: Seq<Token>, end: TextSpan, position: int) {
    if 0 <= position < tokens.len() {
        lemma_statement_progress(tokens, end, position);
    }
}

/// Parsing never moves backwards nor past the end, and moves forward
/// wherever a token is left.
pub proof fn lemma_parse_progress(
    tokens: Seq<Token>,
    end: TextSpan,
    position: int,
    precedence: int,
    depth: int,
)
    requires
        0 <= position <= tokens.len(),
    ensures
        position <= parse_primary_expression(tokens, end, position, depth).next <= tokens.len(),
        position <= parse_binary_expression(tokens, end, position, precedence, depth).next
            <= tokens.len(),
        position < tokens.len() ==> position < parse_primary_expression(
            tokens,
            end,
            position,
            depth,
        ).next,
        position < tokens.len() ==> position < parse_binary_expression(
            tokens,
            end,
            position,
            precedence,
            depth,
        ).next,
    decreases tokens.len() - position, 2int,
{
    lemma_primary_progress(tokens, end, position, depth);
    let left = parse_primary_expression(tokens, end, position, depth);
    lemma_operators_progress(tokens, end, left.next, left.expression, precedence, depth);
}

proof fn lemma_primary_progress(tokens: Seq<Token>, end: TextSpan, position: int, depth: int)
    requires
        0 <= position <= tokens.len(),
    ensures
        position <= parse_primary_expression(tokens, end, position, depth).next <= tokens.len(),
        position < tokens.len() ==> position < parse_primary_expression(
            tokens,
            end,
            position,
            depth,
        ).next,
    decreases tokens.len() - position, 0int,
{
    let token = token_at(tokens, end, position);
    if token.kind == TokenKind::LeftParen && depth > 0 {
        lemma_parse_progress(tokens, end, position + 1, 0, depth - 1);
    }
}

proof fn lemma_operators_progress(
    tokens: Seq<Token>,
    end: TextSpan,
    position: int,
    left: ASTExpression,
    precedence: int,
    depth: int,
)
    requires
        0 <= position <= tokens.len(),
    ensures
        position <= parse_operators(tokens, end, position, left, precedence, depth).next
            <= tokens.len(),
    decreases tokens.len() - position, 1int,
{
    match operator_at(tokens, position) {
        Some(operator) => {
            if operator.kind.binding() > precedence && left.nesting() < depth {
                lemma_parse_progress(
                    tokens,
                    end,
                    position + 1,
                    operator.kind.binding() as int,
                    depth - 1,
                );
                let right = parse_binary_expression(
                    tokens,
                    end,
                    position + 1,
                    operator.kind.binding() as int,
                    depth - 1,
                );
                lemma_operators_progress(
                    tokens,
                    end,
                    right.next,
                    ASTExpression::binary_node(left, operator, right.expression),
                    precedence,
                    depth,
                );
            }
        },
        None => {},
    }
}

/// No expression is nested deeper than `depth` allows.
pub proof fn lemma_parse_nesting(
    tokens: Seq<Token>,
    end: TextSpan,
    position: int,
    precedence: int,
    depth: int,
)
    requires
        0 <= position <= tokens.len(),
        0 <= depth,
    ensures
        parse_primary_expression(tokens, end, position, depth).expression.nesting() <= depth,
        parse_binary_expression(tokens, end, position, precedence, depth).expression.nesting()
            <= depth,
    decreases tokens.len() - position, 2int,
{
    lemma_primary_nesting(tokens, end, position, depth);
    lemma_parse_progress(tokens, end, position, precedence, depth);
    let left = parse_primary_expression(tokens, end, position, depth);
    lemma_operators_nesting(tokens, end, left.next, left.expression, precedence, depth);
}

proof fn lemma_primary_nesting(tokens: Seq<Token>, end: TextSpan, position: int, depth: int)
    requires
        0 <= position <= tokens.len(),
        0 <= depth,
    ensures
        parse_primary_expression(tokens, end, position, depth).expression.nesting() <= depth,
    decreases tokens.len() - position, 0int,
{
    let token = token_at(tokens, end, position);
    if token.kind == TokenKind::LeftParen && depth > 0 {
        lemma_parse_nesting(tokens, end, position + 1, 0, depth - 1);
    }
}

proof fn lemma_operators_nesting(
    tokens: Seq<Token>,
    end: TextSpan,
    position: int,
    left: ASTExpression,
    precedence: int,
    depth: int,
)
    requires
        0 <= position <= tokens.len(),
        left.nesting() <= depth,
    ensures
        parse_operators(tokens, end, position, left, precedence, depth).expression.nesting()
            <= depth,
    decreases tokens.len() - position, 1int,
{
    match operator_at(tokens, position) {
        Some(operator) => {
            if operator.kind.binding() > precedence && left.nesting() < depth {
                lemma_parse_progress(
                    tokens,
                    end,
                    position + 1,
                    operator.kind.binding() as int,
                    depth - 1,
                );
                lemma_parse_nesting(
                    tokens,
                    end,
                    position + 1,
                    operator.kind.binding() as int,
                    depth - 1,
                );
                let right = parse_binary_expression(
                    tokens,
                    end,
                    position + 1,
                    operator.kind.binding() as int,
                    depth - 1,
                );
                lemma_operators_nesting(
                    tokens,
                    end,
                    right.next,
                    ASTExpression::binary_node(left, operator, right.expression),
                    precedence,
                    depth,
                );
            }
        },
        None => {},
    }
}

/// No statement holds an expression that is nested deeper than
/// `MAX_NESTING`.
pub proof fn lemma_statement_nesting(tokens: Seq<Token>, end: TextSpan, position: int)
    requires
        0 <= position <= tokens.len(),
    ensures
        parse_statement(tokens, end, position).statement.nesting() <= MAX_NESTING,
{
    lemma_parse_nesting(tokens, end, position, 0, MAX_NESTING as int);
    let at_name = position_after(tokens, position);
    let at_equals = position_after(tokens, at_name);
    let at_value = position_after(tokens, at_equals);
    lemma_parse_nesting(tokens, end, at_value, 0, MAX_NESTING as int);
}

/// True when `token` is a number.
pub open spec fn is_number(token: Token) -> bool {
    token.kind is Number
}

/// The literal node of a number token.
pub open spec fn literal_of(token: Token) -> ASTExpression {
    ASTExpression::number_node(token.kind->Number_0)
}

/// Of two operators between three numbers, the one that binds tighter takes
/// its operands first, and of two that bind alike, the left one: `a - b - c`
/// is `(a - b) - c`, `a + b * c` is `a + (b * c)` and `a * b + c` is
/// `(a * b) + c`. All five tokens are consumed and nothing is reported.
pub proof fn lemma_operators_group_by_precedence(tokens: Seq<Token>, end: TextSpan)
    requires
        tokens.len() == 5,
        is_number(tokens[0]),
        operator_at(tokens, 1) is Some,
        is_number(tokens[2]),
        operator_at(tokens, 3) is Some,
        is_number(tokens[4]),
    ensures
        parse_expression(tokens, end, 0).next == 5,
        parse_expression(tokens, end, 0).reports == Seq::<Report>::empty(),
        parse_expression(tokens, end, 0).expression == ({
            let first = operator_at(tokens, 1)->0;
            let second = operator_at(tokens, 3)->0;
            if second.kind.binding() > first.kind.binding() {
                ASTExpression::binary_node(
                    literal_of(tokens[0]),
                    first,
                    ASTExpression::binary_node(literal_of(tokens[2]), second, literal_of(tokens[4])),
                )
            } else {
                ASTExpression::binary_node(
                    ASTExpression::binary_node(literal_of(tokens[0]), first, literal_of(tokens[2])),
                    second,
                    literal_of(tokens[4]),
                )
            }
        }),
{
    let first = operator_at(tokens, 1)->0;
    let second = operator_at(tokens, 3)->0;
    let a = literal_of(tokens[0]);
    let b = literal_of(tokens[2]);
    let c = literal_of(tokens[4]);
    let none = Seq::<Report>::empty();
    let low = first.kind.binding() as int;
    let high = second.kind.binding() as int;

    let deep = MAX_NESTING as int;
    let pa = parse_primary_expression(tokens, end, 0, deep);
    assert(pa.expression == a && pa.next == 1 && pa.reports == none);
    let pb = parse_primary_expression(tokens, end, 2, deep - 1);
    assert(pb.expression == b && pb.next == 3 && pb.reports == none);
    assert(a.nesting() == 0 && b.nesting() == 0 && c.nesting() == 0);

    if high > low {
        let pc = parse_primary_expression(tokens, end, 4, deep - 2);
        assert(pc.expression == c && pc.next == 5 && pc.reports == none);
        let after_last = parse_operators(tokens, end, 5, c, high, deep - 2);
        assert(after_last.expression == c && after_last.next == 5 && after_last.reports == none);
        let last = parse_binary_expression(tokens, end, 4, high, deep - 2);
        assert(last.expression == c && last.next == 5 && last.reports =~= none);
        let bc = ASTExpression::binary_node(b, second, c);
        let after_inner = parse_operators(tokens, end, 5, bc, low, deep - 1);
        assert(after_inner.expression == bc && after_inner.next == 5 && after_inner.reports
            == none);
        let inner = parse_operators(tokens, end, 3, b, low, deep - 1);
        assert(inner.expression == bc && inner.next == 5 && inner.reports =~= none);
        let right = parse_binary_expression(tokens, end, 2, low, deep - 1);
        assert(right.expression == bc && right.next == 5 && right.reports =~= none);
        let abc = ASTExpression::binary_node(a, first, bc);
        let after_whole = parse_operators(tokens, end, 5, abc, 0, deep);
        assert(after_whole.expression == abc && after_whole.next == 5 && after_whole.reports
            == none);
        let whole = parse_operators(tokens, end, 1, a, 0, deep);
        assert(whole.expression == abc && whole.next == 5 && whole.reports =~= none);
        let all = parse_binary_expression(tokens, end, 0, 0, deep);
        assert(all.reports =~= none);
    } else {
        let pc = parse_primary_expression(tokens, end, 4, deep - 1);
        assert(pc.expression == c && pc.next == 5 && pc.reports == none);
        let after_last = parse_operators(tokens, end, 5, c, high, deep - 1);
        assert(after_last.expression == c && after_last.next == 5 && after_last.reports == none);
        let last = parse_binary_expression(tokens, end, 4, high, deep - 1);
        assert(last.expression == c && last.next == 5 && last.reports =~= none);
        let ab = ASTExpression::binary_node(a, first, b);
        assert(ab.nesting() == 1);
        let inner = parse_operators(tokens, end, 3, b, low, deep - 1);
        assert(inner.expression == b && inner.next == 3 && inner.reports =~= none);
        let right = parse_binary_expression(tokens, end, 2, low, deep - 1);
        assert(right.expression == b && right.next == 3 && right.reports =~= none);
        let abc = ASTExpression::binary_node(ab, second, c);
        let after_rest = parse_operators(tokens, end, 5, abc, 0, deep);
        assert(after_rest.expression == abc && after_rest.next == 5 && after_rest.reports
            == none);
        let rest = parse_operators(tokens, end, 3, ab, 0, deep);
        assert(rest.expression == abc && rest.next == 5 && rest.reports =~= none);
        let whole = parse_operators(tokens, end, 1, a, 0, deep);
        assert(whole.expression == abc && whole.next == 5 && whole.reports =~= none);
        let all = parse_binary_expression(tokens, end, 0, 0, deep);
        assert(all.reports =~= none);
    }
}

/// Whether the parser keeps a token of this kind: blanks and line feeds are
/// dropped, so that the layout of a program does not matter.
pub open spec fn is_significant(kind: TokenKind) -> bool {
    kind != TokenKind::Whitespace && kind != TokenKind::Newline
}

/// The tokens that the parser keeps, in their order.
pub open spec fn significant(tokens: Seq<Token>) -> Seq<Token> {
    tokens.filter(|token: Token| is_significant(token.kind))
}

/// The empty span at the offset where the last of `tokens` ends, which the
/// end token carries; offset zero where there is no token.
pub open spec fn is_end_span(tokens: Seq<Token>, span: TextSpan) -> bool {
    &&& span.start == span.end
    &&& span.end == if tokens.len() > 0 {
        tokens.last().span.end
    } else {
        0
    }
    &&& span.literal@ == Seq::<char>::empty()
}

/// A parser: the significant tokens, a cursor into them, and the bag that
/// takes what it finds wrong.
pub struct Parser {
    tokens: Vec<Token>,
    current: Counter,
    diagnostics_bag: DiagnosticsBag,
    end_token: Token,
}

impl Parser {
    /// The tokens that are parsed.
    pub closed spec fn tokens(&self) -> Seq<Token> {
        self.tokens@
    }

    /// The span of the end token.
    pub closed spec fn end_span(&self) -> TextSpan {
        self.end_token.span
    }

    /// Number of tokens consumed so far.
    pub closed spec fn position(&self) -> int {
        self.current@ as int
    }

    /// The diagnostics collected so far.
    pub closed spec fn diagnostics(&self) -> Seq<Diagnostic> {
        self.diagnostics_bag@
    }

    /// The cursor lies within the tokens, and the end token is of kind `EOF`.
    pub closed spec fn wf(&self) -> bool {
        &&& self.current@ <= self.tokens@.len()
        &&& self.end_token.kind == TokenKind::EOF
    }

    /// True when `after` is this parser moved on to position `next` with
    /// `reports` filed, and nothing else changed.
    pub open spec fn moved_on(&self, after: &Parser, next: int, reports: Seq<Report>) -> bool {
        &&& after.wf()
        &&& after.tokens() == self.tokens()
        &&& after.end_span() == self.end_span()
        &&& after.position() == next
        &&& self.position() <= next <= self.tokens().len()
        &&& filed(self.diagnostics(), after.diagnostics(), reports)
    }

    /// A parser over the significant tokens of `tokens` that adds what it
    /// finds wrong to `diagnostics_bag`.
    pub fn new(tokens: Vec<Token>, diagnostics_bag: DiagnosticsBag) -> (parser: Self)
        ensures
            parser.wf(),
            parser.tokens() == significant(tokens@),
            is_end_span(tokens@, parser.end_span()),
            parser.position() == 0,
            parser.diagnostics() == diagnostics_bag@,
    {
        let mut kept: Vec<Token> = Vec::new();
        let mut end: usize = 0;
        let mut i: usize = 0;
        proof {
            reveal(Seq::filter);
        }
        while i < tokens.len()
            invariant
                i <= tokens.len(),
                kept@ == significant(tokens@.take(i as int)),
                end == if i > 0 {
                    tokens@[i - 1].span.end
                } else {
                    0
                },
            decreases tokens.len() - i,
        {
            proof {
                reveal(Seq::filter);
                assert(tokens@.take(i + 1).drop_last() == tokens@.take(i as int));
            }
            let token = &tokens[i];
            if token.kind != TokenKind::Whitespace && token.kind != TokenKind::Newline {
                kept.push(token.clone());
            }
            end = token.span.end;
            i += 1;
        }
        proof {
            assert(tokens@.take(tokens@.len() as int) == tokens@);
        }
        Self {
            tokens: kept,
            current: Counter::new(),
            diagnostics_bag,
            end_token: Token::new(TokenKind::EOF, TextSpan::new(end, end, String::new())),
        }
    }

    /// The diagnostics collected so far.
    pub fn diagnostics_bag(&self) -> (bag: &DiagnosticsBag)
        ensures
            bag@ == self.diagnostics(),
    {
        &self.diagnostics_bag
    }

    /// Gives up the parser for the diagnostics that it collected.
    pub fn into_diagnostics(self) -> (bag: DiagnosticsBag)
        ensures
            bag@ == self.diagnostics(),
    {
        self.diagnostics_bag
    }

    /// The token `offset` places from the current one; the end token where
    /// no token stands there.
    fn peek(&self, offset: isize) -> (token: &Token)
        requires
            self.wf(),
        ensures
            *token == token_at(self.tokens@, self.end_token.span, self.current@ + offset),
    {
        let current = self.current.get_value();
        if offset >= 0 {
            let forward: usize = offset as usize;
            if forward < self.tokens.len() - current {
                &self.tokens[current + forward]
            } else {
                &self.end_token
            }
        } else {
            let back: usize = (-(offset + 1)) as usize + 1;
            if back <= current && current - back < self.tokens.len() {
                &self.tokens[current - back]
            } else {
                &self.end_token
            }
        }
    }

    fn current(&self) -> (token: &Token)
        requires
            self.wf(),
        ensures
            *token == token_at(self.tokens@, self.end_token.span, self.current@ as int),
    {
        self.peek(0)
    }

    /// Steps over the current token and returns it; at the end of the input
    /// the end token is returned and the parser stays where it is.
    fn consume(&mut self) -> (token: Token)
        requires
            old(self).wf(),
        ensures
            token == token_at(old(self).tokens(), old(self).end_span(), old(self).position()),
            old(self).moved_on(
                final(self),
                position_after(old(self).tokens(), old(self).position()),
                Seq::empty(),
            ),
            final(self).diagnostics_bag == old(self).diagnostics_bag,
    {
        if self.current.get_value() >= self.tokens.len() {
            return self.end_token.clone();
        }
        self.current.increment();
        self.peek(-1).clone()
    }

    fn consume_and_expect(&mut self, expected: TokenKind) -> (token: Token)
        requires
            old(self).wf(),
        ensures
            token == token_at(old(self).tokens(), old(self).end_span(), old(self).position()),
            old(self).moved_on(
                final(self),
                position_after(old(self).tokens(), old(self).position()),
                expectation(
                    old(self).tokens(),
                    old(self).end_span(),
                    old(self).position(),
                    expected,
                ),
            ),
    {
        let token = self.consume();
        if token.kind != expected {
            let ghost before = self.diagnostics_bag@;
            self.diagnostics_bag.report_unexpected_token(&expected, &token);
            proof {
                lemma_filed_one(
                    before,
                    self.diagnostics_bag@,
                    Report::UnexpectedToken { expected, found: token },
                );
            }
        }
        token
    }

    fn is_at_end(&self) -> (at_end: bool)
        requires
            self.wf(),
        ensures
            at_end == (self.position() == self.tokens().len()),
    {
        self.current.get_value() >= self.tokens.len()
    }

    /// Parses the next statement; `None` once every token has been consumed.
    pub fn next_statement(&mut self) -> (statement: Option<ASTStatement>)
        requires
            old(self).wf(),
        ensures
            match statement {
                None => {
                    &&& old(self).position() == old(self).tokens().len()
                    &&& old(self).moved_on(final(self), old(self).position(), Seq::empty())
                },
                Some(statement) => {
                    let parsed = parse_statement(
                        old(self).tokens(),
                        old(self).end_span(),
                        old(self).position(),
                    );
                    &&& old(self).position() < final(self).position()
                    &&& statement == parsed.statement
                    &&& old(self).moved_on(final(self), parsed.next, parsed.reports)
                    &&& statement.nesting() <= MAX_NESTING
                },
            },
    {
        if self.is_at_end() {
            return None;
        }
        Some(self.parse_statement())
    }

    fn parse_statement(&mut self) -> (statement: ASTStatement)
        requires
            old(self).wf(),
            old(self).position() < old(self).tokens().len(),
        ensures
            old(self).position() < final(self).position(),
            statement.nesting() <= MAX_NESTING,
            statement == parse_statement(
                old(self).tokens(),
                old(self).end_span(),
                old(self).position(),
            ).statement,
            old(self).moved_on(
                final(self),
                parse_statement(old(self).tokens(), old(self).end_span(), old(self).position()).next,
                parse_statement(
                    old(self).tokens(),
                    old(self).end_span(),
                    old(self).position(),
                ).reports,
            ),
    {
        match self.current().kind {
            TokenKind::Let => self.parse_let_statement(),
            _ => {
                let expr = self.parse_expression();
                ASTStatement::expression(expr)
            },
        }
    }

    fn parse_let_statement(&mut self) -> (statement: ASTStatement)
        requires
            old(self).wf(),
            old(self).position() < old(self).tokens().len(),
        ensures
            old(self).position() < final(self).position(),
            statement.nesting() <= MAX_NESTING,
            statement == parse_let_statement(
                old(self).tokens(),
                old(self).end_span(),
                old(self).position(),
            ).statement,
            old(self).moved_on(
                final(self),
                parse_let_statement(
                    old(self).tokens(),
                    old(self).end_span(),
                    old(self).position(),
                ).next,
                parse_let_statement(
                    old(self).tokens(),
                    old(self).end_span(),
                    old(self).position(),
                ).reports,
            ),
    {
        let ghost tokens = self.tokens@;
        let ghost end = self.end_token.span;
        let ghost start = self.position();
        let ghost d0 = self.diagnostics_bag@;
        self.consume_and_expect(TokenKind::Let);
        let ghost d1 = self.diagnostics_bag@;
        let ghost at_name = self.position();
        let identifier = self.consume_and_expect(TokenKind::Identifier);
        let ghost d2 = self.diagnostics_bag@;
        let ghost at_equals = self.position();
        self.consume_and_expect(TokenKind::Equals);
        let ghost d3 = self.diagnostics_bag@;
        let ghost at_value = self.position();
        let expr = self.parse_expression();
        let ghost d4 = self.diagnostics_bag@;
        let ghost at_close = self.position();
        self.consume_and_expect(TokenKind::Semicolon);
        proof {
            let r0 = expectation(tokens, end, start, TokenKind::Let);
            let r1 = expectation(tokens, end, at_name, TokenKind::Identifier);
            let r2 = expectation(tokens, end, at_equals, TokenKind::Equals);
            let r3 = parse_expression(tokens, end, at_value).reports;
            let r4 = expectation(tokens, end, at_close, TokenKind::Semicolon);
            lemma_filed_both(d0, d1, d2, r0, r1);
            lemma_filed_both(d0, d2, d3, r0 + r1, r2);
            lemma_filed_both(d0, d3, d4, r0 + r1 + r2, r3);
            lemma_filed_both(d0, d4, self.diagnostics_bag@, r0 + r1 + r2 + r3, r4);
        }
        ASTStatement::let_statement(identifier, expr)
    }

    fn parse_expression(&mut self) -> (expression: ASTExpression)
        requires
            old(self).wf(),
        ensures
            expression == parse_expression(
                old(self).tokens(),
                old(self).end_span(),
                old(self).position(),
            ).expression,
            old(self).moved_on(
                final(self),
                parse_expression(old(self).tokens(), old(self).end_span(), old(self).position()).next,
                parse_expression(
                    old(self).tokens(),
                    old(self).end_span(),
                    old(self).position(),
                ).reports,
            ),
            old(self).position() < old(self).tokens().len() ==> old(self).position() < final(self).position(),
            expression.nesting() <= MAX_NESTING,
    {
        let (expression, _) = self.parse_binary_expression(0, MAX_NESTING);
        expression
    }

    /// Parses a primary expression that may be nested `depth` deep; returns
    /// it and how deeply it is nested.
    fn parse_primary_expression(&mut self, depth: usize) -> (parsed: (ASTExpression, usize))
        requires
            old(self).wf(),
        ensures
            parsed.0 == parse_primary_expression(
                old(self).tokens(),
                old(self).end_span(),
                old(self).position(),
                depth as int,
            ).expression,
            old(self).moved_on(
                final(self),
                parse_primary_expression(
                    old(self).tokens(),
                    old(self).end_span(),
                    old(self).position(),
                    depth as int,
                ).next,
                parse_primary_expression(
                    old(self).tokens(),
                    old(self).end_span(),
                    old(self).position(),
                    depth as int,
                ).reports,
            ),
            old(self).position() < old(self).tokens().len() ==> old(self).position() < final(self).position(),
            parsed.1 == parsed.0.nesting(),
            parsed.1 <= depth,
        decreases old(self).tokens@.len() - old(self).current@, 0int,
    {
        let ghost before = self.diagnostics_bag@;
        let token = self.consume();

        match token.kind {
            TokenKind::Number(value) => {
                proof {
                    lemma_filed_nothing(before);
                }
                (ASTExpression::number(value), 0)
            },
            TokenKind::Identifier => {
                proof {
                    lemma_filed_nothing(before);
                }
                (ASTExpression::identifier(token), 0)
            },
            TokenKind::LeftParen => {
                if depth == 0 {
                    self.diagnostics_bag.report_nested_too_deep(&token);
                    proof {
                        lemma_filed_one(
                            before,
                            self.diagnostics_bag@,
                            Report::NestedTooDeep { found: token },
                        );
                    }
                    return (ASTExpression::error(token.span.clone()), 0);
                }
                let (expr, nesting) = self.parse_binary_expression(0, depth - 1);
                let ghost between = self.diagnostics_bag@;
                let ghost inner = parse_binary_expression(
                    old(self).tokens(),
                    old(self).end_span(),
                    old(self).position() + 1,
                    0,
                    depth - 1,
                );
                self.consume_and_expect(TokenKind::RightParen);
                proof {
                    lemma_filed_both(
                        before,
                        between,
                        self.diagnostics_bag@,
                        inner.reports,
                        expectation(
                            old(self).tokens(),
                            old(self).end_span(),
                            inner.next,
                            TokenKind::RightParen,
                        ),
                    );
                }

                (ASTExpression::parenthesized(expr), nesting + 1)
            },
            _ => {
                self.diagnostics_bag.report_expected_expression(&token);
                proof {
                    lemma_filed_one(
                        before,
                        self.diagnostics_bag@,
                        Report::ExpectedExpression { found: token },
                    );
                }

                (ASTExpression::error(token.span.clone()), 0)
            },
        }
    }

    /// The operator that the current token denotes, if it denotes one; the
    /// token is not consumed.
    fn parse_binary_operator(&mut self) -> (operator: Option<ASTBinaryOperator>)
        requires
            old(self).wf(),
        ensures
            *final(self) == *old(self),
            operator == operator_at(old(self).tokens(), old(self).position()),
    {
        let token = self.current();

        let kind = match token.kind {
            TokenKind::Plus => ASTBinaryOperatorKind::Add,
            TokenKind::Minus => ASTBinaryOperatorKind::Subtract,
            TokenKind::Asterisk => ASTBinaryOperatorKind::Multiply,
            TokenKind::Slash => ASTBinaryOperatorKind::Divide,
            _ => {
                return None;
            },
        };

        Some(ASTBinaryOperator::new(kind, token.clone()))
    }

    /// Parses a binary expression that may be nested `depth` deep; returns it
    /// and how deeply it is nested.
    fn parse_binary_expression(&mut self, precedence: u8, depth: usize) -> (parsed: (
        ASTExpression,
        usize,
    ))
        requires
            old(self).wf(),
        ensures
            parsed.0 == parse_binary_expression(
                old(self).tokens(),
                old(self).end_span(),
                old(self).position(),
                precedence as int,
                depth as int,
            ).expression,
            old(self).moved_on(
                final(self),
                parse_binary_expression(
                    old(self).tokens(),
                    old(self).end_span(),
                    old(self).position(),
                    precedence as int,
                    depth as int,
                ).next,
                parse_binary_expression(
                    old(self).tokens(),
                    old(self).end_span(),
                    old(self).position(),
                    precedence as int,
                    depth as int,
                ).reports,
            ),
            old(self).position() < old(self).tokens().len() ==> old(self).position() < final(self).position(),
            parsed.1 == parsed.0.nesting(),
            parsed.1 <= depth,
        decreases old(self).tokens@.len() - old(self).current@, 2int,
    {
        let ghost tokens = self.tokens@;
        let ghost end = self.end_token.span;
        let ghost start = self.position();
        let ghost before = self.diagnostics_bag@;
        let ghost whole = parse_binary_expression(
            tokens,
            end,
            start,
            precedence as int,
            depth as int,
        );

        let (mut left, mut nesting) = self.parse_primary_expression(depth);
        let ghost mut reports = parse_primary_expression(tokens, end, start, depth as int).reports;

        loop
            invariant_except_break
                filed(before, self.diagnostics_bag@, reports),
                whole.expression == parse_operators(
                    tokens,
                    end,
                    self.position(),
                    left,
                    precedence as int,
                    depth as int,
                ).expression,
                whole.next == parse_operators(
                    tokens,
                    end,
                    self.position(),
                    left,
                    precedence as int,
                    depth as int,
                ).next,
                whole.reports == reports + parse_operators(
                    tokens,
                    end,
                    self.position(),
                    left,
                    precedence as int,
                    depth as int,
                ).reports,
            invariant
                self.wf(),
                self.tokens@ == tokens,
                self.end_token.span == end,
                start == old(self).position(),
                tokens == old(self).tokens(),
                end == old(self).end_span(),
                before == old(self).diagnostics(),
                whole == parse_binary_expression(
                    tokens,
                    end,
                    start,
                    precedence as int,
                    depth as int,
                ),
                start <= self.position() <= tokens.len(),
                start < tokens.len() ==> start < self.position(),
                nesting == left.nesting(),
                nesting <= depth,
            ensures
                self.wf(),
                self.tokens@ == tokens,
                self.end_token.span == end,
                start <= self.position() <= tokens.len(),
                start < tokens.len() ==> start < self.position(),
                nesting == left.nesting(),
                nesting <= depth,
                filed(before, self.diagnostics_bag@, whole.reports),
                whole.expression == left,
                whole.next == self.position(),
            decreases tokens.len() - self.position(),
        {
            match self.parse_binary_operator() {
                Some(operator) => {
                    let op_precedence = operator.precedence();
                    if op_precedence <= precedence {
                        assert(whole.reports == reports);
                        break ;
                    }
                    let ghost at = self.position();
                    let ghost between = self.diagnostics_bag@;
                    self.consume();
                    if nesting >= depth {
                        self.diagnostics_bag.report_nested_too_deep(&operator.token);
                        proof {
                            let report = Report::NestedTooDeep { found: operator.token };
                            lemma_filed_one(between, self.diagnostics_bag@, report);
                            lemma_filed_both(
                                before,
                                between,
                                self.diagnostics_bag@,
                                reports,
                                seq![report],
                            );
                            assert(whole.reports == reports + seq![report]);
                        }
                        break ;
                    }
                    let (right, right_nesting) = self.parse_binary_expression(
                        op_precedence,
                        depth - 1,
                    );
                    proof {
                        let parsed = parse_binary_expression(
                            tokens,
                            end,
                            at + 1,
                            op_precedence as int,
                            depth - 1,
                        );
                        lemma_filed_both(
                            before,
                            between,
                            self.diagnostics_bag@,
                            reports,
                            parsed.reports,
                        );
                        let rest = parse_operators(
                            tokens,
                            end,
                            parsed.next,
                            ASTExpression::binary_node(left, operator, parsed.expression),
                            precedence as int,
                            depth as int,
                        );
                        assert(reports + (parsed.reports + rest.reports) == reports
                            + parsed.reports + rest.reports);
                        reports = reports + parsed.reports;
                    }
                    left = ASTExpression::binary(left, operator, right);
                    nesting = if nesting >= right_nesting {
                        nesting + 1
                    } else {
                        right_nesting + 1
                    };
                },
                None => {
                    assert(whole.reports == reports);
                    break ;
                },
            }
        }

        (left, nesting)
    }
}

} // verus!
