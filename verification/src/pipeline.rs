//! The phases of the front end in their order: lexing, parsing, symbol
//! checking and evaluation. A phase runs only while the phases before it
//! have found nothing wrong.

use crate::ast::evaluator::{lemma_evaluates, ASTEvaluator, Evaluation, EvaluationError};
use crate::ast::lexer::{
    is_token_at, is_token_stream, joined_literals, lemma_literals_rebuild_source,
    lemma_token_end, token_end, token_starts, Lexer, TextSpan, Token,
};
use crate::ast::parser::{
    is_end_span, parse_program, parse_statement, significant, Parser, MAX_NESTING,
};
use crate::ast::statements::ASTStatement;
use crate::ast::symbols::{lemma_checks, undeclared_in_all, SymbolChecker};
use crate::ast::AST;
use crate::diagnostics::{filed, lemma_filed_both, lemma_filed_nothing, DiagnosticsBag, Report};
use vstd::prelude::*;

verus! {

/// How a run ended.
#[derive(Debug)]
pub enum Outcome {
    /// The parser or the symbol checker found something wrong, and the
    /// program was not evaluated; the bag holds what they found.
    Rejected(DiagnosticsBag),
    /// The evaluation failed.
    Failed(EvaluationError),
    /// The program was evaluated; the value is that of its last statement,
    /// `None` for a program without statements.
    Value(Option<i64>),
}

/// A program as it was parsed, and how the run ended.
#[derive(Debug)]
pub struct Run {
    pub ast: AST,
    pub outcome: Outcome,
}

/// The evaluation before the first statement.
pub open spec fn initial_evaluation() -> Evaluation {
    Evaluation { last_value: None, variables: Map::empty(), error: None }
}

/// What the evaluation of `statements` from the start gives.
pub open spec fn evaluation_result(statements: Seq<ASTStatement>) -> Result<
    Option<i64>,
    EvaluationError,
> {
    let evaluation = initial_evaluation().after_statements(statements);
    match evaluation.error {
        Some(error) => Err(error),
        None => Ok(evaluation.last_value),
    }
}

/// True when `run` is the run of the program that `tokens` make up, with
/// `end` as the span of the end of the input: the tree is the parsed
/// program; where the parser reports, the run is rejected with those reports
/// and nothing else; else, where the symbol checker reports, it is rejected
/// with those; else the program is evaluated.
pub open spec fn is_run_of(tokens: Seq<Token>, end: TextSpan, run: Run) -> bool {
    let program = parse_program(significant(tokens), end, 0);
    let undeclared = undeclared_in_all(Set::empty(), program.statements);
    &&& run.ast.statements@ == program.statements
    &&& if program.reports.len() > 0 {
        run.outcome matches Outcome::Rejected(bag) && filed(Seq::empty(), bag@, program.reports)
    } else if undeclared.len() > 0 {
        run.outcome matches Outcome::Rejected(bag) && filed(Seq::empty(), bag@, undeclared)
    } else {
        match evaluation_result(program.statements) {
            Ok(value) => run.outcome == Outcome::Value(value),
            Err(error) => run.outcome == Outcome::Failed(error),
        }
    }
}

/// Cuts `input` into its tokens. Their literals, put together, are the input.
pub fn tokenize(input: &str) -> (tokens: Vec<Token>)
    ensures
        is_token_stream(input@, tokens@),
        joined_literals(tokens@) == input@,
{
    let mut lexer = Lexer::new(input);
    let mut tokens: Vec<Token> = Vec::new();
    let ghost mut starts: Seq<int> = Seq::empty();
    loop
        invariant
            lexer.wf(),
            lexer.source() == input@,
            0 <= lexer.position() <= input@.len(),
            token_starts(input@, 0) == starts + token_starts(input@, lexer.position()),
            tokens.len() == starts.len(),
            forall|i: int|
                0 <= i < tokens.len() ==> is_token_at(input@, starts[i], #[trigger] tokens@[i]),
        ensures
            is_token_stream(input@, tokens@),
        decreases input@.len() - lexer.position(),
    {
        let ghost at = lexer.position();
        proof {
            lexer.lemma_wf();
        }
        match lexer.next_token() {
            Some(token) => {
                proof {
                    lexer.lemma_wf();
                    lemma_token_end(input@, at);
                    assert(starts.push(at) + token_starts(input@, token_end(input@, at)) == starts
                        + (seq![at] + token_starts(input@, token_end(input@, at))));
                    starts = starts.push(at);
                }
                tokens.push(token);
            },
            None => {
                assert(token_starts(input@, 0) == starts);
                break ;
            },
        }
    }
    proof {
        lemma_literals_rebuild_source(input@, tokens@);
    }
    tokens
}

/// True when no statement of `statements` holds an expression that is
/// nested deeper than `MAX_NESTING`.
pub open spec fn is_shallow(statements: Seq<ASTStatement>) -> bool {
    forall|i: int| 0 <= i < statements.len() ==> (#[trigger] statements[i]).nesting() <= MAX_NESTING
}

/// Parses the statements that `tokens` make up and adds what the parser
/// finds wrong to `diagnostics`.
pub fn parse(tokens: Vec<Token>, diagnostics: DiagnosticsBag) -> (parsed: (AST, DiagnosticsBag))
    ensures
        is_shallow(parsed.0.statements@),
        exists|end: TextSpan|
            #![trigger is_end_span(tokens@, end)]
            {
                &&& is_end_span(tokens@, end)
                &&& parsed.0.statements@ == parse_program(significant(tokens@), end, 0).statements
                &&& filed(
                    diagnostics@,
                    parsed.1@,
                    parse_program(significant(tokens@), end, 0).reports,
                )
            },
{
    let ghost all = tokens@;
    let mut parser = Parser::new(tokens, diagnostics);
    let mut ast = AST::new();
    let ghost kept = parser.tokens();
    let ghost end = parser.end_span();
    let ghost mut reports: Seq<Report> = Seq::empty();
    proof {
        lemma_filed_nothing(diagnostics@);
    }
    loop
        invariant
            parser.wf(),
            parser.tokens() == kept,
            parser.end_span() == end,
            kept == significant(all),
            is_end_span(all, end),
            0 <= parser.position() <= kept.len(),
            is_shallow(ast.statements@),
            filed(diagnostics@, parser.diagnostics(), reports),
            parse_program(kept, end, 0).statements == ast.statements@ + parse_program(
                kept,
                end,
                parser.position(),
            ).statements,
            parse_program(kept, end, 0).reports == reports + parse_program(
                kept,
                end,
                parser.position(),
            ).reports,
        ensures
            ast.statements@ == parse_program(kept, end, 0).statements,
            filed(diagnostics@, parser.diagnostics(), parse_program(kept, end, 0).reports),
        decreases kept.len() - parser.position(),
    {
        let ghost at = parser.position();
        let ghost before = parser.diagnostics();
        match parser.next_statement() {
            Some(stmt) => {
                proof {
                    let first = parse_statement(kept, end, at);
                    let rest = parse_program(kept, end, first.next);
                    lemma_filed_both(
                        diagnostics@,
                        before,
                        parser.diagnostics(),
                        reports,
                        first.reports,
                    );
                    assert(ast.statements@.push(stmt) + rest.statements == ast.statements@ + (
                    seq![first.statement] + rest.statements));
                    assert(reports + first.reports + rest.reports == reports + (first.reports
                        + rest.reports));
                    reports = reports + first.reports;
                }
                ast.add_statement(stmt);
            },
            None => {
                assert(parse_program(kept, end, 0).statements == ast.statements@);
                assert(parse_program(kept, end, 0).reports == reports);
                break ;
            },
        }
    }
    let checked = parser.into_diagnostics();
    assert(is_end_span(all, end) && ast.statements@ == parse_program(
        significant(all),
        end,
        0,
    ).statements && filed(
        diagnostics@,
        checked@,
        parse_program(significant(all), end, 0).reports,
    ));
    (ast, checked)
}

/// Checks that every variable of `ast` is declared before it is used and
/// adds each use that is not to `diagnostics`.
pub fn check(ast: &mut AST, diagnostics: DiagnosticsBag) -> (checked: DiagnosticsBag)
    ensures
        final(ast).statements == old(ast).statements,
        filed(diagnostics@, checked@, undeclared_in_all(Set::empty(), old(ast).statements@)),
{
    let mut checker = SymbolChecker::new(diagnostics);
    let ghost before = checker;
    ast.visit(&mut checker);
    proof {
        lemma_checks(before, ast.statements@, checker);
    }
    checker.into_diagnostics()
}

/// Evaluates the statements of `ast` from the start.
pub fn evaluate(ast: &mut AST) -> (result: Result<Option<i64>, EvaluationError>)
    ensures
        final(ast).statements == old(ast).statements,
        result == evaluation_result(old(ast).statements@),
{
    let mut evaluator = ASTEvaluator::new();
    let ghost before = evaluator;
    ast.visit(&mut evaluator);
    proof {
        lemma_evaluates(before, ast.statements@, evaluator);
    }
    evaluator.result()
}

/// Runs `input` through the phases.
pub fn run(input: &str) -> (run: Run)
    ensures
        is_shallow(run.ast.statements@),
        exists|tokens: Seq<Token>, end: TextSpan|
            #![trigger is_run_of(tokens, end, run)]
            is_token_stream(input@, tokens) && is_end_span(tokens, end) && is_run_of(
                tokens,
                end,
                run,
            ),
{
    let tokens = tokenize(input);
    let ghost lexed = tokens@;
    let (mut ast, diagnostics) = parse(tokens, DiagnosticsBag::new());
    let ghost end = choose|end: TextSpan|
        #![trigger is_end_span(lexed, end)]
        {
            &&& is_end_span(lexed, end)
            &&& ast.statements@ == parse_program(significant(lexed), end, 0).statements
            &&& filed(
                Seq::empty(),
                diagnostics@,
                parse_program(significant(lexed), end, 0).reports,
            )
        };
    if !diagnostics.is_empty() {
        let run = Run { ast, outcome: Outcome::Rejected(diagnostics) };
        assert(is_run_of(lexed, end, run));
        return run;
    }
    let diagnostics = check(&mut ast, diagnostics);
    if !diagnostics.is_empty() {
        let run = Run { ast, outcome: Outcome::Rejected(diagnostics) };
        assert(is_run_of(lexed, end, run));
        return run;
    }
    let outcome = match evaluate(&mut ast) {
        Ok(value) => Outcome::Value(value),
        Err(error) => Outcome::Failed(error),
    };
    let run = Run { ast, outcome };
    assert(is_run_of(lexed, end, run));
    run
}

} // verus!
