//! Rendering of diagnostics against the source text.

use crate::ast::syntax::{apply_style, is_styled, underlined, SyntaxColors, SyntaxRole};
use crate::diagnostics::{Diagnostic, DiagnosticKind};
use crate::text::offsets::{
    byte_length, characters, find_position, lemma_byte_offset_ends,
    lemma_position_at_monotonic, position_at,
};
use crate::text::{
    column_of, lemma_line_starts_before, lemma_single_line_column, lemma_single_line_text,
    line_index_of, line_of, SourceText,
};
use console::Style;
use vstd::prelude::*;
use vstd::string::*;

verus! {

/// Number of characters of context shown on each side of a span.
pub const PREFIX_LENGTH: usize = 8;

/// The character `c`, `n` times.
pub open spec fn repeated(c: char, n: int) -> Seq<char> {
    Seq::new(
        if n >= 0 {
            n as nat
        } else {
            0
        },
        |i: int| c,
    )
}

/// Position in `line` at which the span that starts at byte `column` begins.
pub open spec fn window_from(line: Seq<char>, column: int) -> int {
    position_at(line, 0, column)
}

/// Position in `line` at which a span of `length` bytes from byte `column`
/// ends; a span that runs past the line is cut at its end.
pub open spec fn window_to(line: Seq<char>, column: int, length: int) -> int {
    position_at(line, 0, column + length)
}

/// Up to `PREFIX_LENGTH` characters of the line before the span.
pub open spec fn window_prefix(line: Seq<char>, column: int) -> Seq<char> {
    let from = window_from(line, column);
    line.subrange(
        if from >= PREFIX_LENGTH {
            from - PREFIX_LENGTH
        } else {
            0
        },
        from,
    )
}

/// The part of the line that the span covers.
pub open spec fn window_span(line: Seq<char>, column: int, length: int) -> Seq<char> {
    line.subrange(window_from(line, column), window_to(line, column, length))
}

/// Up to `PREFIX_LENGTH` characters of the line after the span.
pub open spec fn window_suffix(line: Seq<char>, column: int, length: int) -> Seq<char> {
    let to = window_to(line, column, length);
    line.subrange(
        to,
        if line.len() - to > PREFIX_LENGTH {
            to + PREFIX_LENGTH
        } else {
            line.len() as int
        },
    )
}

/// Width of the margin before the markers under a span at byte `column`.
pub open spec fn indent_of(column: int) -> int {
    if column < PREFIX_LENGTH {
        column
    } else {
        PREFIX_LENGTH as int
    }
}

/// The line of `^` markers under a span of `length` bytes.
pub open spec fn arrow_pointers(length: int, indent: int) -> Seq<char> {
    repeated(' ', indent) + repeated('^', length)
}

/// The line that joins the markers to the message.
pub open spec fn arrow_line(indent: int) -> Seq<char> {
    repeated(' ', indent) + seq!['|']
}

/// The line that carries the message.
pub open spec fn message_line(message: Seq<char>, indent: int) -> Seq<char> {
    repeated(' ', indent) + "+-- "@ + message
}

/// The six parts of a rendered diagnostic, put together.
pub open spec fn layout_of(
    prefix: Seq<char>,
    span: Seq<char>,
    suffix: Seq<char>,
    pointers: Seq<char>,
    line: Seq<char>,
    message: Seq<char>,
) -> Seq<char> {
    prefix + span + suffix + seq!['\n'] + pointers + seq!['\n'] + line + seq!['\n'] + message
}

/// The line of `source` on which `diagnostic` starts.
pub open spec fn diagnostic_line(source: Seq<char>, diagnostic: Diagnostic) -> Seq<char> {
    line_of(source, line_index_of(source, diagnostic.span.start as int) as int)
}

/// The part of its line that `diagnostic` covers.
pub open spec fn diagnostic_span_text(source: Seq<char>, diagnostic: Diagnostic) -> Seq<char> {
    window_span(
        diagnostic_line(source, diagnostic),
        column_of(source, diagnostic.span.start as int),
        diagnostic.span.end - diagnostic.span.start,
    )
}

/// The rendering of `diagnostic` against `source`, with `shown` standing for
/// the covered text as the terminal style renders it: the line's window, the
/// markers under the span, the joining line and the message.
pub open spec fn diagnostic_text(source: Seq<char>, diagnostic: Diagnostic, shown: Seq<char>) -> Seq<
    char,
> {
    let line = diagnostic_line(source, diagnostic);
    let column = column_of(source, diagnostic.span.start as int);
    let length = diagnostic.span.end - diagnostic.span.start;
    let indent = indent_of(column);
    layout_of(
        window_prefix(line, column),
        shown,
        window_suffix(line, column, length),
        arrow_pointers(length, indent),
        arrow_line(indent),
        message_line(diagnostic.message@, indent),
    )
}

/// Against a text of a single line a diagnostic is rendered with the whole
/// text as its line and with its own start offset as its column: the markers
/// stand under the byte at which the span starts, as far as the window
/// reaches.
pub proof fn lemma_single_line_rendering(source: Seq<char>, diagnostic: Diagnostic, shown: Seq<char>)
    requires
        forall|i: int| 0 <= i < source.len() ==> source[i] != '\n',
    ensures
        diagnostic_line(source, diagnostic) == source,
        column_of(source, diagnostic.span.start as int) == diagnostic.span.start,
        diagnostic_text(source, diagnostic, shown) == layout_of(
            window_prefix(source, diagnostic.span.start as int),
            shown,
            window_suffix(
                source,
                diagnostic.span.start as int,
                diagnostic.span.end - diagnostic.span.start,
            ),
            arrow_pointers(
                diagnostic.span.end - diagnostic.span.start,
                indent_of(diagnostic.span.start as int),
            ),
            arrow_line(indent_of(diagnostic.span.start as int)),
            message_line(diagnostic.message@, indent_of(diagnostic.span.start as int)),
        ),
{
    lemma_single_line_column(source, diagnostic.span.start as int);
    lemma_single_line_text(source);
}

/// Appends `count` copies of `c`.
fn push_repeated(out: &mut String, c: char, count: usize)
    ensures
        final(out)@ == old(out)@ + repeated(c, count as int),
{
    let mut i: usize = 0;
    while i < count
        invariant
            i <= count,
            out@ == old(out)@ + repeated(c, i as int),
        decreases count - i,
    {
        out.push(c);
        i += 1;
        assert(out@ =~= old(out)@ + repeated(c, i as int));
    }
}

/// Renders diagnostics against the source text that they are about.
pub struct DiagnosticsPrinter<'a> {
    text: &'a SourceText,
    diagnostics: &'a [Diagnostic],
}

impl<'a> DiagnosticsPrinter<'a> {
    /// The source text.
    pub closed spec fn text(&self) -> &'a SourceText {
        self.text
    }

    /// The diagnostics that the printer was made for.
    pub closed spec fn diagnostics(&self) -> &'a [Diagnostic] {
        self.diagnostics
    }

    /// A printer that renders `diagnostics` against `text`.
    pub fn new(text: &'a SourceText, diagnostics: &'a [Diagnostic]) -> (printer: Self)
        ensures
            printer.text() == text,
            printer.diagnostics() == diagnostics,
    {
        Self { text, diagnostics }
    }

    /// The diagnostics that this printer was made for.
    pub fn get_diagnostics(&self) -> (diagnostics: &'a [Diagnostic])
        ensures
            diagnostics == self.diagnostics(),
    {
        self.diagnostics
    }

    /// Stringifies the diagnostic.
    ///
    /// It uses the following format:
    ///
    /// let <red>x<reset> = 5;
    ///     ^
    ///     |
    ///     +-- This is the error message
    ///
    /// The covered text is shown in the colour of the diagnostic's kind,
    /// underlined, as the terminal renders that style.
    pub fn stringify_diagnostic(&self, diagnostic: &Diagnostic) -> (output: String)
        requires
            diagnostic.span.start <= diagnostic.span.end,
        ensures
            exists|shown: Seq<char>|
                is_styled(diagnostic_span_text(self.text()@, *diagnostic), shown) && output@
                    == diagnostic_text(self.text()@, *diagnostic, shown),
    {
        let span_length = diagnostic.span.length();

        let line_index = self.text.line_index(diagnostic.span.start);
        let line = self.text.get_line(line_index);
        let line_start = self.text.line_start(line_index);
        proof {
            lemma_line_starts_before(self.text@, diagnostic.span.start as int);
        }
        let column = diagnostic.span.start - line_start;

        let (prefix, span, suffix) = Self::get_line_window(span_length, line, column);

        let color = Self::get_diagnostic_color(&diagnostic.kind);
        let shown = apply_style(&underlined(color), span);

        let output = Self::layout(span_length, column, prefix, shown.as_str(), suffix, diagnostic);
        assert(output@ == diagnostic_text(self.text()@, *diagnostic, shown@));
        output
    }

    /// Stringifies the diagnostic with `shown` in place of the covered text.
    pub fn stringify_styled(&self, diagnostic: &Diagnostic, shown: &str) -> (output: String)
        requires
            diagnostic.span.start <= diagnostic.span.end,
        ensures
            output@ == diagnostic_text(self.text()@, *diagnostic, shown@),
    {
        let span_length = diagnostic.span.length();

        let line_index = self.text.line_index(diagnostic.span.start);
        let line = self.text.get_line(line_index);
        let line_start = self.text.line_start(line_index);
        proof {
            lemma_line_starts_before(self.text@, diagnostic.span.start as int);
        }
        let column = diagnostic.span.start - line_start;

        let (prefix, _, suffix) = Self::get_line_window(span_length, line, column);

        Self::layout(span_length, column, prefix, shown, suffix, diagnostic)
    }

    /// Puts the lines of a rendered diagnostic together.
    fn layout(
        span_length: usize,
        column: usize,
        prefix: &str,
        shown: &str,
        suffix: &str,
        diagnostic: &Diagnostic,
    ) -> (output: String)
        ensures
            output@ == layout_of(
                prefix@,
                shown@,
                suffix@,
                arrow_pointers(span_length as int, indent_of(column as int)),
                arrow_line(indent_of(column as int)),
                message_line(diagnostic.message@, indent_of(column as int)),
            ),
    {
        let indent = if column < PREFIX_LENGTH {
            column
        } else {
            PREFIX_LENGTH
        };
        let (arrow_pointers, arrow_line) = Self::format_arrow(span_length, indent);

        let error_message = Self::format_message(diagnostic, indent);

        let mut output = String::from_str(prefix);
        output.append(shown);
        output.append(suffix);
        output.push('\n');
        output.append(arrow_pointers.as_str());
        output.push('\n');
        output.append(arrow_line.as_str());
        output.push('\n');
        output.append(error_message.as_str());
        assert(output@ =~= layout_of(
            prefix@,
            shown@,
            suffix@,
            arrow_pointers@,
            arrow_line@,
            error_message@,
        ));
        output
    }

    /// Cuts the window out of `line`: up to `PREFIX_LENGTH` characters before
    /// byte `column`, the `span_length` bytes from there (or less, where the
    /// line ends before), and up to `PREFIX_LENGTH` characters after them.
    pub fn get_line_window<'b>(span_length: usize, line: &'b str, column: usize) -> (window: (
        &'b str,
        &'b str,
        &'b str,
    ))
        requires
            column + span_length <= usize::MAX,
        ensures
            window.0@ == window_prefix(line@, column as int),
            window.1@ == window_span(line@, column as int, span_length as int),
            window.2@ == window_suffix(line@, column as int, span_length as int),
    {
        let chars = characters(line);
        let length = byte_length(line);
        proof {
            lemma_byte_offset_ends(line@);
            lemma_position_at_monotonic(line@, column as int, column + span_length);
        }
        let (from, reached) = find_position(&chars, length, 0, 0, column);
        let (to, _) = find_position(&chars, length, from, reached, column + span_length);

        let prefix_start = if from >= PREFIX_LENGTH {
            from - PREFIX_LENGTH
        } else {
            0
        };
        let suffix_end = if chars.len() - to > PREFIX_LENGTH {
            to + PREFIX_LENGTH
        } else {
            chars.len()
        };

        let prefix = line.substring_char(prefix_start, from);
        let span = line.substring_char(from, to);
        let suffix = line.substring_char(to, suffix_end);

        (prefix, span, suffix)
    }

    /// The line of markers under a span of `span_length` bytes and the line that
    /// joins them to the message, both behind a margin of `indent` blanks.
    pub fn format_arrow(span_length: usize, indent: usize) -> (arrow: (String, String))
        ensures
            arrow.0@ == arrow_pointers(span_length as int, indent as int),
            arrow.1@ == arrow_line(indent as int),
    {
        let mut arrow_pointers = String::new();
        push_repeated(&mut arrow_pointers, ' ', indent);
        push_repeated(&mut arrow_pointers, '^', span_length);
        let mut arrow_line = String::new();
        push_repeated(&mut arrow_line, ' ', indent);
        arrow_line.push('|');
        assert(arrow_line@ =~= repeated(' ', indent as int) + seq!['|']);
        (arrow_pointers, arrow_line)
    }

    /// The role in which the text that a diagnostic covers is shown.
    pub fn get_diagnostic_role(kind: &DiagnosticKind) -> (role: SyntaxRole)
        ensures
            role == match *kind {
                DiagnosticKind::Error => SyntaxRole::Error,
                DiagnosticKind::Warning => SyntaxRole::Warning,
            },
    {
        match kind {
            DiagnosticKind::Error => SyntaxRole::Error,
            DiagnosticKind::Warning => SyntaxRole::Warning,
        }
    }

    fn get_diagnostic_color(kind: &DiagnosticKind) -> Style {
        SyntaxColors::of_role(Self::get_diagnostic_role(kind))
    }

    /// The line that carries the message, behind a margin of `indent` blanks.
    pub fn format_message(diagnostic: &Diagnostic, indent: usize) -> (line: String)
        ensures
            line@ == message_line(diagnostic.message@, indent as int),
    {
        let mut line = String::new();
        push_repeated(&mut line, ' ', indent);
        line.append("+-- ");
        line.append(diagnostic.message.as_str());
        line
    }
}

} // verus!
