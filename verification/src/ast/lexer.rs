//! Tokens and the lexer that cuts source text into them.

use crate::text::decimal::{decimal_string, decimal_text};
use crate::text::offsets::{
    byte_len, byte_length, byte_offset, char_width, characters, lemma_byte_offset_before_end,
    lemma_byte_offset_ends, lemma_byte_offset_monotonic, lemma_byte_offset_step,
    lemma_encode_concat, text_between,
};
use vstd::prelude::*;
use vstd::std_specs::convert::FromSpecImpl;
use vstd::string::*;
use vstd::utf8::encode_utf8;

verus! {

/// The kinds of token.
#[derive(Debug, Clone, Copy, PartialEq, Eq, Structural)]
pub enum TokenKind {
    /// Represents a failure in syntax.
    Bad,
    // Punctuation
    Colon,
    Semicolon,
    LeftBrace,
    RightBrace,
    LeftParen,
    RightParen,
    LeftChevron,
    RightChevron,
    Amperstand,
    Percent,
    Comma,
    Period,
    Hashtag,
    Exclamation,
    Question,
    Tilde,
    Pipe,
    Backslash,
    SingleQuote,
    DoubleQuote,
    Equals,
    // Arithmetic operators
    Plus,
    Minus,
    Slash,
    Asterisk,
    // Keywords
    Let,
    If,
    Else,
    // Literals
    Number(i64),
    Identifier,
    // Hidden tokens
    /// Spaces, tabs.
    Whitespace,
    /// Represents a newline character.
    Newline,
    /// End of file token.
    EOF,
}

impl TokenKind {
    /// The text by which a kind is named in messages: the mark itself for
    /// punctuation, operators and keywords, the decimal value for a number,
    /// and the kind's name for the rest.
    pub open spec fn text(self) -> Seq<char> {
        match self {
            TokenKind::Bad => "Bad"@,
            TokenKind::Colon => ":"@,
            TokenKind::Semicolon => ";"@,
            TokenKind::LeftBrace => "{"@,
            TokenKind::RightBrace => "}"@,
            TokenKind::LeftParen => "("@,
            TokenKind::RightParen => ")"@,
            TokenKind::LeftChevron => "<"@,
            TokenKind::RightChevron => ">"@,
            TokenKind::Amperstand => "&"@,
            TokenKind::Percent => "%"@,
            TokenKind::Comma => ","@,
            TokenKind::Period => "."@,
            TokenKind::Hashtag => "#"@,
            TokenKind::Exclamation => "!"@,
            TokenKind::Question => "?"@,
            TokenKind::Tilde => "~"@,
            TokenKind::Pipe => "|"@,
            TokenKind::Backslash => "\\"@,
            TokenKind::SingleQuote => "'"@,
            TokenKind::DoubleQuote => "\""@,
            TokenKind::Equals => "="@,
            TokenKind::Plus => "+"@,
            TokenKind::Minus => "-"@,
            TokenKind::Asterisk => "*"@,
            TokenKind::Slash => "/"@,
            TokenKind::Let => "let"@,
            TokenKind::If => "if"@,
            TokenKind::Else => "else"@,
            TokenKind::Number(n) => decimal_text(n as int),
            TokenKind::Identifier => "Identifier"@,
            TokenKind::Whitespace => "Whitespace"@,
            TokenKind::Newline => "Newline"@,
            TokenKind::EOF => "EOF"@,
        }
    }

    /// The text by which the kind is named in messages.
    pub fn to_string(&self) -> (s: String)
        ensures
            s@ == self.text(),
    {
        let str = match self {
            // Error token
            TokenKind::Bad => "Bad",
            // Punctuation
            TokenKind::Colon => ":",
            TokenKind::Semicolon => ";",
            TokenKind::LeftBrace => "{",
            TokenKind::RightBrace => "}",
            TokenKind::LeftParen => "(",
            TokenKind::RightParen => ")",
            TokenKind::LeftChevron => "<",
            TokenKind::RightChevron => ">",
            TokenKind::Amperstand => "&",
            TokenKind::Percent => "%",
            TokenKind::Comma => ",",
            TokenKind::Period => ".",
            TokenKind::Hashtag => "#",
            TokenKind::Exclamation => "!",
            TokenKind::Question => "?",
            TokenKind::Tilde => "~",
            TokenKind::Pipe => "|",
            TokenKind::Backslash => "\\",
            TokenKind::SingleQuote => "'",
            TokenKind::DoubleQuote => "\"",
            TokenKind::Equals => "=",
            // Arithmetic operators
            TokenKind::Plus => "+",
            TokenKind::Minus => "-",
            TokenKind::Asterisk => "*",
            TokenKind::Slash => "/",
            // Keywords
            TokenKind::Let => "let",
            TokenKind::If => "if",
            TokenKind::Else => "else",
            // Literals
            TokenKind::Number(n) => {
                return decimal_string(*n);
            },
            TokenKind::Identifier => "Identifier",
            // Hidden tokens
            TokenKind::Whitespace => "Whitespace",
            TokenKind::Newline => "Newline",
            TokenKind::EOF => "EOF",
        };
        String::from_str(str)
    }

    /// True for the kind of an unmapped character.
    pub open spec fn spec_is_bad(&self) -> bool {
        *self == TokenKind::Bad
    }

    /// Whether this is the kind of an unmapped character.
    #[verifier::when_used_as_spec(spec_is_bad)]
    pub fn is_bad(&self) -> (b: bool)
        ensures
            b == self.spec_is_bad(),
    {
        matches!(self, TokenKind::Bad)
    }

    /// True for `let`, `if` and `else`.
    pub open spec fn spec_is_keyword(&self) -> bool {
        matches!(self, TokenKind::Let | TokenKind::If | TokenKind::Else)
    }

    /// Whether this is the kind of a keyword.
    #[verifier::when_used_as_spec(spec_is_keyword)]
    pub fn is_keyword(&self) -> (b: bool)
        ensures
            b == self.spec_is_keyword(),
    {
        matches!(self, TokenKind::Let | TokenKind::If | TokenKind::Else)
    }

    /// True for the punctuation marks, the arithmetic operators not among them.
    pub open spec fn spec_is_punctuation(&self) -> bool {
        matches!(
            self,
            TokenKind::Colon
                | TokenKind::Semicolon
                | TokenKind::LeftBrace
                | TokenKind::RightBrace
                | TokenKind::LeftParen
                | TokenKind::RightParen
                | TokenKind::LeftChevron
                | TokenKind::RightChevron
                | TokenKind::Amperstand
                | TokenKind::Percent
                | TokenKind::Comma
                | TokenKind::Period
                | TokenKind::Hashtag
                | TokenKind::Exclamation
                | TokenKind::Question
                | TokenKind::Tilde
                | TokenKind::Pipe
                | TokenKind::Backslash
                | TokenKind::SingleQuote
                | TokenKind::DoubleQuote
                | TokenKind::Equals
        )
    }

    /// Whether this is the kind of a punctuation mark.
    #[verifier::when_used_as_spec(spec_is_punctuation)]
    pub fn is_punctuation(&self) -> (b: bool)
        ensures
            b == self.spec_is_punctuation(),
    {
        matches!(
            self,
            TokenKind::Colon
                | TokenKind::Semicolon
                | TokenKind::LeftBrace
                | TokenKind::RightBrace
                | TokenKind::LeftParen
                | TokenKind::RightParen
                | TokenKind::LeftChevron
                | TokenKind::RightChevron
                | TokenKind::Amperstand
                | TokenKind::Percent
                | TokenKind::Comma
                | TokenKind::Period
                | TokenKind::Hashtag
                | TokenKind::Exclamation
                | TokenKind::Question
                | TokenKind::Tilde
                | TokenKind::Pipe
                | TokenKind::Backslash
                | TokenKind::SingleQuote
                | TokenKind::DoubleQuote
                | TokenKind::Equals
        )
    }

    /// True for `+`, `-`, `*` and `/`.
    pub open spec fn spec_is_arithmetic_operator(&self) -> bool {
        matches!(
            self,
            TokenKind::Plus | TokenKind::Minus | TokenKind::Slash | TokenKind::Asterisk
        )
    }

    /// Whether this is the kind of an arithmetic operator.
    #[verifier::when_used_as_spec(spec_is_arithmetic_operator)]
    pub fn is_arithmetic_operator(&self) -> (b: bool)
        ensures
            b == self.spec_is_arithmetic_operator(),
    {
        matches!(
            self,
            TokenKind::Plus | TokenKind::Minus | TokenKind::Slash | TokenKind::Asterisk
        )
    }

    /// True for the kinds that carry no meaning: blanks, line feeds and the end of
    /// the input.
    pub open spec fn spec_is_whitespace(&self) -> bool {
        matches!(self, TokenKind::Whitespace | TokenKind::Newline | TokenKind::EOF)
    }

    /// Whether this is a kind that carries no meaning.
    #[verifier::when_used_as_spec(spec_is_whitespace)]
    pub fn is_whitespace(&self) -> (b: bool)
        ensures
            b == self.spec_is_whitespace(),
    {
        matches!(self, TokenKind::Whitespace | TokenKind::Newline | TokenKind::EOF)
    }
}

/// The kind of the token that a single character outside digits, blanks and
/// words makes up; a character with no kind of its own makes a `Bad` token.
pub open spec fn mark_kind(c: char) -> TokenKind {
    match c {
        '+' => TokenKind::Plus,
        '-' => TokenKind::Minus,
        '*' => TokenKind::Asterisk,
        '/' => TokenKind::Slash,
        '|' => TokenKind::Pipe,
        '"' => TokenKind::DoubleQuote,
        '&' => TokenKind::Amperstand,
        '%' => TokenKind::Percent,
        ',' => TokenKind::Comma,
        '.' => TokenKind::Period,
        '#' => TokenKind::Hashtag,
        ':' => TokenKind::Colon,
        ';' => TokenKind::Semicolon,
        '!' => TokenKind::Exclamation,
        '?' => TokenKind::Question,
        '~' => TokenKind::Tilde,
        '=' => TokenKind::Equals,
        '>' => TokenKind::RightChevron,
        '<' => TokenKind::LeftChevron,
        '(' => TokenKind::LeftParen,
        ')' => TokenKind::RightParen,
        '{' => TokenKind::LeftBrace,
        '}' => TokenKind::RightBrace,
        '\\' => TokenKind::Backslash,
        '\'' => TokenKind::SingleQuote,
        '\n' => TokenKind::Newline,
        _ => TokenKind::Bad,
    }
}

impl From<char> for TokenKind {
    fn from(c: char) -> (kind: Self) {
        match c {
            '+' => TokenKind::Plus,
            '-' => TokenKind::Minus,
            '*' => TokenKind::Asterisk,
            '/' => TokenKind::Slash,
            '|' => TokenKind::Pipe,
            '"' => TokenKind::DoubleQuote,
            '&' => TokenKind::Amperstand,
            '%' => TokenKind::Percent,
            ',' => TokenKind::Comma,
            '.' => TokenKind::Period,
            '#' => TokenKind::Hashtag,
            ':' => TokenKind::Colon,
            ';' => TokenKind::Semicolon,
            '!' => TokenKind::Exclamation,
            '?' => TokenKind::Question,
            '~' => TokenKind::Tilde,
            '=' => TokenKind::Equals,
            '>' => TokenKind::RightChevron,
            '<' => TokenKind::LeftChevron,
            '(' => TokenKind::LeftParen,
            ')' => TokenKind::RightParen,
            '{' => TokenKind::LeftBrace,
            '}' => TokenKind::RightBrace,
            '\\' => TokenKind::Backslash,
            '\'' => TokenKind::SingleQuote,
            '\n' => TokenKind::Newline,
            _ => TokenKind::Bad,
        }
    }
}

impl FromSpecImpl<char> for TokenKind {
    open spec fn obeys_from_spec() -> bool {
        true
    }

    open spec fn from_spec(c: char) -> Self {
        mark_kind(c)
    }
}


/// A stretch of source text: the byte offsets of its first byte and of the
/// byte after its last, and the text between them.
#[derive(Debug, PartialEq, Eq)]
pub struct TextSpan {
    pub start: usize,
    pub end: usize,
    pub literal: String,
}

impl Clone for TextSpan {
    fn clone(&self) -> (span: Self)
        ensures
            span == *self,
    {
        TextSpan { start: self.start, end: self.end, literal: self.literal.clone() }
    }
}

impl TextSpan {
    /// True when the span is the stretch of `source` from character number
    /// `from` up to character number `to`: its offsets are the byte offsets
    /// of the two positions and its literal is the text between them.
    pub open spec fn covers(&self, source: Seq<char>, from: int, to: int) -> bool {
        &&& 0 <= from <= to <= source.len()
        &&& self.start == byte_offset(source, from)
        &&& self.end == byte_offset(source, to)
        &&& self.literal@ == source.subrange(from, to)
    }

    /// The span from byte `start` up to byte `end` that holds `literal`.
    pub fn new(start: usize, end: usize, literal: String) -> (span: Self)
        ensures
            span.start == start,
            span.end == end,
            span.literal == literal,
    {
        Self { start, end, literal }
    }

    /// Byte offset of the first byte.
    pub fn start(&self) -> (start: usize)
        ensures
            start == self.start,
    {
        self.start
    }

    /// Byte offset of the byte after the last.
    pub fn end(&self) -> (end: usize)
        ensures
            end == self.end,
    {
        self.end
    }

    /// The text of the span.
    pub fn get_text(&self) -> (text: &str)
        ensures
            text@ == self.literal@,
    {
        self.literal.as_str()
    }

    /// A copy of the text of the span.
    pub fn clone_text(&self) -> (text: String)
        ensures
            text == self.literal,
    {
        self.literal.clone()
    }

    /// Number of bytes between the two offsets.
    pub fn length(&self) -> (length: usize)
        requires
            self.start <= self.end,
        ensures
            length == self.end - self.start,
    {
        self.end - self.start
    }
}

/// The literal of a span that covers a stretch of a text is that stretch
/// byte for byte: in UTF-8 it is the bytes of the text from offset `start` up
/// to offset `end`.
pub proof fn lemma_span_bytes(span: TextSpan, source: Seq<char>, from: int, to: int)
    requires
        span.covers(source, from, to),
    ensures
        span.start <= span.end <= byte_len(source),
        encode_utf8(span.literal@) == encode_utf8(source).subrange(
            span.start as int,
            span.end as int,
        ),
{
    let before = source.take(from);
    let covered = source.subrange(from, to);
    let after = source.skip(to);
    assert(source.take(to) == before + covered);
    assert(source == source.take(to) + after);
    lemma_encode_concat(before, covered);
    lemma_encode_concat(source.take(to), after);
    assert(encode_utf8(source).subrange(span.start as int, span.end as int) == encode_utf8(
        covered,
    ));
}

/// A token: its kind and the stretch of source text that it was read from.
#[derive(Debug, PartialEq, Eq)]
pub struct Token {
    pub kind: TokenKind,
    pub span: TextSpan,
}

impl Clone for Token {
    fn clone(&self) -> (token: Self)
        ensures
            token == *self,
    {
        Token { kind: self.kind, span: self.span.clone() }
    }
}

impl Token {
    /// The token of the given kind and span.
    pub fn new(kind: TokenKind, span: TextSpan) -> (token: Self)
        ensures
            token.kind == kind,
            token.span == span,
    {
        Self { kind, span }
    }
}

/// Whether `c` has the Unicode property `Alphabetic`.
pub uninterp spec fn char_is_alphabetic(c: char) -> bool;

/// Whether `c` has the Unicode property `White_Space`.
pub uninterp spec fn char_is_whitespace(c: char) -> bool;

/// `char::is_alphabetic` of the standard library: a function of the character
/// alone, decided by the Unicode tables that the library carries.
pub assume_specification[ char::is_alphabetic ](c: char) -> (b: bool)
    ensures
        b == char_is_alphabetic(c),
;

/// `char::is_whitespace` of the standard library: a function of the character
/// alone, decided by the Unicode tables that the library carries.
pub assume_specification[ char::is_whitespace ](c: char) -> (b: bool)
    ensures
        b == char_is_whitespace(c),
;

/// The classes of characters of which a token may hold a whole run.
pub enum CharClass {
    /// The decimal digits `0` to `9`.
    Digit,
    /// White space other than the line feed.
    Blank,
    /// Alphabetic characters and the underscore.
    Word,
}

/// True for the decimal digits `0` to `9`.
pub open spec fn is_digit_char(c: char) -> bool {
    '0' <= c && c <= '9'
}

/// True for white space other than the line feed.
pub open spec fn is_blank_char(c: char) -> bool {
    c != '\n' && char_is_whitespace(c)
}

/// True for alphabetic characters and the underscore.
pub open spec fn is_word_char(c: char) -> bool {
    char_is_alphabetic(c) || c == '_'
}

/// True when `c` belongs to `class`.
pub open spec fn in_class(class: CharClass, c: char) -> bool {
    match class {
        CharClass::Digit => is_digit_char(c),
        CharClass::Blank => is_blank_char(c),
        CharClass::Word => is_word_char(c),
    }
}

/// The position at which the longest run of characters of `class` that
/// starts at `from` ends; `from` itself where no such character stands there.
pub open spec fn run_end(s: Seq<char>, from: int, class: CharClass) -> int
    decreases s.len() - from,
{
    if 0 <= from < s.len() && in_class(class, s[from]) {
        run_end(s, from + 1, class)
    } else {
        from
    }
}

/// The position at which the token that starts at `from` ends.
pub open spec fn token_end(s: Seq<char>, from: int) -> int {
    let c = s[from];
    if is_digit_char(c) {
        run_end(s, from, CharClass::Digit)
    } else if c == '\n' {
        from + 1
    } else if is_blank_char(c) {
        run_end(s, from, CharClass::Blank)
    } else if is_word_char(c) {
        run_end(s, from, CharClass::Word)
    } else {
        from + 1
    }
}

/// The value of a decimal digit.
pub open spec fn digit_value(c: char) -> i64 {
    (c as u32 - '0' as u32) as i64
}

/// The value of a run of decimal digits, computed in 64-bit two's complement:
/// a literal too large for `i64` wraps around.
pub open spec fn number_value(digits: Seq<char>) -> i64
    decreases digits.len(),
{
    if digits.len() == 0 {
        0
    } else {
        number_value(digits.drop_last()).wrapping_mul(10).wrapping_add(
            digit_value(digits.last()),
        )
    }
}

/// The kind of a word: a keyword where the word is one, else an identifier.
pub open spec fn word_kind(word: Seq<char>) -> TokenKind {
    if word == "let"@ {
        TokenKind::Let
    } else if word == "if"@ {
        TokenKind::If
    } else if word == "else"@ {
        TokenKind::Else
    } else {
        TokenKind::Identifier
    }
}

/// The kind of the token that starts at `from`.
pub open spec fn token_kind(s: Seq<char>, from: int) -> TokenKind {
    let c = s[from];
    let text = s.subrange(from, token_end(s, from));
    if is_digit_char(c) {
        TokenKind::Number(number_value(text))
    } else if c == '\n' {
        TokenKind::Newline
    } else if is_blank_char(c) {
        TokenKind::Whitespace
    } else if is_word_char(c) {
        word_kind(text)
    } else {
        mark_kind(c)
    }
}

/// True when `token` is the token of `s` that starts at character `from`.
pub open spec fn is_token_at(s: Seq<char>, from: int, token: Token) -> bool {
    &&& token.kind == token_kind(s, from)
    &&& token.span.covers(s, from, token_end(s, from))
}

/// A run ends between its start and the end of the text, holds only
/// characters of its class, and is followed by none.
pub proof fn lemma_run_end(s: Seq<char>, from: int, class: CharClass)
    requires
        0 <= from <= s.len(),
    ensures
        from <= run_end(s, from, class) <= s.len(),
        forall|i: int| from <= i < run_end(s, from, class) ==> in_class(class, #[trigger] s[i]),
        run_end(s, from, class) < s.len() ==> !in_class(class, s[run_end(s, from, class)]),
    decreases s.len() - from,
{
    if from < s.len() && in_class(class, s[from]) {
        lemma_run_end(s, from + 1, class);
    }
}

/// Every token holds at least one character and ends within the text.
pub proof fn lemma_token_end(s: Seq<char>, from: int)
    requires
        0 <= from < s.len(),
    ensures
        from < token_end(s, from) <= s.len(),
{
    lemma_run_end(s, from, CharClass::Digit);
    lemma_run_end(s, from, CharClass::Blank);
    lemma_run_end(s, from, CharClass::Word);
    lemma_run_end(s, from + 1, CharClass::Digit);
    lemma_run_end(s, from + 1, CharClass::Blank);
    lemma_run_end(s, from + 1, CharClass::Word);
}

/// A lexer: a text and a cursor into it.
pub struct Lexer<'a> {
    input: &'a str,
    /// The characters of the input.
    chars: Vec<char>,
    /// Byte offset of the next character.
    current_pos: usize,
    /// Number of characters before the next one.
    cursor: usize,
    /// Length of the input in bytes.
    length: usize,
}

impl<'a> Lexer<'a> {
    /// The text that is lexed.
    pub closed spec fn source(&self) -> Seq<char> {
        self.input@
    }

    /// Number of characters that the tokens returned so far hold.
    pub closed spec fn position(&self) -> int {
        self.cursor as int
    }

    /// Byte offset that corresponds to `position`.
    pub closed spec fn offset(&self) -> int {
        self.current_pos as int
    }

    /// The cursor lies within the text, and the byte offset kept with it is the
    /// offset of the character it stands at.
    pub closed spec fn wf(&self) -> bool {
        &&& self.chars@ == self.input@
        &&& self.cursor <= self.chars.len()
        &&& self.current_pos == byte_offset(self.input@, self.cursor as int)
        &&& self.length == byte_len(self.input@)
    }

    /// What `wf` says of the position and the offset.
    pub proof fn lemma_wf(&self)
        requires
            self.wf(),
        ensures
            0 <= self.position() <= self.source().len(),
            self.offset() == byte_offset(self.source(), self.position()),
    {
    }

    /// A lexer at the start of `input`.
    pub fn new(input: &'a str) -> (lexer: Self)
        ensures
            lexer.wf(),
            lexer.source() == input@,
            lexer.position() == 0,
    {
        proof {
            lemma_byte_offset_ends(input@);
        }
        Self {
            input,
            chars: characters(input),
            current_pos: 0,
            cursor: 0,
            length: byte_length(input),
        }
    }

    /// Returns the next token, or `None` once the whole input has been read.
    pub fn next_token(&mut self) -> (token: Option<Token>)
        requires
            old(self).wf(),
        ensures
            final(self).wf(),
            final(self).source() == old(self).source(),
            match token {
                None => {
                    &&& old(self).position() == old(self).source().len()
                    &&& final(self).position() == old(self).position()
                },
                Some(token) => {
                    &&& old(self).position() < old(self).source().len()
                    &&& is_token_at(old(self).source(), old(self).position(), token)
                    &&& final(self).position() == token_end(
                        old(self).source(),
                        old(self).position(),
                    )
                },
            },
    {
        proof {
            lemma_byte_offset_before_end(self.input@, self.cursor as int);
        }
        if self.current_pos >= self.length {
            return None;
        }
        let start: usize = self.current_pos;
        let first: usize = self.cursor;

        let kind = self.read_token();

        let end: usize = self.current_pos;
        let literal = text_between(&self.chars, first, self.cursor);
        let span = TextSpan::new(start, end, literal);

        Some(Token::new(kind, span))
    }

    fn read_token(&mut self) -> (kind: TokenKind)
        requires
            old(self).wf(),
            old(self).cursor < old(self).chars.len(),
        ensures
            final(self).wf(),
            final(self).input == old(self).input,
            final(self).cursor == token_end(old(self).input@, old(self).cursor as int),
            old(self).cursor < final(self).cursor,
            kind == token_kind(old(self).input@, old(self).cursor as int),
    {
        proof {
            lemma_token_end(self.input@, self.cursor as int);
        }
        let c = self.peek_unchecked();

        if Lexer::is_digit(c) {
            let number = self.consume_number();
            return TokenKind::Number(number);
        }
        if c == '\n' {
            self.consume();
            return TokenKind::Newline;
        }
        if Lexer::is_whitespace(c) {
            self.consume_whitespace();
            return TokenKind::Whitespace;
        }
        if Lexer::is_identifier(c) {
            let identifier = self.consume_identifier();
            proof {
                reveal_strlit("let");
                reveal_strlit("if");
                reveal_strlit("else");
            }
            return if identifier == String::from_str("let") {
                TokenKind::Let
            } else if identifier == String::from_str("if") {
                TokenKind::If
            } else if identifier == String::from_str("else") {
                TokenKind::Else
            } else {
                TokenKind::Identifier
            };
        }
        self.consume_punctuation()
    }

    fn peek(&self) -> (c: Option<char>)
        requires
            self.wf(),
        ensures
            c == if self.cursor < self.chars.len() {
                Some(self.input@[self.cursor as int])
            } else {
                None
            },
    {
        proof {
            lemma_byte_offset_before_end(self.input@, self.cursor as int);
        }
        if self.current_pos >= self.length {
            return None;
        }
        Some(self.peek_unchecked())
    }

    fn peek_unchecked(&self) -> (c: char)
        requires
            self.wf(),
            self.cursor < self.chars.len(),
        ensures
            c == self.input@[self.cursor as int],
    {
        self.chars[self.cursor]
    }

    fn is_whitespace(c: char) -> (b: bool)
        ensures
            b == is_blank_char(c),
    {
        c != '\n' && c.is_whitespace()
    }

    fn is_digit(c: char) -> (b: bool)
        ensures
            b == is_digit_char(c),
    {
        '0' <= c && c <= '9'
    }

    fn is_identifier(c: char) -> (b: bool)
        ensures
            b == is_word_char(c),
    {
        c.is_alphabetic() || c == '_'
    }

    fn consume_whitespace(&mut self) -> (text: String)
        requires
            old(self).wf(),
        ensures
            final(self).wf(),
            final(self).input == old(self).input,
            final(self).cursor == run_end(old(self).input@, old(self).cursor as int, CharClass::Blank),
            text@ == old(self).input@.subrange(old(self).cursor as int, final(self).cursor as int),
    {
        self.consume_while(Lexer::is_whitespace, Ghost(CharClass::Blank))
    }

    fn consume_identifier(&mut self) -> (text: String)
        requires
            old(self).wf(),
        ensures
            final(self).wf(),
            final(self).input == old(self).input,
            final(self).cursor == run_end(old(self).input@, old(self).cursor as int, CharClass::Word),
            text@ == old(self).input@.subrange(old(self).cursor as int, final(self).cursor as int),
    {
        self.consume_while(Lexer::is_identifier, Ghost(CharClass::Word))
    }

    fn consume_punctuation(&mut self) -> (kind: TokenKind)
        requires
            old(self).wf(),
            old(self).cursor < old(self).chars.len(),
        ensures
            final(self).wf(),
            final(self).input == old(self).input,
            final(self).cursor == old(self).cursor + 1,
            kind == mark_kind(old(self).input@[old(self).cursor as int]),
    {
        let c = self.consume().unwrap();

        TokenKind::from(c)
    }

    /// Steps over the character `c` that stands at the cursor.
    fn advance(&mut self, c: char)
        requires
            old(self).wf(),
            old(self).cursor < old(self).chars.len(),
            c == old(self).input@[old(self).cursor as int],
        ensures
            final(self).wf(),
            final(self).input == old(self).input,
            final(self).cursor == old(self).cursor + 1,
    {
        proof {
            lemma_byte_offset_step(self.input@, self.cursor as int);
            lemma_byte_offset_monotonic(
                self.input@,
                self.cursor as int + 1,
                self.input@.len() as int,
            );
            lemma_byte_offset_ends(self.input@);
        }
        self.current_pos += char_width(c);
        self.cursor += 1;
    }

    fn consume(&mut self) -> (c: Option<char>)
        requires
            old(self).wf(),
        ensures
            final(self).wf(),
            final(self).input == old(self).input,
            c == if old(self).cursor < old(self).chars.len() {
                Some(old(self).input@[old(self).cursor as int])
            } else {
                None
            },
            final(self).cursor == if old(self).cursor < old(self).chars.len() {
                old(self).cursor + 1
            } else {
                old(self).cursor as int
            },
    {
        proof {
            lemma_byte_offset_before_end(self.input@, self.cursor as int);
        }
        if self.current_pos >= self.length {
            return None;
        }
        let c = self.peek_unchecked();
        self.advance(c);

        Some(c)
    }

    fn consume_number(&mut self) -> (number: i64)
        requires
            old(self).wf(),
        ensures
            final(self).wf(),
            final(self).input == old(self).input,
            final(self).cursor == run_end(old(self).input@, old(self).cursor as int, CharClass::Digit),
            number == number_value(
                old(self).input@.subrange(old(self).cursor as int, final(self).cursor as int),
            ),
    {
        let mut number: i64 = 0;
        let ghost s = self.input@;
        let ghost start = self.cursor as int;

        loop
            invariant
                self.wf(),
                self.input == old(self).input,
                s == self.input@,
                start == old(self).cursor,
                start <= self.cursor,
                run_end(s, start, CharClass::Digit) == run_end(s, self.cursor as int, CharClass::Digit),
                number == number_value(s.subrange(start, self.cursor as int)),
            ensures
                self.cursor == run_end(s, start, CharClass::Digit),
            decreases self.chars.len() - self.cursor,
        {
            match self.peek() {
                Some(c) => {
                    if Lexer::is_digit(c) {
                        proof {
                            let next = s.subrange(start, self.cursor as int + 1);
                            assert(next.drop_last() == s.subrange(start, self.cursor as int));
                            assert(next.last() == c);
                        }
                        number = number.wrapping_mul(10).wrapping_add((c as u32 - '0' as u32) as i64);
                        self.advance(c);
                    } else {
                        break;
                    }
                },
                None => {
                    break;
                },
            }
        }

        number
    }

    fn consume_while<F>(&mut self, test: F, Ghost(class): Ghost<CharClass>) -> (text: String) where
        F: Fn(char) -> bool,

        requires
            old(self).wf(),
            forall|c: char| test.requires((c,)),
            forall|c: char, b: bool| test.ensures((c,), b) ==> b == in_class(class, c),
        ensures
            final(self).wf(),
            final(self).input == old(self).input,
            final(self).cursor == run_end(old(self).input@, old(self).cursor as int, class),
            text@ == old(self).input@.subrange(old(self).cursor as int, final(self).cursor as int),
    {
        let start: usize = self.cursor;
        let ghost s = self.input@;
        loop
            invariant
                self.wf(),
                self.input == old(self).input,
                s == self.input@,
                start == old(self).cursor,
                start <= self.cursor,
                run_end(s, start as int, class) == run_end(s, self.cursor as int, class),
                forall|c: char| test.requires((c,)),
                forall|c: char, b: bool| test.ensures((c,), b) ==> b == in_class(class, c),
            ensures
                self.cursor == run_end(s, start as int, class),
            decreases self.chars.len() - self.cursor,
        {
            match self.peek() {
                Some(c) => {
                    if test(c) {
                        self.advance(c);
                    } else {
                        break;
                    }
                },
                None => {
                    break;
                },
            }
        }
        text_between(&self.chars, start, self.cursor)
    }
}


/// The positions at which the tokens of `s` from position `from` on start.
pub open spec fn token_starts(s: Seq<char>, from: int) -> Seq<int>
    decreases s.len() - from,
    via token_starts_decreases
{
    if 0 <= from < s.len() {
        seq![from] + token_starts(s, token_end(s, from))
    } else {
        Seq::empty()
    }
}

#[via_fn]
proof fn token_starts_decreases(s: Seq<char>, from: int) {
    if 0 <= from < s.len() {
        lemma_token_end(s, from);
    }
}

/// True when `tokens` are the tokens of `s` from position `from` on, from
/// the first to the last.
pub open spec fn is_token_stream_from(s: Seq<char>, from: int, tokens: Seq<Token>) -> bool {
    &&& tokens.len() == token_starts(s, from).len()
    &&& forall|i: int|
        0 <= i < tokens.len() ==> is_token_at(s, token_starts(s, from)[i], #[trigger] tokens[i])
}

/// True when `tokens` are the tokens of `s`, from the first to the last.
pub open spec fn is_token_stream(s: Seq<char>, tokens: Seq<Token>) -> bool {
    is_token_stream_from(s, 0, tokens)
}

/// The literals of `tokens`, one after the other.
pub open spec fn joined_literals(tokens: Seq<Token>) -> Seq<char>
    decreases tokens.len(),
{
    if tokens.len() == 0 {
        Seq::empty()
    } else {
        tokens[0].span.literal@ + joined_literals(tokens.drop_first())
    }
}

/// The literals of the tokens from `from` on make up the rest of the text.
pub proof fn lemma_literals_from(s: Seq<char>, from: int, tokens: Seq<Token>)
    requires
        0 <= from <= s.len(),
        is_token_stream_from(s, from, tokens),
    ensures
        joined_literals(tokens) == s.subrange(from, s.len() as int),
    decreases tokens.len(),
{
    if from < s.len() {
        lemma_token_end(s, from);
        let end = token_end(s, from);
        let rest = tokens.drop_first();
        assert(token_starts(s, from) == seq![from] + token_starts(s, end));
        assert(is_token_at(s, token_starts(s, from)[0], tokens[0]));
        assert forall|i: int| 0 <= i < rest.len() implies is_token_at(
            s,
            token_starts(s, end)[i],
            #[trigger] rest[i],
        ) by {
            assert(token_starts(s, from)[i + 1] == token_starts(s, end)[i]);
            assert(is_token_at(s, token_starts(s, from)[i + 1], tokens[i + 1]));
        }
        lemma_literals_from(s, end, rest);
        assert(s.subrange(from, end) + s.subrange(end, s.len() as int) == s.subrange(
            from,
            s.len() as int,
        ));
    }
}

/// The tokens of a text leave nothing out and add nothing: their literals,
/// put one after the other, are the text again, whatever the text. Lexing
/// what they make up is therefore lexing the text once more.
pub proof fn lemma_literals_rebuild_source(s: Seq<char>, tokens: Seq<Token>)
    requires
        is_token_stream(s, tokens),
    ensures
        joined_literals(tokens) == s,
        is_token_stream(joined_literals(tokens), tokens),
{
    lemma_literals_from(s, 0, tokens);
    assert(s.subrange(0, s.len() as int) == s);
}

/// Each token starts at the byte where the token before it ends: no two
/// spans overlap and no byte lies between two tokens.
pub proof fn lemma_tokens_adjoin(s: Seq<char>, from: int, first: Token, second: Token)
    requires
        0 <= from < s.len(),
        token_end(s, from) < s.len(),
        is_token_at(s, from, first),
        is_token_at(s, token_end(s, from), second),
    ensures
        first.span.start < first.span.end,
        first.span.end == second.span.start,
{
    lemma_token_end(s, from);
    lemma_byte_offset_monotonic(s, from, token_end(s, from));
    lemma_byte_offset_step(s, from);
    lemma_byte_offset_monotonic(s, from + 1, token_end(s, from));
}

} // verus!
