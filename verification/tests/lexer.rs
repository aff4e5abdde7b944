use anvyl_compiler::ast::lexer::{Lexer, TextSpan, Token, TokenKind};

fn lex(input: &str) -> Vec<Token> {
    let mut lexer = Lexer::new(input);
    let mut tokens = Vec::new();
    while let Some(token) = lexer.next_token() {
        tokens.push(token);
    }
    tokens
}

fn kinds(input: &str) -> Vec<TokenKind> {
    lex(input).iter().map(|token| token.kind).collect()
}

fn rebuilt(input: &str) -> String {
    let mut text = String::new();
    for token in lex(input) {
        text.push_str(token.span.get_text());
    }
    text
}

#[test]
fn lexes_numbers_and_operator_with_spans() {
    let tokens = lex("12+3");
    assert_eq!(tokens.len(), 3);
    assert_eq!(tokens[0].kind, TokenKind::Number(12));
    assert_eq!(tokens[1].kind, TokenKind::Plus);
    assert_eq!(tokens[2].kind, TokenKind::Number(3));
    assert_eq!((tokens[0].span.start(), tokens[0].span.end()), (0, 2));
    assert_eq!((tokens[1].span.start(), tokens[1].span.end()), (2, 3));
    assert_eq!((tokens[2].span.start(), tokens[2].span.end()), (3, 4));
    assert_eq!(tokens[0].span.get_text(), "12");
    assert_eq!(tokens[1].span.get_text(), "+");
    assert_eq!(tokens[2].span.get_text(), "3");
}

#[test]
fn empty_input_has_no_token() {
    let mut lexer = Lexer::new("");
    assert!(lexer.next_token().is_none());
    assert!(lexer.next_token().is_none());
}

#[test]
fn no_end_of_file_token_is_emitted() {
    let tokens = lex("1");
    assert_eq!(tokens.len(), 1);
    assert!(tokens.iter().all(|token| token.kind != TokenKind::EOF));
}

#[test]
fn lexes_keywords_and_identifiers() {
    assert_eq!(
        kinds("let if else lets _x"),
        vec![
            TokenKind::Let,
            TokenKind::Whitespace,
            TokenKind::If,
            TokenKind::Whitespace,
            TokenKind::Else,
            TokenKind::Whitespace,
            TokenKind::Identifier,
            TokenKind::Whitespace,
            TokenKind::Identifier,
        ]
    );
}

#[test]
fn digits_end_an_identifier() {
    let tokens = lex("x1");
    assert_eq!(tokens.len(), 2);
    assert_eq!(tokens[0].kind, TokenKind::Identifier);
    assert_eq!(tokens[0].span.get_text(), "x");
    assert_eq!(tokens[1].kind, TokenKind::Number(1));
}

#[test]
fn newline_is_a_token_of_its_own() {
    let tokens = lex(" \t\n\n  ");
    assert_eq!(
        tokens.iter().map(|token| token.kind).collect::<Vec<_>>(),
        vec![
            TokenKind::Whitespace,
            TokenKind::Newline,
            TokenKind::Newline,
            TokenKind::Whitespace,
        ]
    );
    assert_eq!(tokens[0].span.get_text(), " \t");
    assert_eq!((tokens[1].span.start(), tokens[1].span.end()), (2, 3));
    assert_eq!((tokens[3].span.start(), tokens[3].span.end()), (4, 6));
}

#[test]
fn carriage_return_is_plain_whitespace() {
    assert_eq!(
        kinds("1\r\n2"),
        vec![
            TokenKind::Number(1),
            TokenKind::Whitespace,
            TokenKind::Newline,
            TokenKind::Number(2),
        ]
    );
}

#[test]
fn lexes_every_mark() {
    assert_eq!(
        kinds("+-*/|\"&%,.#:;!?~=><(){}\\'"),
        vec![
            TokenKind::Plus,
            TokenKind::Minus,
            TokenKind::Asterisk,
            TokenKind::Slash,
            TokenKind::Pipe,
            TokenKind::DoubleQuote,
            TokenKind::Amperstand,
            TokenKind::Percent,
            TokenKind::Comma,
            TokenKind::Period,
            TokenKind::Hashtag,
            TokenKind::Colon,
            TokenKind::Semicolon,
            TokenKind::Exclamation,
            TokenKind::Question,
            TokenKind::Tilde,
            TokenKind::Equals,
            TokenKind::RightChevron,
            TokenKind::LeftChevron,
            TokenKind::LeftParen,
            TokenKind::RightParen,
            TokenKind::LeftBrace,
            TokenKind::RightBrace,
            TokenKind::Backslash,
            TokenKind::SingleQuote,
        ]
    );
}

#[test]
fn unmapped_character_is_bad() {
    let tokens = lex("1 @ 2");
    assert_eq!(tokens[2].kind, TokenKind::Bad);
    assert_eq!(tokens[2].span.get_text(), "@");
    assert_eq!(kinds("$^`"), vec![TokenKind::Bad, TokenKind::Bad, TokenKind::Bad]);
}

#[test]
fn number_literal_wraps_around() {
    assert_eq!(kinds("9223372036854775807"), vec![TokenKind::Number(i64::MAX)]);
    assert_eq!(kinds("9223372036854775808"), vec![TokenKind::Number(i64::MIN)]);
    assert_eq!(kinds("18446744073709551616"), vec![TokenKind::Number(0)]);
    assert_eq!(kinds("18446744073709551621"), vec![TokenKind::Number(5)]);
}

#[test]
fn leading_zeros_are_part_of_the_number() {
    let tokens = lex("007");
    assert_eq!(tokens.len(), 1);
    assert_eq!(tokens[0].kind, TokenKind::Number(7));
    assert_eq!(tokens[0].span.get_text(), "007");
}

#[test]
fn spans_are_byte_offsets() {
    let tokens = lex("é+1");
    assert_eq!(tokens.len(), 3);
    assert_eq!(tokens[0].kind, TokenKind::Identifier);
    assert_eq!((tokens[0].span.start(), tokens[0].span.end()), (0, 2));
    assert_eq!(tokens[0].span.get_text(), "é");
    assert_eq!(tokens[0].span.length(), 2);
    assert_eq!(tokens[1].kind, TokenKind::Plus);
    assert_eq!((tokens[1].span.start(), tokens[1].span.end()), (2, 3));
    assert_eq!((tokens[2].span.start(), tokens[2].span.end()), (3, 4));
    let tokens = lex("€𝄞");
    assert_eq!(tokens[0].kind, TokenKind::Bad);
    assert_eq!((tokens[0].span.start(), tokens[0].span.end()), (0, 3));
    assert_eq!(tokens[1].kind, TokenKind::Bad);
    assert_eq!((tokens[1].span.start(), tokens[1].span.end()), (3, 7));
}

#[test]
fn unicode_letters_and_spaces_are_classified() {
    assert_eq!(kinds("λ"), vec![TokenKind::Identifier]);
    assert_eq!(kinds("\u{a0}\u{2003}"), vec![TokenKind::Whitespace]);
    assert_eq!(kinds("a\u{3000}b"), vec![
        TokenKind::Identifier,
        TokenKind::Whitespace,
        TokenKind::Identifier,
    ]);
}

#[test]
fn spans_tile_the_input() {
    for input in ["let a = 10 + 11; let b = 20;\nlet c = (a * b) + e;", "été @ 12\n\n", "x"] {
        let tokens = lex(input);
        let mut offset = 0;
        for token in &tokens {
            assert_eq!(token.span.start(), offset);
            assert!(token.span.start() < token.span.end());
            assert_eq!(token.span.get_text(), &input[token.span.start()..token.span.end()]);
            offset = token.span.end();
        }
        assert_eq!(offset, input.len());
    }
}

#[test]
fn literals_rebuild_the_input() {
    for input in [
        "",
        "12+3",
        "let x = 5; let y = x + 1;",
        "  \n\t (1)) @@ if else\r\n",
        "naïve = 1 / 0 ; €",
    ] {
        let text = rebuilt(input);
        assert_eq!(text, input);
        assert_eq!(lex(&text), lex(input));
    }
}

#[test]
fn kind_to_string() {
    assert_eq!(TokenKind::Bad.to_string(), "Bad");
    assert_eq!(TokenKind::Colon.to_string(), ":");
    assert_eq!(TokenKind::Semicolon.to_string(), ";");
    assert_eq!(TokenKind::LeftBrace.to_string(), "{");
    assert_eq!(TokenKind::RightBrace.to_string(), "}");
    assert_eq!(TokenKind::LeftParen.to_string(), "(");
    assert_eq!(TokenKind::RightParen.to_string(), ")");
    assert_eq!(TokenKind::LeftChevron.to_string(), "<");
    assert_eq!(TokenKind::RightChevron.to_string(), ">");
    assert_eq!(TokenKind::Amperstand.to_string(), "&");
    assert_eq!(TokenKind::Percent.to_string(), "%");
    assert_eq!(TokenKind::Comma.to_string(), ",");
    assert_eq!(TokenKind::Period.to_string(), ".");
    assert_eq!(TokenKind::Hashtag.to_string(), "#");
    assert_eq!(TokenKind::Exclamation.to_string(), "!");
    assert_eq!(TokenKind::Question.to_string(), "?");
    assert_eq!(TokenKind::Tilde.to_string(), "~");
    assert_eq!(TokenKind::Pipe.to_string(), "|");
    assert_eq!(TokenKind::Backslash.to_string(), "\\");
    assert_eq!(TokenKind::SingleQuote.to_string(), "'");
    assert_eq!(TokenKind::DoubleQuote.to_string(), "\"");
    assert_eq!(TokenKind::Equals.to_string(), "=");
    assert_eq!(TokenKind::Plus.to_string(), "+");
    assert_eq!(TokenKind::Minus.to_string(), "-");
    assert_eq!(TokenKind::Asterisk.to_string(), "*");
    assert_eq!(TokenKind::Slash.to_string(), "/");
    assert_eq!(TokenKind::Let.to_string(), "let");
    assert_eq!(TokenKind::If.to_string(), "if");
    assert_eq!(TokenKind::Else.to_string(), "else");
    assert_eq!(TokenKind::Identifier.to_string(), "Identifier");
    assert_eq!(TokenKind::Whitespace.to_string(), "Whitespace");
    assert_eq!(TokenKind::Newline.to_string(), "Newline");
    assert_eq!(TokenKind::EOF.to_string(), "EOF");
}

#[test]
fn number_kind_to_string_is_decimal() {
    assert_eq!(TokenKind::Number(0).to_string(), "0");
    assert_eq!(TokenKind::Number(7).to_string(), "7");
    assert_eq!(TokenKind::Number(10).to_string(), "10");
    assert_eq!(TokenKind::Number(1203).to_string(), "1203");
    assert_eq!(TokenKind::Number(-45).to_string(), "-45");
    assert_eq!(TokenKind::Number(i64::MAX).to_string(), "9223372036854775807");
    assert_eq!(TokenKind::Number(i64::MIN).to_string(), "-9223372036854775808");
}

#[test]
fn kind_classes() {
    assert!(TokenKind::Bad.is_bad());
    assert!(!TokenKind::Plus.is_bad());
    for kind in [TokenKind::Let, TokenKind::If, TokenKind::Else] {
        assert!(kind.is_keyword());
        assert!(!kind.is_punctuation());
    }
    assert!(!TokenKind::Identifier.is_keyword());
    for kind in [
        TokenKind::Colon,
        TokenKind::Semicolon,
        TokenKind::LeftBrace,
        TokenKind::RightBrace,
        TokenKind::LeftParen,
        TokenKind::RightParen,
        TokenKind::LeftChevron,
        TokenKind::RightChevron,
        TokenKind::Amperstand,
        TokenKind::Percent,
        TokenKind::Comma,
        TokenKind::Period,
        TokenKind::Hashtag,
        TokenKind::Exclamation,
        TokenKind::Question,
        TokenKind::Tilde,
        TokenKind::Pipe,
        TokenKind::Backslash,
        TokenKind::SingleQuote,
        TokenKind::DoubleQuote,
        TokenKind::Equals,
    ] {
        assert!(kind.is_punctuation());
        assert!(!kind.is_arithmetic_operator());
    }
    for kind in [TokenKind::Plus, TokenKind::Minus, TokenKind::Slash, TokenKind::Asterisk] {
        assert!(kind.is_arithmetic_operator());
        assert!(!kind.is_punctuation());
    }
    for kind in [TokenKind::Whitespace, TokenKind::Newline, TokenKind::EOF] {
        assert!(kind.is_whitespace());
    }
    assert!(!TokenKind::Number(1).is_whitespace());
    assert!(!TokenKind::Number(1).is_punctuation());
}

#[test]
fn kind_from_char() {
    assert_eq!(TokenKind::from('+'), TokenKind::Plus);
    assert_eq!(TokenKind::from('-'), TokenKind::Minus);
    assert_eq!(TokenKind::from('*'), TokenKind::Asterisk);
    assert_eq!(TokenKind::from('/'), TokenKind::Slash);
    assert_eq!(TokenKind::from('('), TokenKind::LeftParen);
    assert_eq!(TokenKind::from(')'), TokenKind::RightParen);
    assert_eq!(TokenKind::from('\n'), TokenKind::Newline);
    assert_eq!(TokenKind::from('a'), TokenKind::Bad);
    assert_eq!(TokenKind::from('1'), TokenKind::Bad);
    assert_eq!(TokenKind::from(' '), TokenKind::Bad);
}

#[test]
fn span_accessors() {
    let span = TextSpan::new(3, 8, "hello".to_string());
    assert_eq!(span.start(), 3);
    assert_eq!(span.end(), 8);
    assert_eq!(span.get_text(), "hello");
    assert_eq!(span.clone_text(), "hello".to_string());
    assert_eq!(span.length(), 5);
    assert_eq!(span.clone(), span);
    let token = Token::new(TokenKind::Identifier, span.clone());
    assert_eq!(token.kind, TokenKind::Identifier);
    assert_eq!(token.span, span);
    assert_eq!(token.clone(), token);
}
