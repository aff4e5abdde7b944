//! Terminal styles for the parts of a program and of a diagnostic.

use crate::ast::lexer::TokenKind;
use console::Style;
use vstd::prelude::*;

verus! {

/// `console::Style`, a terminal style. The type is opaque here: nothing is
/// known of a value of it.
#[verifier::external_type_specification]
#[verifier::external_body]
pub struct ExStyle(console::Style);

/// The escape sequence with which a styled text ends.
pub open spec fn style_reset() -> Seq<char> {
    seq!['\x1b', '[', '0', 'm']
}

/// True when `styled` is `text` as a terminal style may render it: the text
/// itself where styling is off or the style is empty, else the text between
/// escape sequences that switch the style on and off again.
pub open spec fn is_styled(text: Seq<char>, styled: Seq<char>) -> bool {
    styled == text || exists|lead: Seq<char>| styled == lead + text + style_reset()
}

/// `Style::apply_to`, rendered with `to_string`: the text, between the escape
/// sequences of the style where styling is on. Whether it is on depends on
/// the terminal and the environment, so the contract states only what holds
/// of both outcomes.
#[verifier::external_body]
pub(crate) fn apply_style(style: &Style, text: &str) -> (styled: String)
    ensures
        is_styled(text@, styled@),
{
    style.apply_to(text).to_string()
}

/// `Style::underlined`, which adds the underline attribute to a style; the
/// contract states nothing of the value.
#[verifier::external_body]
pub(crate) fn underlined(style: Style) -> Style {
    style.underlined()
}

/// What a piece of text is shown as; each role has a style of its own.
#[derive(Debug, Clone, Copy, PartialEq, Eq, Structural)]
pub enum SyntaxRole {
    Error,
    Warning,
    Number,
    Variable,
    Text,
    String,
    Keyword,
    Comment,
}

/// The role in which a token of the given kind is shown: keywords as
/// keywords, numbers as numbers, everything else as text.
pub open spec fn token_role(token: TokenKind) -> SyntaxRole {
    if token.is_keyword() {
        SyntaxRole::Keyword
    } else if token is Number {
        SyntaxRole::Number
    } else {
        SyntaxRole::Text
    }
}

/// The styles of the roles.
pub struct SyntaxColors;

impl SyntaxColors {
    /// The style of errors, made by `Style::new().red()`; the contract states
    /// nothing of the value.
    #[verifier::external_body]
    pub fn error() -> Style {
        Style::new().red()
    }

    /// The style of warnings, made by `Style::new().yellow()`; the contract
    /// states nothing of the value.
    #[verifier::external_body]
    pub fn warning() -> Style {
        Style::new().yellow()
    }

    /// The style of numbers, made by `Style::new().cyan()`; the contract states
    /// nothing of the value.
    #[verifier::external_body]
    pub fn number() -> Style {
        Style::new().cyan()
    }

    /// The style of variables, made by `Style::new().green()`; the contract
    /// states nothing of the value.
    #[verifier::external_body]
    pub fn variable() -> Style {
        Style::new().green()
    }

    /// The style of plain text, made by `Style::new().bright().white()`; the
    /// contract states nothing of the value.
    #[verifier::external_body]
    pub fn text() -> Style {
        Style::new().bright().white()
    }

    /// The style of string literals, made by `Style::new().green()`; the
    /// contract states nothing of the value.
    #[verifier::external_body]
    pub fn string() -> Style {
        Style::new().green()
    }

    /// The style of keywords, made by `Style::new().magenta()`; the contract
    /// states nothing of the value.
    #[verifier::external_body]
    pub fn keyword() -> Style {
        Style::new().magenta()
    }

    /// The style of comments, made by `Style::new().green().italic()`; the
    /// contract states nothing of the value.
    #[verifier::external_body]
    pub fn comment() -> Style {
        Style::new().green().italic()
    }

    /// The style of a role.
    pub fn of_role(role: SyntaxRole) -> Style {
        match role {
            SyntaxRole::Error => Self::error(),
            SyntaxRole::Warning => Self::warning(),
            SyntaxRole::Number => Self::number(),
            SyntaxRole::Variable => Self::variable(),
            SyntaxRole::Text => Self::text(),
            SyntaxRole::String => Self::string(),
            SyntaxRole::Keyword => Self::keyword(),
            SyntaxRole::Comment => Self::comment(),
        }
    }

    /// The role in which a token of the given kind is shown.
    pub fn get_token_role(token: &TokenKind) -> (role: SyntaxRole)
        ensures
            role == token_role(*token),
    {
        if token.is_keyword() {
            return SyntaxRole::Keyword;
        }
        if token.is_punctuation() {
            return SyntaxRole::Text;
        }
        match token {
            TokenKind::Number(_) => SyntaxRole::Number,
            _ => SyntaxRole::Text,
        }
    }

    /// The style in which a token of the given kind is shown: the style of
    /// its role.
    pub fn get_token_color(token: &TokenKind) -> Style {
        Self::of_role(Self::get_token_role(token))
    }
}

} // verus!
