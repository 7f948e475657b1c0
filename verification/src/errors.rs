use vstd::prelude::*;

use crate::token::{Position, Token, TokenType};

verus! {

/// Why the text could not be split into tokens.
#[derive(Debug, Clone, Copy, PartialEq, Eq, Structural)]
pub enum LexError {
    /// A character that begins no token.
    IllegalCharacter { position: Position, found: char },
    /// A run of digits whose number does not fit the machine's unsigned word.
    /// The run begins at `start` and ends just before `end`.
    InvalidInteger { start: Position, end: Position },
    /// A numeral with more than one decimal point, from `start` to just
    /// before `end`.
    InvalidFloat { start: Position, end: Position },
    /// A string whose closing quote is missing; `position` is the place of
    /// the opening quote.
    UnterminatedString { position: Position },
}

/// Why the tokens could not be parsed. Each error names, in `reason`, the
/// construct that was being parsed.
#[allow(inconsistent_fields)]
#[derive(Debug, Clone, Copy)]
pub enum ParseError<'a> {
    /// A token of kind `expected` was required, and `found` stands in its
    /// place.
    UnexpectedToken { expected: TokenType<'a>, found: Token<'a>, reason: &'a str },
    /// An identifier was required after the separator `after`; `found` is
    /// what stands there, if anything does.
    ExpectedIdentifier { after: Token<'a>, found: Option<Token<'a>> },
    /// One more token was required where the tokens end.
    OutOfTokens { reason: &'a str },
    /// An expression was required, and none begins at `found` (or the
    /// tokens have ended).
    MissingExpression { found: Option<Token<'a>>, reason: &'a str },
}

} // verus!
