use vstd::prelude::*;

use crate::ast::{Expr, MatchPair, Stmt};
use crate::errors::ParseError;
use crate::parser::{IdentTypes, Precedence};
use crate::token::{Token, TokenType};

verus! {

// The grammar, as functions from a token sequence and a cursor to what is
// parsed there. A construct is parsed with the cursor on its first token and
// leaves the cursor on its last token. Each function returns, beside its
// value, the number of tokens by which the cursor has moved on.
//
// The functions call each other in a circle. One that calls another without
// moving the cursor has the greater number after its count of tokens left.
//
// The constants name, for an error, the construct that was being parsed.
pub const IMPORT: &'static str = "naming the module of an import";

pub const RETURN: &'static str = "giving the value of a return";

pub const ASSIGNMENT: &'static str = "giving the value of an assignment";

pub const LITERAL: &'static str = "reading a literal";

pub const IDENTIFIER: &'static str = "reading an identifier";

pub const GROUPED: &'static str = "defining a grouped expression";

pub const LIST: &'static str = "listing expressions";

pub const PARAMETERS: &'static str = "closing the parameters of a function";

pub const ARROW: &'static str = "introducing the body of a function";

pub const FUNCTION_BODY: &'static str = "defining the body of a function";

pub const BLOCK: &'static str = "closing a block";

pub const OPERATOR: &'static str = "applying an operator";

pub const OPERAND: &'static str = "giving the right side of an operator";

pub const CALL: &'static str = "calling a function";

pub const MATCH_OPENING: &'static str = "defining the opening of a match expression";

pub const MATCH_CLAUSE: &'static str = "defining a match clause";

pub const MATCH_BODY: &'static str = "defining the body of a match clause";

pub const MATCH_CLOSING: &'static str = "closing a match expression";

pub const PEEK: &'static str = "looking at the next token";

/// A value with the number of tokens that were passed to parse it, or the
/// reason why there is none.
pub type Parsed<'a, T> = Result<(T, nat), ParseError<'a>>;

/// The same result, `n` tokens further from where the count began.
pub open spec fn later<'a, T>(r: Parsed<'a, T>, n: nat) -> Parsed<'a, T> {
    match r {
        Ok((value, passed)) => Ok((value, passed + n)),
        Err(error) => Err(error),
    }
}

/// The token under the cursor, if the cursor is not past the last one.
pub open spec fn current<'a>(tokens: Seq<Token<'a>>, pos: nat) -> Option<Token<'a>> {
    if pos < tokens.len() {
        Some(tokens[pos as int])
    } else {
        None
    }
}

/// The token after the one under the cursor.
pub open spec fn peek<'a>(tokens: Seq<Token<'a>>, pos: nat) -> Option<Token<'a>> {
    current(tokens, pos + 1)
}

/// How many tokens are left from the cursor on.
pub open spec fn left<'a>(tokens: Seq<Token<'a>>, pos: nat) -> nat {
    if pos < tokens.len() {
        (tokens.len() - pos) as nat
    } else {
        0
    }
}

/// The level at which a token binds what stands on its two sides. A kind
/// that the table does not name binds at the lowest level.
pub open spec fn precedence_of(kind: TokenType<'_>) -> Precedence {
    match kind {
        TokenType::Equal => Precedence::EQUALS,
        TokenType::BangEqual => Precedence::EQUALS,
        TokenType::LT => Precedence::LESSGREATER,
        TokenType::GT => Precedence::LESSGREATER,
        TokenType::LTEq => Precedence::LESSGREATER,
        TokenType::GTEq => Precedence::LESSGREATER,
        TokenType::Or => Precedence::OR,
        TokenType::And => Precedence::AND,
        TokenType::Plus => Precedence::SUM,
        TokenType::Minus => Precedence::SUM,
        TokenType::Asterisk => Precedence::PRODUCT,
        TokenType::Slash => Precedence::PRODUCT,
        TokenType::LParen => Precedence::CALL,
        TokenType::LBracket => Precedence::INDEX,
        TokenType::Match => Precedence::MATCH,
        _ => Precedence::LOWEST,
    }
}

/// Whether an expression can begin with a token of this kind.
pub open spec fn has_prefix_rule(kind: TokenType<'_>) -> bool {
    match kind {
        TokenType::Integer(_) => true,
        TokenType::Underscore => true,
        TokenType::Float(_) => true,
        TokenType::String(_) => true,
        TokenType::LParen => true,
        TokenType::LBracket => true,
        TokenType::Bar => true,
        TokenType::Ident(_) => true,
        _ => false,
    }
}

/// Whether a token of this kind is an operator between two operands.
pub open spec fn is_binary_operator(kind: TokenType<'_>) -> bool {
    match kind {
        TokenType::Plus => true,
        TokenType::Minus => true,
        TokenType::Slash => true,
        TokenType::Asterisk => true,
        TokenType::PlusEqual => true,
        TokenType::AsteriskEqual => true,
        TokenType::SlashEqual => true,
        TokenType::DoubleEqual => true,
        TokenType::BangEqual => true,
        TokenType::LT => true,
        TokenType::GT => true,
        TokenType::Or => true,
        TokenType::And => true,
        TokenType::LTEq => true,
        TokenType::GTEq => true,
        _ => false,
    }
}

/// Whether a token of this kind can carry on an expression that has been
/// parsed: a binary operator, the opening of a call, or `match`.
pub open spec fn has_infix_rule(kind: TokenType<'_>) -> bool {
    is_binary_operator(kind) || kind is LParen || kind is Match
}

/// The token under the cursor, which `reason` needs.
pub open spec fn needed<'a>(tokens: Seq<Token<'a>>, pos: nat, reason: &'a str) -> Result<
    Token<'a>,
    ParseError<'a>,
> {
    match current(tokens, pos) {
        Some(token) => Ok(token),
        None => Err(ParseError::OutOfTokens { reason }),
    }
}

/// Whether the token after the cursor is of kind `kind`, as `reason` needs
/// it to be; the cursor must stand on a token.
pub open spec fn expected_next<'a>(
    tokens: Seq<Token<'a>>,
    pos: nat,
    kind: TokenType<'a>,
    reason: &'a str,
) -> Result<(), ParseError<'a>> {
    match (current(tokens, pos), peek(tokens, pos)) {
        (Some(_), Some(next)) => if next.kind@ == kind@ {
            Ok(())
        } else {
            Err(ParseError::UnexpectedToken { expected: kind, found: next, reason })
        },
        _ => Err(ParseError::OutOfTokens { reason }),
    }
}

/// The rest of a dotted path, with the cursor on an identifier of it: as
/// long as a period follows, an identifier must follow the period. Gives
/// the identifiers after those in `idents`, and leaves the cursor on the
/// last one.
pub open spec fn path_tail<'a>(tokens: Seq<Token<'a>>, pos: nat, idents: Seq<Token<'a>>) -> Parsed<
    'a,
    Seq<Token<'a>>,
>
    decreases left(tokens, pos),
{
    match peek(tokens, pos) {
        Some(separator) => if separator.kind is Period {
            match current(tokens, pos + 2) {
                Some(ident) => if ident.kind is Ident {
                    later(path_tail(tokens, pos + 2, idents.push(ident)), 2)
                } else {
                    Err(ParseError::ExpectedIdentifier { after: separator, found: Some(ident) })
                },
                None => Err(ParseError::ExpectedIdentifier { after: separator, found: None }),
            }
        } else {
            Ok((idents, 0))
        },
        None => Ok((idents, 0)),
    }
}

/// The rest of a chain of identifiers, with the cursor on an identifier of
/// it: as long as a period or a comma follows, an identifier must follow
/// that. Gives the identifiers after those in `idents` and the shape that the
/// last separator gave the chain, and leaves the cursor on the last
/// identifier.
pub open spec fn chain_tail<'a>(
    tokens: Seq<Token<'a>>,
    pos: nat,
    idents: Seq<Token<'a>>,
    shape: IdentTypes,
) -> Parsed<'a, (Seq<Token<'a>>, IdentTypes)>
    decreases left(tokens, pos),
{
    match peek(tokens, pos) {
        Some(separator) => if separator.kind is Period || separator.kind is Comma {
            match current(tokens, pos + 2) {
                Some(ident) => if ident.kind is Ident {
                    later(
                        chain_tail(
                            tokens,
                            pos + 2,
                            idents.push(ident),
                            if separator.kind is Period {
                                IdentTypes::Normal
                            } else {
                                IdentTypes::Destructuring
                            },
                        ),
                        2,
                    )
                } else {
                    Err(ParseError::ExpectedIdentifier { after: separator, found: Some(ident) })
                },
                None => Err(ParseError::ExpectedIdentifier { after: separator, found: None }),
            }
        } else {
            Ok(((idents, shape), 0))
        },
        None => Ok(((idents, shape), 0)),
    }
}

/// The chain of identifiers that begins under the cursor. The cursor is
/// left on the first token after the chain, which may be one past the last
/// token of all. Where no identifier stands under the cursor the chain is
/// empty and the cursor stays.
pub open spec fn ident_chain<'a>(tokens: Seq<Token<'a>>, pos: nat) -> Parsed<
    'a,
    (Seq<Token<'a>>, IdentTypes),
> {
    match current(tokens, pos) {
        Some(first) => if first.kind is Ident {
            later(chain_tail(tokens, pos, seq![first], IdentTypes::Destructuring), 1)
        } else {
            Ok(((Seq::empty(), IdentTypes::Destructuring), 0))
        },
        None => Ok(((Seq::empty(), IdentTypes::Destructuring), 0)),
    }
}

/// An import: the keyword, and the next token, whatever its kind, as the
/// name of the module.
pub open spec fn import_statement<'a>(tokens: Seq<Token<'a>>, pos: nat) -> Parsed<
    'a,
    Option<Stmt<'a>>,
> {
    match (needed(tokens, pos, IMPORT), needed(tokens, pos + 1, IMPORT)) {
        (Ok(token), Ok(value)) => Ok((Some(Stmt::ImportStatement { token, value }), 1)),
        (Err(error), _) => Err(error),
        (_, Err(error)) => Err(error),
    }
}

/// The rank of `grouped` in the circle of calls: it parses from a place that
/// holds no opening parenthesis without moving the cursor.
pub open spec fn grouped_rank<'a>(tokens: Seq<Token<'a>>, pos: nat) -> nat {
    match current(tokens, pos) {
        Some(token) => if token.kind is LParen {
            3
        } else {
            10
        },
        None => 10,
    }
}

/// The rank of `prefix` in the circle of calls.
pub open spec fn prefix_rank<'a>(tokens: Seq<Token<'a>>, pos: nat, kind: TokenType<'a>) -> nat {
    if kind is LParen && grouped_rank(tokens, pos) != 3 {
        11
    } else {
        5
    }
}

/// The statement that begins under the cursor, chosen by the kind of its
/// first token. `None` where the tokens have ended, or where the token
/// begins no statement.
#[verifier::opaque]
pub open spec fn statement<'a>(tokens: Seq<Token<'a>>, pos: nat) -> Parsed<'a, Option<Stmt<'a>>>
    decreases left(tokens, pos), 9nat,
{
    match current(tokens, pos) {
        None => Ok((None, 0)),
        Some(token) => match token.kind {
            TokenType::Import => import_statement(tokens, pos),
            TokenType::Ident(_) => identifier_statement(tokens, pos),
            TokenType::Return => return_statement(tokens, pos),
            _ => expression_statement(tokens, pos, None),
        },
    }
}

/// A return: the keyword and the expression after it.
pub open spec fn return_statement<'a>(tokens: Seq<Token<'a>>, pos: nat) -> Parsed<
    'a,
    Option<Stmt<'a>>,
>
    decreases left(tokens, pos), 8nat,
{
    match current(tokens, pos) {
        None => Err(ParseError::OutOfTokens { reason: RETURN }),
        Some(token) => match expression(tokens, pos + 1, Precedence::LOWEST, None) {
            Err(error) => Err(error),
            Ok((None, _)) => Err(
                ParseError::MissingExpression { found: current(tokens, pos + 1), reason: RETURN },
            ),
            Ok((Some(value), n)) => Ok(
                (Some(Stmt::ReturnStatement { token, value: Box::new(value) }), n + 1),
            ),
        },
    }
}

/// An expression that stands as a statement, tagged with the token under
/// the cursor. `already`, if given, holds the identifiers of a path that
/// ends under the cursor: the expression then begins with that path.
pub open spec fn expression_statement<'a>(
    tokens: Seq<Token<'a>>,
    pos: nat,
    already: Option<Seq<Token<'a>>>,
) -> Parsed<'a, Option<Stmt<'a>>>
    decreases left(tokens, pos), 7nat,
{
    match current(tokens, pos) {
        None => Ok((None, 0)),
        Some(token) => match expression(tokens, pos, Precedence::LOWEST, already) {
            Err(error) => Err(error),
            Ok((None, n)) => Ok((None, n)),
            Ok((Some(expression), n)) => Ok(
                (Some(Stmt::ExpressionStatement { token, expression: Box::new(expression) }), n),
            ),
        },
    }
}

/// The statement that begins with an identifier. The chain of identifiers
/// is read first. If `:=` follows it, the statement defines the identifiers
/// of the chain; if `=` follows it, the statement updates the path that they
/// form. If anything else follows, the cursor goes back to the last
/// identifier of the chain, and the statement is an expression that begins
/// with the chain as a path.
pub open spec fn identifier_statement<'a>(tokens: Seq<Token<'a>>, pos: nat) -> Parsed<
    'a,
    Option<Stmt<'a>>,
>
    decreases left(tokens, pos), 8nat,
{
    match current(tokens, pos) {
        None => expression_statement(tokens, pos, None),
        Some(first) => if !(first.kind is Ident) {
            expression_statement(tokens, pos, None)
        } else {
            match chain_tail(tokens, pos, seq![first], IdentTypes::Destructuring) {
                Err(error) => Err(error),
                Ok(((idents, _), n)) => match current(tokens, pos + n + 1) {
                    None => later(expression_statement(tokens, pos + n, Some(idents)), n),
                    Some(token) => if token.kind is ColonEqual || token.kind is Equal {
                        match expression(tokens, pos + n + 2, Precedence::LOWEST, None) {
                            Err(error) => Err(error),
                            Ok((None, _)) => Err(
                                ParseError::MissingExpression {
                                    found: current(tokens, pos + n + 2),
                                    reason: ASSIGNMENT,
                                },
                            ),
                            Ok((Some(expression), m)) => Ok(
                                (
                                    Some(
                                        if token.kind is ColonEqual {
                                            Stmt::AssignStatement {
                                                token,
                                                expression: Box::new(expression),
                                                defined: Box::new(
                                                    Expr::DefinitionIdentifier { idents },
                                                ),
                                            }
                                        } else {
                                            Stmt::UpdateStatement {
                                                token,
                                                ident: Box::new(Expr::NormalIdentifier { idents }),
                                                expression: Box::new(expression),
                                            }
                                        },
                                    ),
                                    n + 2 + m,
                                ),
                            ),
                        }
                    } else {
                        later(expression_statement(tokens, pos + n, Some(idents)), n)
                    },
                },
            }
        },
    }
}

/// A block: the token under the cursor opens it, and statements follow up
/// to a token of kind `end`, on which the cursor is left.
pub open spec fn block<'a>(tokens: Seq<Token<'a>>, pos: nat, end: TokenType<'a>) -> Parsed<
    'a,
    Stmt<'a>,
>
    decreases left(tokens, pos), 0nat,
{
    match current(tokens, pos) {
        None => Err(ParseError::OutOfTokens { reason: BLOCK }),
        Some(token) => match block_rest(tokens, pos + 1, end, Seq::empty()) {
            Err(error) => Err(error),
            Ok((statements, n)) => Ok((Stmt::BlockStatement { token, statements }, n + 1)),
        },
    }
}

/// The statements of a block from the cursor on, after those in `found`.
/// After each statement one token is passed. A token that begins no
/// statement is passed over.
#[verifier::opaque]
pub open spec fn block_rest<'a>(
    tokens: Seq<Token<'a>>,
    pos: nat,
    end: TokenType<'a>,
    found: Seq<Stmt<'a>>,
) -> Parsed<'a, Seq<Stmt<'a>>>
    decreases left(tokens, pos), 10nat,
{
    match current(tokens, pos) {
        None => Err(ParseError::OutOfTokens { reason: BLOCK }),
        Some(token) => if token.kind@ == end@ {
            Ok((found, 0))
        } else {
            match statement(tokens, pos) {
                Err(error) => Err(error),
                Ok((None, n)) => later(block_rest(tokens, pos + n + 1, end, found), n + 1),
                Ok((Some(s), n)) => later(
                    block_rest(tokens, pos + n + 1, end, found.push(s)),
                    n + 1,
                ),
            }
        },
    }
}

/// The body of a function or of a match clause, which begins under the
/// cursor: a block in braces, or else one expression, which stands for a
/// block that returns it. `tag` is the token that such a block and its
/// return are tagged with.
pub open spec fn body<'a>(tokens: Seq<Token<'a>>, pos: nat, tag: Token<'a>, reason: &'a str) -> Parsed<
    'a,
    Stmt<'a>,
>
    decreases left(tokens, pos), 12nat,
{
    match current(tokens, pos) {
        None => Err(ParseError::MissingExpression { found: None, reason }),
        Some(first) => if first.kind is LBrace {
            block(tokens, pos, TokenType::RBrace)
        } else {
            match expression(tokens, pos, Precedence::LOWEST, None) {
                Err(error) => Err(error),
                Ok((None, _)) => Err(ParseError::MissingExpression { found: Some(first), reason }),
                Ok((Some(value), n)) => Ok(
                    (
                        Stmt::BlockStatement {
                            token: tag,
                            statements: seq![
                                Stmt::ReturnStatement { token: tag, value: Box::new(value) },
                            ],
                        },
                        n,
                    ),
                ),
            }
        },
    }
}

/// The expression that begins under the cursor, as far as operators that
/// bind above `level` carry it. `None` where the tokens have ended, or
/// where the token under the cursor begins no expression.
pub open spec fn expression<'a>(
    tokens: Seq<Token<'a>>,
    pos: nat,
    level: Precedence,
    already: Option<Seq<Token<'a>>>,
) -> Parsed<'a, Option<Expr<'a>>>
    decreases left(tokens, pos), 6nat,
{
    match current(tokens, pos) {
        None => Ok((None, 0)),
        Some(token) => match prefix(tokens, pos, token.kind, already) {
            Err(error) => Err(error),
            Ok((None, _)) => Ok((None, 0)),
            Ok((Some(first), n)) => match infix_loop(tokens, pos + n, level, first) {
                Err(error) => Err(error),
                Ok((whole, m)) => Ok((Some(whole), n + m)),
            },
        },
    }
}

/// What the rule for a first token of kind `kind` builds from the cursor
/// on. `None` where a token of that kind begins no expression.
pub open spec fn prefix<'a>(
    tokens: Seq<Token<'a>>,
    pos: nat,
    kind: TokenType<'a>,
    already: Option<Seq<Token<'a>>>,
) -> Parsed<'a, Option<Expr<'a>>>
    decreases left(tokens, pos), prefix_rank(tokens, pos, kind),
{
    match kind {
        TokenType::Integer(_) => match needed(tokens, pos, LITERAL) {
            Ok(token) => Ok((Some(Expr::IntegerLiteral { token }), 0)),
            Err(error) => Err(error),
        },
        TokenType::Underscore => match needed(tokens, pos, LITERAL) {
            Ok(token) => Ok((Some(Expr::UnderscoreLiteral { token }), 0)),
            Err(error) => Err(error),
        },
        TokenType::Float(_) => match needed(tokens, pos, LITERAL) {
            Ok(token) => Ok((Some(Expr::FloatLiteral { token }), 0)),
            Err(error) => Err(error),
        },
        TokenType::String(_) => match needed(tokens, pos, LITERAL) {
            Ok(token) => Ok((Some(Expr::StringLiteral { token }), 0)),
            Err(error) => Err(error),
        },
        TokenType::LParen => match grouped(tokens, pos) {
            Ok((e, n)) => Ok((Some(e), n)),
            Err(error) => Err(error),
        },
        TokenType::LBracket => match array(tokens, pos) {
            Ok((e, n)) => Ok((Some(e), n)),
            Err(error) => Err(error),
        },
        TokenType::Bar => match function(tokens, pos) {
            Ok((e, n)) => Ok((Some(e), n)),
            Err(error) => Err(error),
        },
        TokenType::Ident(_) => match ident_path(tokens, pos, already) {
            Ok((e, n)) => Ok((Some(e), n)),
            Err(error) => Err(error),
        },
        _ => Ok((None, 0)),
    }
}

/// A path of identifiers. `already`, if given, is the path. If not, it
/// begins with the token under the cursor and goes on as long as a period
/// and an identifier follow.
pub open spec fn ident_path<'a>(
    tokens: Seq<Token<'a>>,
    pos: nat,
    already: Option<Seq<Token<'a>>>,
) -> Parsed<'a, Expr<'a>> {
    match already {
        Some(idents) => Ok((Expr::NormalIdentifier { idents }, 0)),
        None => match current(tokens, pos) {
            None => Err(ParseError::OutOfTokens { reason: IDENTIFIER }),
            Some(first) => match path_tail(tokens, pos, seq![first]) {
                Ok((idents, n)) => Ok((Expr::NormalIdentifier { idents }, n)),
                Err(error) => Err(error),
            },
        },
    }
}

/// An expression in parentheses: the expression itself. An opening
/// parenthesis under the cursor is passed; the expression must follow, and a
/// closing parenthesis after it, on which the cursor is left.
pub open spec fn grouped<'a>(tokens: Seq<Token<'a>>, pos: nat) -> Parsed<'a, Expr<'a>>
    decreases left(tokens, pos), grouped_rank(tokens, pos),
{
    let skip: nat = match current(tokens, pos) {
        Some(token) => if token.kind is LParen {
            1
        } else {
            0
        },
        None => 0,
    };
    match expression(tokens, pos + skip, Precedence::LOWEST, None) {
        Err(error) => Err(error),
        Ok((None, _)) => Err(
            ParseError::MissingExpression { found: current(tokens, pos + skip), reason: GROUPED },
        ),
        Ok((Some(inner), n)) => match expected_next(
            tokens,
            pos + skip + n,
            TokenType::RParen,
            GROUPED,
        ) {
            Err(error) => Err(error),
            Ok(_) => Ok((inner, skip + n + 1)),
        },
    }
}

/// An array: the token under the cursor opens it, and its elements follow
/// up to the closing bracket.
pub open spec fn array<'a>(tokens: Seq<Token<'a>>, pos: nat) -> Parsed<'a, Expr<'a>>
    decreases left(tokens, pos), 3nat,
{
    match current(tokens, pos) {
        None => Err(ParseError::OutOfTokens { reason: LIST }),
        Some(token) => match expression_list(tokens, pos, TokenType::RBracket) {
            Err(error) => Err(error),
            Ok((elements, n)) => Ok((Expr::ArrayLiteral { token, elements }, n)),
        },
    }
}

/// A list of expressions, with the cursor on the token that opens it, up to
/// a token of kind `end`, on which the cursor is left. If that token follows
/// at once the list is empty. If not, an expression must follow.
pub open spec fn expression_list<'a>(tokens: Seq<Token<'a>>, pos: nat, end: TokenType<'a>) -> Parsed<
    'a,
    Seq<Expr<'a>>,
>
    decreases left(tokens, pos), 1nat,
{
    match peek(tokens, pos) {
        None => Err(ParseError::OutOfTokens { reason: PEEK }),
        Some(next) => if next.kind@ == end@ {
            Ok((Seq::empty(), 1))
        } else {
            match expression(tokens, pos + 1, Precedence::LOWEST, None) {
                Err(error) => Err(error),
                Ok((None, _)) => Err(
                    ParseError::MissingExpression { found: Some(next), reason: LIST },
                ),
                Ok((Some(first), n)) => later(
                    list_rest(tokens, pos + n + 2, end, seq![first]),
                    n + 2,
                ),
            }
        },
    }
}

/// The expressions of a list from the cursor on, after those in `found`.
/// After each expression one token is passed. A token that begins no
/// expression, such as a comma, is passed over.
pub open spec fn list_rest<'a>(
    tokens: Seq<Token<'a>>,
    pos: nat,
    end: TokenType<'a>,
    found: Seq<Expr<'a>>,
) -> Parsed<'a, Seq<Expr<'a>>>
    decreases left(tokens, pos), 10nat,
{
    match current(tokens, pos) {
        None => Err(ParseError::OutOfTokens { reason: LIST }),
        Some(token) => if token.kind@ == end@ {
            Ok((found, 0))
        } else {
            match expression(tokens, pos, Precedence::LOWEST, None) {
                Err(error) => Err(error),
                Ok((None, _)) => later(list_rest(tokens, pos + 1, end, found), 1),
                Ok((Some(e), n)) => later(list_rest(tokens, pos + n + 1, end, found.push(e)), n + 1),
            }
        },
    }
}

/// A function: a bar, a chain of parameters that may be empty, a bar, an
/// arrow, and the body.
pub open spec fn function<'a>(tokens: Seq<Token<'a>>, pos: nat) -> Parsed<'a, Expr<'a>>
    decreases left(tokens, pos), 3nat,
{
    match current(tokens, pos) {
        None => Err(ParseError::OutOfTokens { reason: PARAMETERS }),
        Some(token) => match ident_chain(tokens, pos + 1) {
            Err(error) => Err(error),
            Ok(((idents, _), n)) => match current(tokens, pos + 1 + n) {
                None => Err(ParseError::OutOfTokens { reason: PARAMETERS }),
                Some(bar) => if !(bar.kind is Bar) {
                    Err(
                        ParseError::UnexpectedToken {
                            expected: TokenType::Bar,
                            found: bar,
                            reason: PARAMETERS,
                        },
                    )
                } else {
                    match current(tokens, pos + n + 2) {
                        None => Err(ParseError::OutOfTokens { reason: ARROW }),
                        Some(arrow) => if !(arrow.kind is Arrow) {
                            Err(
                                ParseError::UnexpectedToken {
                                    expected: TokenType::Arrow,
                                    found: arrow,
                                    reason: ARROW,
                                },
                            )
                        } else {
                            match current(tokens, pos + n + 3) {
                                None => Err(
                                    ParseError::MissingExpression {
                                        found: None,
                                        reason: FUNCTION_BODY,
                                    },
                                ),
                                Some(first) => match body(
                                    tokens,
                                    pos + n + 3,
                                    first,
                                    FUNCTION_BODY,
                                ) {
                                    Err(error) => Err(error),
                                    Ok((statements, m)) => Ok(
                                        (
                                            Expr::FunctionLiteral {
                                                token,
                                                parameters: Box::new(
                                                    Expr::DefinitionIdentifier { idents },
                                                ),
                                                statements: Box::new(statements),
                                            },
                                            n + 3 + m,
                                        ),
                                    ),
                                },
                            }
                        },
                    }
                },
            },
        },
    }
}

/// As long as the token after the cursor binds above `level` and can carry
/// an expression on, it does so with `first` on its left.
pub open spec fn infix_loop<'a>(
    tokens: Seq<Token<'a>>,
    pos: nat,
    level: Precedence,
    first: Expr<'a>,
) -> Parsed<'a, Expr<'a>>
    decreases left(tokens, pos), 4nat,
{
    match peek(tokens, pos) {
        None => Ok((first, 0)),
        Some(next) => if level.rank() < precedence_of(next.kind).rank() && has_infix_rule(
            next.kind,
        ) {
            match infix(tokens, pos + 1, next.kind, first) {
                Err(error) => Err(error),
                Ok((None, _)) => Ok((first, 0)),
                Ok((Some(longer), n)) => later(infix_loop(tokens, pos + n + 1, level, longer), n + 1),
            }
        } else {
            Ok((first, 0))
        },
    }
}

/// What the rule for a carrying token of kind `kind` builds with `first` on
/// its left, the cursor standing on the carrying token. `None` where a token
/// of that kind carries no expression on.
pub open spec fn infix<'a>(
    tokens: Seq<Token<'a>>,
    pos: nat,
    kind: TokenType<'a>,
    first: Expr<'a>,
) -> Parsed<'a, Option<Expr<'a>>>
    decreases left(tokens, pos), 3nat,
{
    if is_binary_operator(kind) {
        match infix_expression(tokens, pos, first) {
            Ok((e, n)) => Ok((Some(e), n)),
            Err(error) => Err(error),
        }
    } else if kind is LParen {
        match call(tokens, pos, first) {
            Ok((e, n)) => Ok((Some(e), n)),
            Err(error) => Err(error),
        }
    } else if kind is Match {
        match match_expression(tokens, pos) {
            Ok((e, n)) => Ok((Some(e), n)),
            Err(error) => Err(error),
        }
    } else {
        Ok((None, 0))
    }
}

/// A binary operation: the operator under the cursor, `first` on its left,
/// and on its right the expression that operators above the operator's own
/// level carry.
pub open spec fn infix_expression<'a>(tokens: Seq<Token<'a>>, pos: nat, first: Expr<'a>) -> Parsed<
    'a,
    Expr<'a>,
>
    decreases left(tokens, pos), 2nat,
{
    match current(tokens, pos) {
        None => Err(ParseError::OutOfTokens { reason: OPERATOR }),
        Some(token) => match expression(tokens, pos + 1, precedence_of(token.kind), None) {
            Err(error) => Err(error),
            Ok((None, _)) => Err(
                ParseError::MissingExpression { found: current(tokens, pos + 1), reason: OPERAND },
            ),
            Ok((Some(right), n)) => Ok(
                (
                    Expr::InfixExpression {
                        token,
                        right: Box::new(right),
                        left: Box::new(first),
                    },
                    n + 1,
                ),
            ),
        },
    }
}

/// A call of `callee`: the opening parenthesis under the cursor, and the
/// arguments up to the closing one.
pub open spec fn call<'a>(tokens: Seq<Token<'a>>, pos: nat, callee: Expr<'a>) -> Parsed<
    'a,
    Expr<'a>,
>
    decreases left(tokens, pos), 2nat,
{
    match current(tokens, pos) {
        None => Err(ParseError::OutOfTokens { reason: CALL }),
        Some(token) => if !(token.kind is LParen) {
            Err(
                ParseError::UnexpectedToken {
                    expected: TokenType::LParen,
                    found: token,
                    reason: CALL,
                },
            )
        } else {
            match expression_list(tokens, pos, TokenType::RParen) {
                Err(error) => Err(error),
                Ok((parameters, n)) => Ok(
                    (
                        Expr::CallExpression { token, parameters, function: Box::new(callee) },
                        n,
                    ),
                ),
            }
        },
    }
}

/// A match: the keyword under the cursor, an opening brace, and the clauses
/// up to the closing brace, on which the cursor is left. What stands on the
/// left of the keyword is not kept.
pub open spec fn match_expression<'a>(tokens: Seq<Token<'a>>, pos: nat) -> Parsed<'a, Expr<'a>>
    decreases left(tokens, pos), 2nat,
{
    match current(tokens, pos) {
        None => Err(ParseError::OutOfTokens { reason: MATCH_OPENING }),
        Some(token) => match expected_next(tokens, pos, TokenType::LBrace, MATCH_OPENING) {
            Err(error) => Err(error),
            Ok(_) => match clauses(tokens, pos + 2, None, Seq::empty()) {
                Err(error) => Err(error),
                Ok(((default, pairs), n)) => Ok(
                    (Expr::MatchExpression { token, default, pairs }, n + 2),
                ),
            },
        },
    }
}

/// The clauses of a match from the cursor on, where a clause begins or the
/// closing brace stands, after the default in `default` and the clauses in
/// `pairs`. After a clause comes a comma and what is left of the clauses, or
/// the closing brace.
#[verifier::opaque]
pub open spec fn clauses<'a>(
    tokens: Seq<Token<'a>>,
    pos: nat,
    default: Option<Box<Stmt<'a>>>,
    pairs: Seq<MatchPair<'a>>,
) -> Parsed<'a, (Option<Box<Stmt<'a>>>, Seq<MatchPair<'a>>)>
    decreases left(tokens, pos), 14nat,
{
    match current(tokens, pos) {
        None => Err(ParseError::OutOfTokens { reason: MATCH_CLOSING }),
        Some(token) => if token.kind is RBrace {
            Ok(((default, pairs), 0))
        } else {
            match clause(tokens, pos, default, pairs) {
                Err(error) => Err(error),
                Ok(((with_default, with_pairs), n)) => match peek(tokens, pos + n) {
                    None => Err(ParseError::OutOfTokens { reason: MATCH_CLOSING }),
                    Some(next) => if next.kind is Comma {
                        later(clauses(tokens, pos + n + 2, with_default, with_pairs), n + 2)
                    } else if next.kind is RBrace {
                        Ok(((with_default, with_pairs), n + 1))
                    } else {
                        Err(
                            ParseError::UnexpectedToken {
                                expected: TokenType::RBrace,
                                found: next,
                                reason: MATCH_CLOSING,
                            },
                        )
                    },
                },
            }
        },
    }
}

/// The clause that begins under the cursor, added to the default in
/// `default` or to the clauses in `pairs`. A clause whose first predicate is
/// a lone underscore is the default, and takes the place of an earlier one.
/// Any other clause has one predicate or more, with commas between them.
/// The cursor is left on the last token of the clause's body.
pub open spec fn clause<'a>(
    tokens: Seq<Token<'a>>,
    pos: nat,
    default: Option<Box<Stmt<'a>>>,
    pairs: Seq<MatchPair<'a>>,
) -> Parsed<'a, (Option<Box<Stmt<'a>>>, Seq<MatchPair<'a>>)>
    decreases left(tokens, pos), 13nat,
{
    match expression(tokens, pos, Precedence::LOWEST, None) {
        Err(error) => Err(error),
        Ok((None, _)) => Err(
            ParseError::MissingExpression { found: current(tokens, pos), reason: MATCH_CLAUSE },
        ),
        Ok((Some(first), n)) => if first is UnderscoreLiteral {
            match clause_body(tokens, pos + n) {
                Err(error) => Err(error),
                Ok((statement, m)) => Ok(((Some(Box::new(statement)), pairs), n + m)),
            }
        } else {
            match predicates(tokens, pos + n, seq![first]) {
                Err(error) => Err(error),
                Ok((predicate, k)) => match clause_body(tokens, pos + n + k) {
                    Err(error) => Err(error),
                    Ok((statement, m)) => Ok(
                        ((default, pairs.push(MatchPair { statement, predicate })), n + k + m),
                    ),
                },
            }
        },
    }
}

/// The predicates of a clause after those in `found`, with the cursor on the
/// last token of the last of them: as long as a comma follows, an
/// expression must follow the comma.
pub open spec fn predicates<'a>(tokens: Seq<Token<'a>>, pos: nat, found: Seq<Expr<'a>>) -> Parsed<
    'a,
    Seq<Expr<'a>>,
>
    decreases left(tokens, pos), 0nat,
{
    match peek(tokens, pos) {
        None => Ok((found, 0)),
        Some(next) => if next.kind is Comma {
            match expression(tokens, pos + 2, Precedence::LOWEST, None) {
                Err(error) => Err(error),
                Ok((None, _)) => Err(
                    ParseError::MissingExpression {
                        found: current(tokens, pos + 2),
                        reason: MATCH_CLAUSE,
                    },
                ),
                Ok((Some(e), n)) => later(predicates(tokens, pos + n + 2, found.push(e)), n + 2),
            }
        } else {
            Ok((found, 0))
        },
    }
}

/// The body of a clause, with the cursor on the last token of its
/// predicates: an arrow must follow, and the body after it, tagged with the
/// arrow where it is a lone expression.
pub open spec fn clause_body<'a>(tokens: Seq<Token<'a>>, pos: nat) -> Parsed<'a, Stmt<'a>>
    decreases left(tokens, pos), 0nat,
{
    match (expected_next(tokens, pos, TokenType::Arrow, MATCH_CLAUSE), peek(tokens, pos)) {
        (Err(error), _) => Err(error),
        (Ok(_), None) => Err(ParseError::OutOfTokens { reason: MATCH_CLAUSE }),
        (Ok(_), Some(arrow)) => later(body(tokens, pos + 2, arrow, MATCH_BODY), 2),
    }
}

/// The statements of a program from the cursor on, after those in `found`.
/// After each statement one token is passed. The program ends where the
/// tokens end, or where a token begins no statement.
#[verifier::opaque]
pub open spec fn program_rest<'a>(tokens: Seq<Token<'a>>, pos: nat, found: Seq<Stmt<'a>>) -> Parsed<
    'a,
    Seq<Stmt<'a>>,
>
    decreases left(tokens, pos),
{
    match current(tokens, pos) {
        None => Ok((found, 0)),
        Some(_) => match statement(tokens, pos) {
            Err(error) => Err(error),
            Ok((None, n)) => Ok((found, n)),
            Ok((Some(s), n)) => later(program_rest(tokens, pos + n + 1, found.push(s)), n + 1),
        },
    }
}

/// The program that the tokens from the cursor on hold.
pub open spec fn program<'a>(tokens: Seq<Token<'a>>, pos: nat) -> Parsed<'a, Seq<Stmt<'a>>> {
    program_rest(tokens, pos, Seq::empty())
}

/// What the rule for a first token of kind `kind` gives: whether there is
/// such a rule and, if it is to be carried out, what it builds.
pub open spec fn prefix_rule<'a>(
    tokens: Seq<Token<'a>>,
    pos: nat,
    kind: TokenType<'a>,
    execute: bool,
    already: Option<Seq<Token<'a>>>,
) -> Parsed<'a, (bool, Option<Expr<'a>>)> {
    if !has_prefix_rule(kind) {
        Ok(((false, None), 0))
    } else if !execute {
        Ok(((true, None), 0))
    } else {
        match prefix(tokens, pos, kind, already) {
            Ok((built, n)) => Ok(((true, built), n)),
            Err(error) => Err(error),
        }
    }
}

/// What the rule for a carrying token of kind `kind` gives: whether there
/// is such a rule and, if it is to be carried out, what it builds with
/// `first` on its left, which must then be given.
pub open spec fn infix_rule<'a>(
    tokens: Seq<Token<'a>>,
    pos: nat,
    kind: TokenType<'a>,
    execute: bool,
    first: Option<Expr<'a>>,
) -> Parsed<'a, (bool, Option<Expr<'a>>)> {
    if !has_infix_rule(kind) {
        Ok(((false, None), 0))
    } else if !execute {
        Ok(((true, None), 0))
    } else {
        match first {
            None => Err(
                ParseError::MissingExpression { found: current(tokens, pos), reason: OPERATOR },
            ),
            Some(e) => match infix(tokens, pos, kind, e) {
                Ok((built, n)) => Ok(((true, built), n)),
                Err(error) => Err(error),
            },
        }
    }
}

/// What `block_rest` is, one step on, counted from `k` tokens back.
pub proof fn block_rest_step<'a>(
    tokens: Seq<Token<'a>>,
    pos: nat,
    end: TokenType<'a>,
    found: Seq<Stmt<'a>>,
    k: nat,
)
    ensures
        later(block_rest(tokens, pos, end, found), k) == match current(tokens, pos) {
            None => Err(ParseError::OutOfTokens { reason: BLOCK }),
            Some(token) => if token.kind@ == end@ {
                Ok((found, k))
            } else {
                match statement(tokens, pos) {
                    Err(error) => Err(error),
                    Ok((None, n)) => later(block_rest(tokens, pos + n + 1, end, found), n + 1 + k),
                    Ok((Some(s), n)) => later(
                        block_rest(tokens, pos + n + 1, end, found.push(s)),
                        n + 1 + k,
                    ),
                }
            },
        },
{
    reveal(block_rest);
    reveal(statement);
}

/// What `clauses` is, one step on, counted from `k` tokens back.
pub proof fn clauses_step<'a>(
    tokens: Seq<Token<'a>>,
    pos: nat,
    default: Option<Box<Stmt<'a>>>,
    pairs: Seq<MatchPair<'a>>,
    k: nat,
)
    ensures
        later(clauses(tokens, pos, default, pairs), k) == match current(tokens, pos) {
            None => Err(ParseError::OutOfTokens { reason: MATCH_CLOSING }),
            Some(token) => if token.kind is RBrace {
                Ok(((default, pairs), k))
            } else {
                match clause(tokens, pos, default, pairs) {
                    Err(error) => Err(error),
                    Ok(((with_default, with_pairs), n)) => match peek(tokens, pos + n) {
                        None => Err(ParseError::OutOfTokens { reason: MATCH_CLOSING }),
                        Some(next) => if next.kind is Comma {
                            later(
                                clauses(tokens, pos + n + 2, with_default, with_pairs),
                                n + 2 + k,
                            )
                        } else if next.kind is RBrace {
                            Ok(((with_default, with_pairs), n + 1 + k))
                        } else {
                            Err(
                                ParseError::UnexpectedToken {
                                    expected: TokenType::RBrace,
                                    found: next,
                                    reason: MATCH_CLOSING,
                                },
                            )
                        },
                    },
                }
            },
        },
{
    reveal(clauses);
}

/// What `program_rest` is, one step on, counted from `k` tokens back.
pub proof fn program_rest_step<'a>(
    tokens: Seq<Token<'a>>,
    pos: nat,
    found: Seq<Stmt<'a>>,
    k: nat,
)
    ensures
        later(program_rest(tokens, pos, found), k) == match current(tokens, pos) {
            None => Ok((found, k)),
            Some(_) => match statement(tokens, pos) {
                Err(error) => Err(error),
                Ok((None, n)) => Ok((found, n + k)),
                Ok((Some(s), n)) => later(
                    program_rest(tokens, pos + n + 1, found.push(s)),
                    n + 1 + k,
                ),
            },
        },
{
    reveal(program_rest);
    reveal(statement);
}

} // verus!
