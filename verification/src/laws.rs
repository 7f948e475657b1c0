use vstd::prelude::*;

use crate::ast::{Expr, Program, Stmt};
use crate::errors::ParseError;
use crate::grammar;
use crate::parser::{agrees, program_of, IdentTypes, Precedence};
use crate::shape::{a_chain_only_grows, a_path_only_grows};
use crate::token::Token;

verus! {

/// Whether `tokens` is an integer, an operator, an integer, an operator and
/// an integer, and nothing more.
pub open spec fn two_operators<'a>(tokens: Seq<Token<'a>>) -> bool {
    &&& tokens.len() == 5
    &&& tokens[0].kind is Integer
    &&& grammar::is_binary_operator(tokens[1].kind)
    &&& tokens[2].kind is Integer
    &&& grammar::is_binary_operator(tokens[3].kind)
    &&& tokens[4].kind is Integer
}

/// The operation whose operator is `operator`.
pub open spec fn operation<'a>(left: Expr<'a>, operator: Token<'a>, right: Expr<'a>) -> Expr<'a> {
    Expr::InfixExpression { token: operator, right: Box::new(right), left: Box::new(left) }
}

/// The integer literal whose token is `token`.
pub open spec fn integer<'a>(token: Token<'a>) -> Expr<'a> {
    Expr::IntegerLiteral { token }
}

/// Of two operators in a row, the one that binds at the higher level takes
/// the operand between them: where the second binds above the first, the
/// second operation is the right operand of the first. So multiplication
/// binds tighter than addition.
pub proof fn the_tighter_operator_takes_the_operand<'a>(tokens: Seq<Token<'a>>)
    requires
        two_operators(tokens),
        0 < grammar::precedence_of(tokens[1].kind).rank() < grammar::precedence_of(
            tokens[3].kind,
        ).rank(),
    ensures
        grammar::expression(tokens, 0, Precedence::LOWEST, None) == Ok::<
            (Option<Expr<'a>>, nat),
            ParseError<'a>,
        >(
            (
                Some(
                    operation(
                        integer(tokens[0]),
                        tokens[1],
                        operation(integer(tokens[2]), tokens[3], integer(tokens[4])),
                    ),
                ),
                4,
            ),
        ),
{
    let first = grammar::precedence_of(tokens[1].kind);
    let inner = operation(integer(tokens[2]), tokens[3], integer(tokens[4]));
    let whole = operation(integer(tokens[0]), tokens[1], inner);
    operand_at_the_end(tokens, grammar::precedence_of(tokens[3].kind));
    assert(grammar::infix_expression(tokens, 3, integer(tokens[2])) == Ok::<
        (Expr<'a>, nat),
        ParseError<'a>,
    >((inner, 1)));
    assert(grammar::infix(tokens, 3, tokens[3].kind, integer(tokens[2])) == Ok::<
        (Option<Expr<'a>>, nat),
        ParseError<'a>,
    >((Some(inner), 1)));
    nothing_after_the_end(tokens, first, inner);
    assert(grammar::infix_loop(tokens, 2, first, integer(tokens[2])) == Ok::<
        (Expr<'a>, nat),
        ParseError<'a>,
    >((inner, 2)));
    assert(grammar::prefix(tokens, 2, tokens[2].kind, None) == Ok::<
        (Option<Expr<'a>>, nat),
        ParseError<'a>,
    >((Some(integer(tokens[2])), 0)));
    assert(grammar::expression(tokens, 2, first, None) == Ok::<
        (Option<Expr<'a>>, nat),
        ParseError<'a>,
    >((Some(inner), 2)));
    assert(grammar::infix_expression(tokens, 1, integer(tokens[0])) == Ok::<
        (Expr<'a>, nat),
        ParseError<'a>,
    >((whole, 3)));
    assert(grammar::infix(tokens, 1, tokens[1].kind, integer(tokens[0])) == Ok::<
        (Option<Expr<'a>>, nat),
        ParseError<'a>,
    >((Some(whole), 3)));
    nothing_after_the_end(tokens, Precedence::LOWEST, whole);
    assert(grammar::infix_loop(tokens, 0, Precedence::LOWEST, integer(tokens[0])) == Ok::<
        (Expr<'a>, nat),
        ParseError<'a>,
    >((whole, 4)));
    assert(grammar::prefix(tokens, 0, tokens[0].kind, None) == Ok::<
        (Option<Expr<'a>>, nat),
        ParseError<'a>,
    >((Some(integer(tokens[0])), 0)));
}

/// Of two operators in a row, where the second binds no higher than the
/// first, the first takes the operand between them: the first operation is
/// the left operand of the second. So operators of one level group to the
/// left.
pub proof fn operators_of_one_level_group_to_the_left<'a>(tokens: Seq<Token<'a>>)
    requires
        two_operators(tokens),
        0 < grammar::precedence_of(tokens[3].kind).rank() <= grammar::precedence_of(
            tokens[1].kind,
        ).rank(),
    ensures
        grammar::expression(tokens, 0, Precedence::LOWEST, None) == Ok::<
            (Option<Expr<'a>>, nat),
            ParseError<'a>,
        >(
            (
                Some(
                    operation(
                        operation(integer(tokens[0]), tokens[1], integer(tokens[2])),
                        tokens[3],
                        integer(tokens[4]),
                    ),
                ),
                4,
            ),
        ),
{
    let first = grammar::precedence_of(tokens[1].kind);
    let inner = operation(integer(tokens[0]), tokens[1], integer(tokens[2]));
    let whole = operation(inner, tokens[3], integer(tokens[4]));
    assert(grammar::prefix(tokens, 2, tokens[2].kind, None) == Ok::<
        (Option<Expr<'a>>, nat),
        ParseError<'a>,
    >((Some(integer(tokens[2])), 0)));
    assert(grammar::infix_loop(tokens, 2, first, integer(tokens[2])) == Ok::<
        (Expr<'a>, nat),
        ParseError<'a>,
    >((integer(tokens[2]), 0)));
    assert(grammar::expression(tokens, 2, first, None) == Ok::<
        (Option<Expr<'a>>, nat),
        ParseError<'a>,
    >((Some(integer(tokens[2])), 0)));
    assert(grammar::infix_expression(tokens, 1, integer(tokens[0])) == Ok::<
        (Expr<'a>, nat),
        ParseError<'a>,
    >((inner, 1)));
    assert(grammar::infix(tokens, 1, tokens[1].kind, integer(tokens[0])) == Ok::<
        (Option<Expr<'a>>, nat),
        ParseError<'a>,
    >((Some(inner), 1)));
    operand_at_the_end(tokens, grammar::precedence_of(tokens[3].kind));
    assert(grammar::infix_expression(tokens, 3, inner) == Ok::<(Expr<'a>, nat), ParseError<'a>>(
        (whole, 1),
    ));
    assert(grammar::infix(tokens, 3, tokens[3].kind, inner) == Ok::<
        (Option<Expr<'a>>, nat),
        ParseError<'a>,
    >((Some(whole), 1)));
    nothing_after_the_end(tokens, Precedence::LOWEST, whole);
    assert(grammar::infix_loop(tokens, 2, Precedence::LOWEST, inner) == Ok::<
        (Expr<'a>, nat),
        ParseError<'a>,
    >((whole, 2)));
    assert(grammar::infix_loop(tokens, 0, Precedence::LOWEST, integer(tokens[0])) == Ok::<
        (Expr<'a>, nat),
        ParseError<'a>,
    >((whole, 4)));
    assert(grammar::prefix(tokens, 0, tokens[0].kind, None) == Ok::<
        (Option<Expr<'a>>, nat),
        ParseError<'a>,
    >((Some(integer(tokens[0])), 0)));
}

/// Two runs of the parser on the same tokens from the same place agree:
/// whatever two results meet the contract of `parse_program`, they are the
/// same program or the same error, and the cursor has moved as far.
pub proof fn two_parses_agree<'a>(
    tokens: Seq<Token<'a>>,
    from: nat,
    first: Result<Program<'a>, ParseError<'a>>,
    first_moved: int,
    second: Result<Program<'a>, ParseError<'a>>,
    second_moved: int,
)
    requires
        agrees(program_of(first), first_moved, grammar::program(tokens, from)),
        agrees(program_of(second), second_moved, grammar::program(tokens, from)),
    ensures
        program_of(first) == program_of(second),
        first is Ok ==> first_moved == second_moved,
{
}

/// Whether a chain of identifiers begins at `pos` and the token at `at`,
/// the first after the chain, is the operator of a definition or of an
/// update.
pub open spec fn assigns_at<'a>(tokens: Seq<Token<'a>>, pos: nat, at: nat) -> bool {
    match grammar::current(tokens, pos) {
        Some(first) => first.kind is Ident && match grammar::chain_tail(
            tokens,
            pos,
            seq![first],
            IdentTypes::Destructuring,
        ) {
            Ok((_, n)) => at == pos + n + 1 && match grammar::current(tokens, at) {
                Some(operator) => operator.kind is ColonEqual || operator.kind is Equal,
                None => false,
            },
            Err(_) => false,
        },
        None => false,
    }
}

/// A definition or an update whose operator is the last token has no value,
/// and is an error that says so: the statement is never built without it.
pub proof fn an_assignment_needs_a_value<'a>(tokens: Seq<Token<'a>>, pos: nat)
    requires
        tokens.len() > 0,
        assigns_at(tokens, pos, (tokens.len() - 1) as nat),
    ensures
        grammar::statement(tokens, pos) == Err::<(Option<Stmt<'a>>, nat), ParseError<'a>>(
            ParseError::MissingExpression { found: None, reason: grammar::ASSIGNMENT },
        ),
        grammar::program(tokens, pos) == Err::<(Seq<Stmt<'a>>, nat), ParseError<'a>>(
            ParseError::MissingExpression { found: None, reason: grammar::ASSIGNMENT },
        ),
{
    assert(grammar::expression(tokens, tokens.len(), Precedence::LOWEST, None) == Ok::<
        (Option<Expr<'a>>, nat),
        ParseError<'a>,
    >((None, 0)));
    an_assignment_without_a_value_is_an_error(tokens, pos, (tokens.len() - 1) as nat);
    reveal(grammar::program_rest);
}

/// Wherever no expression begins after the operator of a definition or of
/// an update, the statement is the error that says so.
pub proof fn an_assignment_without_a_value_is_an_error<'a>(
    tokens: Seq<Token<'a>>,
    pos: nat,
    at: nat,
)
    requires
        assigns_at(tokens, pos, at),
        grammar::expression(tokens, at + 1, Precedence::LOWEST, None) matches Ok((None, _)),
    ensures
        grammar::statement(tokens, pos) == Err::<(Option<Stmt<'a>>, nat), ParseError<'a>>(
            ParseError::MissingExpression {
                found: grammar::current(tokens, at + 1),
                reason: grammar::ASSIGNMENT,
            },
        ),
{
    reveal(grammar::statement);
    assert(grammar::identifier_statement(tokens, pos) == Err::<
        (Option<Stmt<'a>>, nat),
        ParseError<'a>,
    >(
        ParseError::MissingExpression {
            found: grammar::current(tokens, at + 1),
            reason: grammar::ASSIGNMENT,
        },
    ));
}

/// The body of a function is a block, and its parameters are a list of
/// definitions, in whichever of the two forms the body was written.
pub proof fn a_function_body_is_a_block<'a>(tokens: Seq<Token<'a>>, pos: nat)
    ensures
        grammar::function(tokens, pos) matches Ok((function, _)) ==> (function matches
        Expr::FunctionLiteral { parameters, statements, .. } && *parameters is DefinitionIdentifier
            && *statements is BlockStatement),
{
    reveal_with_fuel(grammar::function, 2);
    reveal_with_fuel(grammar::body, 2);
    reveal_with_fuel(grammar::block, 2);
}

/// A body that is written as one expression is the block that returns that
/// expression and nothing else.
pub proof fn a_lone_expression_is_returned<'a>(
    tokens: Seq<Token<'a>>,
    pos: nat,
    tag: Token<'a>,
    reason: &'a str,
)
    requires
        grammar::current(tokens, pos) matches Some(first) && !(first.kind is LBrace),
        grammar::expression(tokens, pos, Precedence::LOWEST, None) matches Ok((Some(_), _)),
    ensures
        grammar::expression(tokens, pos, Precedence::LOWEST, None) matches Ok((Some(value), n))
            && grammar::body(tokens, pos, tag, reason) == Ok::<(Stmt<'a>, nat), ParseError<'a>>(
            (
                Stmt::BlockStatement {
                    token: tag,
                    statements: seq![Stmt::ReturnStatement { token: tag, value: Box::new(value) }],
                },
                n,
            ),
        ),
{
}

/// What a definition defines and what an update updates is never an empty
/// list of identifiers; a definition holds a list of definitions and an
/// update holds a path.
pub proof fn an_assignment_names_something<'a>(tokens: Seq<Token<'a>>, pos: nat)
    ensures
        match grammar::identifier_statement(tokens, pos) {
            Ok((Some(Stmt::AssignStatement { defined, .. }), _)) => {
                *defined matches Expr::DefinitionIdentifier { idents } && idents.len() > 0
            },
            Ok((Some(Stmt::UpdateStatement { ident, .. }), _)) => {
                *ident matches Expr::NormalIdentifier { idents } && idents.len() > 0
            },
            _ => true,
        },
{
    match grammar::current(tokens, pos) {
        Some(first) => {
            a_chain_only_grows(tokens, pos, seq![first], IdentTypes::Destructuring);
            reveal_with_fuel(grammar::identifier_statement, 2);
            reveal_with_fuel(grammar::expression_statement, 2);
        },
        None => {
            reveal_with_fuel(grammar::identifier_statement, 2);
            reveal_with_fuel(grammar::expression_statement, 2);
        },
    }
}

/// A path that is read from the tokens holds at least one identifier.
pub proof fn a_path_names_something<'a>(tokens: Seq<Token<'a>>, pos: nat)
    ensures
        grammar::ident_path(tokens, pos, None) matches Ok((path, _)) ==> (path matches
        Expr::NormalIdentifier { idents } && idents.len() > 0),
{
    match grammar::current(tokens, pos) {
        Some(first) => {
            a_path_only_grows(tokens, pos, seq![first]);
        },
        None => {},
    }
}

/// An integer that is the last token is an expression by itself, at any
/// level.
proof fn operand_at_the_end<'a>(tokens: Seq<Token<'a>>, level: Precedence)
    requires
        tokens.len() > 0,
        tokens.last().kind is Integer,
    ensures
        grammar::expression(tokens, (tokens.len() - 1) as nat, level, None) == Ok::<
            (Option<Expr<'a>>, nat),
            ParseError<'a>,
        >((Some(integer(tokens.last())), 0)),
{
    let at = (tokens.len() - 1) as nat;
    assert(grammar::prefix(tokens, at, tokens.last().kind, None) == Ok::<
        (Option<Expr<'a>>, nat),
        ParseError<'a>,
    >((Some(integer(tokens.last())), 0)));
    nothing_after_the_end(tokens, level, integer(tokens.last()));
}

/// After the last token nothing carries an expression on.
proof fn nothing_after_the_end<'a>(tokens: Seq<Token<'a>>, level: Precedence, first: Expr<'a>)
    requires
        tokens.len() > 0,
    ensures
        grammar::infix_loop(tokens, (tokens.len() - 1) as nat, level, first) == Ok::<
            (Expr<'a>, nat),
            ParseError<'a>,
        >((first, 0)),
{
}

} // verus!
