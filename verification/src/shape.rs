use vstd::prelude::*;

use crate::ast::{Expr, MatchPair, Stmt};
use crate::grammar::{
    array, block, block_rest, body, call, chain_tail, clause, clause_body, clauses, current,
    expression, expression_list, expression_statement, function, grouped, grouped_rank,
    has_infix_rule, ident_chain,
    identifier_statement, infix, infix_expression, infix_loop, is_binary_operator, left,
    list_rest, match_expression, path_tail, peek, precedence_of, predicates, prefix, prefix_rank,
    program, program_rest, return_statement, statement, FUNCTION_BODY, MATCH_BODY,
};
use crate::parser::{IdentTypes, Precedence};
use crate::token::{Token, TokenType};

verus! {

// Whatever the grammar builds is well formed. Each proof follows the
// function of the grammar that it speaks of, call by call.
/// Whether every expression of `list` is well formed.
pub open spec fn expressions_well_formed<'a>(list: Seq<Expr<'a>>) -> bool {
    forall|i: int| 0 <= i < list.len() ==> (#[trigger] list[i]).well_formed()
}

/// Whether every statement of `list` is well formed.
pub open spec fn statements_well_formed<'a>(list: Seq<Stmt<'a>>) -> bool {
    forall|i: int| 0 <= i < list.len() ==> (#[trigger] list[i]).well_formed()
}

/// Whether every clause of `list` is well formed.
pub open spec fn clauses_well_formed<'a>(list: Seq<MatchPair<'a>>) -> bool {
    forall|i: int| 0 <= i < list.len() ==> (#[trigger] list[i]).well_formed()
}

/// Whether the identifiers that are handed over, if any are, form a path:
/// there is at least one.
pub open spec fn hands_a_path<'a>(already: Option<Seq<Token<'a>>>) -> bool {
    already matches Some(idents) ==> idents.len() > 0
}

/// A chain of identifiers loses none of the identifiers it began with.
pub proof fn a_chain_only_grows<'a>(
    tokens: Seq<Token<'a>>,
    pos: nat,
    idents: Seq<Token<'a>>,
    shape: IdentTypes,
)
    ensures
        chain_tail(tokens, pos, idents, shape) matches Ok(((all, _), _)) ==> all.len()
            >= idents.len(),
    decreases left(tokens, pos),
{
    match peek(tokens, pos) {
        Some(separator) => {
            if separator.kind is Period || separator.kind is Comma {
                match current(tokens, pos + 2) {
                    Some(ident) => {
                        if ident.kind is Ident {
                            a_chain_only_grows(
                                tokens,
                                pos + 2,
                                idents.push(ident),
                                if separator.kind is Period {
                                    IdentTypes::Normal
                                } else {
                                    IdentTypes::Destructuring
                                },
                            );
                        }
                    },
                    None => {},
                }
            }
        },
        None => {},
    }
}

/// A dotted path loses none of the identifiers it began with.
pub proof fn a_path_only_grows<'a>(tokens: Seq<Token<'a>>, pos: nat, idents: Seq<Token<'a>>)
    ensures
        path_tail(tokens, pos, idents) matches Ok((all, _)) ==> all.len() >= idents.len(),
    decreases left(tokens, pos),
{
    match peek(tokens, pos) {
        Some(separator) => {
            if separator.kind is Period {
                match current(tokens, pos + 2) {
                    Some(ident) => {
                        if ident.kind is Ident {
                            a_path_only_grows(tokens, pos + 2, idents.push(ident));
                        }
                    },
                    None => {},
                }
            }
        },
        None => {},
    }
}

/// A statement that is parsed is well formed.
pub proof fn statement_is_well_formed<'a>(tokens: Seq<Token<'a>>, pos: nat)
    ensures
        statement(tokens, pos) matches Ok((Some(s), _)) ==> s.well_formed(),
    decreases left(tokens, pos), 9nat,
{
    reveal(statement);
    match current(tokens, pos) {
        None => {},
        Some(token) => match token.kind {
            TokenType::Import => {},
            TokenType::Ident(_) => identifier_statement_is_well_formed(tokens, pos),
            TokenType::Return => return_statement_is_well_formed(tokens, pos),
            _ => expression_statement_is_well_formed(tokens, pos, None),
        },
    }
}

/// A return that is parsed is well formed.
pub proof fn return_statement_is_well_formed<'a>(tokens: Seq<Token<'a>>, pos: nat)
    ensures
        return_statement(tokens, pos) matches Ok((Some(s), _)) ==> s.well_formed(),
    decreases left(tokens, pos), 8nat,
{
    if current(tokens, pos) is Some {
        expression_is_well_formed(tokens, pos + 1, Precedence::LOWEST, None);
    }
}

/// An expression that is parsed as a statement is well formed, if what is
/// handed over is a path.
pub proof fn expression_statement_is_well_formed<'a>(
    tokens: Seq<Token<'a>>,
    pos: nat,
    already: Option<Seq<Token<'a>>>,
)
    requires
        hands_a_path(already),
    ensures
        expression_statement(tokens, pos, already) matches Ok((Some(s), _)) ==> s.well_formed(),
    decreases left(tokens, pos), 7nat,
{
    if current(tokens, pos) is Some {
        expression_is_well_formed(tokens, pos, Precedence::LOWEST, already);
    }
}

/// A statement that begins with an identifier is well formed.
pub proof fn identifier_statement_is_well_formed<'a>(tokens: Seq<Token<'a>>, pos: nat)
    ensures
        identifier_statement(tokens, pos) matches Ok((Some(s), _)) ==> s.well_formed(),
    decreases left(tokens, pos), 8nat,
{
    match current(tokens, pos) {
        None => expression_statement_is_well_formed(tokens, pos, None),
        Some(first) => {
            if !(first.kind is Ident) {
                expression_statement_is_well_formed(tokens, pos, None);
            } else {
                a_chain_only_grows(tokens, pos, seq![first], IdentTypes::Destructuring);
                match chain_tail(tokens, pos, seq![first], IdentTypes::Destructuring) {
                    Err(_) => {},
                    Ok(((idents, _), n)) => {
                        match current(tokens, pos + n + 1) {
                            None => expression_statement_is_well_formed(
                                tokens,
                                pos + n,
                                Some(idents),
                            ),
                            Some(token) => {
                                if token.kind is ColonEqual || token.kind is Equal {
                                    expression_is_well_formed(
                                        tokens,
                                        pos + n + 2,
                                        Precedence::LOWEST,
                                        None,
                                    );
                                } else {
                                    expression_statement_is_well_formed(
                                        tokens,
                                        pos + n,
                                        Some(idents),
                                    );
                                }
                            },
                        }
                    },
                }
            }
        },
    }
}

/// A block that is parsed is a block statement, and well formed.
pub proof fn block_is_well_formed<'a>(tokens: Seq<Token<'a>>, pos: nat, end: TokenType<'a>)
    ensures
        block(tokens, pos, end) matches Ok((b, _)) ==> b is BlockStatement && b.well_formed(),
    decreases left(tokens, pos), 0nat,
{
    reveal(block_rest);
    if current(tokens, pos) is Some {
        block_rest_is_well_formed(tokens, pos + 1, end, Seq::empty());
    }
}

/// The statements of a block are well formed, if those found before are.
pub proof fn block_rest_is_well_formed<'a>(
    tokens: Seq<Token<'a>>,
    pos: nat,
    end: TokenType<'a>,
    found: Seq<Stmt<'a>>,
)
    requires
        statements_well_formed(found),
    ensures
        block_rest(tokens, pos, end, found) matches Ok((all, _)) ==> statements_well_formed(all),
    decreases left(tokens, pos), 10nat,
{
    reveal(block_rest);
    reveal(statement);
    match current(tokens, pos) {
        None => {},
        Some(token) => {
            if token.kind@ != end@ {
                statement_is_well_formed(tokens, pos);
                match statement(tokens, pos) {
                    Err(_) => {},
                    Ok((None, n)) => block_rest_is_well_formed(tokens, pos + n + 1, end, found),
                    Ok((Some(s), n)) => block_rest_is_well_formed(
                        tokens,
                        pos + n + 1,
                        end,
                        found.push(s),
                    ),
                }
            }
        },
    }
}

/// A body that is parsed is a block statement, and well formed.
pub proof fn body_is_well_formed<'a>(
    tokens: Seq<Token<'a>>,
    pos: nat,
    tag: Token<'a>,
    reason: &'a str,
)
    ensures
        body(tokens, pos, tag, reason) matches Ok((b, _)) ==> b is BlockStatement
            && b.well_formed(),
    decreases left(tokens, pos), 12nat,
{
    match current(tokens, pos) {
        None => {},
        Some(first) => {
            if first.kind is LBrace {
                block_is_well_formed(tokens, pos, TokenType::RBrace);
            } else {
                expression_is_well_formed(tokens, pos, Precedence::LOWEST, None);
                match expression(tokens, pos, Precedence::LOWEST, None) {
                    Ok((Some(value), _)) => {
                        let returned = Stmt::ReturnStatement { token: tag, value: Box::new(value) };
                        let statements = seq![returned];
                        assert(statements_well_formed(statements)) by {
                            assert(statements.len() == 1);
                            assert(statements[0] == returned);
                        }
                    },
                    _ => {},
                }
            }
        },
    }
}

/// An expression that is parsed is well formed, if what is handed over is a
/// path.
pub proof fn expression_is_well_formed<'a>(
    tokens: Seq<Token<'a>>,
    pos: nat,
    level: Precedence,
    already: Option<Seq<Token<'a>>>,
)
    requires
        hands_a_path(already),
    ensures
        expression(tokens, pos, level, already) matches Ok((Some(e), _)) ==> e.well_formed(),
    decreases left(tokens, pos), 6nat,
{
    match current(tokens, pos) {
        None => {},
        Some(token) => {
            prefix_is_well_formed(tokens, pos, token.kind, already);
            match prefix(tokens, pos, token.kind, already) {
                Ok((Some(first), n)) => infix_loop_is_well_formed(tokens, pos + n, level, first),
                _ => {},
            }
        },
    }
}

/// What the rule for a first token builds is well formed, if what is handed
/// over is a path.
pub proof fn prefix_is_well_formed<'a>(
    tokens: Seq<Token<'a>>,
    pos: nat,
    kind: TokenType<'a>,
    already: Option<Seq<Token<'a>>>,
)
    requires
        hands_a_path(already),
    ensures
        prefix(tokens, pos, kind, already) matches Ok((Some(e), _)) ==> e.well_formed(),
    decreases left(tokens, pos), prefix_rank(tokens, pos, kind),
{
    match kind {
        TokenType::LParen => grouped_is_well_formed(tokens, pos),
        TokenType::LBracket => array_is_well_formed(tokens, pos),
        TokenType::Bar => function_is_well_formed(tokens, pos),
        TokenType::Ident(_) => {
            if already is None {
                match current(tokens, pos) {
                    Some(first) => a_path_only_grows(tokens, pos, seq![first]),
                    None => {},
                }
            }
        },
        _ => {},
    }
}

/// An expression in parentheses is well formed.
pub proof fn grouped_is_well_formed<'a>(tokens: Seq<Token<'a>>, pos: nat)
    ensures
        grouped(tokens, pos) matches Ok((e, _)) ==> e.well_formed(),
    decreases left(tokens, pos), grouped_rank(tokens, pos),
{
    let skip: nat = match current(tokens, pos) {
        Some(token) => if token.kind is LParen {
            1
        } else {
            0
        },
        None => 0,
    };
    expression_is_well_formed(tokens, pos + skip, Precedence::LOWEST, None);
}

/// An array that is parsed is well formed.
pub proof fn array_is_well_formed<'a>(tokens: Seq<Token<'a>>, pos: nat)
    ensures
        array(tokens, pos) matches Ok((e, _)) ==> e.well_formed(),
    decreases left(tokens, pos), 3nat,
{
    if current(tokens, pos) is Some {
        expression_list_is_well_formed(tokens, pos, TokenType::RBracket);
    }
}

/// The expressions of a list are well formed.
pub proof fn expression_list_is_well_formed<'a>(
    tokens: Seq<Token<'a>>,
    pos: nat,
    end: TokenType<'a>,
)
    ensures
        expression_list(tokens, pos, end) matches Ok((all, _)) ==> expressions_well_formed(all),
    decreases left(tokens, pos), 1nat,
{
    match peek(tokens, pos) {
        None => {},
        Some(next) => {
            if next.kind@ != end@ {
                expression_is_well_formed(tokens, pos + 1, Precedence::LOWEST, None);
                match expression(tokens, pos + 1, Precedence::LOWEST, None) {
                    Ok((Some(first), n)) => list_rest_is_well_formed(
                        tokens,
                        pos + n + 2,
                        end,
                        seq![first],
                    ),
                    _ => {},
                }
            }
        },
    }
}

/// The expressions of a list are well formed, if those found before are.
pub proof fn list_rest_is_well_formed<'a>(
    tokens: Seq<Token<'a>>,
    pos: nat,
    end: TokenType<'a>,
    found: Seq<Expr<'a>>,
)
    requires
        expressions_well_formed(found),
    ensures
        list_rest(tokens, pos, end, found) matches Ok((all, _)) ==> expressions_well_formed(all),
    decreases left(tokens, pos), 10nat,
{
    match current(tokens, pos) {
        None => {},
        Some(token) => {
            if token.kind@ != end@ {
                expression_is_well_formed(tokens, pos, Precedence::LOWEST, None);
                match expression(tokens, pos, Precedence::LOWEST, None) {
                    Err(_) => {},
                    Ok((None, _)) => list_rest_is_well_formed(tokens, pos + 1, end, found),
                    Ok((Some(e), n)) => list_rest_is_well_formed(
                        tokens,
                        pos + n + 1,
                        end,
                        found.push(e),
                    ),
                }
            }
        },
    }
}

/// A function that is parsed is well formed: its parameters are a list of
/// definitions and its body is a block.
pub proof fn function_is_well_formed<'a>(tokens: Seq<Token<'a>>, pos: nat)
    ensures
        function(tokens, pos) matches Ok((e, _)) ==> e.well_formed(),
    decreases left(tokens, pos), 3nat,
{
    if current(tokens, pos) is Some {
        match ident_chain(tokens, pos + 1) {
            Err(_) => {},
            Ok(((_, _), n)) => {
                match current(tokens, pos + n + 3) {
                    Some(first) => body_is_well_formed(tokens, pos + n + 3, first, FUNCTION_BODY),
                    None => {},
                }
            },
        }
    }
}

/// An expression that operators carry on is well formed, if it began well
/// formed.
pub proof fn infix_loop_is_well_formed<'a>(
    tokens: Seq<Token<'a>>,
    pos: nat,
    level: Precedence,
    first: Expr<'a>,
)
    requires
        first.well_formed(),
    ensures
        infix_loop(tokens, pos, level, first) matches Ok((e, _)) ==> e.well_formed(),
    decreases left(tokens, pos), 4nat,
{
    match peek(tokens, pos) {
        None => {},
        Some(next) => {
            if level.rank() < precedence_of(next.kind).rank() && has_infix_rule(
                next.kind,
            ) {
                infix_is_well_formed(tokens, pos + 1, next.kind, first);
                match infix(tokens, pos + 1, next.kind, first) {
                    Ok((Some(longer), n)) => infix_loop_is_well_formed(
                        tokens,
                        pos + n + 1,
                        level,
                        longer,
                    ),
                    _ => {},
                }
            }
        },
    }
}

/// What the rule for a carrying token builds is well formed, if what stands
/// on its left is.
pub proof fn infix_is_well_formed<'a>(
    tokens: Seq<Token<'a>>,
    pos: nat,
    kind: TokenType<'a>,
    first: Expr<'a>,
)
    requires
        first.well_formed(),
    ensures
        infix(tokens, pos, kind, first) matches Ok((Some(e), _)) ==> e.well_formed(),
    decreases left(tokens, pos), 3nat,
{
    if is_binary_operator(kind) {
        infix_expression_is_well_formed(tokens, pos, first);
    } else if kind is LParen {
        call_is_well_formed(tokens, pos, first);
    } else if kind is Match {
        match_expression_is_well_formed(tokens, pos);
    }
}

/// A binary operation is well formed, if its left operand is.
pub proof fn infix_expression_is_well_formed<'a>(
    tokens: Seq<Token<'a>>,
    pos: nat,
    first: Expr<'a>,
)
    requires
        first.well_formed(),
    ensures
        infix_expression(tokens, pos, first) matches Ok((e, _)) ==> e.well_formed(),
    decreases left(tokens, pos), 2nat,
{
    match current(tokens, pos) {
        None => {},
        Some(token) => expression_is_well_formed(tokens, pos + 1, precedence_of(token.kind), None),
    }
}

/// A call is well formed, if what is called is.
pub proof fn call_is_well_formed<'a>(tokens: Seq<Token<'a>>, pos: nat, callee: Expr<'a>)
    requires
        callee.well_formed(),
    ensures
        call(tokens, pos, callee) matches Ok((e, _)) ==> e.well_formed(),
    decreases left(tokens, pos), 2nat,
{
    match current(tokens, pos) {
        None => {},
        Some(token) => {
            if token.kind is LParen {
                expression_list_is_well_formed(tokens, pos, TokenType::RParen);
            }
        },
    }
}

/// A match that is parsed is well formed.
pub proof fn match_expression_is_well_formed<'a>(tokens: Seq<Token<'a>>, pos: nat)
    ensures
        match_expression(tokens, pos) matches Ok((e, _)) ==> e.well_formed(),
    decreases left(tokens, pos), 2nat,
{
    reveal(clauses);
    if current(tokens, pos) is Some {
        clauses_are_well_formed(tokens, pos + 2, None, Seq::empty());
    }
}

/// The clauses of a match are well formed, if those found before are.
pub proof fn clauses_are_well_formed<'a>(
    tokens: Seq<Token<'a>>,
    pos: nat,
    default: Option<Box<Stmt<'a>>>,
    pairs: Seq<MatchPair<'a>>,
)
    requires
        default matches Some(s) ==> s.well_formed(),
        clauses_well_formed(pairs),
    ensures
        clauses(tokens, pos, default, pairs) matches Ok(((with_default, with_pairs), _)) ==> (
        with_default matches Some(s) ==> s.well_formed()) && clauses_well_formed(with_pairs),
    decreases left(tokens, pos), 14nat,
{
    reveal(clauses);
    match current(tokens, pos) {
        None => {},
        Some(token) => {
            if !(token.kind is RBrace) {
                clause_is_well_formed(tokens, pos, default, pairs);
                match clause(tokens, pos, default, pairs) {
                    Err(_) => {},
                    Ok(((with_default, with_pairs), n)) => {
                        match peek(tokens, pos + n) {
                            None => {},
                            Some(next) => {
                                if next.kind is Comma {
                                    clauses_are_well_formed(
                                        tokens,
                                        pos + n + 2,
                                        with_default,
                                        with_pairs,
                                    );
                                }
                            },
                        }
                    },
                }
            }
        },
    }
}

/// A clause added to well-formed clauses leaves them well formed.
pub proof fn clause_is_well_formed<'a>(
    tokens: Seq<Token<'a>>,
    pos: nat,
    default: Option<Box<Stmt<'a>>>,
    pairs: Seq<MatchPair<'a>>,
)
    requires
        default matches Some(s) ==> s.well_formed(),
        clauses_well_formed(pairs),
    ensures
        clause(tokens, pos, default, pairs) matches Ok(((with_default, with_pairs), _)) ==> (
        with_default matches Some(s) ==> s.well_formed()) && clauses_well_formed(with_pairs),
    decreases left(tokens, pos), 13nat,
{
    expression_is_well_formed(tokens, pos, Precedence::LOWEST, None);
    match expression(tokens, pos, Precedence::LOWEST, None) {
        Ok((Some(first), n)) => {
            if first is UnderscoreLiteral {
                clause_body_is_well_formed(tokens, pos + n);
            } else {
                predicates_are_well_formed(tokens, pos + n, seq![first]);
                match predicates(tokens, pos + n, seq![first]) {
                    Err(_) => {},
                    Ok((_, k)) => clause_body_is_well_formed(tokens, pos + n + k),
                }
            }
        },
        _ => {},
    }
}

/// The predicates of a clause are well formed and no fewer than those found
/// before, if those are well formed.
pub proof fn predicates_are_well_formed<'a>(
    tokens: Seq<Token<'a>>,
    pos: nat,
    found: Seq<Expr<'a>>,
)
    requires
        expressions_well_formed(found),
    ensures
        predicates(tokens, pos, found) matches Ok((all, _)) ==> expressions_well_formed(all)
            && all.len() >= found.len(),
    decreases left(tokens, pos), 0nat,
{
    match peek(tokens, pos) {
        None => {},
        Some(next) => {
            if next.kind is Comma {
                expression_is_well_formed(tokens, pos + 2, Precedence::LOWEST, None);
                match expression(tokens, pos + 2, Precedence::LOWEST, None) {
                    Ok((Some(e), n)) => predicates_are_well_formed(
                        tokens,
                        pos + n + 2,
                        found.push(e),
                    ),
                    _ => {},
                }
            }
        },
    }
}

/// The body of a clause is well formed.
pub proof fn clause_body_is_well_formed<'a>(tokens: Seq<Token<'a>>, pos: nat)
    ensures
        clause_body(tokens, pos) matches Ok((b, _)) ==> b.well_formed(),
    decreases left(tokens, pos), 0nat,
{
    match peek(tokens, pos) {
        Some(arrow) => body_is_well_formed(tokens, pos + 2, arrow, MATCH_BODY),
        None => {},
    }
}

/// The statements of a program are well formed, if those found before are.
pub proof fn program_rest_is_well_formed<'a>(
    tokens: Seq<Token<'a>>,
    pos: nat,
    found: Seq<Stmt<'a>>,
)
    requires
        statements_well_formed(found),
    ensures
        program_rest(tokens, pos, found) matches Ok((all, _)) ==> statements_well_formed(all),
    decreases left(tokens, pos),
{
    reveal(program_rest);
    reveal(statement);
    if current(tokens, pos) is Some {
        statement_is_well_formed(tokens, pos);
        match statement(tokens, pos) {
            Ok((Some(s), n)) => program_rest_is_well_formed(tokens, pos + n + 1, found.push(s)),
            _ => {},
        }
    }
}

/// Every statement of a program that is parsed is well formed, and so is
/// all that it holds.
pub proof fn a_program_is_well_formed<'a>(tokens: Seq<Token<'a>>, pos: nat)
    ensures
        program(tokens, pos) matches Ok((statements, _)) ==> statements_well_formed(statements),
{
    program_rest_is_well_formed(tokens, pos, Seq::empty());
}

} // verus!
