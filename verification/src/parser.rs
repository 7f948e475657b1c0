use vstd::prelude::*;

use crate::ast::{
    clause_views, clause_views_empty, clause_views_push, expression_views,
    expression_views_empty, expression_views_push, statement_views,
    statement_views_empty, statement_views_push, Expr, Expression, MatchPair,
    MatchPairExpression, Program, Statement, Stmt,
};
use crate::errors::ParseError;
use crate::grammar;
use crate::grammar::Parsed;
use crate::shape::{a_program_is_well_formed, statements_well_formed};
use crate::token::{Token, TokenType};

verus! {

/// The levels at which operators bind, from the loosest to the tightest.
#[derive(Debug, Clone, Copy, PartialEq, Eq, PartialOrd, Structural)]
pub enum Precedence {
    LOWEST,
    AND,
    OR,
    EQUALS,
    LESSGREATER,
    SUM,
    PRODUCT,
    PREFIX,
    CALL,
    INDEX,
    MATCH,
}

/// The shape of a chain of identifiers: a list that a definition
/// destructures into, or a dotted path.
#[derive(Debug, Clone, Copy, PartialEq, Eq, Structural)]
pub enum IdentTypes {
    Destructuring,
    Normal,
}

impl Precedence {
    /// The place of the level in the order of levels, from 0 for the
    /// loosest.
    pub open spec fn rank(self) -> nat {
        match self {
            Precedence::LOWEST => 0,
            Precedence::AND => 1,
            Precedence::OR => 2,
            Precedence::EQUALS => 3,
            Precedence::LESSGREATER => 4,
            Precedence::SUM => 5,
            Precedence::PRODUCT => 6,
            Precedence::PREFIX => 7,
            Precedence::CALL => 8,
            Precedence::INDEX => 9,
            Precedence::MATCH => 10,
        }
    }

    /// The place of the level in the order of levels, as a number.
    pub fn level(&self) -> (n: u8)
        ensures
            n == self.rank(),
    {
        match self {
            Precedence::LOWEST => 0,
            Precedence::AND => 1,
            Precedence::OR => 2,
            Precedence::EQUALS => 3,
            Precedence::LESSGREATER => 4,
            Precedence::SUM => 5,
            Precedence::PRODUCT => 6,
            Precedence::PREFIX => 7,
            Precedence::CALL => 8,
            Precedence::INDEX => 9,
            Precedence::MATCH => 10,
        }
    }

    /// The level at which a token of kind `token` binds.
    pub fn from_tok(token: TokenType<'_>) -> (level: Option<Precedence>)
        ensures
            level == Some(grammar::precedence_of(token)),
    {
        match token {
            TokenType::Equal => Some(Precedence::EQUALS),
            TokenType::BangEqual => Some(Precedence::EQUALS),
            TokenType::LT => Some(Precedence::LESSGREATER),
            TokenType::GT => Some(Precedence::LESSGREATER),
            TokenType::LTEq => Some(Precedence::LESSGREATER),
            TokenType::GTEq => Some(Precedence::LESSGREATER),
            TokenType::Or => Some(Precedence::OR),
            TokenType::And => Some(Precedence::AND),
            TokenType::Plus => Some(Precedence::SUM),
            TokenType::Minus => Some(Precedence::SUM),
            TokenType::Asterisk => Some(Precedence::PRODUCT),
            TokenType::Slash => Some(Precedence::PRODUCT),
            TokenType::LParen => Some(Precedence::CALL),
            TokenType::LBracket => Some(Precedence::INDEX),
            TokenType::Match => Some(Precedence::MATCH),
            _ => Some(Precedence::LOWEST),
        }
    }
}

/// Whether `got`, what a parsing step returned, and `moved`, the number of
/// tokens by which it moved the cursor on, are what `want` says.
pub open spec fn agrees<'a, V>(got: Result<V, ParseError<'a>>, moved: int, want: Parsed<'a, V>) -> bool {
    match want {
        Ok((value, n)) => got == Ok::<V, ParseError<'a>>(value) && moved == n,
        Err(error) => got == Err::<V, ParseError<'a>>(error),
    }
}

/// The identifiers that were handed over, as a sequence.
pub open spec fn handed<'a>(already: Option<Vec<Token<'a>>>) -> Option<Seq<Token<'a>>> {
    match already {
        Some(idents) => Some(idents@),
        None => None,
    }
}

/// What a step returned, with an expression as a mathematical value.
pub open spec fn expression_of<'a>(r: Result<Box<Expression<'a>>, ParseError<'a>>) -> Result<
    Expr<'a>,
    ParseError<'a>,
> {
    match r {
        Ok(e) => Ok(e@),
        Err(error) => Err(error),
    }
}

/// What a step returned, with an expression, if any, as a mathematical
/// value.
pub open spec fn optional_expression_of<'a>(
    r: Result<Option<Box<Expression<'a>>>, ParseError<'a>>,
) -> Result<Option<Expr<'a>>, ParseError<'a>> {
    match r {
        Ok(Some(e)) => Ok(Some(e@)),
        Ok(None) => Ok(None),
        Err(error) => Err(error),
    }
}

/// What a step returned, with a list of expressions as mathematical values.
pub open spec fn expressions_of<'a>(r: Result<Vec<Box<Expression<'a>>>, ParseError<'a>>) -> Result<
    Seq<Expr<'a>>,
    ParseError<'a>,
> {
    match r {
        Ok(list) => Ok(expression_views(list@)),
        Err(error) => Err(error),
    }
}

/// What a step returned, with a statement as a mathematical value.
pub open spec fn statement_of<'a>(r: Result<Statement<'a>, ParseError<'a>>) -> Result<
    Stmt<'a>,
    ParseError<'a>,
> {
    match r {
        Ok(s) => Ok(s@),
        Err(error) => Err(error),
    }
}

/// What a step returned, with a statement, if any, as a mathematical value.
pub open spec fn optional_statement_of<'a>(
    r: Result<Option<Statement<'a>>, ParseError<'a>>,
) -> Result<Option<Stmt<'a>>, ParseError<'a>> {
    match r {
        Ok(Some(s)) => Ok(Some(s@)),
        Ok(None) => Ok(None),
        Err(error) => Err(error),
    }
}

/// What a step returned, with a chain of identifiers as a sequence.
pub open spec fn chain_of<'a>(r: Result<(Vec<Token<'a>>, IdentTypes), ParseError<'a>>) -> Result<
    (Seq<Token<'a>>, IdentTypes),
    ParseError<'a>,
> {
    match r {
        Ok((idents, shape)) => Ok((idents@, shape)),
        Err(error) => Err(error),
    }
}

/// What a rule returned: whether there is a rule, and what it built.
pub open spec fn rule_of<'a>(
    r: Result<(bool, Option<Box<Expression<'a>>>), ParseError<'a>>,
) -> Result<(bool, Option<Expr<'a>>), ParseError<'a>> {
    match r {
        Ok((exists, Some(e))) => Ok((exists, Some(e@))),
        Ok((exists, None)) => Ok((exists, None)),
        Err(error) => Err(error),
    }
}

/// What a step returned, with a default clause and a list of clauses as
/// mathematical values.
pub open spec fn clauses_of<'a>(
    r: Result<(Option<Statement<'a>>, Vec<MatchPairExpression<'a>>), ParseError<'a>>,
) -> Result<(Option<Box<Stmt<'a>>>, Seq<MatchPair<'a>>), ParseError<'a>> {
    match r {
        Ok((default, pairs)) => Ok((default_of(default), clause_views(pairs@))),
        Err(error) => Err(error),
    }
}

/// What `parse_program` returned, with the program as a sequence of
/// statements.
pub open spec fn program_of<'a>(r: Result<Program<'a>, ParseError<'a>>) -> Result<
    Seq<Stmt<'a>>,
    ParseError<'a>,
> {
    match r {
        Ok(program) => Ok(program@),
        Err(error) => Err(error),
    }
}

/// The parser: the tokens and a cursor among them.
pub struct Parser<'a> {
    tokens: Vec<Token<'a>>,
    current_position: usize,
}

impl<'a> Parser<'a> {
    /// The tokens.
    pub closed spec fn tokens(&self) -> Seq<Token<'a>> {
        self.tokens@
    }

    /// The cursor: the index of the token that is parsed next.
    pub closed spec fn position(&self) -> nat {
        self.current_position as nat
    }

    /// The same tokens, and the cursor `n` tokens on from where it stands in
    /// `before`.
    pub open spec fn moved(&self, before: &Parser<'a>) -> int {
        self.position() - before.position()
    }

    /// A parser with the cursor on the first of `tokens`.
    pub fn new(tokens: Vec<Token<'a>>) -> (parser: Parser<'a>)
        ensures
            parser.tokens() == tokens@,
            parser.position() == 0,
    {
        Parser { tokens, current_position: 0 }
    }

    /// Moves the cursor on by one token.
    pub fn consume_token(&mut self)
        requires
            old(self).position() < usize::MAX,
        ensures
            final(self).tokens() == old(self).tokens(),
            final(self).position() >= old(self).position(),
            final(self).position() == old(self).position() + 1,
    {
        self.current_position += 1;
    }

    /// The token at index `i`, if there is one.
    fn token_at(&self, i: usize) -> (t: Option<Token<'a>>)
        ensures
            t == grammar::current(self.tokens(), i as nat),
            self.tokens().len() <= usize::MAX,
    {
        if i < self.tokens.len() {
            Some(self.tokens[i])
        } else {
            None
        }
    }

    /// Puts the cursor on the token at index `i`.
    fn go_to(&mut self, i: usize)
        ensures
            final(self).tokens() == old(self).tokens(),
            final(self).position() == i,
    {
        self.current_position = i;
    }

    /// The index of the token under the cursor.
    fn index(&self) -> (i: usize)
        ensures
            i == self.position(),
    {
        self.current_position
    }

    /// The token under the cursor, if the cursor is not past the last one.
    pub fn get_current_token(&self) -> (t: Option<Token<'a>>)
        ensures
            t == grammar::current(self.tokens(), self.position()),
            self.tokens().len() <= usize::MAX,
    {
        self.token_at(self.current_position)
    }

    /// The token after the one under the cursor, if there is one.
    pub fn get_peek_token(&self) -> (t: Option<Token<'a>>)
        ensures
            t == grammar::peek(self.tokens(), self.position()),
            self.tokens().len() <= usize::MAX,
    {
        if self.current_position < self.tokens.len() {
            self.token_at(self.current_position + 1)
        } else {
            None
        }
    }

    /// Moves the cursor on to the next token if that is of kind `kind`, and
    /// fails, with the cursor where it was, if it is not or if there is
    /// none.
    pub fn expect_peek(&mut self, kind: TokenType<'a>, reason: &'a str) -> (r: Result<
        (),
        ParseError<'a>,
    >)
        ensures
            final(self).tokens() == old(self).tokens(),
            final(self).position() >= old(self).position(),
            r == grammar::expected_next(old(self).tokens(), old(self).position(), kind, reason),
            final(self).position() == old(self).position() + if r is Ok {
                1nat
            } else {
                0nat
            },
    {
        match (self.get_current_token(), self.get_peek_token()) {
            (Some(_), Some(next)) => {
                if next.kind.same(&kind) {
                    self.consume_token();
                    Ok(())
                } else {
                    Err(ParseError::UnexpectedToken { expected: kind, found: next, reason })
                }
            },
            _ => Err(ParseError::OutOfTokens { reason }),
        }
    }

    /// Whether the next token is of kind `kind`; fails if there is none.
    pub fn peek_is(&mut self, kind: TokenType<'a>) -> (r: Result<bool, ParseError<'a>>)
        ensures
            final(self).tokens() == old(self).tokens(),
            final(self).position() >= old(self).position(),
            final(self).position() == old(self).position(),
            r == match grammar::peek(old(self).tokens(), old(self).position()) {
                Some(next) => Ok::<bool, ParseError<'a>>(next.kind@ == kind@),
                None => Err::<bool, ParseError<'a>>(
                    ParseError::OutOfTokens { reason: grammar::PEEK },
                ),
            },
    {
        match self.get_peek_token() {
            Some(next) => Ok(next.kind.same(&kind)),
            None => Err(ParseError::OutOfTokens { reason: grammar::PEEK }),
        }
    }

    /// The level at which the token under the cursor binds, if there is a
    /// token.
    pub fn get_current_precedence(&mut self) -> (level: Option<Precedence>)
        ensures
            final(self).tokens() == old(self).tokens(),
            final(self).position() >= old(self).position(),
            final(self).position() == old(self).position(),
            level == match grammar::current(old(self).tokens(), old(self).position()) {
                Some(token) => Some(grammar::precedence_of(token.kind)),
                None => None,
            },
    {
        match self.get_current_token() {
            Some(token) => Precedence::from_tok(token.kind),
            None => None,
        }
    }

    /// The level at which the next token binds, if there is a next token.
    pub fn get_peek_precedence(&mut self) -> (level: Option<Precedence>)
        ensures
            final(self).tokens() == old(self).tokens(),
            final(self).position() >= old(self).position(),
            final(self).position() == old(self).position(),
            level == match grammar::peek(old(self).tokens(), old(self).position()) {
                Some(token) => Some(grammar::precedence_of(token.kind)),
                None => None,
            },
    {
        match self.get_peek_token() {
            Some(token) => Precedence::from_tok(token.kind),
            None => None,
        }
    }
}

impl<'a> Parser<'a> {
    /// The integer literal that the token under the cursor is.
    pub fn parse_integer_literal(&self) -> (r: Result<Box<Expression<'a>>, ParseError<'a>>)
        ensures
            expression_of(r) == match grammar::needed(
                self.tokens(),
                self.position(),
                grammar::LITERAL,
            ) {
                Ok(token) => Ok::<Expr<'a>, ParseError<'a>>(Expr::IntegerLiteral { token }),
                Err(error) => Err::<Expr<'a>, ParseError<'a>>(error),
            },
    {
        match self.get_current_token() {
            Some(token) => Ok(Box::new(Expression::IntegerLiteral { token })),
            None => Err(ParseError::OutOfTokens { reason: grammar::LITERAL }),
        }
    }

    /// The float literal that the token under the cursor is.
    pub fn parse_float_literal(&self) -> (r: Result<Box<Expression<'a>>, ParseError<'a>>)
        ensures
            expression_of(r) == match grammar::needed(
                self.tokens(),
                self.position(),
                grammar::LITERAL,
            ) {
                Ok(token) => Ok::<Expr<'a>, ParseError<'a>>(Expr::FloatLiteral { token }),
                Err(error) => Err::<Expr<'a>, ParseError<'a>>(error),
            },
    {
        match self.get_current_token() {
            Some(token) => Ok(Box::new(Expression::FloatLiteral { token })),
            None => Err(ParseError::OutOfTokens { reason: grammar::LITERAL }),
        }
    }

    /// The string literal that the token under the cursor is.
    pub fn parse_string_literal(&self) -> (r: Result<Box<Expression<'a>>, ParseError<'a>>)
        ensures
            expression_of(r) == match grammar::needed(
                self.tokens(),
                self.position(),
                grammar::LITERAL,
            ) {
                Ok(token) => Ok::<Expr<'a>, ParseError<'a>>(Expr::StringLiteral { token }),
                Err(error) => Err::<Expr<'a>, ParseError<'a>>(error),
            },
    {
        match self.get_current_token() {
            Some(token) => Ok(Box::new(Expression::StringLiteral { token })),
            None => Err(ParseError::OutOfTokens { reason: grammar::LITERAL }),
        }
    }

    /// The underscore that the token under the cursor is.
    pub fn parse_underscore_literal(&self) -> (r: Result<Box<Expression<'a>>, ParseError<'a>>)
        ensures
            expression_of(r) == match grammar::needed(
                self.tokens(),
                self.position(),
                grammar::LITERAL,
            ) {
                Ok(token) => Ok::<Expr<'a>, ParseError<'a>>(Expr::UnderscoreLiteral { token }),
                Err(error) => Err::<Expr<'a>, ParseError<'a>>(error),
            },
    {
        match self.get_current_token() {
            Some(token) => Ok(Box::new(Expression::UnderscoreLiteral { token })),
            None => Err(ParseError::OutOfTokens { reason: grammar::LITERAL }),
        }
    }

    /// A path of identifiers, with the cursor left on its last token.
    /// `already`, if given, is the path, and the cursor stays.
    #[verifier::loop_isolation(false)]
    pub fn parse_ident_literal(&mut self, already: Option<Vec<Token<'a>>>) -> (r: Result<
        Box<Expression<'a>>,
        ParseError<'a>,
    >)
        ensures
            final(self).tokens() == old(self).tokens(),
            final(self).position() >= old(self).position(),
            agrees(
                expression_of(r),
                final(self).moved(old(self)),
                grammar::ident_path(old(self).tokens(), old(self).position(), handed(already)),
            ),
            r is Ok && old(self).on_token() ==> final(self).on_token(),
    {
        if let Some(idents) = already {
            return Ok(Box::new(Expression::NormalIdentifier { idents }));
        }
        let first = match self.get_current_token() {
            Some(token) => token,
            None => {
                return Err(ParseError::OutOfTokens { reason: grammar::IDENTIFIER });
            },
        };
        let mut idents: Vec<Token<'a>> = Vec::new();
        idents.push(first);
        assert(idents@ =~= seq![first]);
        loop
            invariant
                self.tokens() == old(self).tokens(),
                self.position() >= old(self).position(),
                self.position() < self.tokens().len(),
                grammar::path_tail(old(self).tokens(), old(self).position(), seq![first])
                    == grammar::later(
                    grammar::path_tail(self.tokens(), self.position(), idents@),
                    (self.position() - old(self).position()) as nat,
                ),
            decreases self.tokens().len() - self.position(),
        {
            let after = self.index();
            match self.get_peek_token() {
                Some(separator) => {
                    if let TokenType::Period = separator.kind {
                        match self.token_at(after + 2) {
                            Some(ident) => {
                                if let TokenType::Ident(_) = ident.kind {
                                    self.go_to(after + 2);
                                    idents.push(ident);
                                } else {
                                    return Err(
                                        ParseError::ExpectedIdentifier {
                                            after: separator,
                                            found: Some(ident),
                                        },
                                    );
                                }
                            },
                            None => {
                                return Err(
                                    ParseError::ExpectedIdentifier {
                                        after: separator,
                                        found: None,
                                    },
                                );
                            },
                        }
                    } else {
                        return Ok(Box::new(Expression::NormalIdentifier { idents }));
                    }
                },
                None => {
                    return Ok(Box::new(Expression::NormalIdentifier { idents }));
                },
            }
        }
    }

    /// The chain of identifiers that begins under the cursor, and its shape.
    /// The cursor is left on the first token after the chain, or past the
    /// last token of all if the chain ends the tokens.
    #[verifier::loop_isolation(false)]
    pub fn parse_ident_literals(&mut self) -> (r: Result<
        (Vec<Token<'a>>, IdentTypes),
        ParseError<'a>,
    >)
        ensures
            final(self).tokens() == old(self).tokens(),
            final(self).position() >= old(self).position(),
            agrees(
                chain_of(r),
                final(self).moved(old(self)),
                grammar::ident_chain(old(self).tokens(), old(self).position()),
            ),
            r is Ok && old(self).on_token() ==> final(self).position() <= final(self).tokens().len(),
    {
        let mut idents: Vec<Token<'a>> = Vec::new();
        let first = match self.get_current_token() {
            Some(token) => token,
            None => {
                return Ok((idents, IdentTypes::Destructuring));
            },
        };
        if let TokenType::Ident(_) = first.kind {
        } else {
            return Ok((idents, IdentTypes::Destructuring));
        }
        idents.push(first);
        assert(idents@ =~= seq![first]);
        let mut shape = IdentTypes::Destructuring;
        loop
            invariant
                self.tokens() == old(self).tokens(),
                self.position() >= old(self).position(),
                self.position() < self.tokens().len(),
                grammar::chain_tail(
                    old(self).tokens(),
                    old(self).position(),
                    seq![first],
                    IdentTypes::Destructuring,
                ) == grammar::later(
                    grammar::chain_tail(self.tokens(), self.position(), idents@, shape),
                    (self.position() - old(self).position()) as nat,
                ),
            decreases self.tokens().len() - self.position(),
        {
            let after = self.index();
            let separator = match self.get_peek_token() {
                Some(token) => token,
                None => {
                    self.go_to(after + 1);
                    return Ok((idents, shape));
                },
            };
            let next_shape = match separator.kind {
                TokenType::Period => IdentTypes::Normal,
                TokenType::Comma => IdentTypes::Destructuring,
                _ => {
                    self.go_to(after + 1);
                    return Ok((idents, shape));
                },
            };
            match self.token_at(after + 2) {
                Some(ident) => {
                    if let TokenType::Ident(_) = ident.kind {
                        self.go_to(after + 2);
                        idents.push(ident);
                        shape = next_shape;
                    } else {
                        return Err(
                            ParseError::ExpectedIdentifier { after: separator, found: Some(ident) },
                        );
                    }
                },
                None => {
                    return Err(ParseError::ExpectedIdentifier { after: separator, found: None });
                },
            }
        }
    }

    /// An import, with the cursor on the keyword and left on the name of the
    /// module, which is the next token whatever its kind.
    pub fn parse_import_statement(&mut self) -> (r: Result<Option<Statement<'a>>, ParseError<'a>>)
        ensures
            final(self).tokens() == old(self).tokens(),
            final(self).position() >= old(self).position(),
            agrees(
                optional_statement_of(r),
                final(self).moved(old(self)),
                grammar::import_statement(old(self).tokens(), old(self).position()),
            ),
            r matches Ok(Some(_)) ==> final(self).on_token(),
    {
        let token = match self.get_current_token() {
            Some(token) => token,
            None => {
                return Err(ParseError::OutOfTokens { reason: grammar::IMPORT });
            },
        };
        let value = match self.get_peek_token() {
            Some(token) => token,
            None => {
                return Err(ParseError::OutOfTokens { reason: grammar::IMPORT });
            },
        };
        self.consume_token();
        Ok(Some(Statement::ImportStatement { token, value }))
    }
}

/// The default clause that was found, as the grammar holds it.
pub open spec fn default_of<'a>(default: Option<Statement<'a>>) -> Option<Box<Stmt<'a>>> {
    match default {
        Some(s) => Some(Box::new(s@)),
        None => None,
    }
}

/// What a rule built, if anything, as a mathematical value.
pub open spec fn built_of<'a>(left: Option<Box<Expression<'a>>>) -> Option<Expr<'a>> {
    match left {
        Some(e) => Some(e@),
        None => None,
    }
}

impl<'a> Parser<'a> {
    /// Whether the cursor stands on a token.
    pub open spec fn on_token(&self) -> bool {
        self.position() < self.tokens().len()
    }

    /// The statement that begins under the cursor, with the cursor left on
    /// its last token. `None`, with the cursor where it was, where the
    /// tokens have ended or the token begins no statement.
    pub fn parse_statement(&mut self) -> (r: Result<Option<Statement<'a>>, ParseError<'a>>)
        ensures
            final(self).tokens() == old(self).tokens(),
            final(self).position() >= old(self).position(),
            agrees(
                optional_statement_of(r),
                final(self).moved(old(self)),
                grammar::statement(old(self).tokens(), old(self).position()),
            ),
            r is Ok && old(self).on_token() ==> final(self).on_token(),
            r matches Ok(Some(_)) ==> final(self).on_token(),
        decreases grammar::left(old(self).tokens(), old(self).position()), 9nat,
    {
        reveal(grammar::statement);
        match self.get_current_token() {
            Some(token) => match token.kind {
                TokenType::Import => self.parse_import_statement(),
                TokenType::Ident(_) => self.parse_identifier_statement(),
                TokenType::Return => self.parse_return_statement(),
                _ => self.parse_expression_statement(None),
            },
            None => Ok(None),
        }
    }

    /// An expression as a statement. `idents`, if given, is a path that
    /// ends under the cursor, with which the expression begins.
    pub fn parse_expression_statement(&mut self, idents: Option<Vec<Token<'a>>>) -> (r: Result<
        Option<Statement<'a>>,
        ParseError<'a>,
    >)
        ensures
            final(self).tokens() == old(self).tokens(),
            final(self).position() >= old(self).position(),
            agrees(
                optional_statement_of(r),
                final(self).moved(old(self)),
                grammar::expression_statement(
                    old(self).tokens(),
                    old(self).position(),
                    handed(idents),
                ),
            ),
            r is Ok && old(self).on_token() ==> final(self).on_token(),
            r matches Ok(Some(_)) ==> final(self).on_token(),
        decreases grammar::left(old(self).tokens(), old(self).position()), 7nat,
    {
        let token = match self.get_current_token() {
            Some(token) => token,
            None => {
                return Ok(None);
            },
        };
        match self.parse_expression(Precedence::LOWEST, idents) {
            Err(error) => Err(error),
            Ok(None) => Ok(None),
            Ok(Some(expression)) => Ok(Some(Statement::ExpressionStatement { token, expression })),
        }
    }

    /// The statement that begins with an identifier: a definition, an
    /// update, or an expression.
    #[verifier::rlimit(30)]
    pub fn parse_identifier_statement(&mut self) -> (r: Result<
        Option<Statement<'a>>,
        ParseError<'a>,
    >)
        ensures
            final(self).tokens() == old(self).tokens(),
            final(self).position() >= old(self).position(),
            agrees(
                optional_statement_of(r),
                final(self).moved(old(self)),
                grammar::identifier_statement(old(self).tokens(), old(self).position()),
            ),
            r is Ok && old(self).on_token() ==> final(self).on_token(),
            r matches Ok(Some(_)) ==> final(self).on_token(),
        decreases grammar::left(old(self).tokens(), old(self).position()), 8nat,
    {
        let first = match self.get_current_token() {
            Some(token) => token,
            None => {
                return self.parse_expression_statement(None);
            },
        };
        if let TokenType::Ident(_) = first.kind {
        } else {
            return self.parse_expression_statement(None);
        }
        let (idents, _) = match self.parse_ident_literals() {
            Ok(chain) => chain,
            Err(error) => {
                return Err(error);
            },
        };
        let after = self.index();
        let token = match self.get_current_token() {
            Some(token) => token,
            None => {
                self.go_to(after - 1);
                return self.parse_expression_statement(Some(idents));
            },
        };
        let defines = match token.kind {
            TokenType::ColonEqual => true,
            TokenType::Equal => false,
            _ => {
                self.go_to(after - 1);
                return self.parse_expression_statement(Some(idents));
            },
        };
        self.consume_token();
        let found = self.get_current_token();
        match self.parse_expression(Precedence::LOWEST, None) {
            Err(error) => Err(error),
            Ok(None) => Err(
                ParseError::MissingExpression { found, reason: grammar::ASSIGNMENT },
            ),
            Ok(Some(expression)) => {
                let ghost names = idents@;
                if defines {
                    let defined = Box::new(Expression::DefinitionIdentifier { idents });
                    assert(defined@ == Expr::DefinitionIdentifier { idents: names });
                    Ok(Some(Statement::AssignStatement { token, expression, defined }))
                } else {
                    let ident = Box::new(Expression::NormalIdentifier { idents });
                    assert(ident@ == Expr::NormalIdentifier { idents: names });
                    Ok(Some(Statement::UpdateStatement { token, ident, expression }))
                }
            },
        }
    }

    /// A return, with the cursor on the keyword and left on the last token of
    /// the value.
    pub fn parse_return_statement(&mut self) -> (r: Result<Option<Statement<'a>>, ParseError<'a>>)
        ensures
            final(self).tokens() == old(self).tokens(),
            final(self).position() >= old(self).position(),
            agrees(
                optional_statement_of(r),
                final(self).moved(old(self)),
                grammar::return_statement(old(self).tokens(), old(self).position()),
            ),
            r is Ok && old(self).on_token() ==> final(self).on_token(),
            r matches Ok(Some(_)) ==> final(self).on_token(),
        decreases grammar::left(old(self).tokens(), old(self).position()), 8nat,
    {
        let token = match self.get_current_token() {
            Some(token) => token,
            None => {
                return Err(ParseError::OutOfTokens { reason: grammar::RETURN });
            },
        };
        self.consume_token();
        let found = self.get_current_token();
        match self.parse_expression(Precedence::LOWEST, None) {
            Err(error) => Err(error),
            Ok(None) => Err(ParseError::MissingExpression { found, reason: grammar::RETURN }),
            Ok(Some(value)) => Ok(Some(Statement::ReturnStatement { token, value })),
        }
    }

    /// A block: the token under the cursor opens it, and statements follow
    /// up to a token of kind `end_type`, on which the cursor is left.
    pub fn parse_block_statement(&mut self, end_type: TokenType<'a>) -> (r: Result<
        Statement<'a>,
        ParseError<'a>,
    >)
        ensures
            final(self).tokens() == old(self).tokens(),
            final(self).position() >= old(self).position(),
            agrees(
                statement_of(r),
                final(self).moved(old(self)),
                grammar::block(old(self).tokens(), old(self).position(), end_type),
            ),
            r is Ok ==> final(self).on_token(),
        decreases grammar::left(old(self).tokens(), old(self).position()), 0nat,
    {
        let token = match self.get_current_token() {
            Some(token) => token,
            None => {
                return Err(ParseError::OutOfTokens { reason: grammar::BLOCK });
            },
        };
        self.consume_token();
        let ghost tokens = self.tokens();
        let ghost start = self.position();
        let mut statements: Vec<Statement<'a>> = Vec::new();
        proof {
            statement_views_empty(statements@);
        }
        loop
            invariant
                tokens == old(self).tokens(),
                start == old(self).position() + 1,
                grammar::current(tokens, (start - 1) as nat) == Some(token),
                self.tokens() == tokens,
                self.position() >= start,
                grammar::block_rest(tokens, start, end_type, Seq::empty()) == grammar::later(
                    grammar::block_rest(
                        tokens,
                        self.position(),
                        end_type,
                        statement_views(statements@),
                    ),
                    (self.position() - start) as nat,
                ),
            decreases grammar::left(self.tokens(), self.position()),
        {
            proof {
                grammar::block_rest_step(
                    tokens,
                    self.position(),
                    end_type,
                    statement_views(statements@),
                    (self.position() - start) as nat,
                );
            }
            let here = match self.get_current_token() {
                Some(token) => token,
                None => {
                    return Err(ParseError::OutOfTokens { reason: grammar::BLOCK });
                },
            };
            if here.kind.same(&end_type) {
                return Ok(Statement::BlockStatement { token, statements });
            }
            match self.parse_statement() {
                Err(error) => {
                    return Err(error);
                },
                Ok(Some(statement)) => {
                    proof {
                        statement_views_push(statements@, statement);
                    }
                    statements.push(statement);
                    self.consume_token();
                },
                Ok(None) => {
                    self.consume_token();
                },
            }
        }
    }

    /// The body of a function or of a match clause, which begins under the
    /// cursor: a block in braces, or one expression, which becomes a block
    /// that returns it, tagged with `tag`.
    fn parse_body(&mut self, tag: Token<'a>, reason: &'a str) -> (r: Result<
        Statement<'a>,
        ParseError<'a>,
    >)
        ensures
            final(self).tokens() == old(self).tokens(),
            final(self).position() >= old(self).position(),
            agrees(
                statement_of(r),
                final(self).moved(old(self)),
                grammar::body(old(self).tokens(), old(self).position(), tag, reason),
            ),
            r is Ok ==> final(self).on_token(),
        decreases grammar::left(old(self).tokens(), old(self).position()), 12nat,
    {
        let first = match self.get_current_token() {
            Some(token) => token,
            None => {
                return Err(ParseError::MissingExpression { found: None, reason });
            },
        };
        if let TokenType::LBrace = first.kind {
            return self.parse_block_statement(TokenType::RBrace);
        }
        match self.parse_expression(Precedence::LOWEST, None) {
            Err(error) => Err(error),
            Ok(None) => Err(ParseError::MissingExpression { found: Some(first), reason }),
            Ok(Some(value)) => {
                let ghost returned = Stmt::ReturnStatement { token: tag, value: Box::new(value@) };
                let mut statements: Vec<Statement<'a>> = Vec::new();
                let only = Statement::ReturnStatement { token: tag, value };
                proof {
                    statement_views_empty(statements@);
                    statement_views_push(statements@, only);
                    assert(Seq::<Stmt<'a>>::empty().push(returned) =~= seq![returned]);
                }
                statements.push(only);
                Ok(Statement::BlockStatement { token: tag, statements })
            },
        }
    }

    /// The expression that begins under the cursor, as far as operators that
    /// bind above `precedence` carry it, with the cursor left on its last
    /// token. `None`, with the cursor where it was, where the tokens have
    /// ended or the token begins no expression.
    #[verifier::rlimit(30)]
    #[verifier::loop_isolation(false)]
    pub fn parse_expression(
        &mut self,
        precedence: Precedence,
        idents: Option<Vec<Token<'a>>>,
    ) -> (r: Result<Option<Box<Expression<'a>>>, ParseError<'a>>)
        ensures
            final(self).tokens() == old(self).tokens(),
            final(self).position() >= old(self).position(),
            agrees(
                optional_expression_of(r),
                final(self).moved(old(self)),
                grammar::expression(
                    old(self).tokens(),
                    old(self).position(),
                    precedence,
                    handed(idents),
                ),
            ),
            r matches Ok(Some(_)) ==> final(self).on_token(),
            r matches Ok(None) ==> final(self).position() == old(self).position(),
        decreases grammar::left(old(self).tokens(), old(self).position()), 6nat,
    {
        let prefix_tok = match self.get_current_token() {
            Some(token) => token.kind,
            None => {
                return Ok(None);
            },
        };
        match self.prefix_fn(prefix_tok, false, None) {
            Err(error) => {
                return Err(error);
            },
            Ok((exists, _)) => {
                if !exists {
                    return Ok(None);
                }
            },
        }
        let mut prefix_exp = match self.prefix_fn(prefix_tok, true, idents) {
            Err(error) => {
                return Err(error);
            },
            Ok((_, None)) => {
                return Ok(None);
            },
            Ok((_, Some(first))) => first,
        };
        let ghost start = self.position();
        let ghost first = prefix_exp@;
        loop
            invariant
                self.tokens() == old(self).tokens(),
                self.position() >= start,
                self.on_token(),
                grammar::infix_loop(self.tokens(), start, precedence, first) == grammar::later(
                    grammar::infix_loop(self.tokens(), self.position(), precedence, prefix_exp@),
                    (self.position() - start) as nat,
                ),
            decreases grammar::left(self.tokens(), self.position()),
        {
            let peek = match self.get_peek_token() {
                Some(token) => token.kind,
                None => {
                    return Ok(Some(prefix_exp));
                },
            };
            let binds = match Precedence::from_tok(peek) {
                Some(level) => precedence.level() < level.level(),
                None => false,
            };
            if !binds {
                return Ok(Some(prefix_exp));
            }
            match self.infix_fn(peek, false, None) {
                Err(error) => {
                    return Err(error);
                },
                Ok((exists, _)) => {
                    if !exists {
                        return Ok(Some(prefix_exp));
                    }
                },
            }
            self.consume_token();
            prefix_exp = match self.infix_fn(peek, true, Some(prefix_exp)) {
                Err(error) => {
                    return Err(error);
                },
                Ok((_, Some(longer))) => longer,
                Ok((_, None)) => {
                    return Ok(None);
                },
            };
        }
    }

    /// The rule for a first token of kind `kind`: whether there is one and,
    /// if `execute` is set, what it builds from the cursor on.
    pub fn prefix_fn(
        &mut self,
        kind: TokenType<'a>,
        execute: bool,
        idents: Option<Vec<Token<'a>>>,
    ) -> (r: Result<(bool, Option<Box<Expression<'a>>>), ParseError<'a>>)
        ensures
            final(self).tokens() == old(self).tokens(),
            final(self).position() >= old(self).position(),
            agrees(
                rule_of(r),
                final(self).moved(old(self)),
                grammar::prefix_rule(
                    old(self).tokens(),
                    old(self).position(),
                    kind,
                    execute,
                    handed(idents),
                ),
            ),
            r is Ok && old(self).on_token() ==> final(self).on_token(),
            r matches Ok((exists, built)) ==> (built is Some <==> exists && execute),
        decreases
            grammar::left(old(self).tokens(), old(self).position()),
            grammar::prefix_rank(old(self).tokens(), old(self).position(), kind),
    {
        match (kind, execute) {
            (TokenType::Integer(_), false) => Ok((true, None)),
            (TokenType::Integer(_), true) => match self.parse_integer_literal() {
                Ok(e) => Ok((true, Some(e))),
                Err(error) => Err(error),
            },
            (TokenType::Underscore, false) => Ok((true, None)),
            (TokenType::Underscore, true) => match self.parse_underscore_literal() {
                Ok(e) => Ok((true, Some(e))),
                Err(error) => Err(error),
            },
            (TokenType::Float(_), false) => Ok((true, None)),
            (TokenType::Float(_), true) => match self.parse_float_literal() {
                Ok(e) => Ok((true, Some(e))),
                Err(error) => Err(error),
            },
            (TokenType::String(_), false) => Ok((true, None)),
            (TokenType::String(_), true) => match self.parse_string_literal() {
                Ok(e) => Ok((true, Some(e))),
                Err(error) => Err(error),
            },
            (TokenType::LParen, false) => Ok((true, None)),
            (TokenType::LParen, true) => match self.parse_grouped_expression() {
                Ok(e) => Ok((true, Some(e))),
                Err(error) => Err(error),
            },
            (TokenType::LBracket, false) => Ok((true, None)),
            (TokenType::LBracket, true) => match self.parse_array_literal() {
                Ok(e) => Ok((true, Some(e))),
                Err(error) => Err(error),
            },
            (TokenType::Bar, false) => Ok((true, None)),
            (TokenType::Bar, true) => match self.parse_function_expression() {
                Ok(e) => Ok((true, Some(e))),
                Err(error) => Err(error),
            },
            (TokenType::Ident(_), false) => Ok((true, None)),
            (TokenType::Ident(_), true) => match self.parse_ident_literal(idents) {
                Ok(e) => Ok((true, Some(e))),
                Err(error) => Err(error),
            },
            _ => Ok((false, None)),
        }
    }

    /// The rule for a carrying token of kind `kind`: whether there is one
    /// and, if `execute` is set, what it builds with `left` on its left, the
    /// cursor standing on the carrying token.
    pub fn infix_fn(
        &mut self,
        kind: TokenType<'a>,
        execute: bool,
        left: Option<Box<Expression<'a>>>,
    ) -> (r: Result<(bool, Option<Box<Expression<'a>>>), ParseError<'a>>)
        ensures
            final(self).tokens() == old(self).tokens(),
            final(self).position() >= old(self).position(),
            agrees(
                rule_of(r),
                final(self).moved(old(self)),
                grammar::infix_rule(
                    old(self).tokens(),
                    old(self).position(),
                    kind,
                    execute,
                    built_of(left),
                ),
            ),
            r is Ok && old(self).on_token() ==> final(self).on_token(),
            r matches Ok((exists, built)) ==> (built is Some <==> exists && execute),
        decreases grammar::left(old(self).tokens(), old(self).position()), 3nat,
    {
        let exists = match kind {
            TokenType::Plus => true,
            TokenType::Minus => true,
            TokenType::Slash => true,
            TokenType::Asterisk => true,
            TokenType::PlusEqual => true,
            TokenType::AsteriskEqual => true,
            TokenType::SlashEqual => true,
            TokenType::DoubleEqual => true,
            TokenType::BangEqual => true,
            TokenType::LT => true,
            TokenType::GT => true,
            TokenType::Or => true,
            TokenType::And => true,
            TokenType::LTEq => true,
            TokenType::GTEq => true,
            TokenType::LParen => true,
            TokenType::Match => true,
            _ => false,
        };
        if !exists {
            return Ok((false, None));
        }
        if !execute {
            return Ok((true, None));
        }
        let first = match left {
            Some(e) => e,
            None => {
                return Err(
                    ParseError::MissingExpression {
                        found: self.get_current_token(),
                        reason: grammar::OPERATOR,
                    },
                );
            },
        };
        let built = match kind {
            TokenType::LParen => self.parse_call_expression(first),
            TokenType::Match => self.parse_match_expression(first),
            _ => self.parse_infix_expression(first),
        };
        match built {
            Ok(e) => Ok((true, Some(e))),
            Err(error) => Err(error),
        }
    }
}

impl<'a> Parser<'a> {
    /// A binary operation with `left` on the left of the operator under the
    /// cursor.
    pub fn parse_infix_expression(&mut self, left: Box<Expression<'a>>) -> (r: Result<
        Box<Expression<'a>>,
        ParseError<'a>,
    >)
        ensures
            final(self).tokens() == old(self).tokens(),
            final(self).position() >= old(self).position(),
            agrees(
                expression_of(r),
                final(self).moved(old(self)),
                grammar::infix_expression(old(self).tokens(), old(self).position(), left@),
            ),
            r is Ok ==> final(self).on_token(),
        decreases grammar::left(old(self).tokens(), old(self).position()), 2nat,
    {
        let current = match self.get_current_token() {
            Some(token) => token,
            None => {
                return Err(ParseError::OutOfTokens { reason: grammar::OPERATOR });
            },
        };
        let precedence = match Precedence::from_tok(current.kind) {
            Some(level) => level,
            None => Precedence::LOWEST,
        };
        self.consume_token();
        let found = self.get_current_token();
        match self.parse_expression(precedence, None) {
            Err(error) => Err(error),
            Ok(None) => Err(ParseError::MissingExpression { found, reason: grammar::OPERAND }),
            Ok(Some(right)) => Ok(
                Box::new(Expression::InfixExpression { token: current, right, left }),
            ),
        }
    }

    /// An expression in parentheses, with the cursor left on the closing
    /// one.
    pub fn parse_grouped_expression(&mut self) -> (r: Result<Box<Expression<'a>>, ParseError<'a>>)
        ensures
            final(self).tokens() == old(self).tokens(),
            final(self).position() >= old(self).position(),
            agrees(
                expression_of(r),
                final(self).moved(old(self)),
                grammar::grouped(old(self).tokens(), old(self).position()),
            ),
            r is Ok ==> final(self).on_token(),
        decreases
            grammar::left(old(self).tokens(), old(self).position()),
            grammar::grouped_rank(old(self).tokens(), old(self).position()),
    {
        if let Some(token) = self.get_current_token() {
            if let TokenType::LParen = token.kind {
                self.consume_token();
            }
        }
        let found = self.get_current_token();
        match self.parse_expression(Precedence::LOWEST, None) {
            Err(error) => Err(error),
            Ok(None) => Err(ParseError::MissingExpression { found, reason: grammar::GROUPED }),
            Ok(Some(inner)) => match self.expect_peek(TokenType::RParen, grammar::GROUPED) {
                Err(error) => Err(error),
                Ok(_) => Ok(inner),
            },
        }
    }

    /// A call of `fn_literal`, with the cursor on the opening parenthesis
    /// and left on the closing one.
    pub fn parse_call_expression(&mut self, fn_literal: Box<Expression<'a>>) -> (r: Result<
        Box<Expression<'a>>,
        ParseError<'a>,
    >)
        ensures
            final(self).tokens() == old(self).tokens(),
            final(self).position() >= old(self).position(),
            agrees(
                expression_of(r),
                final(self).moved(old(self)),
                grammar::call(old(self).tokens(), old(self).position(), fn_literal@),
            ),
            r is Ok ==> final(self).on_token(),
        decreases grammar::left(old(self).tokens(), old(self).position()), 2nat,
    {
        let token = match self.get_current_token() {
            Some(token) => token,
            None => {
                return Err(ParseError::OutOfTokens { reason: grammar::CALL });
            },
        };
        if let TokenType::LParen = token.kind {
        } else {
            return Err(
                ParseError::UnexpectedToken {
                    expected: TokenType::LParen,
                    found: token,
                    reason: grammar::CALL,
                },
            );
        }
        match self.parse_expression_list(TokenType::RParen) {
            Err(error) => Err(error),
            Ok(parameters) => Ok(
                Box::new(Expression::CallExpression { token, parameters, function: fn_literal }),
            ),
        }
    }

    /// An array, with the cursor on the opening bracket and left on the
    /// closing one.
    pub fn parse_array_literal(&mut self) -> (r: Result<Box<Expression<'a>>, ParseError<'a>>)
        ensures
            final(self).tokens() == old(self).tokens(),
            final(self).position() >= old(self).position(),
            agrees(
                expression_of(r),
                final(self).moved(old(self)),
                grammar::array(old(self).tokens(), old(self).position()),
            ),
            r is Ok ==> final(self).on_token(),
        decreases grammar::left(old(self).tokens(), old(self).position()), 3nat,
    {
        let token = match self.get_current_token() {
            Some(token) => token,
            None => {
                return Err(ParseError::OutOfTokens { reason: grammar::LIST });
            },
        };
        match self.parse_expression_list(TokenType::RBracket) {
            Err(error) => Err(error),
            Ok(elements) => Ok(Box::new(Expression::ArrayLiteral { token, elements })),
        }
    }

    /// A list of expressions, with the cursor on the token that opens it and
    /// left on the token of kind `end` that closes it.
    #[verifier::loop_isolation(false)]
    pub fn parse_expression_list(&mut self, end: TokenType<'a>) -> (r: Result<
        Vec<Box<Expression<'a>>>,
        ParseError<'a>,
    >)
        ensures
            final(self).tokens() == old(self).tokens(),
            final(self).position() >= old(self).position(),
            agrees(
                expressions_of(r),
                final(self).moved(old(self)),
                grammar::expression_list(old(self).tokens(), old(self).position(), end),
            ),
            r is Ok ==> final(self).on_token(),
        decreases grammar::left(old(self).tokens(), old(self).position()), 1nat,
    {
        let mut exprs: Vec<Box<Expression<'a>>> = Vec::new();
        let next = self.get_peek_token();
        match self.peek_is(end) {
            Err(error) => {
                return Err(error);
            },
            Ok(closes) => {
                if closes {
                    self.consume_token();
                    proof {
                        expression_views_empty(exprs@);
                    }
                    return Ok(exprs);
                }
            },
        }
        self.consume_token();
        match self.parse_expression(Precedence::LOWEST, None) {
            Err(error) => {
                return Err(error);
            },
            Ok(None) => {
                return Err(ParseError::MissingExpression { found: next, reason: grammar::LIST });
            },
            Ok(Some(first)) => {
                proof {
                    expression_views_empty(exprs@);
                    expression_views_push(exprs@, first);
                    assert(Seq::<Expr<'a>>::empty().push(first@) =~= seq![first@]);
                }
                exprs.push(first);
            },
        }
        self.consume_token();
        let ghost start = self.position();
        let ghost begun = expression_views(exprs@);
        loop
            invariant
                self.tokens() == old(self).tokens(),
                self.position() >= start,
                grammar::list_rest(self.tokens(), start, end, begun) == grammar::later(
                    grammar::list_rest(
                        self.tokens(),
                        self.position(),
                        end,
                        expression_views(exprs@),
                    ),
                    (self.position() - start) as nat,
                ),
            decreases grammar::left(self.tokens(), self.position()),
        {
            let here = match self.get_current_token() {
                Some(token) => token,
                None => {
                    return Err(ParseError::OutOfTokens { reason: grammar::LIST });
                },
            };
            if here.kind.same(&end) {
                return Ok(exprs);
            }
            match self.parse_expression(Precedence::LOWEST, None) {
                Err(error) => {
                    return Err(error);
                },
                Ok(Some(e)) => {
                    proof {
                        expression_views_push(exprs@, e);
                    }
                    exprs.push(e);
                    self.consume_token();
                },
                Ok(None) => {
                    self.consume_token();
                },
            }
        }
    }

    /// A function, with the cursor on its first bar and left on the last
    /// token of its body.
    pub fn parse_function_expression(&mut self) -> (r: Result<Box<Expression<'a>>, ParseError<'a>>)
        ensures
            final(self).tokens() == old(self).tokens(),
            final(self).position() >= old(self).position(),
            agrees(
                expression_of(r),
                final(self).moved(old(self)),
                grammar::function(old(self).tokens(), old(self).position()),
            ),
            r is Ok ==> final(self).on_token(),
        decreases grammar::left(old(self).tokens(), old(self).position()), 3nat,
    {
        let token = match self.get_current_token() {
            Some(token) => token,
            None => {
                return Err(ParseError::OutOfTokens { reason: grammar::PARAMETERS });
            },
        };
        self.consume_token();
        let (idents, _) = match self.parse_ident_literals() {
            Ok(chain) => chain,
            Err(error) => {
                return Err(error);
            },
        };
        match self.get_current_token() {
            None => {
                return Err(ParseError::OutOfTokens { reason: grammar::PARAMETERS });
            },
            Some(bar) => {
                if let TokenType::Bar = bar.kind {
                } else {
                    return Err(
                        ParseError::UnexpectedToken {
                            expected: TokenType::Bar,
                            found: bar,
                            reason: grammar::PARAMETERS,
                        },
                    );
                }
            },
        }
        self.consume_token();
        match self.get_current_token() {
            None => {
                return Err(ParseError::OutOfTokens { reason: grammar::ARROW });
            },
            Some(arrow) => {
                if let TokenType::Arrow = arrow.kind {
                } else {
                    return Err(
                        ParseError::UnexpectedToken {
                            expected: TokenType::Arrow,
                            found: arrow,
                            reason: grammar::ARROW,
                        },
                    );
                }
            },
        }
        self.consume_token();
        let first = match self.get_current_token() {
            Some(token) => token,
            None => {
                return Err(
                    ParseError::MissingExpression { found: None, reason: grammar::FUNCTION_BODY },
                );
            },
        };
        match self.parse_body(first, grammar::FUNCTION_BODY) {
            Err(error) => Err(error),
            Ok(statements) => {
                let ghost names = idents@;
                let parameters = Box::new(Expression::DefinitionIdentifier { idents });
                assert(parameters@ == Expr::DefinitionIdentifier { idents: names });
                Ok(Box::new(Expression::FunctionLiteral { token, parameters, statements }))
            },
        }
    }

    /// The predicates of a match clause after `first`, with the cursor on
    /// the last token of `first` and left on the last token of the last
    /// predicate.
    #[verifier::loop_isolation(false)]
    fn parse_predicates(&mut self, first: Box<Expression<'a>>) -> (r: Result<
        Vec<Box<Expression<'a>>>,
        ParseError<'a>,
    >)
        ensures
            final(self).tokens() == old(self).tokens(),
            final(self).position() >= old(self).position(),
            agrees(
                expressions_of(r),
                final(self).moved(old(self)),
                grammar::predicates(old(self).tokens(), old(self).position(), seq![first@]),
            ),
            r is Ok && old(self).on_token() ==> final(self).on_token(),
        decreases grammar::left(old(self).tokens(), old(self).position()), 0nat,
    {
        let mut predicate: Vec<Box<Expression<'a>>> = Vec::new();
        proof {
            expression_views_empty(predicate@);
            expression_views_push(predicate@, first);
            assert(Seq::<Expr<'a>>::empty().push(first@) =~= seq![first@]);
        }
        predicate.push(first);
        loop
            invariant
                self.tokens() == old(self).tokens(),
                self.position() >= old(self).position(),
                old(self).on_token() ==> self.on_token(),
                grammar::predicates(old(self).tokens(), old(self).position(), seq![first@])
                    == grammar::later(
                    grammar::predicates(
                        self.tokens(),
                        self.position(),
                        expression_views(predicate@),
                    ),
                    (self.position() - old(self).position()) as nat,
                ),
            decreases grammar::left(self.tokens(), self.position()),
        {
            match self.get_peek_token() {
                None => {
                    return Ok(predicate);
                },
                Some(next) => {
                    if let TokenType::Comma = next.kind {
                    } else {
                        return Ok(predicate);
                    }
                },
            }
            self.consume_token();
            self.consume_token();
            let found = self.get_current_token();
            match self.parse_expression(Precedence::LOWEST, None) {
                Err(error) => {
                    return Err(error);
                },
                Ok(None) => {
                    return Err(
                        ParseError::MissingExpression { found, reason: grammar::MATCH_CLAUSE },
                    );
                },
                Ok(Some(e)) => {
                    proof {
                        expression_views_push(predicate@, e);
                    }
                    predicate.push(e);
                },
            }
        }
    }

    /// The body of a match clause, with the cursor on the last token of its
    /// predicates and left on the last token of the body.
    fn parse_clause_body(&mut self) -> (r: Result<Statement<'a>, ParseError<'a>>)
        ensures
            final(self).tokens() == old(self).tokens(),
            final(self).position() >= old(self).position(),
            agrees(
                statement_of(r),
                final(self).moved(old(self)),
                grammar::clause_body(old(self).tokens(), old(self).position()),
            ),
            r is Ok ==> final(self).on_token(),
        decreases grammar::left(old(self).tokens(), old(self).position()), 0nat,
    {
        let arrow = self.get_peek_token();
        match self.expect_peek(TokenType::Arrow, grammar::MATCH_CLAUSE) {
            Err(error) => {
                return Err(error);
            },
            Ok(_) => {},
        }
        let tag = match arrow {
            Some(token) => token,
            None => {
                return Err(ParseError::OutOfTokens { reason: grammar::MATCH_CLAUSE });
            },
        };
        self.consume_token();
        self.parse_body(tag, grammar::MATCH_BODY)
    }

    /// One clause of a match, which begins under the cursor, added to
    /// `default` or to `pairs`; the cursor is left on the last token of its
    /// body.
    fn parse_clause(
        &mut self,
        default: Option<Statement<'a>>,
        pairs: Vec<MatchPairExpression<'a>>,
    ) -> (r: Result<(Option<Statement<'a>>, Vec<MatchPairExpression<'a>>), ParseError<'a>>)
        ensures
            final(self).tokens() == old(self).tokens(),
            final(self).position() >= old(self).position(),
            agrees(
                clauses_of(r),
                final(self).moved(old(self)),
                grammar::clause(
                    old(self).tokens(),
                    old(self).position(),
                    default_of(default),
                    clause_views(pairs@),
                ),
            ),
            r is Ok ==> final(self).on_token(),
        decreases grammar::left(old(self).tokens(), old(self).position()), 13nat,
    {
        let found = self.get_current_token();
        let first = match self.parse_expression(Precedence::LOWEST, None) {
            Err(error) => {
                return Err(error);
            },
            Ok(None) => {
                return Err(ParseError::MissingExpression { found, reason: grammar::MATCH_CLAUSE });
            },
            Ok(Some(e)) => e,
        };
        let is_default = match &*first {
            Expression::UnderscoreLiteral { .. } => true,
            _ => false,
        };
        if is_default {
            match self.parse_clause_body() {
                Err(error) => Err(error),
                Ok(statement) => Ok((Some(statement), pairs)),
            }
        } else {
            let predicate = match self.parse_predicates(first) {
                Err(error) => {
                    return Err(error);
                },
                Ok(list) => list,
            };
            match self.parse_clause_body() {
                Err(error) => Err(error),
                Ok(statement) => {
                    let pair = MatchPairExpression { statement, predicate };
                    let mut pairs = pairs;
                    proof {
                        clause_views_push(pairs@, pair);
                    }
                    pairs.push(pair);
                    Ok((default, pairs))
                },
            }
        }
    }

    /// A match, with the cursor on the keyword and left on the closing
    /// brace. `expression`, which stands on the left of the keyword, is not
    /// kept.
    pub fn parse_match_expression(&mut self, expression: Box<Expression<'a>>) -> (r: Result<
        Box<Expression<'a>>,
        ParseError<'a>,
    >)
        ensures
            final(self).tokens() == old(self).tokens(),
            final(self).position() >= old(self).position(),
            agrees(
                expression_of(r),
                final(self).moved(old(self)),
                grammar::match_expression(old(self).tokens(), old(self).position()),
            ),
            r is Ok ==> final(self).on_token(),
        decreases grammar::left(old(self).tokens(), old(self).position()), 2nat,
    {
        let token = match self.get_current_token() {
            Some(token) => token,
            None => {
                return Err(ParseError::OutOfTokens { reason: grammar::MATCH_OPENING });
            },
        };
        match self.expect_peek(TokenType::LBrace, grammar::MATCH_OPENING) {
            Err(error) => {
                return Err(error);
            },
            Ok(_) => {},
        }
        self.consume_token();
        let ghost tokens = self.tokens();
        let ghost start = self.position();
        let mut pairs: Vec<MatchPairExpression<'a>> = Vec::new();
        let mut default: Option<Statement<'a>> = None;
        proof {
            clause_views_empty(pairs@);
        }
        loop
            invariant
                tokens == old(self).tokens(),
                start == old(self).position() + 2,
                grammar::current(tokens, (start - 2) as nat) == Some(token),
                grammar::expected_next(
                    tokens,
                    (start - 2) as nat,
                    TokenType::LBrace,
                    grammar::MATCH_OPENING,
                ) is Ok,
                self.tokens() == tokens,
                self.position() >= start,
                grammar::clauses(tokens, start, None, Seq::empty()) == grammar::later(
                    grammar::clauses(
                        tokens,
                        self.position(),
                        default_of(default),
                        clause_views(pairs@),
                    ),
                    (self.position() - start) as nat,
                ),
            decreases grammar::left(self.tokens(), self.position()),
        {
            proof {
                grammar::clauses_step(
                    tokens,
                    self.position(),
                    default_of(default),
                    clause_views(pairs@),
                    (self.position() - start) as nat,
                );
            }
            let here = match self.get_current_token() {
                Some(token) => token,
                None => {
                    return Err(ParseError::OutOfTokens { reason: grammar::MATCH_CLOSING });
                },
            };
            if let TokenType::RBrace = here.kind {
                return Ok(Box::new(Expression::MatchExpression { token, default, pairs }));
            }
            match self.parse_clause(default, pairs) {
                Err(error) => {
                    return Err(error);
                },
                Ok((with_default, with_pairs)) => {
                    default = with_default;
                    pairs = with_pairs;
                },
            }
            match self.get_peek_token() {
                None => {
                    return Err(ParseError::OutOfTokens { reason: grammar::MATCH_CLOSING });
                },
                Some(next) => match next.kind {
                    TokenType::Comma => {
                        self.consume_token();
                        self.consume_token();
                    },
                    TokenType::RBrace => {
                        self.consume_token();
                        return Ok(Box::new(Expression::MatchExpression { token, default, pairs }));
                    },
                    _ => {
                        return Err(
                            ParseError::UnexpectedToken {
                                expected: TokenType::RBrace,
                                found: next,
                                reason: grammar::MATCH_CLOSING,
                            },
                        );
                    },
                },
            }
        }
    }

    /// The program that the tokens from the cursor on hold: statement after
    /// statement, up to the end of the tokens or to a token that begins no
    /// statement, on which the cursor is left.
    pub fn parse_program(&mut self) -> (r: Result<Program<'a>, ParseError<'a>>)
        ensures
            final(self).tokens() == old(self).tokens(),
            final(self).position() >= old(self).position(),
            agrees(
                program_of(r),
                final(self).moved(old(self)),
                grammar::program(old(self).tokens(), old(self).position()),
            ),
            r matches Ok(program) ==> statements_well_formed(program@),
    {
        let ghost tokens = self.tokens();
        let ghost start = self.position();
        proof {
            a_program_is_well_formed(tokens, start);
        }
        let mut statements: Vec<Statement<'a>> = Vec::new();
        proof {
            statement_views_empty(statements@);
        }
        loop
            invariant
                tokens == old(self).tokens(),
                start == old(self).position(),
                self.tokens() == tokens,
                self.position() >= start,
                grammar::program(tokens, start) matches Ok((all, _)) ==> statements_well_formed(
                    all,
                ),
                grammar::program(tokens, start) == grammar::later(
                    grammar::program_rest(tokens, self.position(), statement_views(statements@)),
                    (self.position() - start) as nat,
                ),
            decreases grammar::left(self.tokens(), self.position()),
        {
            proof {
                grammar::program_rest_step(
                    tokens,
                    self.position(),
                    statement_views(statements@),
                    (self.position() - start) as nat,
                );
            }
            if self.get_current_token().is_none() {
                return Ok(Program { statements });
            }
            match self.parse_statement() {
                Err(error) => {
                    return Err(error);
                },
                Ok(None) => {
                    return Ok(Program { statements });
                },
                Ok(Some(statement)) => {
                    proof {
                        statement_views_push(statements@, statement);
                    }
                    statements.push(statement);
                    self.consume_token();
                },
            }
        }
    }
}

} // verus!
