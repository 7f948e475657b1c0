use vstd::prelude::*;

use crate::token::Token;

verus! {

/// The result of a parse: the top-level statements in source order.
#[derive(Debug)]
pub struct Program<'a> {
    pub statements: Vec<Statement<'a>>,
}

/// An expression. Each kind but the two lists of identifiers keeps the token
/// that introduced it.
#[allow(inconsistent_fields)]
#[derive(Debug)]
pub enum Expression<'a> {
    DefinitionIdentifier { idents: Vec<Token<'a>> },
    NormalIdentifier { idents: Vec<Token<'a>> },
    StringLiteral { token: Token<'a> },
    ArrayLiteral { token: Token<'a>, elements: Vec<Box<Expression<'a>>> },
    BooleanLiteral { token: Token<'a> },
    UnderscoreLiteral { token: Token<'a> },
    IntegerLiteral { token: Token<'a> },
    FloatLiteral { token: Token<'a> },
    IndexExpression { token: Token<'a>, left: Box<Expression<'a>>, index: Box<Expression<'a>> },
    /// The associations in source order; no two keys are equal
    /// (`keys_differ`).
    MapLiteral { token: Token<'a>, pairs: Vec<(Box<Expression<'a>>, Box<Expression<'a>>)> },
    FunctionLiteral {
        token: Token<'a>,
        parameters: Box<Expression<'a>>,
        statements: Statement<'a>,
    },
    CallExpression {
        token: Token<'a>,
        parameters: Vec<Box<Expression<'a>>>,
        function: Box<Expression<'a>>,
    },
    PrefixExpression { token: Token<'a>, right: Box<Expression<'a>> },
    InfixExpression { token: Token<'a>, right: Box<Expression<'a>>, left: Box<Expression<'a>> },
    IfExpression {
        token: Token<'a>,
        condition: Box<Expression<'a>>,
        consequence: Statement<'a>,
        alternative: Statement<'a>,
    },
    MatchExpression {
        token: Token<'a>,
        default: Option<Statement<'a>>,
        pairs: Vec<MatchPairExpression<'a>>,
    },
}

/// One clause of a match: the alternative predicates and the body they share.
#[derive(Debug)]
pub struct MatchPairExpression<'a> {
    pub statement: Statement<'a>,
    pub predicate: Vec<Box<Expression<'a>>>,
}

/// A statement, with the token that introduced it.
#[allow(inconsistent_fields)]
#[derive(Debug)]
pub enum Statement<'a> {
    BlockStatement { token: Token<'a>, statements: Vec<Statement<'a>> },
    ExpressionStatement { token: Token<'a>, expression: Box<Expression<'a>> },
    AssignStatement {
        token: Token<'a>,
        expression: Box<Expression<'a>>,
        defined: Box<Expression<'a>>,
    },
    UpdateStatement { token: Token<'a>, ident: Box<Expression<'a>>, expression: Box<Expression<'a>> },
    ReturnStatement { token: Token<'a>, value: Box<Expression<'a>> },
    ImportStatement { token: Token<'a>, value: Token<'a> },
}

/// An expression as a mathematical value: each list is a sequence.
#[allow(inconsistent_fields)]
pub ghost enum Expr<'a> {
    DefinitionIdentifier { idents: Seq<Token<'a>> },
    NormalIdentifier { idents: Seq<Token<'a>> },
    StringLiteral { token: Token<'a> },
    ArrayLiteral { token: Token<'a>, elements: Seq<Expr<'a>> },
    BooleanLiteral { token: Token<'a> },
    UnderscoreLiteral { token: Token<'a> },
    IntegerLiteral { token: Token<'a> },
    FloatLiteral { token: Token<'a> },
    IndexExpression { token: Token<'a>, left: Box<Expr<'a>>, index: Box<Expr<'a>> },
    MapLiteral { token: Token<'a>, pairs: Seq<(Expr<'a>, Expr<'a>)> },
    FunctionLiteral { token: Token<'a>, parameters: Box<Expr<'a>>, statements: Box<Stmt<'a>> },
    CallExpression { token: Token<'a>, parameters: Seq<Expr<'a>>, function: Box<Expr<'a>> },
    PrefixExpression { token: Token<'a>, right: Box<Expr<'a>> },
    InfixExpression { token: Token<'a>, right: Box<Expr<'a>>, left: Box<Expr<'a>> },
    IfExpression {
        token: Token<'a>,
        condition: Box<Expr<'a>>,
        consequence: Box<Stmt<'a>>,
        alternative: Box<Stmt<'a>>,
    },
    MatchExpression { token: Token<'a>, default: Option<Box<Stmt<'a>>>, pairs: Seq<MatchPair<'a>> },
}

/// A match clause as a mathematical value.
pub ghost struct MatchPair<'a> {
    pub statement: Stmt<'a>,
    pub predicate: Seq<Expr<'a>>,
}

/// A statement as a mathematical value.
#[allow(inconsistent_fields)]
pub ghost enum Stmt<'a> {
    BlockStatement { token: Token<'a>, statements: Seq<Stmt<'a>> },
    ExpressionStatement { token: Token<'a>, expression: Box<Expr<'a>> },
    AssignStatement { token: Token<'a>, expression: Box<Expr<'a>>, defined: Box<Expr<'a>> },
    UpdateStatement { token: Token<'a>, ident: Box<Expr<'a>>, expression: Box<Expr<'a>> },
    ReturnStatement { token: Token<'a>, value: Box<Expr<'a>> },
    ImportStatement { token: Token<'a>, value: Token<'a> },
}

/// The expressions of `list` as mathematical values.
#[verifier::opaque]
pub open spec fn expression_views<'a>(list: Seq<Box<Expression<'a>>>) -> Seq<Expr<'a>>
    decreases list,
{
    Seq::new(
        list.len(),
        |i: int|
            if 0 <= i < list.len() {
                list[i]@
            } else {
                arbitrary()
            },
    )
}

/// The statements of `list` as mathematical values.
#[verifier::opaque]
pub open spec fn statement_views<'a>(list: Seq<Statement<'a>>) -> Seq<Stmt<'a>>
    decreases list,
{
    Seq::new(
        list.len(),
        |i: int|
            if 0 <= i < list.len() {
                list[i]@
            } else {
                arbitrary()
            },
    )
}

/// The clauses of `list` as mathematical values.
#[verifier::opaque]
pub open spec fn clause_views<'a>(list: Seq<MatchPairExpression<'a>>) -> Seq<MatchPair<'a>>
    decreases list,
{
    Seq::new(
        list.len(),
        |i: int|
            if 0 <= i < list.len() {
                list[i]@
            } else {
                arbitrary()
            },
    )
}

/// The associations of `list` as mathematical values.
#[verifier::opaque]
pub open spec fn association_views<'a>(
    list: Seq<(Box<Expression<'a>>, Box<Expression<'a>>)>,
) -> Seq<(Expr<'a>, Expr<'a>)>
    decreases list,
{
    Seq::new(
        list.len(),
        |i: int|
            if 0 <= i < list.len() {
                (list[i].0@, list[i].1@)
            } else {
                arbitrary()
            },
    )
}

impl<'a> Expression<'a> {
    /// The expression as a mathematical value.
    pub open spec fn view(&self) -> Expr<'a>
        decreases self,
    {
        match self {
            Expression::DefinitionIdentifier { idents } => Expr::DefinitionIdentifier {
                idents: idents@,
            },
            Expression::NormalIdentifier { idents } => Expr::NormalIdentifier { idents: idents@ },
            Expression::StringLiteral { token } => Expr::StringLiteral { token: *token },
            Expression::ArrayLiteral { token, elements } => Expr::ArrayLiteral {
                token: *token,
                elements: expression_views(elements@),
            },
            Expression::BooleanLiteral { token } => Expr::BooleanLiteral { token: *token },
            Expression::UnderscoreLiteral { token } => Expr::UnderscoreLiteral { token: *token },
            Expression::IntegerLiteral { token } => Expr::IntegerLiteral { token: *token },
            Expression::FloatLiteral { token } => Expr::FloatLiteral { token: *token },
            Expression::IndexExpression { token, left, index } => Expr::IndexExpression {
                token: *token,
                left: Box::new(left@),
                index: Box::new(index@),
            },
            Expression::MapLiteral { token, pairs } => Expr::MapLiteral {
                token: *token,
                pairs: association_views(pairs@),
            },
            Expression::FunctionLiteral { token, parameters, statements } => {
                Expr::FunctionLiteral {
                    token: *token,
                    parameters: Box::new(parameters@),
                    statements: Box::new(statements@),
                }
            },
            Expression::CallExpression { token, parameters, function } => Expr::CallExpression {
                token: *token,
                parameters: expression_views(parameters@),
                function: Box::new(function@),
            },
            Expression::PrefixExpression { token, right } => Expr::PrefixExpression {
                token: *token,
                right: Box::new(right@),
            },
            Expression::InfixExpression { token, right, left } => Expr::InfixExpression {
                token: *token,
                right: Box::new(right@),
                left: Box::new(left@),
            },
            Expression::IfExpression { token, condition, consequence, alternative } => {
                Expr::IfExpression {
                    token: *token,
                    condition: Box::new(condition@),
                    consequence: Box::new(consequence@),
                    alternative: Box::new(alternative@),
                }
            },
            Expression::MatchExpression { token, default, pairs } => Expr::MatchExpression {
                token: *token,
                default: match default {
                    Some(s) => Some(Box::new(s@)),
                    None => None,
                },
                pairs: clause_views(pairs@),
            },
        }
    }
}

impl<'a> MatchPairExpression<'a> {
    /// The clause as a mathematical value.
    pub open spec fn view(&self) -> MatchPair<'a>
        decreases self,
    {
        MatchPair {
            statement: self.statement@,
            predicate: expression_views(self.predicate@),
        }
    }
}

impl<'a> Statement<'a> {
    /// The statement as a mathematical value.
    pub open spec fn view(&self) -> Stmt<'a>
        decreases self,
    {
        match self {
            Statement::BlockStatement { token, statements } => Stmt::BlockStatement {
                token: *token,
                statements: statement_views(statements@),
            },
            Statement::ExpressionStatement { token, expression } => Stmt::ExpressionStatement {
                token: *token,
                expression: Box::new(expression@),
            },
            Statement::AssignStatement { token, expression, defined } => Stmt::AssignStatement {
                token: *token,
                expression: Box::new(expression@),
                defined: Box::new(defined@),
            },
            Statement::UpdateStatement { token, ident, expression } => Stmt::UpdateStatement {
                token: *token,
                ident: Box::new(ident@),
                expression: Box::new(expression@),
            },
            Statement::ReturnStatement { token, value } => Stmt::ReturnStatement {
                token: *token,
                value: Box::new(value@),
            },
            Statement::ImportStatement { token, value } => Stmt::ImportStatement {
                token: *token,
                value: *value,
            },
        }
    }
}

impl<'a> Program<'a> {
    /// The statements of the program as mathematical values.
    pub open spec fn view(&self) -> Seq<Stmt<'a>> {
        statement_views(self.statements@)
    }
}

impl<'a> Expr<'a> {
    /// Whether the expression and all that it holds are shaped as every
    /// tree is: a path holds an identifier or more; the parameters of a
    /// function are a list of definitions and its body is a block; both
    /// branches of a conditional are blocks; no two keys of a map are the
    /// same; a clause of a match has a predicate or more.
    pub open spec fn well_formed(self) -> bool
        decreases self,
    {
        match self {
            Expr::DefinitionIdentifier { .. } => true,
            Expr::NormalIdentifier { idents } => idents.len() > 0,
            Expr::StringLiteral { .. } => true,
            Expr::ArrayLiteral { elements, .. } => forall|i: int|
                0 <= i < elements.len() ==> (#[trigger] elements[i]).well_formed(),
            Expr::BooleanLiteral { .. } => true,
            Expr::UnderscoreLiteral { .. } => true,
            Expr::IntegerLiteral { .. } => true,
            Expr::FloatLiteral { .. } => true,
            Expr::IndexExpression { left, index, .. } => left.well_formed() && index.well_formed(),
            Expr::MapLiteral { pairs, .. } => keys_differ(pairs) && forall|i: int|
                0 <= i < pairs.len() ==> (#[trigger] pairs[i]).0.well_formed()
                    && pairs[i].1.well_formed(),
            Expr::FunctionLiteral { parameters, statements, .. } => {
                &&& *parameters is DefinitionIdentifier
                &&& *statements is BlockStatement
                &&& statements.well_formed()
            },
            Expr::CallExpression { parameters, function, .. } => function.well_formed()
                && forall|i: int|
                0 <= i < parameters.len() ==> (#[trigger] parameters[i]).well_formed(),
            Expr::PrefixExpression { right, .. } => right.well_formed(),
            Expr::InfixExpression { right, left, .. } => left.well_formed() && right.well_formed(),
            Expr::IfExpression { condition, consequence, alternative, .. } => {
                &&& condition.well_formed()
                &&& *consequence is BlockStatement
                &&& consequence.well_formed()
                &&& *alternative is BlockStatement
                &&& alternative.well_formed()
            },
            Expr::MatchExpression { default, pairs, .. } => {
                &&& default matches Some(s) ==> s.well_formed()
                &&& forall|i: int| 0 <= i < pairs.len() ==> (#[trigger] pairs[i]).well_formed()
            },
        }
    }
}

impl<'a> MatchPair<'a> {
    /// Whether the clause has a predicate or more, and its predicates and
    /// its body are well formed.
    pub open spec fn well_formed(self) -> bool
        decreases self,
    {
        &&& self.predicate.len() > 0
        &&& self.statement.well_formed()
        &&& forall|i: int|
            0 <= i < self.predicate.len() ==> (#[trigger] self.predicate[i]).well_formed()
    }
}

impl<'a> Stmt<'a> {
    /// Whether the statement and all that it holds are shaped as every tree
    /// is: a definition defines a list of one identifier or more, and an
    /// update updates a path.
    pub open spec fn well_formed(self) -> bool
        decreases self,
    {
        match self {
            Stmt::BlockStatement { statements, .. } => forall|i: int|
                0 <= i < statements.len() ==> (#[trigger] statements[i]).well_formed(),
            Stmt::ExpressionStatement { expression, .. } => expression.well_formed(),
            Stmt::AssignStatement { expression, defined, .. } => {
                &&& *defined matches Expr::DefinitionIdentifier { idents }
                &&& idents.len() > 0
                &&& expression.well_formed()
            },
            Stmt::UpdateStatement { ident, expression, .. } => {
                &&& *ident matches Expr::NormalIdentifier { idents }
                &&& idents.len() > 0
                &&& expression.well_formed()
            },
            Stmt::ReturnStatement { value, .. } => value.well_formed(),
            Stmt::ImportStatement { .. } => true,
        }
    }
}

/// Whether no two of the associations of a map have the same key.
pub open spec fn keys_differ<'a>(pairs: Seq<(Expr<'a>, Expr<'a>)>) -> bool {
    forall|i: int, j: int| 0 <= i < j < pairs.len() ==> pairs[i].0 != pairs[j].0
}

/// One more expression at the end of a list is one more value at the end of
/// the list's values.
pub proof fn expression_views_push<'a>(list: Seq<Box<Expression<'a>>>, e: Box<Expression<'a>>)
    ensures
        expression_views(list.push(e)) == expression_views(list).push(e@),
{
    reveal(expression_views);
    assert(expression_views(list.push(e)) =~= expression_views(list).push(e@));
}

/// No expressions have no values.
pub proof fn expression_views_empty<'a>(list: Seq<Box<Expression<'a>>>)
    requires
        list.len() == 0,
    ensures
        expression_views(list) == Seq::<Expr<'a>>::empty(),
{
    reveal(expression_views);
    assert(expression_views(list) =~= Seq::<Expr<'a>>::empty());
}

/// No clauses have no values.
pub proof fn clause_views_empty<'a>(list: Seq<MatchPairExpression<'a>>)
    requires
        list.len() == 0,
    ensures
        clause_views(list) == Seq::<MatchPair<'a>>::empty(),
{
    reveal(clause_views);
    assert(clause_views(list) =~= Seq::<MatchPair<'a>>::empty());
}

/// One more statement at the end of a list is one more value at the end of
/// the list's values.
pub proof fn statement_views_push<'a>(list: Seq<Statement<'a>>, s: Statement<'a>)
    ensures
        statement_views(list.push(s)) == statement_views(list).push(s@),
{
    reveal(statement_views);
    assert(statement_views(list.push(s)) =~= statement_views(list).push(s@));
}

/// No statements have no values.
pub proof fn statement_views_empty<'a>(list: Seq<Statement<'a>>)
    requires
        list.len() == 0,
    ensures
        statement_views(list) == Seq::<Stmt<'a>>::empty(),
{
    reveal(statement_views);
    assert(statement_views(list) =~= Seq::<Stmt<'a>>::empty());
}

/// One more clause at the end of a list is one more value at the end of the
/// list's values.
pub proof fn clause_views_push<'a>(list: Seq<MatchPairExpression<'a>>, c: MatchPairExpression<'a>)
    ensures
        clause_views(list.push(c)) == clause_views(list).push(c@),
{
    reveal(clause_views);
    assert(clause_views(list.push(c)) =~= clause_views(list).push(c@));
}

/// The values of a list of expressions are as many as the expressions, and
/// each is the value of the expression at its place.
pub proof fn expression_views_at<'a>(list: Seq<Box<Expression<'a>>>, i: int)
    requires
        0 <= i < list.len(),
    ensures
        expression_views(list).len() == list.len(),
        expression_views(list)[i] == list[i]@,
{
    reveal(expression_views);
}

/// The values of a list of statements are as many as the statements, and
/// each is the value of the statement at its place.
pub proof fn statement_views_at<'a>(list: Seq<Statement<'a>>, i: int)
    requires
        0 <= i < list.len(),
    ensures
        statement_views(list).len() == list.len(),
        statement_views(list)[i] == list[i]@,
{
    reveal(statement_views);
}

/// The values of a list of clauses are as many as the clauses, and each is
/// the value of the clause at its place.
pub proof fn clause_views_at<'a>(list: Seq<MatchPairExpression<'a>>, i: int)
    requires
        0 <= i < list.len(),
    ensures
        clause_views(list).len() == list.len(),
        clause_views(list)[i] == list[i]@,
{
    reveal(clause_views);
}

} // verus!
