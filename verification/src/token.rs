use vstd::prelude::*;

verus! {

/// A place in the source text: the line, the column within it, and the
/// offset in characters from the start of the text.
#[derive(Debug, Clone, Copy, PartialEq, Eq, Structural)]
pub struct Position {
    pub line: usize,
    pub column: usize,
    pub char: usize,
}

impl Position {
    /// The place at line `line`, column `column` and offset `char`.
    pub fn new(line: usize, column: usize, char: usize) -> (p: Position)
        ensures
            p == (Position { line, column, char }),
    {
        Position { line, column, char }
    }
}

/// The kinds of token. The kinds that carry text borrow it from the source.
/// A float carries the numeral as it was written, an unsigned run of digits
/// with exactly one point inside it.
#[derive(Debug, Clone, Copy, PartialEq)]
pub enum TokenType<'a> {
    RParen,
    LParen,
    RBrace,
    LBrace,
    RBracket,
    LBracket,
    Percent,
    Plus,
    Minus,
    Slash,
    Asterisk,
    Equal,
    DoubleEqual,
    Bang,
    BangEqual,
    LT,
    LTEq,
    GT,
    GTEq,
    Arrow,
    Underscore,
    Period,
    Semicolon,
    Ampersand,
    And,
    Bar,
    Or,
    PlusEqual,
    MinusEqual,
    SlashEqual,
    AsteriskEqual,
    Comma,
    Colon,
    ColonEqual,
    Integer(usize),
    Float(&'a str),
    String(&'a str),
    Ident(&'a str),
    Match,
    Import,
    Return,
}

/// What a token kind is, as a mathematical value: a kind that carries text
/// is the characters of that text, an integer is its number, and every other
/// kind stands for itself.
pub ghost enum KindView<'a> {
    Integer(nat),
    Float(Seq<char>),
    String(Seq<char>),
    Ident(Seq<char>),
    Symbol(TokenType<'a>),
}

impl<'a> View for TokenType<'a> {
    type V = KindView<'a>;

    open spec fn view(&self) -> KindView<'a> {
        match *self {
            TokenType::Integer(n) => KindView::Integer(n as nat),
            TokenType::Float(s) => KindView::Float(s@),
            TokenType::String(s) => KindView::String(s@),
            TokenType::Ident(s) => KindView::Ident(s@),
            other => KindView::Symbol(other),
        }
    }
}

/// The kind that a run of letters and underscores names: one of the three
/// keywords, or else an identifier.
pub open spec fn keyword_or_ident<'a>(word: Seq<char>) -> KindView<'a> {
    if word == "match"@ {
        KindView::Symbol(TokenType::Match)
    } else if word == "import"@ {
        KindView::Symbol(TokenType::Import)
    } else if word == "return"@ {
        KindView::Symbol(TokenType::Return)
    } else {
        KindView::Ident(word)
    }
}

/// Whether two pieces of text hold the same characters.
pub fn same_text(a: &str, b: &str) -> (r: bool)
    ensures
        r == (a@ == b@),
{
    let x = a.to_owned();
    let y = b.to_owned();
    x == y
}

impl<'a> TokenType<'a> {
    /// The keyword that `string` is, or the identifier `string`.
    pub fn match_keyword(string: &'a str) -> (kind: TokenType<'a>)
        ensures
            kind@ == keyword_or_ident::<'a>(string@),
    {
        if same_text(string, "match") {
            TokenType::Match
        } else if same_text(string, "import") {
            TokenType::Import
        } else if same_text(string, "return") {
            TokenType::Return
        } else {
            TokenType::Ident(string)
        }
    }

    /// Whether two kinds are the same kind with the same text or number.
    pub fn same(&self, other: &TokenType<'_>) -> (r: bool)
        ensures
            r == (self@ == other@),
    {
        match (*self, *other) {
            (TokenType::Integer(a), TokenType::Integer(b)) => a == b,
            (TokenType::Float(a), TokenType::Float(b)) => same_text(a, b),
            (TokenType::String(a), TokenType::String(b)) => same_text(a, b),
            (TokenType::Ident(a), TokenType::Ident(b)) => same_text(a, b),
            (TokenType::RParen, TokenType::RParen) => true,
            (TokenType::LParen, TokenType::LParen) => true,
            (TokenType::RBrace, TokenType::RBrace) => true,
            (TokenType::LBrace, TokenType::LBrace) => true,
            (TokenType::RBracket, TokenType::RBracket) => true,
            (TokenType::LBracket, TokenType::LBracket) => true,
            (TokenType::Percent, TokenType::Percent) => true,
            (TokenType::Plus, TokenType::Plus) => true,
            (TokenType::Minus, TokenType::Minus) => true,
            (TokenType::Slash, TokenType::Slash) => true,
            (TokenType::Asterisk, TokenType::Asterisk) => true,
            (TokenType::Equal, TokenType::Equal) => true,
            (TokenType::DoubleEqual, TokenType::DoubleEqual) => true,
            (TokenType::Bang, TokenType::Bang) => true,
            (TokenType::BangEqual, TokenType::BangEqual) => true,
            (TokenType::LT, TokenType::LT) => true,
            (TokenType::LTEq, TokenType::LTEq) => true,
            (TokenType::GT, TokenType::GT) => true,
            (TokenType::GTEq, TokenType::GTEq) => true,
            (TokenType::Arrow, TokenType::Arrow) => true,
            (TokenType::Underscore, TokenType::Underscore) => true,
            (TokenType::Period, TokenType::Period) => true,
            (TokenType::Semicolon, TokenType::Semicolon) => true,
            (TokenType::Ampersand, TokenType::Ampersand) => true,
            (TokenType::And, TokenType::And) => true,
            (TokenType::Bar, TokenType::Bar) => true,
            (TokenType::Or, TokenType::Or) => true,
            (TokenType::PlusEqual, TokenType::PlusEqual) => true,
            (TokenType::MinusEqual, TokenType::MinusEqual) => true,
            (TokenType::SlashEqual, TokenType::SlashEqual) => true,
            (TokenType::AsteriskEqual, TokenType::AsteriskEqual) => true,
            (TokenType::Comma, TokenType::Comma) => true,
            (TokenType::Colon, TokenType::Colon) => true,
            (TokenType::ColonEqual, TokenType::ColonEqual) => true,
            (TokenType::Match, TokenType::Match) => true,
            (TokenType::Import, TokenType::Import) => true,
            (TokenType::Return, TokenType::Return) => true,
            _ => false,
        }
    }
}

/// A token: its kind and the place in the source where it stands.
#[derive(Debug, Clone, Copy)]
pub struct Token<'a> {
    pub kind: TokenType<'a>,
    pub position: Position,
}

/// A token as a mathematical value.
pub ghost struct TokenView<'a> {
    pub kind: KindView<'a>,
    pub position: Position,
}

impl<'a> View for Token<'a> {
    type V = TokenView<'a>;

    open spec fn view(&self) -> TokenView<'a> {
        TokenView { kind: self.kind@, position: self.position }
    }
}

impl<'a> Token<'a> {
    /// The token of kind `kind` at `position`.
    pub fn new(kind: TokenType<'a>, position: Position) -> (t: Token<'a>)
        ensures
            t == (Token { kind, position }),
    {
        Token { kind, position }
    }

    /// The token at `position` whose kind `keyword` names.
    pub fn from_keyword(keyword: &'a str, position: Position) -> (t: Token<'a>)
        ensures
            t.kind@ == keyword_or_ident::<'a>(keyword@),
            t.position == position,
    {
        Token { kind: TokenType::match_keyword(keyword), position }
    }
}

} // verus!
