use vstd::prelude::*;

use crate::errors::LexError;
use crate::token::{keyword_or_ident, KindView, Position, Token, TokenType, TokenView};

verus! {

/// Whether `c` is one of the ten digits.
pub open spec fn is_digit(c: char) -> bool {
    '0' <= c <= '9'
}

/// Whether `c` is a letter of the basic Latin alphabet, small or capital.
pub open spec fn is_letter(c: char) -> bool {
    ('a' <= c <= 'z') || ('A' <= c <= 'Z')
}

/// The characters that are passed over without a token and without a new
/// line: space, tab and carriage return.
pub open spec fn is_blank(c: char) -> bool {
    c == ' ' || c == '\t' || c == '\r'
}

/// The character at offset `i` of `input`, if it has one.
pub open spec fn char_at(input: Seq<char>, i: int) -> Option<char> {
    if 0 <= i < input.len() {
        Some(input[i])
    } else {
        None
    }
}

/// The cursor `p` moved over `n` characters of one line.
pub open spec fn step(p: Position, n: int) -> Position {
    Position { line: p.line, column: (p.column + n) as usize, char: (p.char + n) as usize }
}

/// The cursor `p` moved over a line feed: the line counts one more, and the
/// line feed itself is the first column of the new line.
pub open spec fn next_line(p: Position) -> Position {
    Position { line: (p.line + 1) as usize, column: 1, char: (p.char + 1) as usize }
}

/// The cursor `p` moved over the character `c`.
pub open spec fn over(p: Position, c: char) -> Position {
    if c == '\n' {
        next_line(p)
    } else {
        step(p, 1)
    }
}

/// The cursor after the characters of `input` from offset `from` up to
/// `to`, read one by one from the cursor `p`.
pub open spec fn cursor_after(input: Seq<char>, from: int, to: int, p: Position) -> Position
    decreases to - from,
{
    if from < to {
        over(cursor_after(input, from, to - 1, p), input[to - 1])
    } else {
        p
    }
}

/// The token of one or two characters that begins with `c`, where `next` is
/// the character after `c`: its kind and its width. A pair of characters that
/// forms a token is preferred to its first character alone. `None` where `c`
/// begins no such token.
pub open spec fn symbol<'a>(c: char, next: Option<char>) -> Option<(TokenType<'a>, int)> {
    let assign = next == Some('=');
    if c == '(' {
        Some((TokenType::LParen, 1))
    } else if c == ')' {
        Some((TokenType::RParen, 1))
    } else if c == '[' {
        Some((TokenType::LBracket, 1))
    } else if c == ']' {
        Some((TokenType::RBracket, 1))
    } else if c == '{' {
        Some((TokenType::LBrace, 1))
    } else if c == '}' {
        Some((TokenType::RBrace, 1))
    } else if c == ',' {
        Some((TokenType::Comma, 1))
    } else if c == '.' {
        Some((TokenType::Period, 1))
    } else if c == '_' {
        Some((TokenType::Underscore, 1))
    } else if c == '|' {
        Some((TokenType::Bar, 1))
    } else if c == '!' {
        if assign {
            Some((TokenType::BangEqual, 2))
        } else {
            Some((TokenType::Bang, 1))
        }
    } else if c == '=' {
        if assign {
            Some((TokenType::DoubleEqual, 2))
        } else {
            Some((TokenType::Equal, 1))
        }
    } else if c == '&' {
        if next == Some('&') {
            Some((TokenType::And, 2))
        } else {
            Some((TokenType::Ampersand, 1))
        }
    } else if c == '+' {
        if assign {
            Some((TokenType::PlusEqual, 2))
        } else {
            Some((TokenType::Plus, 1))
        }
    } else if c == '-' {
        if assign {
            Some((TokenType::MinusEqual, 2))
        } else if next == Some('>') {
            Some((TokenType::Arrow, 2))
        } else {
            Some((TokenType::Minus, 1))
        }
    } else if c == '/' {
        if assign {
            Some((TokenType::SlashEqual, 2))
        } else {
            Some((TokenType::Slash, 1))
        }
    } else if c == '*' {
        if assign {
            Some((TokenType::AsteriskEqual, 2))
        } else {
            Some((TokenType::Asterisk, 1))
        }
    } else if c == '<' {
        if assign {
            Some((TokenType::LTEq, 2))
        } else {
            Some((TokenType::LT, 1))
        }
    } else if c == '>' {
        if assign {
            Some((TokenType::GTEq, 2))
        } else {
            Some((TokenType::GT, 1))
        }
    } else if c == ':' {
        if assign {
            Some((TokenType::ColonEqual, 2))
        } else {
            Some((TokenType::Colon, 1))
        }
    } else {
        None
    }
}

/// Whether a numeral that has been read up to offset `i` goes on there: with
/// a digit, or with a point that a digit follows.
pub open spec fn numeral_goes_on(input: Seq<char>, i: int) -> bool {
    0 <= i < input.len() && (is_digit(input[i]) || (input[i] == '.' && i + 1 < input.len()
        && is_digit(input[i + 1])))
}

/// The offset just after the numeral that is being read at offset `i`.
pub open spec fn numeral_end(input: Seq<char>, i: int) -> int
    decreases input.len() - i,
{
    if numeral_goes_on(input, i) {
        numeral_end(input, i + 1)
    } else {
        i
    }
}

/// How many decimal points `text` holds.
pub open spec fn points(text: Seq<char>) -> nat
    decreases text.len(),
{
    if text.len() == 0 {
        0
    } else {
        points(text.drop_last()) + if text.last() == '.' {
            1nat
        } else {
            0nat
        }
    }
}

/// The number that the digit `c` stands for.
pub open spec fn digit_value(c: char) -> nat {
    (c as int - '0' as int) as nat
}

/// The number that a run of digits writes in base ten.
pub open spec fn decimal(text: Seq<char>) -> nat
    decreases text.len(),
{
    if text.len() == 0 {
        0
    } else {
        decimal(text.drop_last()) * 10 + digit_value(text.last())
    }
}

/// Whether a word that has been read up to offset `i` goes on there: with a
/// letter or an underscore.
pub open spec fn word_goes_on(input: Seq<char>, i: int) -> bool {
    0 <= i < input.len() && (is_letter(input[i]) || input[i] == '_')
}

/// The offset just after the word that is being read at offset `i`.
pub open spec fn word_end(input: Seq<char>, i: int) -> int
    decreases input.len() - i,
{
    if word_goes_on(input, i) {
        word_end(input, i + 1)
    } else {
        i
    }
}

/// The offset of the first double quote at or after offset `i`, or the
/// length of `input` where there is none.
pub open spec fn quote_from(input: Seq<char>, i: int) -> int
    decreases input.len() - i,
{
    if 0 <= i < input.len() && input[i] != '"' {
        quote_from(input, i + 1)
    } else {
        i
    }
}

/// What one step of the tokenizer finds.
pub ghost enum Lexed<'a> {
    /// Nothing but blanks and line feeds were left; the cursor stands at
    /// the end of the text.
    End { cursor: Position },
    /// A token of kind `kind`, tagged with `position`; the cursor is left at
    /// `cursor`.
    Token { kind: KindView<'a>, position: Position, cursor: Position },
    /// The text is rejected.
    Error { error: LexError },
}

/// The numeral that begins at the cursor `p`. Without a point it is an
/// integer, which must fit the machine's unsigned word. With one point it is
/// a float. With more it is rejected. The token is tagged with the place
/// where the numeral begins.
pub open spec fn scan_numeral<'a>(input: Seq<char>, p: Position) -> Lexed<'a> {
    let end = numeral_end(input, p.char as int);
    let text = input.subrange(p.char as int, end);
    let cursor = step(p, end - p.char);
    if points(text) == 0 {
        if decimal(text) <= usize::MAX {
            Lexed::Token { kind: KindView::Integer(decimal(text)), position: p, cursor }
        } else {
            Lexed::Error { error: LexError::InvalidInteger { start: p, end: cursor } }
        }
    } else if points(text) == 1 {
        Lexed::Token { kind: KindView::Float(text), position: p, cursor }
    } else {
        Lexed::Error { error: LexError::InvalidFloat { start: p, end: cursor } }
    }
}

/// The string whose opening quote stands at the cursor `p`. Its text is
/// everything up to the next double quote, taken as it is written; line
/// feeds in it count lines. The token is tagged with the place just after
/// the closing quote. A string that is never closed is rejected.
pub open spec fn scan_string<'a>(input: Seq<char>, p: Position) -> Lexed<'a> {
    let first = p.char + 1;
    let close = quote_from(input, first);
    if close < input.len() {
        let after = step(cursor_after(input, first, close, step(p, 1)), 1);
        Lexed::Token {
            kind: KindView::String(input.subrange(first, close)),
            position: after,
            cursor: after,
        }
    } else {
        Lexed::Error { error: LexError::UnterminatedString { position: p } }
    }
}

/// The word that begins at the cursor `p`: the longest run of letters and
/// underscores, a keyword if it is one of the three, an identifier if not.
pub open spec fn scan_word<'a>(input: Seq<char>, p: Position) -> Lexed<'a> {
    let end = word_end(input, p.char as int);
    Lexed::Token {
        kind: keyword_or_ident::<'a>(input.subrange(p.char as int, end)),
        position: p,
        cursor: step(p, end - p.char),
    }
}

/// The token that begins at the cursor `p`, where a character that is
/// neither a blank nor a line feed stands.
pub open spec fn scan_token<'a>(input: Seq<char>, p: Position) -> Lexed<'a> {
    let c = input[p.char as int];
    match symbol::<'a>(c, char_at(input, p.char + 1)) {
        Some((kind, width)) => Lexed::Token {
            kind: KindView::Symbol(kind),
            position: p,
            cursor: step(p, width),
        },
        None => if is_digit(c) {
            scan_numeral(input, p)
        } else if c == '"' {
            scan_string(input, p)
        } else if is_letter(c) {
            scan_word(input, p)
        } else {
            Lexed::Error { error: LexError::IllegalCharacter { position: p, found: c } }
        },
    }
}

/// One step of the tokenizer from the cursor `p`: blanks and line feeds are
/// passed over, then comes the end of the text, a token, or a rejection.
pub open spec fn scan<'a>(input: Seq<char>, p: Position) -> Lexed<'a>
    decreases input.len() - p.char,
    when input.len() <= usize::MAX
{
    if p.char >= input.len() {
        Lexed::End { cursor: p }
    } else if input[p.char as int] == '\n' || is_blank(input[p.char as int]) {
        scan(input, over(p, input[p.char as int]))
    } else {
        scan_token(input, p)
    }
}

/// The tokens of `input` from the cursor `p` on, after those in `found`.
pub open spec fn scan_all<'a>(input: Seq<char>, p: Position, found: Seq<TokenView<'a>>) -> Result<
    Seq<TokenView<'a>>,
    LexError,
>
    decreases input.len() - p.char,
    when input.len() <= usize::MAX
{
    match scan::<'a>(input, p) {
        Lexed::End { .. } => Ok(found),
        Lexed::Error { error } => Err(error),
        Lexed::Token { kind, position, cursor } => {
            if p.char < cursor.char <= input.len() {
                scan_all(input, cursor, found.push(TokenView { kind, position }))
            } else {
                Ok(found)
            }
        },
    }
}

/// The cursor at the start of a text: line one, before the first column.
pub open spec fn start() -> Position {
    Position { line: 1, column: 0, char: 0 }
}

/// The tokens of the whole of `input`, or the reason why it is rejected.
pub open spec fn tokens_of<'a>(input: Seq<char>) -> Result<Seq<TokenView<'a>>, LexError> {
    scan_all(input, start(), Seq::empty())
}

/// A longer run of digits writes no smaller a number.
proof fn decimal_grows(text: Seq<char>, n: int)
    requires
        0 <= n <= text.len(),
    ensures
        decimal(text.subrange(0, n)) <= decimal(text),
    decreases text.len() - n,
{
    if n < text.len() {
        decimal_grows(text, n + 1);
        assert(text.subrange(0, n + 1).drop_last() =~= text.subrange(0, n));
    } else {
        assert(text.subrange(0, n) =~= text);
    }
}

/// The number that `text`, a run of digits, writes in base ten, if it fits
/// the machine's unsigned word.
fn parse_decimal(text: &str) -> (r: Option<usize>)
    requires
        forall|i: int| 0 <= i < text@.len() ==> is_digit(#[trigger] text@[i]),
    ensures
        r == if decimal(text@) <= usize::MAX {
            Some(decimal(text@) as usize)
        } else {
            None
        },
{
    let n = text.unicode_len();
    let mut value: usize = 0;
    let mut i: usize = 0;
    while i < n
        invariant
            n == text@.len(),
            i <= n,
            value == decimal(text@.subrange(0, i as int)),
            forall|j: int| 0 <= j < text@.len() ==> is_digit(#[trigger] text@[j]),
        decreases n - i,
    {
        let c = text.get_char(i);
        let d: usize = (c as u32 - '0' as u32) as usize;
        proof {
            assert(text@.subrange(0, i + 1).drop_last() =~= text@.subrange(0, i as int));
            assert(text@.subrange(0, i + 1).last() == c);
            assert(d == digit_value(c));
            decimal_grows(text@, i + 1);
        }
        if value > (usize::MAX - d) / 10 {
            return None;
        }
        value = value * 10 + d;
        i += 1;
    }
    proof {
        assert(text@.subrange(0, n as int) =~= text@);
    }
    Some(value)
}

/// The tokenizer: the text and a cursor in it.
pub struct Lexer<'a> {
    input: &'a str,
    position: Position,
}

impl<'a> Lexer<'a> {
    /// The characters of the text.
    pub closed spec fn text(&self) -> Seq<char> {
        self.input@
    }

    /// The cursor: the place of the next character to read.
    pub closed spec fn cursor(&self) -> Position {
        self.position
    }

    /// The cursor stands in the text or at its end, and its line and column
    /// count no more characters than were read.
    pub open spec fn wf(&self) -> bool {
        &&& self.text().len() < usize::MAX
        &&& self.cursor().char <= self.text().len()
        &&& self.cursor().column <= self.cursor().char
        &&& self.cursor().line <= self.cursor().char + 1
    }

    /// A tokenizer at the start of `input`.
    pub fn new(input: &'a str) -> (lexer: Lexer<'a>)
        requires
            input@.len() < usize::MAX,
        ensures
            lexer.text() == input@,
            lexer.cursor() == start(),
            lexer.wf(),
    {
        Lexer { input, position: Position::new(1, 0, 0) }
    }

    /// Moves the cursor over one character of the line.
    pub fn consume_char(&mut self)
        requires
            old(self).cursor().column < usize::MAX,
            old(self).cursor().char < usize::MAX,
        ensures
            final(self).text() == old(self).text(),
            final(self).cursor() == step(old(self).cursor(), 1),
    {
        self.position.column += 1;
        self.position.char += 1;
    }

    /// The character at offset `position` of the text, if it has one.
    pub fn get_nth_char(&self, position: usize) -> (c: Option<char>)
        ensures
            c == char_at(self.text(), position as int),
    {
        if position < self.input.unicode_len() {
            Some(self.input.get_char(position))
        } else {
            None
        }
    }

    /// The character under the cursor, if the text has not ended.
    pub fn get_current_char(&self) -> (c: Option<char>)
        ensures
            c == char_at(self.text(), self.cursor().char as int),
    {
        self.get_nth_char(self.position.char)
    }

    /// The character after the one under the cursor, if there is one.
    pub fn get_peek_char(&self) -> (c: Option<char>)
        ensures
            c == char_at(self.text(), self.cursor().char + 1),
    {
        if self.position.char < self.input.unicode_len() {
            self.get_nth_char(self.position.char + 1)
        } else {
            None
        }
    }

    /// A token of kind `kind` at the cursor, which moves over one character.
    pub fn lex_single_char<'b>(&mut self, kind: TokenType<'b>) -> (t: Option<Token<'b>>)
        requires
            old(self).cursor().column < usize::MAX,
            old(self).cursor().char < usize::MAX,
        ensures
            final(self).text() == old(self).text(),
            final(self).cursor() == step(old(self).cursor(), 1),
            t == Some(Token { kind, position: old(self).cursor() }),
    {
        let position = self.position;
        self.consume_char();
        Some(Token { position, kind })
    }

    /// A token of kind `kind` at the cursor, which moves over two characters.
    pub fn lex_double_char<'b>(&mut self, kind: TokenType<'b>) -> (t: Option<Token<'b>>)
        requires
            old(self).cursor().column + 1 < usize::MAX,
            old(self).cursor().char + 1 < usize::MAX,
        ensures
            final(self).text() == old(self).text(),
            final(self).cursor() == step(old(self).cursor(), 2),
            t == Some(Token { kind, position: old(self).cursor() }),
    {
        let position = self.position;
        self.consume_char();
        self.consume_char();
        Some(Token { kind, position })
    }

    /// Whether what a step returned, `r`, and the lexer after it are what
    /// `outcome` describes.
    pub open spec fn agrees(&self, r: Result<Option<Token<'a>>, LexError>, outcome: Lexed<'a>) -> bool {
        match outcome {
            Lexed::End { cursor } => r == Ok::<Option<Token<'a>>, LexError>(None) && self.cursor()
                == cursor,
            Lexed::Token { kind, position, cursor } => {
                &&& r matches Ok(Some(t))
                &&& t.kind@ == kind
                &&& t.position == position
                &&& self.cursor() == cursor
            },
            Lexed::Error { error } => r == Err::<Option<Token<'a>>, LexError>(error),
        }
    }

    fn numeral_goes_on_here(&self) -> (r: bool)
        ensures
            r == numeral_goes_on(self.text(), self.cursor().char as int),
    {
        match self.get_current_char() {
            Some(c) => digit(c) || (c == '.' && match self.get_peek_char() {
                Some(n) => digit(n),
                None => false,
            }),
            None => false,
        }
    }

    fn word_goes_on_here(&self) -> (r: bool)
        ensures
            r == word_goes_on(self.text(), self.cursor().char as int),
    {
        match self.get_current_char() {
            Some(c) => letter(c) || c == '_',
            None => false,
        }
    }

    fn lex_numeral(&mut self) -> (r: Result<Option<Token<'a>>, LexError>)
        requires
            old(self).wf(),
            old(self).cursor().char < old(self).text().len(),
            is_digit(old(self).text()[old(self).cursor().char as int]),
        ensures
            final(self).wf(),
            final(self).text() == old(self).text(),
            final(self).cursor().char >= old(self).cursor().char,
            final(self).agrees(r, scan_numeral(old(self).text(), old(self).cursor())),
            r is Ok ==> final(self).cursor().char > old(self).cursor().char,
    {
        let begin = self.position;
        let mut dots: usize = 0;
        let mut goes_on = self.numeral_goes_on_here();
        while goes_on
            invariant
                self.wf(),
                self.text() == old(self).text(),
                begin == old(self).cursor(),
                begin.char <= self.cursor().char,
                begin.column <= begin.char,
                self.cursor() == step(begin, self.cursor().char - begin.char),
                goes_on == numeral_goes_on(self.text(), self.cursor().char as int),
                numeral_end(self.text(), begin.char as int) == numeral_end(
                    self.text(),
                    self.cursor().char as int,
                ),
                dots == points(self.text().subrange(begin.char as int, self.cursor().char as int)),
                dots <= self.cursor().char - begin.char,
                dots == 0 ==> forall|j: int|
                    begin.char <= j < self.cursor().char ==> is_digit(#[trigger] self.text()[j]),
            decreases self.text().len() - self.cursor().char,
        {
            let ghost before = self.position.char as int;
            proof {
                let longer = self.text().subrange(begin.char as int, before + 1);
                assert(longer.drop_last() =~= self.text().subrange(begin.char as int, before));
                assert(longer.last() == self.text()[before]);
            }
            if self.get_current_char() == Some('.') {
                dots += 1;
            }
            self.consume_char();
            goes_on = self.numeral_goes_on_here();
        }
        let text = self.input.substring_char(begin.char, self.position.char);
        if dots == 0 {
            match parse_decimal(text) {
                Some(n) => Ok(Some(Token { kind: TokenType::Integer(n), position: begin })),
                None => Err(LexError::InvalidInteger { start: begin, end: self.position }),
            }
        } else if dots == 1 {
            Ok(Some(Token { kind: TokenType::Float(text), position: begin }))
        } else {
            Err(LexError::InvalidFloat { start: begin, end: self.position })
        }
    }

    fn lex_word(&mut self) -> (r: Result<Option<Token<'a>>, LexError>)
        requires
            old(self).wf(),
            old(self).cursor().char < old(self).text().len(),
            is_letter(old(self).text()[old(self).cursor().char as int]),
        ensures
            final(self).wf(),
            final(self).text() == old(self).text(),
            final(self).agrees(r, scan_word(old(self).text(), old(self).cursor())),
            final(self).cursor().char > old(self).cursor().char,
    {
        let begin = self.position;
        let mut goes_on = self.word_goes_on_here();
        while goes_on
            invariant
                self.wf(),
                self.text() == old(self).text(),
                begin == old(self).cursor(),
                begin.char <= self.cursor().char,
                begin.column <= begin.char,
                self.cursor() == step(begin, self.cursor().char - begin.char),
                goes_on == word_goes_on(self.text(), self.cursor().char as int),
                word_end(self.text(), begin.char as int) == word_end(
                    self.text(),
                    self.cursor().char as int,
                ),
            decreases self.text().len() - self.cursor().char,
        {
            self.consume_char();
            goes_on = self.word_goes_on_here();
        }
        let text = self.input.substring_char(begin.char, self.position.char);
        Ok(Some(Token { kind: TokenType::match_keyword(text), position: begin }))
    }

    fn lex_string(&mut self) -> (r: Result<Option<Token<'a>>, LexError>)
        requires
            old(self).wf(),
            old(self).cursor().char < old(self).text().len(),
            old(self).text()[old(self).cursor().char as int] == '"',
        ensures
            final(self).wf(),
            final(self).text() == old(self).text(),
            final(self).cursor().char >= old(self).cursor().char,
            final(self).agrees(r, scan_string(old(self).text(), old(self).cursor())),
            r is Ok ==> final(self).cursor().char > old(self).cursor().char,
    {
        let open = self.position;
        self.consume_char();
        let first = self.position;
        let mut c = self.get_current_char();
        while inside_string(c)
            invariant
                self.wf(),
                self.text() == old(self).text(),
                open == old(self).cursor(),
                first == step(open, 1),
                first.char <= self.cursor().char,
                c == char_at(self.text(), self.cursor().char as int),
                quote_from(self.text(), first.char as int) == quote_from(
                    self.text(),
                    self.cursor().char as int,
                ),
                self.cursor() == cursor_after(
                    self.text(),
                    first.char as int,
                    self.cursor().char as int,
                    first,
                ),
            decreases self.text().len() - self.cursor().char,
        {
            if c == Some('\n') {
                self.position.line += 1;
                self.position.column = 0;
            }
            self.consume_char();
            c = self.get_current_char();
        }
        match c {
            None => Err(LexError::UnterminatedString { position: open }),
            Some(_) => {
                let text = self.input.substring_char(first.char, self.position.char);
                self.consume_char();
                Ok(Some(Token { kind: TokenType::String(text), position: self.position }))
            },
        }
    }

    /// The next token, `None` at the end of the text, or the reason why the
    /// text is rejected.
    pub fn next(&mut self) -> (r: Result<Option<Token<'a>>, LexError>)
        requires
            old(self).wf(),
        ensures
            final(self).wf(),
            final(self).text() == old(self).text(),
            final(self).cursor().char >= old(self).cursor().char,
            final(self).agrees(r, scan(old(self).text(), old(self).cursor())),
            r matches Ok(Some(_)) ==> final(self).cursor().char > old(self).cursor().char,
    {
        let mut c = self.get_current_char();
        while space(c)
            invariant
                self.wf(),
                self.text() == old(self).text(),
                c == char_at(self.text(), self.cursor().char as int),
                scan::<'a>(self.text(), old(self).cursor()) == scan::<'a>(
                    self.text(),
                    self.cursor(),
                ),
                self.cursor().char >= old(self).cursor().char,
            decreases self.text().len() - self.cursor().char,
        {
            if c == Some('\n') {
                self.position.line += 1;
                self.position.column = 0;
            }
            self.consume_char();
            c = self.get_current_char();
        }
        let peek = self.get_peek_char();
        let assign = peek == Some('=');
        match c {
            None => Ok(None),
            Some(ch) => match ch {
                '(' => Ok(self.lex_single_char(TokenType::LParen)),
                ')' => Ok(self.lex_single_char(TokenType::RParen)),
                '[' => Ok(self.lex_single_char(TokenType::LBracket)),
                ']' => Ok(self.lex_single_char(TokenType::RBracket)),
                '{' => Ok(self.lex_single_char(TokenType::LBrace)),
                '}' => Ok(self.lex_single_char(TokenType::RBrace)),
                ',' => Ok(self.lex_single_char(TokenType::Comma)),
                '.' => Ok(self.lex_single_char(TokenType::Period)),
                '_' => Ok(self.lex_single_char(TokenType::Underscore)),
                '|' => Ok(self.lex_single_char(TokenType::Bar)),
                '!' => if assign {
                    Ok(self.lex_double_char(TokenType::BangEqual))
                } else {
                    Ok(self.lex_single_char(TokenType::Bang))
                },
                '=' => if assign {
                    Ok(self.lex_double_char(TokenType::DoubleEqual))
                } else {
                    Ok(self.lex_single_char(TokenType::Equal))
                },
                '&' => if peek == Some('&') {
                    Ok(self.lex_double_char(TokenType::And))
                } else {
                    Ok(self.lex_single_char(TokenType::Ampersand))
                },
                '+' => if assign {
                    Ok(self.lex_double_char(TokenType::PlusEqual))
                } else {
                    Ok(self.lex_single_char(TokenType::Plus))
                },
                '-' => if assign {
                    Ok(self.lex_double_char(TokenType::MinusEqual))
                } else if peek == Some('>') {
                    Ok(self.lex_double_char(TokenType::Arrow))
                } else {
                    Ok(self.lex_single_char(TokenType::Minus))
                },
                '/' => if assign {
                    Ok(self.lex_double_char(TokenType::SlashEqual))
                } else {
                    Ok(self.lex_single_char(TokenType::Slash))
                },
                '*' => if assign {
                    Ok(self.lex_double_char(TokenType::AsteriskEqual))
                } else {
                    Ok(self.lex_single_char(TokenType::Asterisk))
                },
                '<' => if assign {
                    Ok(self.lex_double_char(TokenType::LTEq))
                } else {
                    Ok(self.lex_single_char(TokenType::LT))
                },
                '>' => if assign {
                    Ok(self.lex_double_char(TokenType::GTEq))
                } else {
                    Ok(self.lex_single_char(TokenType::GT))
                },
                ':' => if assign {
                    Ok(self.lex_double_char(TokenType::ColonEqual))
                } else {
                    Ok(self.lex_single_char(TokenType::Colon))
                },
                _ => if digit(ch) {
                    self.lex_numeral()
                } else if ch == '"' {
                    self.lex_string()
                } else if letter(ch) {
                    self.lex_word()
                } else {
                    Err(LexError::IllegalCharacter { position: self.position, found: ch })
                },
            },
        }
    }

    /// All the tokens from the cursor to the end of the text, in order, or
    /// the reason why the text is rejected.
    pub fn collect(self) -> (r: Result<Vec<Token<'a>>, LexError>)
        requires
            self.wf(),
        ensures
            match scan_all(self.text(), self.cursor(), Seq::empty()) {
                Ok(views) => r matches Ok(tokens) && token_views(tokens@) == views,
                Err(error) => r == Err::<Vec<Token<'a>>, LexError>(error),
            },
    {
        let mut lexer = self;
        let mut tokens: Vec<Token<'a>> = Vec::new();
        assert(token_views(tokens@) =~= Seq::empty());
        loop
            invariant
                lexer.wf(),
                lexer.text() == self.text(),
                scan_all(self.text(), self.cursor(), Seq::empty()) == scan_all(
                    self.text(),
                    lexer.cursor(),
                    token_views(tokens@),
                ),
            decreases lexer.text().len() - lexer.cursor().char,
        {
            let ghost found = token_views(tokens@);
            match lexer.next() {
                Err(error) => {
                    return Err(error);
                },
                Ok(None) => {
                    return Ok(tokens);
                },
                Ok(Some(token)) => {
                    tokens.push(token);
                    assert(token_views(tokens@) =~= found.push(token@));
                },
            }
        }
    }
}

/// The tokens of `s` as mathematical values.
pub open spec fn token_views<'a>(s: Seq<Token<'a>>) -> Seq<TokenView<'a>> {
    s.map_values(|t: Token<'a>| t@)
}

fn digit(c: char) -> (r: bool)
    ensures
        r == is_digit(c),
{
    '0' <= c && c <= '9'
}

fn letter(c: char) -> (r: bool)
    ensures
        r == is_letter(c),
{
    ('a' <= c && c <= 'z') || ('A' <= c && c <= 'Z')
}

/// Whether `c` is a character that is passed over between tokens.
fn space(c: Option<char>) -> (r: bool)
    ensures
        r == (c matches Some(ch) && (ch == '\n' || is_blank(ch))),
{
    match c {
        Some(ch) => ch == '\n' || ch == ' ' || ch == '\t' || ch == '\r',
        None => false,
    }
}

/// Whether `c` is a character inside a string: any but the double quote.
fn inside_string(c: Option<char>) -> (r: bool)
    ensures
        r == (c matches Some(ch) && ch != '"'),
{
    match c {
        Some(ch) => ch != '"',
        None => false,
    }
}

/// The tokens of `input`, in order, or the reason why it is rejected.
pub fn tokenize<'a>(input: &'a str) -> (r: Result<Vec<Token<'a>>, LexError>)
    requires
        input@.len() < usize::MAX,
    ensures
        match tokens_of::<'a>(input@) {
            Ok(views) => r matches Ok(tokens) && token_views(tokens@) == views,
            Err(error) => r == Err::<Vec<Token<'a>>, LexError>(error),
        },
{
    Lexer::new(input).collect()
}

} // verus!
