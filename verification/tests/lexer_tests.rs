use clay::lexer::{tokenize, Lexer};
use clay::errors::LexError;
use clay::token::{Position, Token, TokenType};

#[test]
fn lib_it_works() {
    assert_eq!(2 + 2, 4);
}

#[test]
fn lexer_it_works() {
    let test_str = r#"1 + 2.3555
        "hi there!" awefawe
        "#;
    let l = Lexer::new(test_str);
    let z = l.collect().unwrap();
    println!("{:#?}", z);
    assert_eq!(z.len(), 5);
    assert_eq!(z[0].kind, TokenType::Integer(1));
    assert_eq!(z[1].kind, TokenType::Plus);
    assert_eq!(z[2].kind, TokenType::Float("2.3555"));
    assert_eq!(z[3].kind, TokenType::String("hi there!"));
    assert_eq!(z[4].kind, TokenType::Ident("awefawe"));
    assert_eq!(z[0].position, Position::new(1, 0, 0));
    assert_eq!(z[4].position, Position::new(2, 21, 31));
}

#[test]
fn tokenize_is_collect() {
    let a = tokenize("a := 1").unwrap();
    assert_eq!(a.len(), 3);
}

fn kinds(source: &str) -> Vec<TokenType<'_>> {
    tokenize(source).unwrap().iter().map(|t| t.kind).collect()
}

#[test]
fn pairs_of_characters_come_before_single_ones() {
    assert_eq!(
        kinds("== = != ! && & -> - -= += + *= * /= / <= < >= > := :"),
        vec![
            TokenType::DoubleEqual,
            TokenType::Equal,
            TokenType::BangEqual,
            TokenType::Bang,
            TokenType::And,
            TokenType::Ampersand,
            TokenType::Arrow,
            TokenType::Minus,
            TokenType::MinusEqual,
            TokenType::PlusEqual,
            TokenType::Plus,
            TokenType::AsteriskEqual,
            TokenType::Asterisk,
            TokenType::SlashEqual,
            TokenType::Slash,
            TokenType::LTEq,
            TokenType::LT,
            TokenType::GTEq,
            TokenType::GT,
            TokenType::ColonEqual,
            TokenType::Colon,
        ]
    );
    assert_eq!(kinds("=>"), vec![TokenType::Equal, TokenType::GT]);
    assert_eq!(kinds("==="), vec![TokenType::DoubleEqual, TokenType::Equal]);
}

#[test]
fn structural_symbols() {
    assert_eq!(
        kinds("()[]{},._|"),
        vec![
            TokenType::LParen,
            TokenType::RParen,
            TokenType::LBracket,
            TokenType::RBracket,
            TokenType::LBrace,
            TokenType::RBrace,
            TokenType::Comma,
            TokenType::Period,
            TokenType::Underscore,
            TokenType::Bar,
        ]
    );
}

#[test]
fn numerals() {
    assert_eq!(kinds("0 007 42"), vec![
        TokenType::Integer(0),
        TokenType::Integer(7),
        TokenType::Integer(42),
    ]);
    assert_eq!(kinds("3.14"), vec![TokenType::Float("3.14")]);
    assert_eq!(
        kinds("3.toString"),
        vec![TokenType::Integer(3), TokenType::Period, TokenType::Ident("toString")]
    );
    assert_eq!(kinds("3."), vec![TokenType::Integer(3), TokenType::Period]);
    assert_eq!(kinds("1.5.x"), vec![
        TokenType::Float("1.5"),
        TokenType::Period,
        TokenType::Ident("x"),
    ]);
    assert_eq!(kinds(&format!("{}", usize::MAX)), vec![TokenType::Integer(usize::MAX)]);
}

#[test]
fn numerals_that_are_rejected() {
    let too_long = format!("{}0", usize::MAX);
    assert_eq!(
        tokenize(&too_long).unwrap_err(),
        LexError::InvalidInteger {
            start: Position::new(1, 0, 0),
            end: Position::new(1, too_long.len(), too_long.len()),
        }
    );
    let one_more = "18446744073709551616340282366920938463463374607431768211456";
    assert!(matches!(tokenize(one_more), Err(LexError::InvalidInteger { .. })));
    assert_eq!(
        tokenize(" 1.2.3").unwrap_err(),
        LexError::InvalidFloat { start: Position::new(1, 1, 1), end: Position::new(1, 6, 6) }
    );
}

#[test]
fn words_and_keywords() {
    assert_eq!(
        kinds("match import return matches Return a_b _x"),
        vec![
            TokenType::Match,
            TokenType::Import,
            TokenType::Return,
            TokenType::Ident("matches"),
            TokenType::Ident("Return"),
            TokenType::Ident("a_b"),
            TokenType::Underscore,
            TokenType::Ident("x"),
        ]
    );
    assert_eq!(kinds("ab1"), vec![TokenType::Ident("ab"), TokenType::Integer(1)]);
    assert_eq!(TokenType::match_keyword("match"), TokenType::Match);
    assert_eq!(TokenType::match_keyword("import"), TokenType::Import);
    assert_eq!(TokenType::match_keyword("return"), TokenType::Return);
    assert_eq!(TokenType::match_keyword("other"), TokenType::Ident("other"));
    let token = Token::from_keyword("return", Position::new(3, 2, 1));
    assert_eq!(token.kind, TokenType::Return);
    assert_eq!(token.position, Position::new(3, 2, 1));
    let token = Token::new(TokenType::Comma, Position::new(1, 0, 0));
    assert_eq!(token.kind, TokenType::Comma);
}

#[test]
fn strings() {
    let tokens = tokenize("\"a b\" \"\" \"x\ny\" \"h\u{e9}!\"").unwrap();
    assert_eq!(tokens.len(), 4);
    assert_eq!(tokens[0].kind, TokenType::String("a b"));
    assert_eq!(tokens[0].position, Position::new(1, 5, 5));
    assert_eq!(tokens[1].kind, TokenType::String(""));
    assert_eq!(tokens[1].position, Position::new(1, 8, 8));
    assert_eq!(tokens[2].kind, TokenType::String("x\ny"));
    assert_eq!(tokens[2].position, Position::new(2, 3, 14));
    assert_eq!(tokens[3].kind, TokenType::String("h\u{e9}!"));
    assert_eq!(tokens[3].position, Position::new(2, 9, 20));
    assert_eq!(
        tokenize("x \"abc").unwrap_err(),
        LexError::UnterminatedString { position: Position::new(1, 2, 2) }
    );
}

#[test]
fn positions_count_lines_and_columns() {
    let tokens = tokenize("a\n  b\r\n\tc").unwrap();
    assert_eq!(tokens.len(), 3);
    assert_eq!(tokens[0].position, Position::new(1, 0, 0));
    assert_eq!(tokens[1].position, Position::new(2, 3, 4));
    assert_eq!(tokens[2].position, Position::new(3, 2, 8));
}

#[test]
fn characters_that_begin_no_token() {
    assert_eq!(
        tokenize("a ; b").unwrap_err(),
        LexError::IllegalCharacter { position: Position::new(1, 2, 2), found: ';' }
    );
    assert!(matches!(tokenize("%"), Err(LexError::IllegalCharacter { found: '%', .. })));
    assert!(matches!(tokenize("a # b"), Err(LexError::IllegalCharacter { found: '#', .. })));
    assert!(matches!(tokenize("\u{e9}"), Err(LexError::IllegalCharacter { .. })));
}

#[test]
fn one_token_at_a_time() {
    let mut lexer = Lexer::new(" ( 12 ");
    assert_eq!(lexer.get_current_char(), Some(' '));
    assert_eq!(lexer.get_peek_char(), Some('('));
    assert_eq!(lexer.get_nth_char(3), Some('1'));
    assert_eq!(lexer.get_nth_char(6), None);
    let first = lexer.next().unwrap().unwrap();
    assert_eq!(first.kind, TokenType::LParen);
    assert_eq!(first.position, Position::new(1, 1, 1));
    let second = lexer.next().unwrap().unwrap();
    assert_eq!(second.kind, TokenType::Integer(12));
    assert!(lexer.next().unwrap().is_none());
    assert!(lexer.next().unwrap().is_none());
    assert_eq!(lexer.get_current_char(), None);
    assert_eq!(lexer.get_peek_char(), None);

    let mut lexer = Lexer::new("+=x");
    let token = lexer.lex_double_char(TokenType::PlusEqual).unwrap();
    assert_eq!(token.kind, TokenType::PlusEqual);
    assert_eq!(token.position, Position::new(1, 0, 0));
    assert_eq!(lexer.get_current_char(), Some('x'));
    let token = lexer.lex_single_char(TokenType::Comma).unwrap();
    assert_eq!(token.position, Position::new(1, 2, 2));
    assert_eq!(lexer.get_current_char(), None);
    let mut lexer = Lexer::new("ab");
    lexer.consume_char();
    assert_eq!(lexer.get_current_char(), Some('b'));
}

#[test]
fn the_same_text_gives_the_same_tokens() {
    let source = "x := |a| -> a match { 1 -> \"one\", _ -> 2.5 }";
    let first = tokenize(source).unwrap();
    let second = Lexer::new(source).collect().unwrap();
    assert_eq!(first.len(), second.len());
    for (a, b) in first.iter().zip(second.iter()) {
        assert_eq!(a.kind, b.kind);
        assert_eq!(a.position, b.position);
        assert!(a.kind.same(&b.kind));
    }
    assert!(!TokenType::Ident("a").same(&TokenType::Ident("b")));
    assert!(!TokenType::Ident("a").same(&TokenType::String("a")));
    assert!(TokenType::Integer(3).same(&TokenType::Integer(3)));
    assert!(!TokenType::Plus.same(&TokenType::Minus));
}
