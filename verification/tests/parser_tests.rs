use clay::ast::{Expression, MatchPairExpression, Program, Statement};
use clay::errors::ParseError;
use clay::lexer::Lexer;
use clay::parser::{IdentTypes, Parser, Precedence};
use clay::token::{Position, Token, TokenType};

fn lex(source: &str) -> Vec<Token<'_>> {
    Lexer::new(source).collect().unwrap()
}

fn parse(source: &str) -> Program<'_> {
    Parser::new(lex(source)).parse_program().unwrap()
}

fn parse_error(source: &str) -> ParseError<'_> {
    match Parser::new(lex(source)).parse_program() {
        Ok(program) => panic!("parsed: {:?}", program),
        Err(error) => error,
    }
}

fn kind(token: &Token) -> String {
    match token.kind {
        TokenType::Ident(name) => name.to_string(),
        TokenType::Integer(n) => format!("{}", n),
        TokenType::Float(text) => text.to_string(),
        TokenType::String(text) => format!("{:?}", text),
        other => format!("{:?}", other),
    }
}

fn names(idents: &[Token], separator: &str) -> String {
    let parts: Vec<String> = idents.iter().map(kind).collect();
    parts.join(separator)
}

fn list(exprs: &[Box<Expression>]) -> String {
    let parts: Vec<String> = exprs.iter().map(|e| expr(e)).collect();
    parts.join(", ")
}

fn clause(pair: &MatchPairExpression) -> String {
    format!("{} -> {}", list(&pair.predicate), stmt(&pair.statement))
}

fn expr(e: &Expression) -> String {
    match e {
        Expression::DefinitionIdentifier { idents } => format!("<{}>", names(idents, ", ")),
        Expression::NormalIdentifier { idents } => names(idents, "."),
        Expression::StringLiteral { token }
        | Expression::IntegerLiteral { token }
        | Expression::FloatLiteral { token } => kind(token),
        Expression::UnderscoreLiteral { .. } => "_".to_string(),
        Expression::ArrayLiteral { elements, .. } => format!("[{}]", list(elements)),
        Expression::FunctionLiteral { parameters, statements, .. } => {
            format!("fn{} {}", expr(parameters), stmt(statements))
        }
        Expression::CallExpression { parameters, function, .. } => {
            format!("call({}; {})", expr(function), list(parameters))
        }
        Expression::InfixExpression { token, right, left } => {
            format!("({} {} {})", expr(left), kind(token), expr(right))
        }
        Expression::MatchExpression { default, pairs, .. } => {
            let parts: Vec<String> = pairs.iter().map(clause).collect();
            let otherwise = match default {
                Some(s) => stmt(s),
                None => "none".to_string(),
            };
            format!("match[{}; default {}]", parts.join("; "), otherwise)
        }
        other => format!("{:?}", other),
    }
}

fn stmt(s: &Statement) -> String {
    match s {
        Statement::BlockStatement { statements, .. } => {
            let parts: Vec<String> = statements.iter().map(stmt).collect();
            format!("{{{}}}", parts.join("; "))
        }
        Statement::ExpressionStatement { expression, .. } => expr(expression),
        Statement::AssignStatement { expression, defined, .. } => {
            format!("{} := {}", expr(defined), expr(expression))
        }
        Statement::UpdateStatement { ident, expression, .. } => {
            format!("{} = {}", expr(ident), expr(expression))
        }
        Statement::ReturnStatement { value, .. } => format!("return {}", expr(value)),
        Statement::ImportStatement { value, .. } => format!("import {}", kind(value)),
    }
}

fn shapes(program: &Program) -> Vec<String> {
    program.statements.iter().map(stmt).collect()
}

#[test]
fn full_test() {
    let test_str = r#"
        import z
        2 + 2 * 3
        "#;
    let l = Lexer::new(test_str);
    let z = l.collect().unwrap();

    let mut p = Parser::new(z);
    let program = p.parse_program().unwrap();
    assert_eq!(shapes(&program), vec!["import z", "(2 Plus (2 Asterisk 3))"]);
}

#[test]
fn ident_assign() {
    let test_str = r#"
        import http
        z, x := (15 + 2) * 3
        z = 5
        "#;
    let program = parse(test_str);
    assert_eq!(
        shapes(&program),
        vec!["import http", "<z, x> := ((15 Plus 2) Asterisk 3)", "z = 5"]
    );
}

#[test]
fn function_check() {
    let test_str = r#"
        x := (|z, m| -> {
            return m + z.length
        })("hi", 2)

        z := "hi"
        "#;

    let lexer = Lexer::new(test_str).collect().unwrap();
    let parser = Parser::new(lexer).parse_program().unwrap();
    println!("{:#?}", parser);
    assert_eq!(
        shapes(&parser),
        vec![
            "<x> := call(fn<z, m> {return (m Plus z.length)}; \"hi\", 2)",
            "<z> := \"hi\"",
        ]
    );
}

#[test]
fn match_check() {
    let test_str = r#"
        x := |n| -> x match { 5, x -> "five", x, _ -> "z", _ -> "not five :)"}
        "#;

    let lexer = Lexer::new(test_str).collect().unwrap();
    let parser = Parser::new(lexer).parse_program().unwrap();
    println!("{:#?}", parser);
    assert_eq!(
        shapes(&parser),
        vec![
            "<x> := fn<n> {return match[5, x -> {return \"five\"}; x, _ -> {return \"z\"}; \
             default {return \"not five :)\"}]}",
        ]
    );
}

#[test]
fn arr_check() {
    let test_str = r#"
        arr := ["hi", 3, 4, 5]
        mapped := (arr.map((|v| -> v + 2)))
        "#;

    let lexer = Lexer::new(test_str).collect().unwrap();
    let parser = Parser::new(lexer).parse_program().unwrap();
    println!("{:#?}", parser);
    assert_eq!(
        shapes(&parser),
        vec![
            "<arr> := [\"hi\", 3, 4, 5]",
            "<mapped> := call(arr.map; fn<v> {return (v Plus 2)})",
        ]
    );
}

#[test]
fn z_check() {
    let test_str = r#"
        arr := http.io(3)
        
        "#;

    let lexer = Lexer::new(test_str).collect().unwrap();
    let parser = Parser::new(lexer).parse_program().unwrap();
    println!("{:#?}", parser);
    assert_eq!(shapes(&parser), vec!["<arr> := call(http.io; 3)"]);
}

#[test]
fn multiplication_binds_tighter_than_addition() {
    assert_eq!(shapes(&parse("2 + 2 * 3")), vec!["(2 Plus (2 Asterisk 3))"]);
    assert_eq!(shapes(&parse("2 * 2 + 3")), vec!["((2 Asterisk 2) Plus 3)"]);
    assert_eq!(shapes(&parse("7 + 8 * 9")), vec!["(7 Plus (8 Asterisk 9))"]);
}

#[test]
fn equal_levels_group_to_the_left() {
    assert_eq!(shapes(&parse("2 - 3 - 4")), vec!["((2 Minus 3) Minus 4)"]);
    assert_eq!(shapes(&parse("8 / 4 * 2")), vec!["((8 Slash 4) Asterisk 2)"]);
}

#[test]
fn grouping_overrides_precedence() {
    assert_eq!(shapes(&parse("(2 + 2) * 3")), vec!["((2 Plus 2) Asterisk 3)"]);
}

#[test]
fn destructuring_definition() {
    let program = parse("x, z := 3 + 2");
    assert_eq!(program.statements.len(), 1);
    match &program.statements[0] {
        Statement::AssignStatement { token, expression, defined } => {
            assert_eq!(token.kind, TokenType::ColonEqual);
            match &**defined {
                Expression::DefinitionIdentifier { idents } => {
                    assert_eq!(idents.len(), 2);
                    assert_eq!(idents[0].kind, TokenType::Ident("x"));
                    assert_eq!(idents[1].kind, TokenType::Ident("z"));
                }
                other => panic!("defined is {:?}", other),
            }
            assert_eq!(expr(expression), "(3 Plus 2)");
        }
        other => panic!("statement is {:?}", other),
    }
}

#[test]
fn path_update() {
    let program = parse("m.e = \"3\"");
    assert_eq!(program.statements.len(), 1);
    match &program.statements[0] {
        Statement::UpdateStatement { token, ident, expression } => {
            assert_eq!(token.kind, TokenType::Equal);
            match &**ident {
                Expression::NormalIdentifier { idents } => {
                    assert_eq!(idents.len(), 2);
                    assert_eq!(idents[0].kind, TokenType::Ident("m"));
                    assert_eq!(idents[1].kind, TokenType::Ident("e"));
                }
                other => panic!("ident is {:?}", other),
            }
            match &**expression {
                Expression::StringLiteral { token } => {
                    assert_eq!(token.kind, TokenType::String("3"))
                }
                other => panic!("value is {:?}", other),
            }
        }
        other => panic!("statement is {:?}", other),
    }
}

#[test]
fn function_bodies_of_both_forms_agree() {
    let short = parse("|x| -> x + 1");
    let long = parse("|x| -> { return x + 1 }");
    assert_eq!(shapes(&short), vec!["fn<x> {return (x Plus 1)}"]);
    assert_eq!(shapes(&short), shapes(&long));
    for program in [&short, &long] {
        match &program.statements[0] {
            Statement::ExpressionStatement { expression, .. } => match &**expression {
                Expression::FunctionLiteral { statements, .. } => match statements {
                    Statement::BlockStatement { statements, .. } => {
                        assert_eq!(statements.len(), 1);
                        assert!(matches!(statements[0], Statement::ReturnStatement { .. }));
                    }
                    other => panic!("body is {:?}", other),
                },
                other => panic!("expression is {:?}", other),
            },
            other => panic!("statement is {:?}", other),
        }
    }
}

#[test]
fn call_arguments_in_source_order() {
    let program = parse("f(1, 2, 3)");
    match &program.statements[0] {
        Statement::ExpressionStatement { expression, .. } => match &**expression {
            Expression::CallExpression { token, parameters, function } => {
                assert_eq!(token.kind, TokenType::LParen);
                assert_eq!(expr(function), "f");
                assert_eq!(parameters.len(), 3);
                assert_eq!(expr(&parameters[0]), "1");
                assert_eq!(expr(&parameters[1]), "2");
                assert_eq!(expr(&parameters[2]), "3");
            }
            other => panic!("expression is {:?}", other),
        },
        other => panic!("statement is {:?}", other),
    }
    assert_eq!(shapes(&parse("f()")), vec!["call(f; )"]);
    assert_eq!(shapes(&parse("[]")), vec!["[]"]);
}

#[test]
fn parsing_twice_gives_equal_trees() {
    let source = "import m\nx, y := f(1, [2, 3]) * (4 - z.w)\ng := |a| -> a match { 1 -> 2, _ -> 3 }";
    let tokens = lex(source);
    let first = Parser::new(tokens.clone()).parse_program().unwrap();
    let second = Parser::new(tokens).parse_program().unwrap();
    assert_eq!(shapes(&first), shapes(&second));
    assert_eq!(format!("{:?}", first), format!("{:?}", second));
    assert_eq!(first.statements.len(), 3);
}

#[test]
fn definition_without_a_value_is_an_error() {
    match parse_error("x :=") {
        ParseError::MissingExpression { found, .. } => assert!(found.is_none()),
        other => panic!("error is {:?}", other),
    }
    match parse_error("x, y := )") {
        ParseError::MissingExpression { found, .. } => {
            assert_eq!(found.unwrap().kind, TokenType::RParen)
        }
        other => panic!("error is {:?}", other),
    }
    match parse_error("a.b =") {
        ParseError::MissingExpression { found, .. } => assert!(found.is_none()),
        other => panic!("error is {:?}", other),
    }
}

#[test]
fn statements_follow_a_function_in_short_form() {
    assert_eq!(
        shapes(&parse("f := |x| -> x + 1\ng := 2")),
        vec!["<f> := fn<x> {return (x Plus 1)}", "<g> := 2"]
    );
    assert_eq!(shapes(&parse("|| -> 1")), vec!["fn<> {return 1}"]);
}

#[test]
fn statements_follow_a_match() {
    assert_eq!(
        shapes(&parse("y := x match { 1 -> 2 }\nz := 3")),
        vec!["<y> := match[1 -> {return 2}; default none]", "<z> := 3"]
    );
    assert_eq!(shapes(&parse("x match { }")), vec!["match[; default none]"]);
    assert_eq!(
        shapes(&parse("x match { _ -> { return 1 }, 2 -> 3, }")),
        vec!["match[2 -> {return 3}; default {return 1}]"]
    );
}

#[test]
fn identifiers_that_begin_an_expression() {
    assert_eq!(shapes(&parse("a.b + 1")), vec!["(a.b Plus 1)"]);
    assert_eq!(shapes(&parse("a, b + 1")), vec!["(a.b Plus 1)"]);
    assert_eq!(shapes(&parse("f(x)")), vec!["call(f; x)"]);
    assert_eq!(shapes(&parse("x y := 1")), vec!["x", "<y> := 1"]);
    let program = parse("a.b");
    match &program.statements[0] {
        Statement::ExpressionStatement { token, .. } => {
            assert_eq!(token.kind, TokenType::Ident("b"))
        }
        other => panic!("statement is {:?}", other),
    }
}

#[test]
fn the_program_ends_where_no_statement_begins() {
    assert_eq!(shapes(&parse("")), Vec::<String>::new());
    assert_eq!(shapes(&parse("1 ) 2")), vec!["1"]);
    let mut parser = Parser::new(lex("1 2 ) 3"));
    let program = parser.parse_program().unwrap();
    assert_eq!(shapes(&program), vec!["1", "2"]);
    assert_eq!(parser.get_current_token().unwrap().kind, TokenType::RParen);
}

#[test]
fn structural_errors() {
    match parse_error("(1 + 2") {
        ParseError::OutOfTokens { reason } => assert_eq!(reason, "defining a grouped expression"),
        other => panic!("error is {:?}", other),
    }
    match parse_error("(1 2)") {
        ParseError::UnexpectedToken { expected, found, reason } => {
            assert_eq!(expected, TokenType::RParen);
            assert_eq!(found.kind, TokenType::Integer(2));
            assert_eq!(found.position, Position::new(1, 3, 3));
            assert_eq!(reason, "defining a grouped expression");
        }
        other => panic!("error is {:?}", other),
    }
    match parse_error("a. 1") {
        ParseError::ExpectedIdentifier { after, found } => {
            assert_eq!(after.kind, TokenType::Period);
            assert_eq!(found.unwrap().kind, TokenType::Integer(1));
        }
        other => panic!("error is {:?}", other),
    }
    match parse_error("a,") {
        ParseError::ExpectedIdentifier { after, found } => {
            assert_eq!(after.kind, TokenType::Comma);
            assert!(found.is_none());
        }
        other => panic!("error is {:?}", other),
    }
    match parse_error("1 +") {
        ParseError::MissingExpression { found, reason } => {
            assert!(found.is_none());
            assert_eq!(reason, "giving the right side of an operator");
        }
        other => panic!("error is {:?}", other),
    }
    match parse_error("return") {
        ParseError::MissingExpression { found, .. } => assert!(found.is_none()),
        other => panic!("error is {:?}", other),
    }
    match parse_error("import") {
        ParseError::OutOfTokens { reason } => assert_eq!(reason, "naming the module of an import"),
        other => panic!("error is {:?}", other),
    }
    match parse_error("[1, 2") {
        ParseError::OutOfTokens { reason } => assert_eq!(reason, "listing expressions"),
        other => panic!("error is {:?}", other),
    }
    match parse_error("[") {
        ParseError::OutOfTokens { reason } => assert_eq!(reason, "looking at the next token"),
        other => panic!("error is {:?}", other),
    }
    match parse_error("| 5 -> 1") {
        ParseError::UnexpectedToken { expected, found, .. } => {
            assert_eq!(expected, TokenType::Bar);
            assert_eq!(found.kind, TokenType::Integer(5));
        }
        other => panic!("error is {:?}", other),
    }
    match parse_error("|x| 1") {
        ParseError::UnexpectedToken { expected, found, .. } => {
            assert_eq!(expected, TokenType::Arrow);
            assert_eq!(found.kind, TokenType::Integer(1));
        }
        other => panic!("error is {:?}", other),
    }
    match parse_error("|x| ->") {
        ParseError::MissingExpression { found, reason } => {
            assert!(found.is_none());
            assert_eq!(reason, "defining the body of a function");
        }
        other => panic!("error is {:?}", other),
    }
    match parse_error("|x| -> { return x") {
        ParseError::OutOfTokens { reason } => assert_eq!(reason, "closing a block"),
        other => panic!("error is {:?}", other),
    }
    match parse_error("x match 1") {
        ParseError::UnexpectedToken { expected, found, reason } => {
            assert_eq!(expected, TokenType::LBrace);
            assert_eq!(found.kind, TokenType::Integer(1));
            assert_eq!(reason, "defining the opening of a match expression");
        }
        other => panic!("error is {:?}", other),
    }
    match parse_error("x match { 1 2 }") {
        ParseError::UnexpectedToken { expected, found, reason } => {
            assert_eq!(expected, TokenType::Arrow);
            assert_eq!(found.kind, TokenType::Integer(2));
            assert_eq!(reason, "defining a match clause");
        }
        other => panic!("error is {:?}", other),
    }
    match parse_error("x match { 1 -> 2 3 }") {
        ParseError::UnexpectedToken { expected, found, .. } => {
            assert_eq!(expected, TokenType::RBrace);
            assert_eq!(found.kind, TokenType::Integer(3));
        }
        other => panic!("error is {:?}", other),
    }
    match parse_error("x match { 1 -> 2") {
        ParseError::OutOfTokens { reason } => assert_eq!(reason, "closing a match expression"),
        other => panic!("error is {:?}", other),
    }
}

#[test]
fn cursor_primitives() {
    let mut parser = Parser::new(lex("a + b"));
    assert_eq!(parser.get_current_token().unwrap().kind, TokenType::Ident("a"));
    assert_eq!(parser.get_peek_token().unwrap().kind, TokenType::Plus);
    assert_eq!(parser.get_current_precedence(), Some(Precedence::LOWEST));
    assert_eq!(parser.get_peek_precedence(), Some(Precedence::SUM));
    assert_eq!(parser.peek_is(TokenType::Plus).unwrap(), true);
    assert_eq!(parser.peek_is(TokenType::Minus).unwrap(), false);
    assert!(parser.expect_peek(TokenType::Minus, "testing").is_err());
    assert_eq!(parser.get_current_token().unwrap().kind, TokenType::Ident("a"));
    assert!(parser.expect_peek(TokenType::Plus, "testing").is_ok());
    assert_eq!(parser.get_current_token().unwrap().kind, TokenType::Plus);
    parser.consume_token();
    assert_eq!(parser.get_current_token().unwrap().kind, TokenType::Ident("b"));
    assert!(parser.get_peek_token().is_none());
    assert_eq!(parser.get_peek_precedence(), None);
    assert!(matches!(parser.peek_is(TokenType::Plus), Err(ParseError::OutOfTokens { .. })));
    assert!(matches!(
        parser.expect_peek(TokenType::Plus, "testing"),
        Err(ParseError::OutOfTokens { reason: "testing" })
    ));
    parser.consume_token();
    assert!(parser.get_current_token().is_none());
    assert_eq!(parser.get_current_precedence(), None);
    assert!(parser.parse_integer_literal().is_err());
    assert!(parser.parse_expression(Precedence::LOWEST, None).unwrap().is_none());
    assert!(parser.parse_statement().unwrap().is_none());
}

#[test]
fn identifier_chains() {
    let mut parser = Parser::new(lex("a, b.c := 1"));
    let (idents, shape) = parser.parse_ident_literals().unwrap();
    assert_eq!(names(&idents, " "), "a b c");
    assert_eq!(shape, IdentTypes::Normal);
    assert_eq!(parser.get_current_token().unwrap().kind, TokenType::ColonEqual);

    let mut parser = Parser::new(lex("a.b, c"));
    let (idents, shape) = parser.parse_ident_literals().unwrap();
    assert_eq!(idents.len(), 3);
    assert_eq!(shape, IdentTypes::Destructuring);
    assert!(parser.get_current_token().is_none());

    let mut parser = Parser::new(lex("1 a"));
    let (idents, shape) = parser.parse_ident_literals().unwrap();
    assert_eq!(idents.len(), 0);
    assert_eq!(shape, IdentTypes::Destructuring);
    assert_eq!(parser.get_current_token().unwrap().kind, TokenType::Integer(1));

    let mut parser = Parser::new(lex("a.b.c, d"));
    let path = parser.parse_ident_literal(None).unwrap();
    assert_eq!(expr(&path), "a.b.c");
    assert_eq!(parser.get_current_token().unwrap().kind, TokenType::Ident("c"));

    let mut parser = Parser::new(lex("x"));
    let given = lex("p q");
    let path = parser.parse_ident_literal(Some(given)).unwrap();
    assert_eq!(expr(&path), "p.q");
    assert_eq!(parser.get_current_token().unwrap().kind, TokenType::Ident("x"));
}

#[test]
fn rules_by_kind() {
    let mut parser = Parser::new(lex("1 + 2"));
    let (exists, built) = parser.prefix_fn(TokenType::Integer(0), false, None).unwrap();
    assert!(exists && built.is_none());
    let (exists, built) = parser.prefix_fn(TokenType::Plus, true, None).unwrap();
    assert!(!exists && built.is_none());
    let (exists, built) = parser.prefix_fn(TokenType::Integer(0), true, None).unwrap();
    assert!(exists);
    assert_eq!(expr(&built.unwrap()), "1");
    let (exists, built) = parser.infix_fn(TokenType::Equal, true, None).unwrap();
    assert!(!exists && built.is_none());
    let (exists, built) = parser.infix_fn(TokenType::Plus, false, None).unwrap();
    assert!(exists && built.is_none());
    assert!(matches!(
        parser.infix_fn(TokenType::Plus, true, None),
        Err(ParseError::MissingExpression { .. })
    ));
    let left = parser.parse_integer_literal().unwrap();
    parser.consume_token();
    let (exists, built) = parser.infix_fn(TokenType::Plus, true, Some(left)).unwrap();
    assert!(exists);
    assert_eq!(expr(&built.unwrap()), "(1 Plus 2)");
}

#[test]
fn constructs_one_by_one() {
    let mut parser = Parser::new(lex("(1 + 2) 3"));
    assert_eq!(expr(&parser.parse_grouped_expression().unwrap()), "(1 Plus 2)");
    assert_eq!(parser.get_current_token().unwrap().kind, TokenType::RParen);

    let mut parser = Parser::new(lex("[1, 2 3] 4"));
    assert_eq!(expr(&parser.parse_array_literal().unwrap()), "[1, 2, 3]");
    assert_eq!(parser.get_current_token().unwrap().kind, TokenType::RBracket);

    let mut parser = Parser::new(lex("(a, b) c"));
    assert_eq!(list(&parser.parse_expression_list(TokenType::RParen).unwrap()), "a, b");
    assert_eq!(parser.get_current_token().unwrap().kind, TokenType::RParen);

    let mut parser = Parser::new(lex("{ x := 1 return x } 2"));
    assert_eq!(
        stmt(&parser.parse_block_statement(TokenType::RBrace).unwrap()),
        "{<x> := 1; return x}"
    );
    assert_eq!(parser.get_current_token().unwrap().kind, TokenType::RBrace);

    let mut parser = Parser::new(lex("return 1 + 2"));
    assert_eq!(stmt(&parser.parse_return_statement().unwrap().unwrap()), "return (1 Plus 2)");

    let mut parser = Parser::new(lex("import 5"));
    assert_eq!(stmt(&parser.parse_import_statement().unwrap().unwrap()), "import 5");

    let mut parser = Parser::new(lex("1 * 2 + 3"));
    let product = parser.parse_expression(Precedence::SUM, None).unwrap().unwrap();
    assert_eq!(expr(&product), "(1 Asterisk 2)");
    assert_eq!(parser.get_current_token().unwrap().kind, TokenType::Integer(2));

    let mut parser = Parser::new(lex("2, 3"));
    let callee = parser.parse_integer_literal().unwrap();
    assert!(matches!(
        parser.parse_call_expression(callee),
        Err(ParseError::UnexpectedToken { expected: TokenType::LParen, .. })
    ));
}

#[test]
fn the_table_of_levels() {
    assert_eq!(Precedence::from_tok(TokenType::Equal), Some(Precedence::EQUALS));
    assert_eq!(Precedence::from_tok(TokenType::BangEqual), Some(Precedence::EQUALS));
    assert_eq!(Precedence::from_tok(TokenType::DoubleEqual), Some(Precedence::LOWEST));
    assert_eq!(Precedence::from_tok(TokenType::LT), Some(Precedence::LESSGREATER));
    assert_eq!(Precedence::from_tok(TokenType::GTEq), Some(Precedence::LESSGREATER));
    assert_eq!(Precedence::from_tok(TokenType::Or), Some(Precedence::OR));
    assert_eq!(Precedence::from_tok(TokenType::And), Some(Precedence::AND));
    assert_eq!(Precedence::from_tok(TokenType::Minus), Some(Precedence::SUM));
    assert_eq!(Precedence::from_tok(TokenType::Slash), Some(Precedence::PRODUCT));
    assert_eq!(Precedence::from_tok(TokenType::LParen), Some(Precedence::CALL));
    assert_eq!(Precedence::from_tok(TokenType::LBracket), Some(Precedence::INDEX));
    assert_eq!(Precedence::from_tok(TokenType::Match), Some(Precedence::MATCH));
    assert_eq!(Precedence::from_tok(TokenType::Ident("x")), Some(Precedence::LOWEST));
    let order = [
        Precedence::LOWEST,
        Precedence::AND,
        Precedence::OR,
        Precedence::EQUALS,
        Precedence::LESSGREATER,
        Precedence::SUM,
        Precedence::PRODUCT,
        Precedence::PREFIX,
        Precedence::CALL,
        Precedence::INDEX,
        Precedence::MATCH,
    ];
    for (i, level) in order.iter().enumerate() {
        assert_eq!(level.level() as usize, i);
    }
    assert!(Precedence::SUM < Precedence::PRODUCT);
}

#[test]
fn comparisons_and_logic() {
    assert_eq!(shapes(&parse("a < b + 1")), vec!["(a LT (b Plus 1))"]);
    assert_eq!(shapes(&parse("a && b != c")), vec!["(a And (b BangEqual c))"]);
    assert_eq!(shapes(&parse("a == b")), vec!["a"]);
}

fn expression_is_well_formed(e: &Expression) -> bool {
    match e {
        Expression::NormalIdentifier { idents } => !idents.is_empty(),
        Expression::ArrayLiteral { elements, .. } => {
            elements.iter().all(|e| expression_is_well_formed(e))
        }
        Expression::FunctionLiteral { parameters, statements, .. } => {
            matches!(**parameters, Expression::DefinitionIdentifier { .. })
                && matches!(statements, Statement::BlockStatement { .. })
                && statement_is_well_formed(statements)
        }
        Expression::CallExpression { parameters, function, .. } => {
            expression_is_well_formed(function)
                && parameters.iter().all(|e| expression_is_well_formed(e))
        }
        Expression::InfixExpression { right, left, .. } => {
            expression_is_well_formed(left) && expression_is_well_formed(right)
        }
        Expression::MatchExpression { default, pairs, .. } => {
            default.iter().all(statement_is_well_formed)
                && pairs.iter().all(|pair| {
                    !pair.predicate.is_empty()
                        && statement_is_well_formed(&pair.statement)
                        && pair.predicate.iter().all(|e| expression_is_well_formed(e))
                })
        }
        _ => true,
    }
}

fn statement_is_well_formed(s: &Statement) -> bool {
    match s {
        Statement::BlockStatement { statements, .. } => {
            statements.iter().all(statement_is_well_formed)
        }
        Statement::ExpressionStatement { expression, .. } => expression_is_well_formed(expression),
        Statement::AssignStatement { expression, defined, .. } => {
            matches!(&**defined, Expression::DefinitionIdentifier { idents } if !idents.is_empty())
                && expression_is_well_formed(expression)
        }
        Statement::UpdateStatement { ident, expression, .. } => {
            matches!(&**ident, Expression::NormalIdentifier { idents } if !idents.is_empty())
                && expression_is_well_formed(expression)
        }
        Statement::ReturnStatement { value, .. } => expression_is_well_formed(value),
        Statement::ImportStatement { .. } => true,
    }
}

#[test]
fn parsed_trees_are_well_formed() {
    let sources = [
        "import http\nz, x := (15 + 2) * 3\nz = 5",
        "x := (|z, m| -> { return m + z.length })(\"hi\", 2)",
        "x := |n| -> x match { 5, x -> \"five\", x, _ -> \"z\", _ -> \"not five :)\"}",
        "arr := [\"hi\", 3, 4, 5]\nmapped := (arr.map((|v| -> v + 2)))",
        "|| -> { a.b = [1, f(2)] return a }",
    ];
    for source in sources {
        let program = parse(source);
        assert!(!program.statements.is_empty());
        assert!(program.statements.iter().all(statement_is_well_formed));
    }
}
