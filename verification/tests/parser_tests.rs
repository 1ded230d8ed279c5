use celestial_script::ast::{BinaryOperator, Expr, Statement};
use celestial_script::lexer::Lexer;
use celestial_script::parser::{Expected, ParseError, Parser};
use celestial_script::token::{LexError, Token};

fn parse(source: &str) -> Result<Vec<Statement>, ParseError> {
    let mut parser = Parser::new(Lexer::new(String::from(source)));
    parser.parse()
}

fn var(name: &str) -> Expr {
    Expr::Identifier(String::from(name))
}

fn plus(left: Expr, right: Expr) -> Expr {
    Expr::BinaryOp(Box::new(left), BinaryOperator::Plus, Box::new(right))
}

fn unexpected(expected: Expected, found: Token) -> ParseError {
    ParseError::Unexpected { expected, found }
}

#[test]
fn empty_program() {
    assert_eq!(parse(""), Ok(vec![]));
    assert_eq!(parse(" \n\t "), Ok(vec![]));
}

#[test]
fn let_statement() {
    assert_eq!(
        parse("let x = 10;"),
        Ok(vec![Statement::Let(String::from("x"), Expr::Number(10))])
    );
}

#[test]
fn print_statement() {
    assert_eq!(parse("print x;"), Ok(vec![Statement::Print(var("x"))]));
    assert_eq!(parse("print 5;"), Ok(vec![Statement::Print(Expr::Number(5))]));
}

#[test]
fn addition_is_left_associative() {
    assert_eq!(
        parse("print a + b + c;"),
        Ok(vec![Statement::Print(plus(plus(var("a"), var("b")), var("c")))])
    );
    assert_eq!(
        parse("let s = 1 + x + 2 + y;"),
        Ok(vec![Statement::Let(
            String::from("s"),
            plus(plus(plus(Expr::Number(1), var("x")), Expr::Number(2)), var("y"))
        )])
    );
}

#[test]
fn statements_keep_their_order() {
    assert_eq!(
        parse("let x = 10; let y = 20; print x + y;"),
        Ok(vec![
            Statement::Let(String::from("x"), Expr::Number(10)),
            Statement::Let(String::from("y"), Expr::Number(20)),
            Statement::Print(plus(var("x"), var("y"))),
        ])
    );
}

#[test]
fn missing_equals_is_an_error() {
    assert_eq!(
        parse("let x 10;"),
        Err(unexpected(Expected::Equals, Token::Number(10)))
    );
}

#[test]
fn missing_name_is_an_error() {
    assert_eq!(parse("let = 10;"), Err(unexpected(Expected::Identifier, Token::Equals)));
    assert_eq!(parse("let 5 = 10;"), Err(unexpected(Expected::Identifier, Token::Number(5))));
    assert_eq!(parse("let let = 1;"), Err(unexpected(Expected::Identifier, Token::Let)));
    assert_eq!(parse("let"), Err(unexpected(Expected::Identifier, Token::EOF)));
}

#[test]
fn missing_semicolon_is_an_error() {
    assert_eq!(parse("let x = 10"), Err(unexpected(Expected::Semicolon, Token::EOF)));
    assert_eq!(parse("print x print y;"), Err(unexpected(Expected::Semicolon, Token::Print)));
    assert_eq!(
        parse("print 1 2;"),
        Err(unexpected(Expected::Semicolon, Token::Number(2)))
    );
    assert_eq!(parse("let x = 1 = 2;"), Err(unexpected(Expected::Semicolon, Token::Equals)));
}

#[test]
fn missing_operand_is_an_error() {
    assert_eq!(parse("print ;"), Err(unexpected(Expected::Operand, Token::Semicolon)));
    assert_eq!(parse("print 1 + ;"), Err(unexpected(Expected::Operand, Token::Semicolon)));
    assert_eq!(parse("print 1 + + 2;"), Err(unexpected(Expected::Operand, Token::Plus)));
    assert_eq!(parse("let x = ;"), Err(unexpected(Expected::Operand, Token::Semicolon)));
    assert_eq!(parse("let x ="), Err(unexpected(Expected::Operand, Token::EOF)));
    assert_eq!(parse("print print;"), Err(unexpected(Expected::Operand, Token::Print)));
}

#[test]
fn statement_must_start_with_keyword() {
    assert_eq!(
        parse("x = 1;"),
        Err(unexpected(Expected::Statement, Token::Identifier(String::from("x"))))
    );
    assert_eq!(parse("1;"), Err(unexpected(Expected::Statement, Token::Number(1))));
    assert_eq!(parse(";"), Err(unexpected(Expected::Statement, Token::Semicolon)));
    assert_eq!(parse("let x = 1;;"), Err(unexpected(Expected::Statement, Token::Semicolon)));
    assert_eq!(parse("+"), Err(unexpected(Expected::Statement, Token::Plus)));
}

#[test]
fn first_error_wins() {
    assert_eq!(
        parse("let x 10; #"),
        Err(unexpected(Expected::Equals, Token::Number(10)))
    );
    assert_eq!(
        parse("print 1; @ let x 10;"),
        Err(ParseError::Lex(LexError::UnexpectedChar('@')))
    );
}

#[test]
fn lexical_error_stops_parsing() {
    assert_eq!(
        parse("let x = 1 # comment;"),
        Err(ParseError::Lex(LexError::UnexpectedChar('#')))
    );
    assert_eq!(parse("#"), Err(ParseError::Lex(LexError::UnexpectedChar('#'))));
    assert_eq!(parse("let #"), Err(ParseError::Lex(LexError::UnexpectedChar('#'))));
    assert_eq!(parse("let x #"), Err(ParseError::Lex(LexError::UnexpectedChar('#'))));
    assert_eq!(parse("print #"), Err(ParseError::Lex(LexError::UnexpectedChar('#'))));
    assert_eq!(parse("print 1 + #"), Err(ParseError::Lex(LexError::UnexpectedChar('#'))));
    assert_eq!(
        parse("print 99999999999999999999;"),
        Err(ParseError::Lex(LexError::NumberTooLarge))
    );
}

#[test]
fn parser_new_on_used_lexer_reads_the_rest() {
    let mut lexer = Lexer::new(String::from("let x = 1; print x;"));
    for _ in 0..5 {
        lexer.next_token().unwrap();
    }
    let mut parser = Parser::new(lexer);
    assert_eq!(parser.parse(), Ok(vec![Statement::Print(var("x"))]));
    assert_eq!(parser.parse(), Ok(vec![]));
}

#[test]
fn expression_clone_is_equal() {
    let e = plus(plus(var("a"), Expr::Number(2)), var("c"));
    assert_eq!(e.clone(), e);
    let s = Statement::Let(String::from("x"), e);
    assert_eq!(s.clone(), s);
    let p = Statement::Print(var("q"));
    assert_eq!(p.clone(), p);
    assert_ne!(p, s);
}
