use celestial_script::lexer::Lexer;
use celestial_script::token::{LexError, Token};

fn tokenize(source: &str) -> Result<Vec<Token>, LexError> {
    let mut lexer = Lexer::new(String::from(source));
    let mut tokens = Vec::new();
    loop {
        let token = lexer.next_token()?;
        let done = token == Token::EOF;
        tokens.push(token);
        if done {
            return Ok(tokens);
        }
    }
}

fn ident(name: &str) -> Token {
    Token::Identifier(String::from(name))
}

#[test]
fn let_statement_tokens() {
    assert_eq!(
        tokenize("let x = 10;"),
        Ok(vec![
            Token::Let,
            ident("x"),
            Token::Equals,
            Token::Number(10),
            Token::Semicolon,
            Token::EOF,
        ])
    );
}

#[test]
fn empty_source_is_end_of_input() {
    assert_eq!(tokenize(""), Ok(vec![Token::EOF]));
    assert_eq!(tokenize("  \t\n "), Ok(vec![Token::EOF]));
}

#[test]
fn end_of_input_repeats() {
    let mut lexer = Lexer::new(String::from("x"));
    assert_eq!(lexer.next_token(), Ok(ident("x")));
    assert_eq!(lexer.next_token(), Ok(Token::EOF));
    assert_eq!(lexer.next_token(), Ok(Token::EOF));
    assert_eq!(lexer.next_token(), Ok(Token::EOF));
}

#[test]
fn whitespace_between_tokens_is_ignored() {
    let plain = tokenize("let x = 10;");
    assert_eq!(tokenize("let x=10;"), plain);
    assert_eq!(tokenize("  let\n\n x\t=\r\n   10  ;  \n"), plain);
    assert_eq!(tokenize("\u{a0}let\u{2003}x\u{3000}=\u{85}10\u{2028};"), plain);
}

#[test]
fn whitespace_splits_words() {
    assert_eq!(tokenize("ab cd"), Ok(vec![ident("ab"), ident("cd"), Token::EOF]));
    assert_eq!(tokenize("abcd"), Ok(vec![ident("abcd"), Token::EOF]));
    assert_eq!(
        tokenize("1 2"),
        Ok(vec![Token::Number(1), Token::Number(2), Token::EOF])
    );
}

#[test]
fn signs_need_no_space() {
    assert_eq!(
        tokenize("a+b;=+"),
        Ok(vec![
            ident("a"),
            Token::Plus,
            ident("b"),
            Token::Semicolon,
            Token::Equals,
            Token::Plus,
            Token::EOF,
        ])
    );
}

#[test]
fn keywords_are_whole_words() {
    assert_eq!(tokenize("let"), Ok(vec![Token::Let, Token::EOF]));
    assert_eq!(tokenize("print"), Ok(vec![Token::Print, Token::EOF]));
    assert_eq!(tokenize("lets"), Ok(vec![ident("lets"), Token::EOF]));
    assert_eq!(tokenize("le"), Ok(vec![ident("le"), Token::EOF]));
    assert_eq!(tokenize("printx"), Ok(vec![ident("printx"), Token::EOF]));
    assert_eq!(tokenize("prin"), Ok(vec![ident("prin"), Token::EOF]));
    assert_eq!(tokenize("Let"), Ok(vec![ident("Let"), Token::EOF]));
    assert_eq!(tokenize("pRint"), Ok(vec![ident("pRint"), Token::EOF]));
    assert_eq!(tokenize("lat"), Ok(vec![ident("lat"), Token::EOF]));
}

#[test]
fn identifiers_take_letters_and_digits() {
    assert_eq!(tokenize("x1y2"), Ok(vec![ident("x1y2"), Token::EOF]));
    assert_eq!(
        tokenize("12ab"),
        Ok(vec![Token::Number(12), ident("ab"), Token::EOF])
    );
    assert_eq!(tokenize("h\u{e9}llo"), Ok(vec![ident("h\u{e9}llo"), Token::EOF]));
    assert_eq!(tokenize("\u{3b1}\u{3b2}"), Ok(vec![ident("\u{3b1}\u{3b2}"), Token::EOF]));
}

#[test]
fn numbers_have_their_decimal_value() {
    assert_eq!(tokenize("0"), Ok(vec![Token::Number(0), Token::EOF]));
    assert_eq!(tokenize("7"), Ok(vec![Token::Number(7), Token::EOF]));
    assert_eq!(tokenize("1234567890"), Ok(vec![Token::Number(1234567890), Token::EOF]));
    assert_eq!(tokenize("120"), Ok(vec![Token::Number(120), Token::EOF]));
}

#[test]
fn leading_zeros_keep_the_value() {
    assert_eq!(tokenize("007"), Ok(vec![Token::Number(7), Token::EOF]));
    assert_eq!(tokenize("0000"), Ok(vec![Token::Number(0), Token::EOF]));
    assert_eq!(
        tokenize("000000000000000000000000000042"),
        Ok(vec![Token::Number(42), Token::EOF])
    );
}

#[test]
fn largest_number_fits() {
    assert_eq!(
        tokenize("9223372036854775807"),
        Ok(vec![Token::Number(i64::MAX), Token::EOF])
    );
    assert_eq!(
        tokenize("09223372036854775807"),
        Ok(vec![Token::Number(i64::MAX), Token::EOF])
    );
}

#[test]
fn number_too_large_is_an_error() {
    assert_eq!(tokenize("9223372036854775808"), Err(LexError::NumberTooLarge));
    assert_eq!(tokenize("99999999999999999999999999"), Err(LexError::NumberTooLarge));
    assert_eq!(tokenize("x = 92233720368547758070;"), Err(LexError::NumberTooLarge));
}

#[test]
fn unexpected_character_is_an_error() {
    assert_eq!(tokenize("let x = 1 # comment;"), Err(LexError::UnexpectedChar('#')));
    assert_eq!(tokenize("-"), Err(LexError::UnexpectedChar('-')));
    assert_eq!(tokenize("a_b"), Err(LexError::UnexpectedChar('_')));
}

#[test]
fn tokens_before_an_error_are_given() {
    let mut lexer = Lexer::new(String::from("let x = 1 # comment;"));
    assert_eq!(lexer.next_token(), Ok(Token::Let));
    assert_eq!(lexer.next_token(), Ok(ident("x")));
    assert_eq!(lexer.next_token(), Ok(Token::Equals));
    assert_eq!(lexer.next_token(), Ok(Token::Number(1)));
    assert_eq!(lexer.next_token(), Err(LexError::UnexpectedChar('#')));
}

#[test]
fn error_repeats() {
    let mut lexer = Lexer::new(String::from("1 ?"));
    assert_eq!(lexer.next_token(), Ok(Token::Number(1)));
    assert_eq!(lexer.next_token(), Err(LexError::UnexpectedChar('?')));
    assert_eq!(lexer.next_token(), Err(LexError::UnexpectedChar('?')));
    let mut lexer = Lexer::new(String::from(" 99999999999999999999"));
    assert_eq!(lexer.next_token(), Err(LexError::NumberTooLarge));
    assert_eq!(lexer.next_token(), Err(LexError::NumberTooLarge));
}

#[test]
fn token_clone_is_equal() {
    let tokens = vec![
        Token::EOF,
        Token::Let,
        Token::Print,
        ident("name"),
        Token::Number(-3),
        Token::Equals,
        Token::Plus,
        Token::Semicolon,
    ];
    for (i, a) in tokens.iter().enumerate() {
        assert_eq!(a.clone(), *a);
        for (j, b) in tokens.iter().enumerate() {
            assert_eq!(a == b, i == j);
        }
    }
    assert_ne!(ident("a"), ident("b"));
    assert_ne!(Token::Number(1), Token::Number(2));
}
