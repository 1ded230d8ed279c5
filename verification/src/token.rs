//! Tokens, and the lexical errors that can stand in a token's place.
use vstd::prelude::*;
use vstd::std_specs::cmp::PartialEqSpecImpl;

verus! {

/// An atomic lexical unit of the language.
#[derive(Debug)]
pub enum Token {
    /// The end of the input.
    EOF,
    /// The keyword `let`.
    Let,
    /// The keyword `print`.
    Print,
    /// A name that is no keyword.
    Identifier(String),
    /// An integer literal.
    Number(i64),
    /// The sign `=`.
    Equals,
    /// The sign `+`.
    Plus,
    /// The sign `;`.
    Semicolon,
}

/// What a [`Token`] is, with the name of an identifier as a sequence of
/// characters.
pub ghost enum TokenView {
    EOF,
    Let,
    Print,
    Identifier(Seq<char>),
    Number(i64),
    Equals,
    Plus,
    Semicolon,
}

impl View for Token {
    type V = TokenView;

    open spec fn view(&self) -> TokenView {
        match self {
            Token::EOF => TokenView::EOF,
            Token::Let => TokenView::Let,
            Token::Print => TokenView::Print,
            Token::Identifier(name) => TokenView::Identifier(name@),
            Token::Number(n) => TokenView::Number(*n),
            Token::Equals => TokenView::Equals,
            Token::Plus => TokenView::Plus,
            Token::Semicolon => TokenView::Semicolon,
        }
    }
}

impl Clone for Token {
    fn clone(&self) -> (r: Token)
        ensures
            r@ == self@,
    {
        match self {
            Token::EOF => Token::EOF,
            Token::Let => Token::Let,
            Token::Print => Token::Print,
            Token::Identifier(name) => Token::Identifier(name.clone()),
            Token::Number(n) => Token::Number(*n),
            Token::Equals => Token::Equals,
            Token::Plus => Token::Plus,
            Token::Semicolon => Token::Semicolon,
        }
    }
}

impl PartialEq for Token {
    fn eq(&self, other: &Token) -> (r: bool) {
        match (self, other) {
            (Token::EOF, Token::EOF) => true,
            (Token::Let, Token::Let) => true,
            (Token::Print, Token::Print) => true,
            (Token::Identifier(a), Token::Identifier(b)) => *a == *b,
            (Token::Number(a), Token::Number(b)) => *a == *b,
            (Token::Equals, Token::Equals) => true,
            (Token::Plus, Token::Plus) => true,
            (Token::Semicolon, Token::Semicolon) => true,
            _ => false,
        }
    }
}

impl PartialEqSpecImpl for Token {
    open spec fn obeys_eq_spec() -> bool {
        true
    }

    /// Two tokens are equal when they are the same kind of token and carry
    /// the same name or number.
    open spec fn eq_spec(&self, other: &Token) -> bool {
        self@ == other@
    }
}

/// Why the lexer could not produce a token.
#[derive(Debug, Clone, Copy, PartialEq, Eq, Structural)]
pub enum LexError {
    /// A character that starts no token.
    UnexpectedChar(char),
    /// A run of digits whose value is more than `i64::MAX`.
    NumberTooLarge,
}

/// What the lexer finds at one place of the source: a token, or the error
/// that ends the token stream there.
pub type Lexeme = Result<TokenView, LexError>;

/// The lexeme that a result of the lexer stands for.
pub open spec fn lexeme_of(r: Result<Token, LexError>) -> Lexeme {
    match r {
        Ok(token) => Ok(token@),
        Err(e) => Err(e),
    }
}

/// A lexeme after which no other follows: the end of input, or an error.
pub open spec fn is_terminal(x: Lexeme) -> bool {
    x is Err || x == Ok::<TokenView, LexError>(TokenView::EOF)
}

} // verus!
