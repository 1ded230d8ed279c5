//! The parser: from tokens to statements.
//!
//! The grammar is stated over the stream of lexemes that is still to be
//! read:
//!
//! ```text
//! program    := statement*
//! statement  := "let" IDENT "=" expr ";" | "print" expr ";"
//! expr       := primary (PLUS primary)*
//! primary    := NUMBER | IDENT
//! ```
//!
//! Every error is fatal: parsing stops at the first lexeme that does not
//! fit, and a lexical error counts as such a lexeme.
use vstd::prelude::*;
use vstd::std_specs::cmp::PartialEqSpecImpl;
use crate::ast::{BinaryOperator, Expr, ExprView, Statement, StatementView, statements_view};
use crate::lexer::{Lexer, lexemes};
use crate::token::{LexError, Lexeme, Token, TokenView, is_terminal, lexeme_of};

verus! {

/// What the parser was looking for when it met a token that does not fit.
#[derive(Debug, Clone, Copy, PartialEq, Eq, Structural)]
pub enum Expected {
    /// The start of a statement: `let` or `print`.
    Statement,
    /// The name that a `let` binds.
    Identifier,
    /// The sign `=`.
    Equals,
    /// The sign `;`.
    Semicolon,
    /// A number or an identifier.
    Operand,
}

/// Why a program could not be parsed.
#[derive(Debug)]
pub enum ParseError {
    /// The lexer failed where the next token was due.
    Lex(LexError),
    /// A token stands where another kind was expected.
    Unexpected { expected: Expected, found: Token },
}

/// What a [`ParseError`] is.
pub ghost enum ParseErrorView {
    Lex(LexError),
    Unexpected { expected: Expected, found: TokenView },
}

impl View for ParseError {
    type V = ParseErrorView;

    open spec fn view(&self) -> ParseErrorView {
        match self {
            ParseError::Lex(e) => ParseErrorView::Lex(*e),
            ParseError::Unexpected { expected, found } => ParseErrorView::Unexpected {
                expected: *expected,
                found: found@,
            },
        }
    }
}

impl PartialEq for ParseError {
    fn eq(&self, other: &ParseError) -> (r: bool) {
        match (self, other) {
            (ParseError::Lex(e), ParseError::Lex(other_e)) => *e == *other_e,
            (
                ParseError::Unexpected { expected, found },
                ParseError::Unexpected { expected: other_expected, found: other_found },
            ) => *expected == *other_expected && *found == *other_found,
            _ => false,
        }
    }
}

impl PartialEqSpecImpl for ParseError {
    open spec fn obeys_eq_spec() -> bool {
        true
    }

    /// Two errors are equal when they report the same thing.
    open spec fn eq_spec(&self, other: &ParseError) -> bool {
        self@ == other@
    }
}

impl Clone for ParseError {
    fn clone(&self) -> (r: ParseError)
        ensures
            r@ == self@,
    {
        match self {
            ParseError::Lex(e) => ParseError::Lex(*e),
            ParseError::Unexpected { expected, found } => ParseError::Unexpected {
                expected: *expected,
                found: found.clone(),
            },
        }
    }
}

/// A value that was parsed, and the lexemes that follow it.
pub ghost struct Parsed<T> {
    pub value: T,
    pub rest: Seq<Lexeme>,
}

/// The lexeme at the head of the stream; a stream that has run out stands
/// at the end of input.
pub open spec fn head(s: Seq<Lexeme>) -> Lexeme {
    if s.len() > 0 {
        s[0]
    } else {
        Ok(TokenView::EOF)
    }
}

/// The stream after its head.
pub open spec fn tail(s: Seq<Lexeme>) -> Seq<Lexeme> {
    if s.len() > 0 {
        s.skip(1)
    } else {
        s
    }
}

/// The error for a lexeme that does not fit: the lexical error itself, or
/// the token with what was expected in its place.
pub open spec fn unexpected(expected: Expected, found: Lexeme) -> ParseErrorView {
    match found {
        Err(e) => ParseErrorView::Lex(e),
        Ok(token) => ParseErrorView::Unexpected { expected, found: token },
    }
}

/// The operator that a lexeme denotes, if it denotes one.
pub open spec fn operator_of(x: Lexeme) -> Option<BinaryOperator> {
    match x {
        Ok(TokenView::Plus) => Some(BinaryOperator::Plus),
        _ => None,
    }
}

/// How tightly an operator binds.
pub open spec fn precedence_of(op: BinaryOperator) -> int {
    match op {
        BinaryOperator::Plus => 10,
    }
}

/// `primary := NUMBER | IDENT`
pub open spec fn primary(s: Seq<Lexeme>) -> Result<Parsed<ExprView>, ParseErrorView> {
    match head(s) {
        Ok(TokenView::Number(n)) => Ok(Parsed { value: ExprView::Number(n), rest: tail(s) }),
        Ok(TokenView::Identifier(name)) => Ok(
            Parsed { value: ExprView::Identifier(name), rest: tail(s) },
        ),
        other => Err(unexpected(Expected::Operand, other)),
    }
}

/// `(PLUS primary)*` after the operand `left`: each further operand is
/// joined to all that stands before it, so the tree leans to the left.
pub open spec fn operand_chain(left: ExprView, s: Seq<Lexeme>) -> Result<
    Parsed<ExprView>,
    ParseErrorView,
>
    decreases s.len(),
{
    match operator_of(head(s)) {
        None => Ok(Parsed { value: left, rest: s }),
        Some(op) => match primary(tail(s)) {
            Err(e) => Err(e),
            Ok(right) => operand_chain(
                ExprView::BinaryOp(Box::new(left), op, Box::new(right.value)),
                right.rest,
            ),
        },
    }
}

/// `expr := primary (PLUS primary)*`
pub open spec fn expression(s: Seq<Lexeme>) -> Result<Parsed<ExprView>, ParseErrorView> {
    match primary(s) {
        Err(e) => Err(e),
        Ok(first) => operand_chain(first.value, first.rest),
    }
}

/// What the parser makes of the operators that follow the operand `left`
/// when it joins only those that bind at least as tightly as `min`: the
/// whole chain if the first operator does, and otherwise `left` as it is.
pub open spec fn binary_op_rhs(min: int, left: ExprView, s: Seq<Lexeme>) -> Result<
    Parsed<ExprView>,
    ParseErrorView,
> {
    match operator_of(head(s)) {
        Some(op) if precedence_of(op) >= min => operand_chain(left, s),
        _ => Ok(Parsed { value: left, rest: s }),
    }
}

/// The head of the stream is the token `token`: the stream goes on after
/// it. Anything else is an error that names `expected`.
pub open spec fn expect(s: Seq<Lexeme>, token: TokenView, expected: Expected) -> Result<
    Seq<Lexeme>,
    ParseErrorView,
> {
    if head(s) == Ok::<TokenView, LexError>(token) {
        Ok(tail(s))
    } else {
        Err(unexpected(expected, head(s)))
    }
}

/// `"let" IDENT "=" expr ";"`, for a stream whose head is `let`.
pub open spec fn let_statement(s: Seq<Lexeme>) -> Result<Parsed<StatementView>, ParseErrorView> {
    match head(tail(s)) {
        Ok(TokenView::Identifier(name)) => match expect(
            tail(tail(s)),
            TokenView::Equals,
            Expected::Equals,
        ) {
            Err(e) => Err(e),
            Ok(after_equals) => match expression(after_equals) {
                Err(e) => Err(e),
                Ok(value) => match expect(value.rest, TokenView::Semicolon, Expected::Semicolon) {
                    Err(e) => Err(e),
                    Ok(rest) => Ok(Parsed { value: StatementView::Let(name, value.value), rest }),
                },
            },
        },
        other => Err(unexpected(Expected::Identifier, other)),
    }
}

/// `"print" expr ";"`, for a stream whose head is `print`.
pub open spec fn print_statement(s: Seq<Lexeme>) -> Result<Parsed<StatementView>, ParseErrorView> {
    match expression(tail(s)) {
        Err(e) => Err(e),
        Ok(value) => match expect(value.rest, TokenView::Semicolon, Expected::Semicolon) {
            Err(e) => Err(e),
            Ok(rest) => Ok(Parsed { value: StatementView::Print(value.value), rest }),
        },
    }
}

/// `statement := "let" IDENT "=" expr ";" | "print" expr ";"`
pub open spec fn statement(s: Seq<Lexeme>) -> Result<Parsed<StatementView>, ParseErrorView> {
    match head(s) {
        Ok(TokenView::Let) => let_statement(s),
        Ok(TokenView::Print) => print_statement(s),
        other => Err(unexpected(Expected::Statement, other)),
    }
}

/// An operand chain never gives back more lexemes than it was given.
pub proof fn lemma_operand_chain_rest(left: ExprView, s: Seq<Lexeme>)
    ensures
        operand_chain(left, s) matches Ok(p) ==> p.rest.len() <= s.len(),
    decreases s.len(),
{
    if let Some(op) = operator_of(head(s)) {
        if let Ok(right) = primary(tail(s)) {
            lemma_operand_chain_rest(
                ExprView::BinaryOp(Box::new(left), op, Box::new(right.value)),
                right.rest,
            );
        }
    }
}

/// A statement uses up at least one lexeme.
pub proof fn lemma_statement_progress(s: Seq<Lexeme>)
    ensures
        statement(s) matches Ok(p) ==> p.rest.len() < s.len(),
{
    if let Ok(first) = primary(tail(s)) {
        lemma_operand_chain_rest(first.value, first.rest);
    }
    if let Ok(first) = primary(tail(tail(tail(s)))) {
        lemma_operand_chain_rest(first.value, first.rest);
    }
}

/// `program := statement*`, up to the end of input: the statements in
/// order, or the first error.
pub open spec fn program(s: Seq<Lexeme>) -> Result<Seq<StatementView>, ParseErrorView>
    decreases s.len(),
    via program_decreases
{
    if head(s) == Ok::<TokenView, LexError>(TokenView::EOF) {
        Ok(Seq::empty())
    } else {
        match statement(s) {
            Err(e) => Err(e),
            Ok(first) => match program(first.rest) {
                Err(e) => Err(e),
                Ok(others) => Ok(seq![first.value] + others),
            },
        }
    }
}

#[via_fn]
proof fn program_decreases(s: Seq<Lexeme>) {
    lemma_statement_progress(s);
}

/// A parser over the tokens of one lexer, with one token of lookahead.
pub struct Parser {
    lexer: Lexer,
    current: Result<Token, LexError>,
}

impl View for Parser {
    type V = Seq<Lexeme>;

    /// The lexemes that are still to be read: the lookahead, and after it
    /// what the lexer has yet to give.
    closed spec fn view(&self) -> Seq<Lexeme> {
        let first = lexeme_of(self.current);
        if is_terminal(first) {
            seq![first]
        } else {
            seq![first] + lexemes(self.lexer@)
        }
    }
}

impl Parser {
    /// A parser that reads what `lexer` has yet to give.
    pub fn new(lexer: Lexer) -> (parser: Parser)
        ensures
            parser@ == lexemes(lexer@),
    {
        let mut lexer = lexer;
        let current = lexer.next_token();
        Parser { lexer, current }
    }

    /// Moves the lookahead to the next lexeme.
    fn next_token(&mut self)
        requires
            !is_terminal(head(old(self)@)),
        ensures
            final(self)@ == tail(old(self)@),
    {
        self.current = self.lexer.next_token();
        proof {
            assert(final(self)@ =~= tail(old(self)@));
        }
    }

    /// The error for the lookahead, which does not fit.
    fn unexpected(&self, expected: Expected) -> (e: ParseError)
        ensures
            e@ == unexpected(expected, head(self@)),
    {
        match &self.current {
            Ok(token) => ParseError::Unexpected { expected, found: token.clone() },
            Err(e) => ParseError::Lex(*e),
        }
    }

    /// The operator that the lookahead denotes, if it denotes one.
    fn current_binary_operator(&self) -> (op: Option<BinaryOperator>)
        ensures
            op == operator_of(head(self@)),
    {
        match &self.current {
            Ok(Token::Plus) => Some(BinaryOperator::Plus),
            _ => None,
        }
    }

    /// How tightly `op` binds.
    fn get_precedence(&self, op: BinaryOperator) -> (p: i32)
        ensures
            p == precedence_of(op),
    {
        match op {
            BinaryOperator::Plus => 10,
        }
    }

    /// Reads the token `token`, or fails with an error that names
    /// `expected`.
    fn expect_token(&mut self, token: Token, expected: Expected) -> (r: Result<(), ParseError>)
        requires
            token@ != TokenView::EOF,
        ensures
            match expect(old(self)@, token@, expected) {
                Ok(rest) => r is Ok && final(self)@ == rest,
                Err(err) => r matches Err(e) && e@ == err,
            },
    {
        let fits = match &self.current {
            Ok(found) => *found == token,
            Err(_) => false,
        };
        if fits {
            self.next_token();
            Ok(())
        } else {
            Err(self.unexpected(expected))
        }
    }

    /// Reads one operand: a number or an identifier.
    fn parse_primary(&mut self) -> (r: Result<Expr, ParseError>)
        ensures
            match primary(old(self)@) {
                Ok(p) => r matches Ok(e) && e@ == p.value && final(self)@ == p.rest,
                Err(err) => r matches Err(e) && e@ == err,
            },
    {
        let operand = match &self.current {
            Ok(Token::Number(n)) => Some(Expr::Number(*n)),
            Ok(Token::Identifier(name)) => Some(Expr::Identifier(name.clone())),
            _ => None,
        };
        match operand {
            Some(e) => {
                self.next_token();
                Ok(e)
            },
            None => Err(self.unexpected(Expected::Operand)),
        }
    }

    /// Joins to `left` the operators that follow and bind at least as
    /// tightly as `precedence`, each with its right operand. Before an
    /// operator is joined, what follows its operand and binds more tightly
    /// is folded into that operand.
    fn parse_binary_op_rhs(&mut self, precedence: i32, left: Expr) -> (r: Result<Expr, ParseError>)
        ensures
            match binary_op_rhs(precedence as int, left@, old(self)@) {
                Ok(p) => r matches Ok(e) && e@ == p.value && final(self)@ == p.rest,
                Err(err) => r matches Err(e) && e@ == err,
            },
        decreases old(self)@.len(),
    {
        let mut joined = left;
        loop
            invariant
                self@.len() <= old(self)@.len(),
                binary_op_rhs(precedence as int, joined@, self@) == binary_op_rhs(
                    precedence as int,
                    left@,
                    old(self)@,
                ),
            decreases self@.len(),
        {
            let op = match self.current_binary_operator() {
                Some(op) => op,
                None => {
                    return Ok(joined);
                },
            };
            let op_precedence = self.get_precedence(op);
            if op_precedence < precedence {
                return Ok(joined);
            }
            let ghost before = self@;
            self.next_token();
            let mut right = match self.parse_primary() {
                Ok(e) => e,
                Err(e) => {
                    return Err(e);
                },
            };
            loop
                invariant
                    self@.len() < before.len(),
                    before.len() <= old(self)@.len(),
                    op_precedence == precedence_of(op),
                    primary(tail(before)) == Ok::<Parsed<ExprView>, ParseErrorView>(
                        Parsed { value: right@, rest: self@ },
                    ),
                decreases self@.len(),
            {
                let next_op = match self.current_binary_operator() {
                    Some(next_op) => next_op,
                    None => {
                        break ;
                    },
                };
                let next_precedence = self.get_precedence(next_op);
                if op_precedence < next_precedence {
                    right = match self.parse_binary_op_rhs(op_precedence + 1, right) {
                        Ok(e) => e,
                        Err(e) => {
                            return Err(e);
                        },
                    };
                } else {
                    break ;
                }
            }
            joined = Expr::BinaryOp(Box::new(joined), op, Box::new(right));
        }
    }

    /// Reads one expression.
    fn parse_expression(&mut self) -> (r: Result<Expr, ParseError>)
        ensures
            match expression(old(self)@) {
                Ok(p) => r matches Ok(e) && e@ == p.value && final(self)@ == p.rest,
                Err(err) => r matches Err(e) && e@ == err,
            },
    {
        let left = match self.parse_primary() {
            Ok(e) => e,
            Err(e) => {
                return Err(e);
            },
        };
        self.parse_binary_op_rhs(0, left)
    }

    /// Reads a `let` statement, whose keyword is the lookahead.
    fn parse_let_statement(&mut self) -> (r: Result<Statement, ParseError>)
        requires
            head(old(self)@) == Ok::<TokenView, LexError>(TokenView::Let),
        ensures
            match let_statement(old(self)@) {
                Ok(p) => r matches Ok(st) && st@ == p.value && final(self)@ == p.rest,
                Err(err) => r matches Err(e) && e@ == err,
            },
    {
        self.next_token();
        let bound = match &self.current {
            Ok(Token::Identifier(name)) => Some(name.clone()),
            _ => None,
        };
        let name = match bound {
            Some(name) => name,
            None => {
                return Err(self.unexpected(Expected::Identifier));
            },
        };
        self.next_token();
        match self.expect_token(Token::Equals, Expected::Equals) {
            Ok(()) => {},
            Err(e) => {
                return Err(e);
            },
        }
        let value = match self.parse_expression() {
            Ok(value) => value,
            Err(e) => {
                return Err(e);
            },
        };
        match self.expect_token(Token::Semicolon, Expected::Semicolon) {
            Ok(()) => Ok(Statement::Let(name, value)),
            Err(e) => Err(e),
        }
    }

    /// Reads a `print` statement, whose keyword is the lookahead.
    fn parse_print_statement(&mut self) -> (r: Result<Statement, ParseError>)
        requires
            head(old(self)@) == Ok::<TokenView, LexError>(TokenView::Print),
        ensures
            match print_statement(old(self)@) {
                Ok(p) => r matches Ok(st) && st@ == p.value && final(self)@ == p.rest,
                Err(err) => r matches Err(e) && e@ == err,
            },
    {
        self.next_token();
        let value = match self.parse_expression() {
            Ok(value) => value,
            Err(e) => {
                return Err(e);
            },
        };
        match self.expect_token(Token::Semicolon, Expected::Semicolon) {
            Ok(()) => Ok(Statement::Print(value)),
            Err(e) => Err(e),
        }
    }

    /// Reads one statement, chosen by the lookahead alone.
    fn parse_statement(&mut self) -> (r: Result<Statement, ParseError>)
        ensures
            match statement(old(self)@) {
                Ok(p) => r matches Ok(st) && st@ == p.value && final(self)@ == p.rest,
                Err(err) => r matches Err(e) && e@ == err,
            },
    {
        let starts_let = match &self.current {
            Ok(Token::Let) => true,
            _ => false,
        };
        let starts_print = match &self.current {
            Ok(Token::Print) => true,
            _ => false,
        };
        if starts_let {
            self.parse_let_statement()
        } else if starts_print {
            self.parse_print_statement()
        } else {
            Err(self.unexpected(Expected::Statement))
        }
    }

    /// Whether the lookahead is the end of input.
    fn at_end(&self) -> (r: bool)
        ensures
            r == (head(self@) == Ok::<TokenView, LexError>(TokenView::EOF)),
            r ==> self@ == seq![Ok::<TokenView, LexError>(TokenView::EOF)],
    {
        match &self.current {
            Ok(Token::EOF) => true,
            _ => false,
        }
    }

    /// Parses the whole program: every statement up to the end of input,
    /// in order. At the first error parsing stops, and no statement is
    /// given back.
    pub fn parse(&mut self) -> (r: Result<Vec<Statement>, ParseError>)
        ensures
            match program(old(self)@) {
                Ok(statements) => r matches Ok(v) && statements_view(v@) == statements
                    && final(self)@ == seq![Ok::<TokenView, LexError>(TokenView::EOF)],
                Err(err) => r matches Err(e) && e@ == err,
            },
    {
        let mut statements: Vec<Statement> = Vec::new();
        loop
            invariant
                program(old(self)@) == match program(self@) {
                    Ok(others) => Ok::<Seq<StatementView>, ParseErrorView>(
                        statements_view(statements@) + others,
                    ),
                    Err(err) => Err(err),
                },
            decreases self@.len(),
        {
            if self.at_end() {
                proof {
                    assert(statements_view(statements@) + Seq::<StatementView>::empty()
                        =~= statements_view(statements@));
                }
                return Ok(statements);
            }
            let ghost before = self@;
            let ghost done = statements_view(statements@);
            proof {
                lemma_statement_progress(before);
            }
            match self.parse_statement() {
                Ok(st) => {
                    statements.push(st);
                    proof {
                        let first = statement(before)->Ok_0;
                        assert(statements_view(statements@) =~= done.push(first.value));
                        assert forall|others: Seq<StatementView>|
                            done + (seq![first.value] + others) == #[trigger] (done.push(
                                first.value,
                            ) + others) by {
                            assert(done + (seq![first.value] + others) =~= done.push(first.value)
                                + others);
                        }
                    }
                },
                Err(e) => {
                    return Err(e);
                },
            }
        }
    }
}

} // verus!
