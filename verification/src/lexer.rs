//! The lexer: from source text to tokens, one at a time.
//!
//! What the lexer does is stated over the characters that are still to be
//! read. [`lex`] says which lexeme stands first in a text and what remains
//! after it; [`lexemes`] is the whole stream that a text gives.
//!
//! An error is fatal. A character that starts no token is reported, and so
//! is a number that is more than `i64::MAX`; the cursor stays where the
//! error begins, and every later call reports it again.
use vstd::prelude::*;
use crate::chars::{
    CharClass, char_digit_value, char_is_digit, char_is_whitespace, char_is_word_part,
    char_is_word_start, digit_value, is_digit, is_word_start,
};
use crate::token::{LexError, Lexeme, Token, TokenView, is_terminal, lexeme_of};

verus! {

/// The length of the longest prefix of `s` whose characters are all of
/// class `class`.
pub open spec fn run_len(s: Seq<char>, class: CharClass) -> nat
    decreases s.len(),
{
    if s.len() > 0 && class.has(s[0]) {
        1 + run_len(s.skip(1), class)
    } else {
        0
    }
}

/// The number that the decimal digits `d` write, most significant first.
pub open spec fn decimal_value(d: Seq<char>) -> nat
    decreases d.len(),
{
    if d.len() == 0 {
        0
    } else {
        decimal_value(d.drop_last()) * 10 + digit_value(d.last())
    }
}

/// The token that the word `w` stands for: a keyword, or else an identifier.
pub open spec fn word_token(w: Seq<char>) -> TokenView {
    if w =~= seq!['l', 'e', 't'] {
        TokenView::Let
    } else if w =~= seq!['p', 'r', 'i', 'n', 't'] {
        TokenView::Print
    } else {
        TokenView::Identifier(w)
    }
}

/// One step of lexing: the lexeme found, and the text that remains.
pub ghost struct LexStep {
    pub lexeme: Lexeme,
    pub rest: Seq<char>,
}

/// The lexeme that starts with the first character of `t`, and the text
/// after it. At an error the rest is `t` itself.
pub open spec fn lex_here(t: Seq<char>) -> LexStep {
    if t.len() == 0 {
        LexStep { lexeme: Ok(TokenView::EOF), rest: t }
    } else if t[0] == '=' {
        LexStep { lexeme: Ok(TokenView::Equals), rest: t.skip(1) }
    } else if t[0] == '+' {
        LexStep { lexeme: Ok(TokenView::Plus), rest: t.skip(1) }
    } else if t[0] == ';' {
        LexStep { lexeme: Ok(TokenView::Semicolon), rest: t.skip(1) }
    } else if is_digit(t[0]) {
        let n = run_len(t, CharClass::Digit);
        let value = decimal_value(t.take(n as int));
        if value <= i64::MAX {
            LexStep { lexeme: Ok(TokenView::Number(value as i64)), rest: t.skip(n as int) }
        } else {
            LexStep { lexeme: Err(LexError::NumberTooLarge), rest: t }
        }
    } else if is_word_start(t[0]) {
        let n = 1 + run_len(t.skip(1), CharClass::WordPart);
        LexStep { lexeme: Ok(word_token(t.take(n as int))), rest: t.skip(n as int) }
    } else {
        LexStep { lexeme: Err(LexError::UnexpectedChar(t[0])), rest: t }
    }
}

/// The lexeme that stands first in `s`, after any white space, and the text
/// after it. At an error the rest begins with the offending lexeme.
pub open spec fn lex(s: Seq<char>) -> LexStep {
    lex_here(s.skip(run_len(s, CharClass::Whitespace) as int))
}

/// A run is no longer than the text it is read from.
pub proof fn lemma_run_len_bound(s: Seq<char>, class: CharClass)
    ensures
        run_len(s, class) <= s.len(),
    decreases s.len(),
{
    if s.len() > 0 && class.has(s[0]) {
        lemma_run_len_bound(s.skip(1), class);
    }
}

/// A token other than the end of input uses up at least one character.
pub proof fn lemma_lex_progress(s: Seq<char>)
    ensures
        lex(s).rest.len() <= s.len(),
        !is_terminal(lex(s).lexeme) ==> lex(s).rest.len() < s.len(),
{
    lemma_run_len_bound(s, CharClass::Whitespace);
    let t = s.skip(run_len(s, CharClass::Whitespace) as int);
    if t.len() > 0 {
        lemma_run_len_bound(t.skip(1), CharClass::WordPart);
        lemma_run_len_bound(t, CharClass::Digit);
    }
}

/// The stream of lexemes that the text `s` gives: every token in order,
/// ending with the end of input or with the first error.
pub open spec fn lexemes(s: Seq<char>) -> Seq<Lexeme>
    decreases s.len(),
    via lexemes_decreases
{
    let step = lex(s);
    if is_terminal(step.lexeme) {
        seq![step.lexeme]
    } else {
        seq![step.lexeme] + lexemes(step.rest)
    }
}

#[via_fn]
proof fn lexemes_decreases(s: Seq<char>) {
    lemma_lex_progress(s);
}

/// A run has length `k` when the first `k` characters are of the class and
/// the next one, if there is one, is not.
pub proof fn lemma_run_len_is(s: Seq<char>, class: CharClass, k: nat)
    requires
        k <= s.len(),
        forall|i: int| 0 <= i < k ==> class.has(#[trigger] s[i]),
        k == s.len() || !class.has(s[k as int]),
    ensures
        run_len(s, class) == k,
    decreases k,
{
    if k > 0 {
        let t = s.skip(1);
        assert forall|i: int| 0 <= i < k - 1 implies class.has(#[trigger] t[i]) by {
            assert(t[i] == s[i + 1]);
        }
        lemma_run_len_is(t, class, (k - 1) as nat);
    }
}

/// A lexer over one source text, with a cursor that only moves forward.
pub struct Lexer {
    input: Vec<char>,
    position: usize,
}

impl View for Lexer {
    type V = Seq<char>;

    /// The characters that are still to be read.
    closed spec fn view(&self) -> Seq<char> {
        self.input@.skip(self.position as int)
    }
}

impl Lexer {
    /// The cursor stands inside the text or at its end.
    #[verifier::type_invariant]
    spec fn cursor_in_text(&self) -> bool {
        self.position <= self.input.len()
    }

    /// A lexer at the start of `input`.
    pub fn new(input: String) -> (lexer: Lexer)
        ensures
            lexer@ == input@,
    {
        let mut chars: Vec<char> = Vec::new();
        let text = input.as_str();
        for c in it: text.chars()
            invariant
                chars@ == it.seq().take(it.index()),
        {
            chars.push(c);
        }
        Lexer { input: chars, position: 0 }
    }

    /// The character under the cursor, if the text has not ended.
    fn current_char(&self) -> (c: Option<char>)
        ensures
            c == if self@.len() > 0 { Some(self@[0]) } else { None },
    {
        proof {
            use_type_invariant(&*self);
        }
        if self.position < self.input.len() {
            Some(self.input[self.position])
        } else {
            None
        }
    }

    /// Moves the cursor over one character; at the end of the text it stays.
    fn read_char(&mut self)
        ensures
            final(self).input == old(self).input,
            final(self).position == if old(self).position < old(self).input.len() {
                old(self).position + 1
            } else {
                old(self).position as int
            },
    {
        proof {
            use_type_invariant(&*self);
        }
        if self.position < self.input.len() {
            self.position = self.position + 1;
        }
    }

    /// Moves the cursor over the white space that it stands on.
    fn skip_whitespace(&mut self)
        ensures
            final(self).input == old(self).input,
            final(self).position == old(self).position + run_len(old(self)@, CharClass::Whitespace),
    {
        proof {
            use_type_invariant(&*self);
        }
        let ghost start = self.position;
        while self.position < self.input.len() && char_is_whitespace(self.input[self.position])
            invariant
                self.position <= self.input.len(),
                self.input == old(self).input,
                start == old(self).position,
                start <= self.position,
                forall|i: int|
                    start <= i < self.position ==> CharClass::Whitespace.has(
                        #[trigger] self.input@[i],
                    ),
            decreases self.input.len() - self.position,
        {
            self.read_char();
        }
        proof {
            let s = old(self)@;
            let k = (self.position - start) as nat;
            assert forall|i: int| 0 <= i < k implies CharClass::Whitespace.has(#[trigger] s[i]) by {
                assert(s[i] == self.input@[start + i]);
            }
            lemma_run_len_is(s, CharClass::Whitespace, k);
        }
    }

    /// Reads the word that starts under the cursor: its first character and
    /// the longest run of word characters after it.
    fn read_identifier(&mut self) -> (word: String)
        requires
            old(self)@.len() > 0,
        ensures
            final(self).input == old(self).input,
            final(self).position == old(self).position + 1 + run_len(
                old(self)@.skip(1),
                CharClass::WordPart,
            ),
            word@ == old(self)@.take(final(self).position - old(self).position),
    {
        proof {
            use_type_invariant(&*self);
        }
        let ghost start = self.position;
        let mut word = String::new();
        word.push(self.input[self.position]);
        self.read_char();
        while self.position < self.input.len() && char_is_word_part(self.input[self.position])
            invariant
                self.position <= self.input.len(),
                self.input == old(self).input,
                start == old(self).position,
                start < self.position,
                word@ == self.input@.subrange(start as int, self.position as int),
                forall|i: int|
                    start < i < self.position ==> CharClass::WordPart.has(
                        #[trigger] self.input@[i],
                    ),
            decreases self.input.len() - self.position,
        {
            word.push(self.input[self.position]);
            self.read_char();
        }
        proof {
            let s = old(self)@.skip(1);
            let k = (self.position - start - 1) as nat;
            assert forall|i: int| 0 <= i < k implies CharClass::WordPart.has(#[trigger] s[i]) by {
                assert(s[i] == self.input@[start + 1 + i]);
            }
            lemma_run_len_is(s, CharClass::WordPart, k);
        }
        word
    }

    /// Reads the run of digits that starts under the cursor and gives its
    /// value. Where the value does not fit, the cursor stays and the result
    /// is `None`.
    fn read_number(&mut self) -> (value: Option<i64>)
        ensures
            final(self).input == old(self).input,
            ({
                let n = run_len(old(self)@, CharClass::Digit);
                let v = decimal_value(old(self)@.take(n as int));
                if v <= i64::MAX {
                    value == Some(v as i64) && final(self).position == old(self).position + n
                } else {
                    value is None && final(self).position == old(self).position
                }
            }),
    {
        proof {
            use_type_invariant(&*self);
        }
        let start = self.position;
        let mut value: i64 = 0;
        let mut fits = true;
        while self.position < self.input.len() && char_is_digit(self.input[self.position])
            invariant
                self.position <= self.input.len(),
                self.input == old(self).input,
                start == old(self).position,
                start <= self.position,
                0 <= value,
                fits ==> value == decimal_value(
                    self.input@.subrange(start as int, self.position as int),
                ),
                !fits ==> decimal_value(self.input@.subrange(start as int, self.position as int))
                    > i64::MAX,
                forall|i: int|
                    start <= i < self.position ==> CharClass::Digit.has(#[trigger] self.input@[i]),
            decreases self.input.len() - self.position,
        {
            let digit = char_digit_value(self.input[self.position]);
            proof {
                let longer = self.input@.subrange(start as int, self.position + 1);
                assert(longer.drop_last() == self.input@.subrange(
                    start as int,
                    self.position as int,
                ));
                assert(longer.last() == self.input@[self.position as int]);
            }
            if fits {
                let next: u128 = (value as u128) * 10 + (digit as u128);
                if next <= 9223372036854775807u128 {
                    value = next as i64;
                } else {
                    fits = false;
                }
            }
            self.read_char();
        }
        proof {
            let s = old(self)@;
            let k = (self.position - start) as nat;
            assert forall|i: int| 0 <= i < k implies CharClass::Digit.has(#[trigger] s[i]) by {
                assert(s[i] == self.input@[start + i]);
            }
            lemma_run_len_is(s, CharClass::Digit, k);
            assert(s.take(k as int) == self.input@.subrange(start as int, self.position as int));
        }
        if fits {
            Some(value)
        } else {
            self.position = start;
            None
        }
    }

    /// Reads the next token. After the end of input every call gives
    /// [`Token::EOF`] again; after an error every call gives that error
    /// again.
    pub fn next_token(&mut self) -> (r: Result<Token, LexError>)
        ensures
            lexeme_of(r) == lex(old(self)@).lexeme,
            final(self)@ == lex(old(self)@).rest,
    {
        self.skip_whitespace();
        let start = self.position;
        let ghost t = self@;
        proof {
            use_type_invariant(&*self);
            lemma_run_len_bound(old(self)@, CharClass::Whitespace);
            assert(t == old(self)@.skip(run_len(old(self)@, CharClass::Whitespace) as int));
        }
        match self.current_char() {
            None => Ok(Token::EOF),
            Some(c) => {
                if c == '=' || c == '+' || c == ';' {
                    self.read_char();
                    assert(self@ == t.skip(1));
                    if c == '=' {
                        Ok(Token::Equals)
                    } else if c == '+' {
                        Ok(Token::Plus)
                    } else {
                        Ok(Token::Semicolon)
                    }
                } else if char_is_digit(c) {
                    let number = self.read_number();
                    proof {
                        lemma_run_len_bound(t, CharClass::Digit);
                        assert(self@ == t.skip(self.position - start));
                    }
                    match number {
                        Some(value) => Ok(Token::Number(value)),
                        None => Err(LexError::NumberTooLarge),
                    }
                } else if char_is_word_start(c) {
                    let word = self.read_identifier();
                    let len = self.position - start;
                    proof {
                        lemma_run_len_bound(t.skip(1), CharClass::WordPart);
                        assert(self@ == t.skip(len as int));
                        assert(forall|i: int| 0 <= i < len ==> word@[i] == self.input@[start + i]);
                    }
                    if len == 3 && self.input[start] == 'l' && self.input[start + 1] == 'e'
                        && self.input[start + 2] == 't' {
                        Ok(Token::Let)
                    } else if len == 5 && self.input[start] == 'p' && self.input[start + 1] == 'r'
                        && self.input[start + 2] == 'i' && self.input[start + 3] == 'n'
                        && self.input[start + 4] == 't' {
                        Ok(Token::Print)
                    } else {
                        Ok(Token::Identifier(word))
                    }
                } else {
                    Err(LexError::UnexpectedChar(c))
                }
            },
        }
    }
}

} // verus!
