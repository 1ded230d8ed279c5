//! What holds of every text that the lexer reads: the cursor never goes
//! back, a stream that has ended stays ended, a run of digits is read as
//! the number it writes, and white space between tokens changes nothing.
use vstd::prelude::*;
use crate::chars::{CharClass, is_digit, is_word_part, is_word_start};
use crate::lexer::{
    LexStep, decimal_value, lemma_lex_progress, lemma_run_len_bound, lemma_run_len_is, lex,
    lex_here, lexemes, run_len,
};
use crate::token::{LexError, TokenView, is_terminal};

verus! {

/// Every character of `s` is of class `class`.
pub open spec fn is_run(s: Seq<char>, class: CharClass) -> bool {
    forall|i: int| 0 <= i < s.len() ==> class.has(#[trigger] s[i])
}

/// A character that a word or a number can hold, so that two of them side
/// by side may belong to one token.
pub open spec fn joins(c: char) -> bool {
    is_word_start(c) || is_word_part(c) || is_digit(c)
}

/// Every character inside a run is of the run's class.
pub proof fn lemma_run_len_members(s: Seq<char>, class: CharClass)
    ensures
        run_len(s, class) <= s.len(),
        forall|i: int| 0 <= i < run_len(s, class) ==> class.has(#[trigger] s[i]),
        run_len(s, class) < s.len() ==> !class.has(s[run_len(s, class) as int]),
    decreases s.len(),
{
    if s.len() > 0 && class.has(s[0]) {
        let t = s.skip(1);
        lemma_run_len_members(t, class);
        assert forall|i: int| 0 <= i < run_len(s, class) implies class.has(#[trigger] s[i]) by {
            if i > 0 {
                assert(s[i] == t[i - 1]);
            }
        }
        if run_len(s, class) < s.len() {
            assert(s[run_len(s, class) as int] == t[run_len(t, class) as int]);
        }
    }
}

/// A run in `x + y` ends inside `x` if it can, and else goes on into `y`.
pub proof fn lemma_run_len_concat(x: Seq<char>, y: Seq<char>, class: CharClass)
    ensures
        run_len(x + y, class) == if run_len(x, class) < x.len() {
            run_len(x, class)
        } else {
            x.len() + run_len(y, class)
        },
    decreases x.len(),
{
    lemma_run_len_bound(x, class);
    if x.len() == 0 {
        assert(x + y =~= y);
    } else if class.has(x[0]) {
        assert((x + y).skip(1) =~= x.skip(1) + y);
        lemma_run_len_bound(x.skip(1), class);
        lemma_run_len_concat(x.skip(1), y, class);
    }
}

/// Zeros in front of a run of digits do not change its value.
pub proof fn lemma_leading_zeros(zeros: Seq<char>, d: Seq<char>)
    requires
        forall|i: int| 0 <= i < zeros.len() ==> zeros[i] == '0',
    ensures
        decimal_value(zeros + d) == decimal_value(d),
    decreases d.len(), zeros.len(),
{
    if d.len() > 0 {
        assert((zeros + d).drop_last() =~= zeros + d.drop_last());
        lemma_leading_zeros(zeros, d.drop_last());
    } else if zeros.len() > 0 {
        assert(zeros + d =~= zeros);
        assert(zeros.drop_last() + d =~= zeros.drop_last());
        lemma_leading_zeros(zeros.drop_last(), d);
    } else {
        assert(zeros + d =~= d);
    }
}

/// A run of digits is read as one number, the number that its digits
/// write, whatever follows it; if that number is more than `i64::MAX`, the
/// run is an error.
pub proof fn lemma_digit_run_is_number(d: Seq<char>, after: Seq<char>)
    requires
        d.len() > 0,
        is_run(d, CharClass::Digit),
        after.len() == 0 || !is_digit(after[0]),
    ensures
        lex(d + after) == if decimal_value(d) <= i64::MAX {
            LexStep { lexeme: Ok(TokenView::Number(decimal_value(d) as i64)), rest: after }
        } else {
            LexStep { lexeme: Err(LexError::NumberTooLarge), rest: d + after }
        },
{
    let s = d + after;
    assert(s[0] == d[0]);
    assert(CharClass::Digit.has(d[0]));
    assert(s.skip(0) =~= s);
    lemma_run_len_is(d, CharClass::Digit, d.len());
    lemma_run_len_concat(d, after, CharClass::Digit);
    assert(s.take(d.len() as int) =~= d);
    assert(s.skip(d.len() as int) =~= after);
}

/// The cursor never goes back: what remains after a lexeme is an end
/// piece of the text it was read from.
pub proof fn lemma_rest_is_suffix(s: Seq<char>)
    ensures
        lex(s).rest.len() <= s.len(),
        lex(s).rest == s.skip(s.len() - lex(s).rest.len()),
{
    lemma_run_len_bound(s, CharClass::Whitespace);
    let k = run_len(s, CharClass::Whitespace) as int;
    let t = s.skip(k);
    let rest = lex(s).rest;
    if t.len() > 0 {
        lemma_run_len_bound(t, CharClass::Digit);
        lemma_run_len_bound(t.skip(1), CharClass::WordPart);
    }
    let n = t.len() - rest.len();
    assert(rest =~= t.skip(n));
    assert(t.skip(n) =~= s.skip(k + n));
}

/// Where the stream has ended it stays ended: after the end of input, or
/// after an error, the lexer gives the same lexeme again and again.
pub proof fn lemma_terminal_repeats(s: Seq<char>)
    requires
        is_terminal(lex(s).lexeme),
    ensures
        lex(lex(s).rest) == lex(s),
{
    lemma_run_len_members(s, CharClass::Whitespace);
    let t = s.skip(run_len(s, CharClass::Whitespace) as int);
    if t.len() > 0 {
        lemma_run_len_bound(t, CharClass::Digit);
        lemma_run_len_bound(t.skip(1), CharClass::WordPart);
    }
    assert(lex(s).rest == t);
    assert(t.skip(0) =~= t);
}

/// The stream of a text holds at least one lexeme, ends with the end of
/// input or with an error, and holds neither before its end.
pub proof fn lemma_lexemes_end(s: Seq<char>)
    ensures
        lexemes(s).len() > 0,
        is_terminal(lexemes(s).last()),
        forall|i: int| 0 <= i < lexemes(s).len() - 1 ==> !is_terminal(#[trigger] lexemes(s)[i]),
    decreases s.len(),
{
    let step = lex(s);
    if !is_terminal(step.lexeme) {
        lemma_rest_is_suffix(s);
        lemma_lex_progress(s);
        lemma_lexemes_end(step.rest);
        let others = lexemes(step.rest);
        assert(lexemes(s) =~= seq![step.lexeme] + others);
        assert forall|i: int| 0 <= i < lexemes(s).len() - 1 implies !is_terminal(
            #[trigger] lexemes(s)[i],
        ) by {
            if i > 0 {
                assert(lexemes(s)[i] == others[i - 1]);
            }
        }
    }
}

/// White space in front of a text changes neither the lexeme that comes
/// first nor what remains after it.
pub proof fn lemma_leading_whitespace(w: Seq<char>, s: Seq<char>)
    requires
        is_run(w, CharClass::Whitespace),
    ensures
        lex(w + s) == lex(s),
        lexemes(w + s) == lexemes(s),
{
    lemma_run_len_is(w, CharClass::Whitespace, w.len());
    lemma_run_len_concat(w, s, CharClass::Whitespace);
    lemma_run_len_bound(s, CharClass::Whitespace);
    let k = run_len(s, CharClass::Whitespace);
    assert((w + s).skip((w.len() + k) as int) =~= s.skip(k as int));
}

/// How many characters the token at the start of `x` takes when nothing
/// follows `x`; none where no token starts there.
pub open spec fn token_len(x: Seq<char>) -> nat {
    if x.len() == 0 {
        0
    } else if x[0] == '=' || x[0] == '+' || x[0] == ';' {
        1
    } else if is_digit(x[0]) {
        run_len(x, CharClass::Digit)
    } else if is_word_start(x[0]) {
        1 + run_len(x.skip(1), CharClass::WordPart)
    } else {
        0
    }
}

/// The token at the start of `x` lies inside `x`.
proof fn lemma_token_len_bound(x: Seq<char>)
    ensures
        token_len(x) <= x.len(),
        x.len() > 0 && is_digit(x[0]) ==> token_len(x) > 0,
{
    if x.len() > 0 {
        lemma_run_len_bound(x, CharClass::Digit);
        lemma_run_len_bound(x.skip(1), CharClass::WordPart);
    }
}

/// What follows `x` does not change the token at the start of `x`, if it
/// cannot run on into it: the lexeme depends on `x` alone, and the rest is
/// what `x` has left, and then what follows.
proof fn lemma_lex_here_local(x: Seq<char>, y: Seq<char>)
    requires
        x.len() > 0,
        is_digit(x[0]) && run_len(x, CharClass::Digit) == x.len() ==> run_len(
            y,
            CharClass::Digit,
        ) == 0,
        !is_digit(x[0]) && is_word_start(x[0]) && run_len(x.skip(1), CharClass::WordPart) + 1
            == x.len() ==> run_len(y, CharClass::WordPart) == 0,
    ensures
        lex_here(x + y).lexeme == lex_here(x).lexeme,
        !is_terminal(lex_here(x).lexeme) ==> lex_here(x + y).rest == x.skip(token_len(x) as int)
            + y,
{
    let t = x + y;
    let n = token_len(x);
    lemma_token_len_bound(x);
    assert(t[0] == x[0]);
    if x[0] == '=' || x[0] == '+' || x[0] == ';' {
        assert(t.skip(1) =~= x.skip(1) + y);
    } else if is_digit(x[0]) {
        lemma_run_len_concat(x, y, CharClass::Digit);
        assert(run_len(t, CharClass::Digit) == n);
        assert(t.take(n as int) =~= x.take(n as int));
        assert(t.skip(n as int) =~= x.skip(n as int) + y);
    } else if is_word_start(x[0]) {
        assert(t.skip(1) =~= x.skip(1) + y);
        lemma_run_len_concat(x.skip(1), y, CharClass::WordPart);
        assert(1 + run_len(t.skip(1), CharClass::WordPart) == n);
        assert(t.take(n as int) =~= x.take(n as int));
        assert(t.skip(n as int) =~= x.skip(n as int) + y);
    }
}

/// In a text that ends with a character that belongs to no word or number,
/// or that is followed by none, no run of digits or of word characters
/// goes on into what follows.
proof fn lemma_seam_stops_runs(x: Seq<char>, y: Seq<char>)
    requires
        x.len() > 0,
        y.len() == 0 || !joins(x.last()) || !joins(y[0]),
    ensures
        is_digit(x[0]) && run_len(x, CharClass::Digit) == x.len() ==> run_len(
            y,
            CharClass::Digit,
        ) == 0,
        !is_digit(x[0]) && is_word_start(x[0]) && run_len(x.skip(1), CharClass::WordPart) + 1
            == x.len() ==> run_len(y, CharClass::WordPart) == 0,
{
    lemma_run_len_members(x, CharClass::Digit);
    if is_digit(x[0]) && run_len(x, CharClass::Digit) == x.len() {
        assert(CharClass::Digit.has(x[x.len() - 1]));
    }
    let tail = x.skip(1);
    lemma_run_len_members(tail, CharClass::WordPart);
    if is_word_start(x[0]) && run_len(tail, CharClass::WordPart) + 1 == x.len() {
        if tail.len() > 0 {
            assert(CharClass::WordPart.has(tail[tail.len() - 1]));
            assert(tail[tail.len() - 1] == x.last());
        }
    }
}

/// White space where two tokens meet changes nothing. Let `w` be white
/// space, and let `a` and `b` be texts that do not run into one token
/// where they meet: one of them is empty, or `a` does not end, or `b` does
/// not begin, with a character of a word or a number. Then `a + w + b` and
/// `a + b` give the same lexemes.
pub proof fn lemma_whitespace_between_tokens(a: Seq<char>, w: Seq<char>, b: Seq<char>)
    requires
        is_run(w, CharClass::Whitespace),
        a.len() == 0 || b.len() == 0 || !joins(a.last()) || !joins(b[0]),
    ensures
        lexemes(a + w + b) == lexemes(a + b),
    decreases a.len(),
{
    let s1 = a + (w + b);
    let s2 = a + b;
    assert(a + w + b =~= s1);
    lemma_run_len_members(a, CharClass::Whitespace);
    let k = run_len(a, CharClass::Whitespace);
    if k == a.len() {
        assert(is_run(a, CharClass::Whitespace));
        lemma_leading_whitespace(a, w + b);
        lemma_leading_whitespace(w, b);
        lemma_leading_whitespace(a, b);
    } else {
        let x = a.skip(k as int);
        lemma_run_len_concat(a, w + b, CharClass::Whitespace);
        lemma_run_len_concat(a, b, CharClass::Whitespace);
        assert(s1.skip(k as int) =~= x + (w + b));
        assert(s2.skip(k as int) =~= x + b);
        assert(lex(s1) == lex_here(x + (w + b)));
        assert(lex(s2) == lex_here(x + b));
        assert(x.last() == a.last());
        // With `w` or without it, no run goes on beyond `x`.
        if w.len() > 0 {
            assert((w + b)[0] == w[0]);
            assert(CharClass::Whitespace.has(w[0]));
        } else {
            assert(w + b =~= b);
        }
        lemma_seam_stops_runs(x, b);
        lemma_lex_here_local(x, w + b);
        lemma_lex_here_local(x, b);
        if !is_terminal(lex_here(x).lexeme) {
            let rest = x.skip(token_len(x) as int);
            lemma_token_len_bound(x);
            assert(token_len(x) > 0);
            if rest.len() > 0 {
                assert(rest.last() == a.last());
            }
            assert(rest + w + b =~= rest + (w + b));
            lemma_whitespace_between_tokens(rest, w, b);
        }
    }
}

/// One stretch of white space is as good as another: to put `w2` where
/// `w1` stands changes nothing, as long as neither is empty.
pub proof fn lemma_whitespace_runs_alike(
    a: Seq<char>,
    w1: Seq<char>,
    w2: Seq<char>,
    b: Seq<char>,
)
    requires
        is_run(w1, CharClass::Whitespace),
        is_run(w2, CharClass::Whitespace),
        w1.len() > 0,
        w2.len() > 0,
    ensures
        lexemes(a + w1 + b) == lexemes(a + w2 + b),
{
    // Both texts give what `a + w1 + w2 + b` gives.
    assert((a + w1).last() == w1.last());
    assert(CharClass::Whitespace.has(w1[w1.len() - 1]));
    lemma_whitespace_between_tokens(a + w1, w2, b);
    assert((w2 + b)[0] == w2[0]);
    assert(CharClass::Whitespace.has(w2[0]));
    lemma_whitespace_between_tokens(a, w1, w2 + b);
    assert(a + w1 + (w2 + b) =~= a + w1 + w2 + b);
    assert(a + (w2 + b) =~= a + w2 + b);
}

} // verus!
