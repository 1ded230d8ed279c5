//! The text of a printed value: its decimal digits, most significant
//! first, after a minus sign if it is negative.
use vstd::prelude::*;
use crate::chars::{CharClass, digit_value, is_digit};
use crate::lexer::{LexStep, decimal_value, lex};
use crate::lexer_lemmas::{is_run, lemma_digit_run_is_number};
use crate::token::TokenView;

verus! {

/// The character that writes the digit `d`.
pub open spec fn digit_char(d: nat) -> char
    recommends
        d <= 9,
{
    ('0' as nat + d) as char
}

/// The digits of `n`, most significant first, with no zero in front; the
/// digits of zero are `0`.
pub open spec fn digits(n: nat) -> Seq<char>
    decreases n,
{
    if n < 10 {
        seq![digit_char(n)]
    } else {
        digits(n / 10).push(digit_char(n % 10))
    }
}

/// The decimal text of an integer.
pub open spec fn decimal_text(v: int) -> Seq<char> {
    if v < 0 {
        seq!['-'] + digits((-v) as nat)
    } else {
        digits(v as nat)
    }
}

/// The digits of a number are digits, and they write that number.
pub proof fn lemma_digits_value(n: nat)
    ensures
        digits(n).len() > 0,
        is_run(digits(n), CharClass::Digit),
        decimal_value(digits(n)) == n,
        n > 0 ==> digits(n)[0] != '0',
    decreases n,
{
    if n < 10 {
        let d = digits(n);
        assert(d.drop_last() =~= Seq::<char>::empty());
        assert(decimal_value(d.drop_last()) == 0);
        assert(digit_value(d.last()) == n);
    } else {
        lemma_digits_value(n / 10);
        let front = digits(n / 10);
        let d = digits(n);
        assert(d.drop_last() =~= front);
        assert(is_digit(digit_char(n % 10)));
        assert(digit_value(d.last()) == n % 10);
        assert(d[0] == front[0]);
        assert forall|i: int| 0 <= i < d.len() implies CharClass::Digit.has(#[trigger] d[i]) by {
            if i < front.len() {
                assert(d[i] == front[i]);
            }
        }
    }
}

/// What is printed can be read again: the lexer reads the decimal text of
/// a value that is not negative as the number with that value.
pub proof fn lemma_decimal_text_is_read_back(value: i64, after: Seq<char>)
    requires
        value >= 0,
        after.len() == 0 || !is_digit(after[0]),
    ensures
        lex(decimal_text(value as int) + after) == (LexStep {
            lexeme: Ok(TokenView::Number(value)),
            rest: after,
        }),
{
    lemma_digits_value(value as nat);
    lemma_digit_run_is_number(digits(value as nat), after);
}

/// The decimal text of `value`.
pub fn decimal(value: i64) -> (text: String)
    ensures
        text@ == decimal_text(value as int),
{
    let negative = value < 0;
    let magnitude: u64 = if negative {
        ((-(value + 1)) as u64) + 1
    } else {
        value as u64
    };
    // The digits, least significant first.
    let mut reversed: Vec<char> = Vec::new();
    let mut rest: u64 = magnitude;
    let ghost mut written: Seq<char> = Seq::empty();
    while rest >= 10
        invariant
            digits(magnitude as nat) == digits(rest as nat) + written,
            written.len() == reversed.len(),
            forall|i: int|
                0 <= i < written.len() ==> written[i] == #[trigger] reversed[reversed.len() - 1
                    - i],
        decreases rest,
    {
        let digit: u8 = (rest % 10) as u8;
        let c: char = (48u8 + digit) as char;
        proof {
            assert(c == digit_char((rest % 10) as nat));
            let longer = seq![c] + written;
            assert(digits(rest as nat) + written =~= digits((rest / 10) as nat) + longer);
            assert forall|i: int| 0 <= i < longer.len() implies longer[i] == #[trigger] reversed@.push(
                c,
            )[reversed.len() - i] by {
                if i > 0 {
                    assert(longer[i] == written[i - 1]);
                    assert(written[i - 1] == reversed[reversed.len() - 1 - (i - 1)]);
                }
            }
            written = longer;
        }
        reversed.push(c);
        rest = rest / 10;
    }
    let first: char = (48u8 + (rest as u8)) as char;
    assert(digits(rest as nat) =~= seq![first]);
    let mut text = String::new();
    if negative {
        text.push('-');
    }
    text.push(first);
    let ghost sign: Seq<char> = if negative {
        seq!['-']
    } else {
        Seq::empty()
    };
    assert(text@ =~= sign + seq![first]);
    let mut left: usize = reversed.len();
    while left > 0
        invariant
            left <= reversed.len(),
            written.len() == reversed.len(),
            forall|i: int|
                0 <= i < written.len() ==> written[i] == #[trigger] reversed[reversed.len() - 1
                    - i],
            text@ == sign + seq![first] + written.take(reversed.len() - left),
        decreases left,
    {
        left = left - 1;
        let c = reversed[left];
        text.push(c);
        proof {
            let k = reversed.len() - 1 - left;
            assert(written[k] == reversed[reversed.len() - 1 - k]);
            assert(written.take(k + 1) =~= written.take(k).push(c));
            assert(text@ =~= sign + seq![first] + written.take(k + 1));
        }
    }
    proof {
        assert(written.take(written.len() as int) =~= written);
        assert(text@ =~= sign + (seq![first] + written));
    }
    text
}

} // verus!
