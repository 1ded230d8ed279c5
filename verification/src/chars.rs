//! Character classes of the lexer.
use vstd::prelude::*;

verus! {

/// The characters with the Unicode property `White_Space`.
pub open spec fn is_whitespace(c: char) -> bool {
    ||| '\u{9}' <= c <= '\u{d}'
    ||| c == ' '
    ||| c == '\u{85}'
    ||| c == '\u{a0}'
    ||| c == '\u{1680}'
    ||| '\u{2000}' <= c <= '\u{200a}'
    ||| c == '\u{2028}'
    ||| c == '\u{2029}'
    ||| c == '\u{202f}'
    ||| c == '\u{205f}'
    ||| c == '\u{3000}'
}

/// The ten decimal digits `0` to `9`.
pub open spec fn is_digit(c: char) -> bool {
    '0' <= c <= '9'
}

/// The number that a decimal digit stands for.
pub open spec fn digit_value(c: char) -> nat
    recommends
        is_digit(c),
{
    (c as nat - '0' as nat) as nat
}

/// Whether `c` has the Unicode property `Alphabetic`, as
/// `char::is_alphabetic` reports it.
pub uninterp spec fn unicode_alphabetic(c: char) -> bool;

/// Whether `c` is alphabetic or numeric in Unicode's sense, as
/// `char::is_alphanumeric` reports it.
pub uninterp spec fn unicode_alphanumeric(c: char) -> bool;

/// A character that can open a word: alphabetic, and no white space.
pub open spec fn is_word_start(c: char) -> bool {
    !is_whitespace(c) && unicode_alphabetic(c)
}

/// A character that can continue a word: alphanumeric, and no white space.
pub open spec fn is_word_part(c: char) -> bool {
    !is_whitespace(c) && unicode_alphanumeric(c)
}

/// The classes of characters of which the lexer reads maximal runs.
pub ghost enum CharClass {
    /// White space, which separates tokens.
    Whitespace,
    /// The characters that continue a word.
    WordPart,
    /// The decimal digits.
    Digit,
}

impl CharClass {
    /// Whether `c` belongs to the class.
    pub open spec fn has(self, c: char) -> bool {
        match self {
            CharClass::Whitespace => is_whitespace(c),
            CharClass::WordPart => is_word_part(c),
            CharClass::Digit => is_digit(c),
        }
    }
}

/// Calls `char::is_alphabetic`. Trusted: the result is given the name
/// `unicode_alphabetic`; nothing more is claimed of it.
#[verifier::external_body]
pub(crate) fn char_is_alphabetic(c: char) -> (r: bool)
    ensures
        r == unicode_alphabetic(c),
{
    c.is_alphabetic()
}

/// Calls `char::is_alphanumeric`. Trusted: the result is given the name
/// `unicode_alphanumeric`; nothing more is claimed of it.
#[verifier::external_body]
pub(crate) fn char_is_alphanumeric(c: char) -> (r: bool)
    ensures
        r == unicode_alphanumeric(c),
{
    c.is_alphanumeric()
}

/// `String::push` appends the character to the string. Trusted: the
/// string afterwards is the string before with `ch` added at its end.
pub assume_specification[ String::push ](s: &mut String, ch: char)
    ensures
        final(s)@ == old(s)@.push(ch),
;

/// Whether `c` is white space, as `char::is_whitespace` has it.
pub fn char_is_whitespace(c: char) -> (r: bool)
    ensures
        r == is_whitespace(c),
{
    ('\u{9}' <= c && c <= '\u{d}') || c == ' ' || c == '\u{85}' || c == '\u{a0}' || c
        == '\u{1680}' || ('\u{2000}' <= c && c <= '\u{200a}') || c == '\u{2028}' || c
        == '\u{2029}' || c == '\u{202f}' || c == '\u{205f}' || c == '\u{3000}'
}

/// Whether `c` is one of the digits `0` to `9`.
pub fn char_is_digit(c: char) -> (r: bool)
    ensures
        r == is_digit(c),
{
    '0' <= c && c <= '9'
}

/// The value of the decimal digit `c`.
pub fn char_digit_value(c: char) -> (r: u8)
    requires
        is_digit(c),
    ensures
        r == digit_value(c),
        r <= 9,
{
    let code: u32 = c as u32;
    (code - 48) as u8
}

/// Whether `c` can open a word.
pub fn char_is_word_start(c: char) -> (r: bool)
    ensures
        r == is_word_start(c),
{
    !char_is_whitespace(c) && char_is_alphabetic(c)
}

/// Whether `c` can continue a word.
pub fn char_is_word_part(c: char) -> (r: bool)
    ensures
        r == is_word_part(c),
{
    !char_is_whitespace(c) && char_is_alphanumeric(c)
}

} // verus!
