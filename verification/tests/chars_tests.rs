use celestial_script::chars::{
    char_digit_value, char_is_digit, char_is_whitespace, char_is_word_part, char_is_word_start,
};
use celestial_script::decimal::decimal;
use celestial_script::lexer::Lexer;
use celestial_script::token::Token;

fn every_char() -> Vec<char> {
    (0..=0x10ffffu32).filter_map(char::from_u32).collect()
}

#[test]
fn whitespace_agrees_with_std() {
    for c in every_char() {
        assert_eq!(char_is_whitespace(c), c.is_whitespace(), "{:?}", c);
    }
}

#[test]
fn digits_agree_with_std() {
    for c in every_char() {
        assert_eq!(char_is_digit(c), c.is_digit(10), "{:?}", c);
        if char_is_digit(c) {
            assert_eq!(Some(u32::from(char_digit_value(c))), c.to_digit(10));
        }
    }
}

#[test]
fn digit_values() {
    assert_eq!(char_digit_value('0'), 0);
    assert_eq!(char_digit_value('5'), 5);
    assert_eq!(char_digit_value('9'), 9);
    assert!(!char_is_digit('/'));
    assert!(!char_is_digit(':'));
    assert!(!char_is_digit('\u{663}'));
}

#[test]
fn word_characters_agree_with_std() {
    for c in every_char() {
        assert_eq!(char_is_word_start(c), c.is_alphabetic(), "{:?}", c);
        assert_eq!(char_is_word_part(c), c.is_alphanumeric(), "{:?}", c);
    }
}

#[test]
fn word_character_examples() {
    assert!(char_is_word_start('a'));
    assert!(char_is_word_start('Z'));
    assert!(char_is_word_start('\u{e9}'));
    assert!(!char_is_word_start('1'));
    assert!(!char_is_word_start('_'));
    assert!(!char_is_word_start(' '));
    assert!(char_is_word_part('a'));
    assert!(char_is_word_part('7'));
    assert!(char_is_word_part('\u{b2}'));
    assert!(!char_is_word_part('-'));
    assert!(!char_is_word_part('\n'));
}

#[test]
fn decimal_of_small_values() {
    assert_eq!(decimal(0), "0");
    assert_eq!(decimal(7), "7");
    assert_eq!(decimal(10), "10");
    assert_eq!(decimal(30), "30");
    assert_eq!(decimal(1203), "1203");
    assert_eq!(decimal(-1), "-1");
    assert_eq!(decimal(-10), "-10");
    assert_eq!(decimal(-987), "-987");
}

#[test]
fn decimal_of_extreme_values() {
    assert_eq!(decimal(i64::MAX), "9223372036854775807");
    assert_eq!(decimal(i64::MIN), "-9223372036854775808");
    assert_eq!(decimal(i64::MIN + 1), "-9223372036854775807");
}

#[test]
fn decimal_agrees_with_std() {
    let mut v: i64 = 1;
    for _ in 0..62 {
        for d in [-1i64, 0, 1] {
            assert_eq!(decimal(v + d), (v + d).to_string());
            assert_eq!(decimal(-(v + d)), (-(v + d)).to_string());
        }
        v *= 2;
    }
    let mut p: i64 = 1;
    for _ in 0..18 {
        assert_eq!(decimal(p), p.to_string());
        assert_eq!(decimal(p - 1), (p - 1).to_string());
        p *= 10;
    }
}

#[test]
fn decimal_text_is_read_back() {
    for v in [0i64, 1, 9, 10, 99, 100, 12345, i64::MAX] {
        let mut lexer = Lexer::new(decimal(v));
        assert_eq!(lexer.next_token(), Ok(Token::Number(v)));
        assert_eq!(lexer.next_token(), Ok(Token::EOF));
    }
}
