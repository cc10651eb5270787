use kyanite::text::{contains_char, parse_digits, push_decimal, push_signed, str_equal, usize_to_string};
use kyanite::token::{Kind, Span, Token};
use kyanite::ast::Type;

#[test]
fn decimal_rendering() {
    assert_eq!(usize_to_string(0), "0");
    assert_eq!(usize_to_string(1234), "1234");
    let mut out = String::from("n=");
    push_decimal(&mut out, 907);
    assert_eq!(out, "n=907");
    let mut out = String::new();
    push_signed(&mut out, -45);
    assert_eq!(out, "-45");
    let mut out = String::new();
    push_signed(&mut out, i64::MIN);
    assert_eq!(out, "-9223372036854775808");
}

#[test]
fn decimal_roundtrip() {
    for n in [0usize, 7, 10, 99, 100, 65535] {
        assert_eq!(parse_digits(&usize_to_string(n)), n as i64);
    }
    assert_eq!(parse_digits("0042"), 42);
    assert_eq!(parse_digits("9223372036854775807"), i64::MAX);
}

#[test]
fn character_helpers() {
    assert!(contains_char("1.5", '.'));
    assert!(!contains_char("15", '.'));
    assert!(str_equal("abc", "abc"));
    assert!(!str_equal("abc", "abd"));
    assert!(!str_equal("ab", "abc"));
}

#[test]
fn token_text_and_kind_text() {
    let t = Token::new(Kind::Identifier, Some("name".to_string()), Span::new(1, 0, 4));
    assert_eq!(t.text(), "name");
    let eof = Token::new(Kind::Eof, None, Span::new(2, 0, 0));
    assert_eq!(eof.text(), "");
    assert_eq!(Kind::BangEqual.text(), "!=");
    assert_eq!(Kind::Eof.text(), "EOF");
    assert_eq!(t.clone().text(), "name");
}

#[test]
fn types_from_names() {
    let int = Token::new(Kind::Identifier, Some("int".to_string()), Span::new(1, 0, 3));
    assert_eq!(Type::from_token(&int), Type::Int);
    let point = Token::new(Kind::Identifier, Some("Point".to_string()), Span::new(1, 0, 5));
    assert_eq!(Type::from_token(&point), Type::UserDefined("Point".to_string()));
    assert_eq!(Type::from_annotation(&None), Type::Void);
}
