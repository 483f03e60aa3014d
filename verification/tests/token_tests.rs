use jlox::number::Number;
use jlox::token::{Callable, Literal, Token, TokenType};

fn number(value: f64) -> Number {
    Number::from_bits(value.to_bits())
}

fn samples() -> Vec<f64> {
    vec![
        0.0,
        -0.0,
        1.0,
        -1.0,
        0.5,
        -0.5,
        123.0,
        45.67,
        -5617.41,
        1e308,
        -1e308,
        5e-324,
        -5e-324,
        2.2250738585072014e-308,
        f64::INFINITY,
        f64::NEG_INFINITY,
        f64::NAN,
        -f64::NAN,
        f64::MAX,
        f64::MIN,
        f64::EPSILON,
    ]
}

#[test]
fn test_token_is_type() {
    let token = Token::new(TokenType::Number, "123", Some(Literal::Number(number(123.0))), 1);
    assert!(token.is_type(&TokenType::Number));
    assert!(!token.is_type(&TokenType::Nil));
}

#[test]
fn token_getters_give_the_parts() {
    let token = Token::new(TokenType::String, "\"hi\"", Some(Literal::String("hi".to_string())), 7);
    assert_eq!(*token.get_type(), TokenType::String);
    assert_eq!(token.get_lexeme(), "\"hi\"");
    assert!(matches!(token.get_literal(), Some(Literal::String(s)) if s == "hi"));
    assert_eq!(token.get_line(), 7);
    let copy = token.clone();
    assert_eq!(copy.get_lexeme(), "\"hi\"");
    assert_eq!(copy.get_line(), 7);
}

#[test]
fn token_is_types_looks_through_the_list() {
    let token = Token::new(TokenType::Plus, "+", None, 1);
    assert!(token.is_types(&[&TokenType::Minus, &TokenType::Plus]));
    assert!(!token.is_types(&[&TokenType::Minus, &TokenType::Star]));
    assert!(!token.is_types(&[]));
}

#[test]
fn eof_token_is_empty() {
    let token = Token::new_eof(3);
    assert!(token.is_type(&TokenType::Eof));
    assert_eq!(token.get_lexeme(), "");
    assert!(token.get_literal().is_none());
    assert_eq!(token.get_line(), 3);
}

#[test]
fn number_keeps_its_bits() {
    for value in samples() {
        assert_eq!(number(value).to_bits(), value.to_bits());
    }
}

#[test]
fn number_negation_is_that_of_doubles() {
    for value in samples() {
        assert_eq!(number(value).negate().to_bits(), (-value).to_bits());
    }
    assert_eq!(number(123.0).negate().to_bits(), (-123.0f64).to_bits());
}

#[test]
fn number_comparison_is_that_of_doubles() {
    for a in samples() {
        for b in samples() {
            assert_eq!(number(a).equals(number(b)), a == b, "{a} == {b}");
            assert_eq!(number(a).less(number(b)), a < b, "{a} < {b}");
            assert_eq!(number(a).less_equal(number(b)), a <= b, "{a} <= {b}");
            assert_eq!(number(a).greater(number(b)), a > b, "{a} > {b}");
            assert_eq!(number(a).greater_equal(number(b)), a >= b, "{a} >= {b}");
        }
    }
}

#[test]
fn number_nan_is_recognised() {
    for value in samples() {
        assert_eq!(number(value).is_not_a_number(), value.is_nan());
    }
}

#[test]
fn literal_truthiness() {
    assert!(!Literal::Nil.is_truthy());
    assert!(!Literal::Boolean(false).is_truthy());
    assert!(Literal::Boolean(true).is_truthy());
    assert!(Literal::Number(number(0.0)).is_truthy());
    assert!(Literal::String(String::new()).is_truthy());
    assert!(Literal::Class(0).is_truthy());
}

#[test]
fn literal_equality() {
    let one = Literal::Number(number(1.0));
    assert!(one.equals(&Literal::Number(number(1.0))));
    assert!(!one.equals(&Literal::Number(number(2.0))));
    assert!(!one.equals(&Literal::String("1".to_string())));
    assert!(Literal::String("a".to_string()).equals(&Literal::String("a".to_string())));
    assert!(!Literal::String("a".to_string()).equals(&Literal::String("b".to_string())));
    assert!(Literal::Nil.equals(&Literal::Nil));
    assert!(!Literal::Nil.equals(&Literal::Boolean(false)));
    assert!(Literal::Boolean(true).equals(&Literal::Boolean(true)));
    assert!(!Literal::Boolean(true).equals(&Literal::Boolean(false)));
    assert!(Literal::Instance(3).equals(&Literal::Instance(3)));
    assert!(!Literal::Instance(3).equals(&Literal::Instance(4)));
    assert!(!Literal::Instance(3).equals(&Literal::Class(3)));
    assert!(Literal::Function(Callable { fun: 2 }).equals(&Literal::Function(Callable { fun: 2 })));
    assert!(!Literal::Function(Callable { fun: 2 }).equals(&Literal::Function(Callable { fun: 5 })));
    let nan = Literal::Number(number(f64::NAN));
    assert!(!nan.equals(&nan));
    assert!(Literal::Number(number(0.0)).equals(&Literal::Number(number(-0.0))));
}

#[test]
fn literal_get_number() {
    assert!(matches!(Literal::Number(number(2.5)).get_number(), Ok(n) if n.to_bits() == 2.5f64.to_bits()));
    assert!(Literal::Nil.get_number().is_err());
    assert!(matches!(Literal::String("2.5".to_string()).get_number(), Err(e) if e.report().is_none()));
}
