use jlox::environment::Environment;
use jlox::number::Number;
use jlox::token::{Literal, Token, TokenType};

fn number(value: f64) -> Number {
    Number::from_bits(value.to_bits())
}

fn is_number(value: &Literal, expected: f64) -> bool {
    matches!(value, Literal::Number(n) if f64::from_bits(n.to_bits()) == expected)
}

#[test]
fn test_define_variable() {
    let mut env = Environment::new();
    env.define(0, "foo", Literal::Boolean(true));
    assert!(env.get_at(0, 0, "foo").is_some());
    assert!(matches!(env.get_at(0, 0, "foo"), Some(Literal::Boolean(b)) if b));
}

#[test]
fn test_redefine_variable() {
    let mut env = Environment::new();
    env.define(0, "foo", Literal::Boolean(true));
    env.define(0, "foo", Literal::Number(number(12.3)));
    assert!(matches!(env.get_at(0, 0, "foo"), Some(v) if is_number(&v, 12.3)));
}

#[test]
fn test_get_variable() {
    let mut env = Environment::new();
    env.define(0, "foo", Literal::String("Foo".to_string()));
    let foo_tok = Token::new(TokenType::Identifier, "foo", None, 0);
    assert!(matches!(env.get(0, &foo_tok), Ok(Literal::String(s)) if s == "Foo"));
}

#[test]
fn test_get_undefined_variable() {
    let env = Environment::new();
    let foo_tok = Token::new(TokenType::Identifier, "foo", None, 0);
    assert!(env.get(0, &foo_tok).is_err());
}

#[test]
fn test_assign_to_undefined_variable() {
    let mut env = Environment::new();
    let foo_tok = Token::new(TokenType::Identifier, "foo", None, 0);
    assert!(env.assign(0, &foo_tok, &Literal::Nil).is_err());
}

#[test]
fn test_reassign_to_defined_variable() {
    let mut env = Environment::new();
    let foo_tok = Token::new(TokenType::Identifier, "foo", None, 0);
    env.define(0, "foo", Literal::Number(number(73.1)));
    assert!(env.assign(0, &foo_tok, &Literal::Number(number(89.5))).is_ok());
    assert!(matches!(env.get(0, &foo_tok), Ok(v) if is_number(&v, 89.5)));
}

#[test]
fn test_new_enclosed_environment() {
    let mut env = Environment::new();
    let enclosed = env.new_with_enclosing(0);
    assert_eq!(enclosed, 1);
    assert_eq!(env.frames[enclosed].enclosing, Some(0));
    assert_eq!(env.len(), 2);
}

#[test]
fn test_get_from_enclosed_environment() {
    let mut env = Environment::new();
    env.define(0, "foo", Literal::Number(number(77.8)));
    let enclosed = env.new_with_enclosing(0);
    let foo_tok = Token::new(TokenType::Identifier, "foo", None, 0);
    assert!(matches!(env.get(enclosed, &foo_tok), Ok(v) if is_number(&v, 77.8)))
}

#[test]
fn test_assign_to_enclosed_environment() {
    let mut env = Environment::new();
    env.define(0, "foo", Literal::Number(number(77.8)));
    let enclosed = env.new_with_enclosing(0);
    let foo_tok = Token::new(TokenType::Identifier, "foo", None, 0);
    assert!(env.assign(enclosed, &foo_tok, &Literal::Number(number(89.5))).is_ok());
    assert!(matches!(env.get(enclosed, &foo_tok), Ok(v) if is_number(&v, 89.5)));
    assert!(matches!(env.get(0, &foo_tok), Ok(v) if is_number(&v, 89.5)));
}

#[test]
fn inner_definition_shadows_the_outer_one() {
    let mut env = Environment::new();
    env.define(0, "a", Literal::String("global".to_string()));
    let inner = env.new_with_enclosing(0);
    env.define(inner, "a", Literal::String("local".to_string()));
    let a = Token::new(TokenType::Identifier, "a", None, 1);
    assert!(matches!(env.get(inner, &a), Ok(Literal::String(s)) if s == "local"));
    assert!(matches!(env.get(0, &a), Ok(Literal::String(s)) if s == "global"));
}

#[test]
fn get_at_reads_one_frame_only() {
    let mut env = Environment::new();
    env.define(0, "a", Literal::String("global".to_string()));
    let middle = env.new_with_enclosing(0);
    let inner = env.new_with_enclosing(middle);
    env.define(inner, "b", Literal::Boolean(true));
    assert!(matches!(env.get_at(inner, 2, "a"), Some(Literal::String(s)) if s == "global"));
    assert!(env.get_at(inner, 1, "a").is_none());
    assert!(env.get_at(inner, 0, "a").is_none());
    assert!(matches!(env.get_at(inner, 0, "b"), Some(Literal::Boolean(true))));
    assert!(env.get_at(inner, 3, "a").is_none());
}

#[test]
fn a_later_declaration_does_not_change_a_resolved_read() {
    let mut env = Environment::new();
    env.define(0, "a", Literal::String("global".to_string()));
    let block = env.new_with_enclosing(0);
    let call = env.new_with_enclosing(block);
    assert!(matches!(env.get_at(call, 2, "a"), Some(Literal::String(s)) if s == "global"));
    env.define(block, "a", Literal::String("local".to_string()));
    assert!(matches!(env.get_at(call, 2, "a"), Some(Literal::String(s)) if s == "global"));
    assert!(matches!(env.get_at(call, 1, "a"), Some(Literal::String(s)) if s == "local"));
}

#[test]
fn assign_at_writes_the_frame_at_the_distance() {
    let mut env = Environment::new();
    let inner = env.new_with_enclosing(0);
    env.define(0, "x", Literal::Nil);
    env.define(inner, "x", Literal::Nil);
    let x = Token::new(TokenType::Identifier, "x", None, 1);
    assert!(env.assign_at(inner, 1, &x, &Literal::Boolean(true)).is_ok());
    assert!(matches!(env.get_at(inner, 1, "x"), Some(Literal::Boolean(true))));
    assert!(matches!(env.get_at(inner, 0, "x"), Some(Literal::Nil)));
    assert!(env.assign_at(inner, 2, &x, &Literal::Boolean(true)).is_err());
}

#[test]
fn undefined_variable_is_a_runtime_error_with_the_name() {
    let env = Environment::new();
    let name = Token::new(TokenType::Identifier, "missing", None, 4);
    let error = env.get(0, &name).unwrap_err();
    assert!(error.is_runtime_error());
    assert_eq!(error.report().unwrap(), "Undefined variable 'missing'.\n[line 4]");
}
