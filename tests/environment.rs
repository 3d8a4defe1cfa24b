use lox_interp::environment::Environment;
use lox_interp::error::{ErrorKind, LoxError, RuntimeError};
use lox_interp::token::{Token, TokenType};
use lox_interp::value::Value;

fn name(n: &str, line: usize) -> Token {
    Token::new(TokenType::Identifier, n, None, line)
}

fn undefined(n: &str, line: usize) -> LoxError {
    LoxError::RunTime(RuntimeError { line, kind: ErrorKind::UndefinedVariable(n.to_string()) })
}

#[test]
fn get_sees_definition_from_nested_scopes() {
    let mut env = Environment::new();
    env.define("a".to_string(), Some(Value::Number(3)));
    assert_eq!(env.get(name("a", 1)), Ok(Some(Value::Number(3))));
    env.push_scope();
    env.push_scope();
    assert_eq!(env.get(name("a", 1)), Ok(Some(Value::Number(3))));
}

#[test]
fn inner_definition_shadows_until_scope_ends() {
    let mut env = Environment::new();
    env.define("a".to_string(), Some(Value::Number(1)));
    env.push_scope();
    env.define("a".to_string(), Some(Value::Number(2)));
    assert_eq!(env.get(name("a", 1)), Ok(Some(Value::Number(2))));
    env.pop_scope();
    assert_eq!(env.get(name("a", 1)), Ok(Some(Value::Number(1))));
}

#[test]
fn redefinition_overwrites() {
    let mut env = Environment::new();
    env.define("a".to_string(), Some(Value::Number(1)));
    env.define("a".to_string(), None);
    assert_eq!(env.get(name("a", 1)), Ok(None));
}

#[test]
fn assign_from_inner_scope_mutates_outer_binding() {
    let mut env = Environment::new();
    env.define("a".to_string(), Some(Value::Number(1)));
    env.push_scope();
    assert_eq!(env.assign(name("a", 1), Some(Value::Boolean(true))), Ok(()));
    assert_eq!(env.get(name("a", 1)), Ok(Some(Value::Boolean(true))));
    env.pop_scope();
    assert_eq!(env.get(name("a", 1)), Ok(Some(Value::Boolean(true))));
}

#[test]
fn assign_from_inner_scope_creates_no_inner_binding() {
    let mut env = Environment::new();
    env.define("a".to_string(), Some(Value::Number(1)));
    env.push_scope();
    assert_eq!(env.assign(name("a", 1), Some(Value::Number(2))), Ok(()));
    env.define("b".to_string(), None);
    env.pop_scope();
    assert_eq!(env.get(name("b", 6)), Err(undefined("b", 6)));
    assert_eq!(env.get(name("a", 1)), Ok(Some(Value::Number(2))));
}

#[test]
fn assign_undefined_fails_at_every_depth() {
    let mut env = Environment::new();
    assert_eq!(env.assign(name("z", 2), Some(Value::Nil)), Err(undefined("z", 2)));
    env.push_scope();
    env.push_scope();
    assert_eq!(env.assign(name("z", 5), Some(Value::Nil)), Err(undefined("z", 5)));
    assert_eq!(env.get(name("z", 5)), Err(undefined("z", 5)));
    assert_eq!(env.depth(), 3);
}

#[test]
fn token_constructors() {
    let t = Token::new(TokenType::Identifier, "abc", Some(Value::Number(1)), 9);
    assert!(t.is_identifier());
    assert_eq!(t.lexeme, "abc");
    assert_eq!(t.line, 9);
    let e = Token::eof(4);
    assert!(!e.is_identifier());
    assert_eq!(e.type_, TokenType::Eof);
    assert_eq!(e.lexeme, "");
    assert_eq!(e.literal, None);
    assert_eq!(e.line, 4);
}
