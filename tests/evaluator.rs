use p_lang::ast::Expression;
use p_lang::environment::Environment;
use p_lang::error::EvalError;
use p_lang::evaluator::Evaluator;
use p_lang::lexer::Lexer;
use p_lang::object::{Object, OwnerShip};
use p_lang::operators::FloatArith;
use p_lang::parser::Parser;
use p_lang::token::Token;

struct F64;

impl FloatArith for F64 {
    fn parse(text: &String) -> Option<u64> {
        text.parse::<f64>().ok().map(|f| f.to_bits())
    }
    fn from_integer(v: i128) -> u64 {
        (v as f64).to_bits()
    }
    fn negate(a: u64) -> u64 {
        (-f64::from_bits(a)).to_bits()
    }
    fn add(a: u64, b: u64) -> u64 {
        (f64::from_bits(a) + f64::from_bits(b)).to_bits()
    }
    fn sub(a: u64, b: u64) -> u64 {
        (f64::from_bits(a) - f64::from_bits(b)).to_bits()
    }
    fn mul(a: u64, b: u64) -> u64 {
        (f64::from_bits(a) * f64::from_bits(b)).to_bits()
    }
    fn div(a: u64, b: u64) -> u64 {
        (f64::from_bits(a) / f64::from_bits(b)).to_bits()
    }
    fn rem(a: u64, b: u64) -> u64 {
        (f64::from_bits(a) % f64::from_bits(b)).to_bits()
    }
    fn equal(a: u64, b: u64) -> bool {
        f64::from_bits(a) == f64::from_bits(b)
    }
    fn less(a: u64, b: u64) -> bool {
        f64::from_bits(a) < f64::from_bits(b)
    }
    fn greater(a: u64, b: u64) -> bool {
        f64::from_bits(a) > f64::from_bits(b)
    }
    fn less_equal(a: u64, b: u64) -> bool {
        f64::from_bits(a) <= f64::from_bits(b)
    }
    fn greater_equal(a: u64, b: u64) -> bool {
        f64::from_bits(a) >= f64::from_bits(b)
    }
}

fn run(src: &str, env: &mut Environment) -> Result<Vec<Object>, EvalError> {
    let tokens = Lexer::from_string(src.to_string()).lex();
    let statements = Parser::from_tokens(tokens).parse().unwrap();
    Evaluator::new(statements).evaluate::<F64>(env)
}

fn last(src: &str, env: &mut Environment) -> Result<Object, EvalError> {
    run(src, env).map(|mut v| v.pop().unwrap_or(Object::Null))
}

fn float(f: f64) -> Object {
    Object::Float(f.to_bits())
}

#[test]
fn let_then_identifier_gives_value() {
    let mut env = Environment::new();
    run("let a: int = 10;", &mut env).unwrap();
    assert_eq!(last("a;", &mut env).unwrap(), Object::Integer(10));
}

#[test]
fn inner_if_binding_does_not_touch_outer() {
    let mut env = Environment::new();
    run("let a: int = 1; if (true) { let a: int = 2; a; }", &mut env).unwrap();
    assert_eq!(last("a;", &mut env).unwrap(), Object::Integer(1));
    assert_eq!(env.stack().len(), 1);
}

#[test]
fn assignment_of_other_type_fails_and_keeps_value() {
    let mut env = Environment::new();
    run("let a: int = 10;", &mut env).unwrap();
    let e = run("a = \"x\";", &mut env).unwrap_err();
    assert!(matches!(e, EvalError::CannotAssignDifferentType(Object::String(_), Object::Integer(10))));
    assert_eq!(last("a;", &mut env).unwrap(), Object::Integer(10));
}

#[test]
fn function_call_and_arity() {
    let mut env = Environment::new();
    run("function add(a: int, b: int): int { ret a + b; }", &mut env).unwrap();
    assert_eq!(last("add(2, 3);", &mut env).unwrap(), Object::Integer(5));
    let e = run("add(2);", &mut env).unwrap_err();
    assert!(matches!(e, EvalError::InvalidAmountOfArguments(2, 1)));
    let values = run("let x: int = add(1, 1); x + 1;", &mut env).unwrap();
    assert_eq!(values, vec![Object::Integer(2), Object::Integer(3)]);
}

#[test]
fn return_inside_function_stops_at_call() {
    let mut env = Environment::new();
    let values = run("function f(): int { ret 1; 2; } if (true) { f(); 7; }", &mut env).unwrap();
    assert_eq!(values[1], Object::Integer(7));
}

#[test]
fn function_parameter_and_return_types() {
    let mut env = Environment::new();
    run("function f(a: int): int { ret \"s\"; } function g(a: int) { ret a; }", &mut env).unwrap();
    let e = run("f(\"s\");", &mut env).unwrap_err();
    assert!(matches!(e, EvalError::ExpectedTypeButFound(Token::IntegerType, Object::String(_))));
    let e = run("f(1);", &mut env).unwrap_err();
    assert!(matches!(e, EvalError::ExpectedTypeButFound(Token::IntegerType, Object::String(_))));
    assert_eq!(last("g(4);", &mut env).unwrap(), Object::Null);
    assert_eq!(env.stack().len(), 2);
}

#[test]
fn array_access_and_errors() {
    let mut env = Environment::new();
    run("let arr = [1, 2, 3];", &mut env).unwrap();
    assert_eq!(last("arr[1];", &mut env).unwrap(), Object::Integer(2));
    assert!(matches!(run("arr[5];", &mut env).unwrap_err(), EvalError::IndexOutOfRange(5)));
    assert!(matches!(run("arr[-1];", &mut env).unwrap_err(), EvalError::IndexOutOfRange(-1)));
    assert!(matches!(run("arr[3];", &mut env).unwrap_err(), EvalError::IndexOutOfRange(3)));
    assert!(matches!(run("arr[\"x\"];", &mut env).unwrap_err(), EvalError::CannotAccessArrayWith(Object::String(_))));
    assert!(matches!(run("let n: int = 1; n[0];", &mut env).unwrap_err(), EvalError::CannotArrayAccess(Object::Integer(1))));
}

#[test]
fn array_elements_are_shared_through_references() {
    let mut env = Environment::new();
    run("let arr = [1, 2]; let b = arr; arr[0] = 9;", &mut env).unwrap();
    assert_eq!(last("b[0];", &mut env).unwrap(), Object::Integer(9));
    assert_eq!(last("[];", &mut env).unwrap(), Object::Array(vec![]));
}

#[test]
fn infix_type_rules() {
    let mut env = Environment::new();
    assert_eq!(last("1 + 2.0;", &mut env).unwrap(), float(3.0));
    assert_eq!(last("2.5 * 2;", &mut env).unwrap(), float(5.0));
    assert!(matches!(run("1 == 2.0;", &mut env).unwrap_err(), EvalError::IncompatibleTypes(Token::IntegerType, Object::Float(_), Token::Equal)));
    assert!(matches!(run("1.0 < 2;", &mut env).unwrap_err(), EvalError::IncompatibleTypes(Token::FloatType, Object::Integer(2), Token::LessThan)));
    assert_eq!(last("1.5 == 1.5;", &mut env).unwrap(), Object::Boolean(true));
    assert_eq!(last("true && false;", &mut env).unwrap(), Object::Boolean(false));
    assert_eq!(last("\"a\" + \"b\";", &mut env).unwrap(), Object::String("ab".to_string()));
    assert!(matches!(run("1 + \"a\";", &mut env).unwrap_err(), EvalError::IncompatibleTypes(Token::IntegerType, Object::String(_), Token::Add)));
    assert!(matches!(run("\"a\" - \"b\";", &mut env).unwrap_err(), EvalError::CannotApplyOn(Token::Subtract, Object::String(_))));
    assert!(matches!(run("1 && 2;", &mut env).unwrap_err(), EvalError::CannotApplyOn(Token::And, Object::Integer(1))));
}

#[test]
fn integer_arithmetic() {
    let mut env = Environment::new();
    assert_eq!(last("7 / 2;", &mut env).unwrap(), Object::Integer(3));
    assert_eq!(last("0 - 7 % 3;", &mut env).unwrap(), Object::Integer(-1));
    assert_eq!(last("1 + 2 * 3;", &mut env).unwrap(), Object::Integer(7));
    assert_eq!(last("1 * 2 + 3;", &mut env).unwrap(), Object::Integer(5));
    assert_eq!(last("3 >= 3;", &mut env).unwrap(), Object::Boolean(true));
    assert!(matches!(run("1 / 0;", &mut env).unwrap_err(), EvalError::ArithmeticFailure(Token::Divide)));
    assert!(matches!(
        run("170141183460469231731687303715884105727 + 1;", &mut env).unwrap_err(),
        EvalError::ArithmeticFailure(Token::Add)
    ));
    assert!(matches!(run("999999999999999999999999999999999999999999;", &mut env).unwrap_err(), EvalError::CannotConvertInto(_, _)));
}

#[test]
fn prefix_operators() {
    let mut env = Environment::new();
    assert_eq!(last("-5;", &mut env).unwrap(), Object::Integer(-5));
    assert_eq!(last("-1.5;", &mut env).unwrap(), float(-1.5));
    assert_eq!(last("!true;", &mut env).unwrap(), Object::Boolean(false));
    assert!(matches!(run("!1;", &mut env).unwrap_err(), EvalError::IllegalPrefixOperation(Token::Invert, Object::Integer(1))));
    assert!(matches!(run("-\"a\";", &mut env).unwrap_err(), EvalError::IllegalPrefixOperation(Token::Subtract, Object::String(_))));
}

#[test]
fn pure_expression_evaluates_the_same_twice() {
    let mut env = Environment::new();
    run("let a: int = 4; let s: string = \"x\";", &mut env).unwrap();
    let first = last("a * 3 + 1 == 13;", &mut env).unwrap();
    let second = last("a * 3 + 1 == 13;", &mut env).unwrap();
    assert_eq!(first, second);
    assert_eq!(first, Object::Boolean(true));
    let e1 = last("a + 0.5;", &mut env).unwrap();
    let e2 = last("a + 0.5;", &mut env).unwrap();
    assert_eq!(e1, e2);
    assert_eq!(env.stack().len(), 2);
}

#[test]
fn while_loop_and_scoping_choice() {
    let mut env = Environment::new();
    run("let i: int = 0; while (i < 3) { let j: int = i; i = i + 1; }", &mut env).unwrap();
    assert_eq!(last("i;", &mut env).unwrap(), Object::Integer(3));
    assert_eq!(last("j;", &mut env).unwrap(), Object::Integer(3));
    assert_eq!(env.stack().len(), 4);

    let mut scoped = Environment::with_loop_scopes(true);
    run("let i: int = 0; while (i < 3) { let j: int = i; i = i + 1; }", &mut scoped).unwrap();
    assert_eq!(last("i;", &mut scoped).unwrap(), Object::Integer(3));
    assert!(matches!(run("j;", &mut scoped).unwrap_err(), EvalError::UnknownIdentifier(ref n) if n == "j"));
    assert_eq!(last("while (false) { 1; }", &mut scoped).unwrap(), Object::Null);
}

#[test]
fn step_limit_ends_endless_loop() {
    let mut env = Environment::new();
    env.set_step_limit(100);
    assert!(matches!(run("while (true) { 1; }", &mut env).unwrap_err(), EvalError::StepLimitReached));
    assert_eq!(env.steps(), 0);
}

#[test]
fn cyclic_reference_fails_loudly() {
    let mut env = Environment::new();
    let e = run("let a: int = 1; let b = a; a = b;", &mut env).unwrap_err();
    assert!(matches!(e, EvalError::CyclicReference(_)));
    assert!(matches!(run("a;", &mut env).unwrap_err(), EvalError::CyclicReference(_)));
    let mut env = Environment::new();
    let e = run("let a: int = 1; let b = a; b = 5; a;", &mut env).unwrap();
    assert_eq!(e[3], Object::Integer(5));
}

#[test]
fn condition_must_be_boolean_and_callee_a_function() {
    let mut env = Environment::new();
    assert!(matches!(run("if (1) { 2; }", &mut env).unwrap_err(), EvalError::InvalidTypeButFound(Token::BooleanType, Object::Integer(1))));
    assert!(matches!(run("let x: int = 1; x(1);", &mut env).unwrap_err(), EvalError::CannotCall(Object::Integer(1))));
    assert!(matches!(run("nothing;", &mut env).unwrap_err(), EvalError::UnknownIdentifier(_)));
    assert_eq!(last("if (false) { 2; }", &mut env).unwrap(), Object::Null);
    assert_eq!(last("if (false) { 2; } else { 3; }", &mut env).unwrap(), Object::Integer(3));
}

#[test]
fn let_type_checks_and_error_values() {
    let mut env = Environment::new();
    assert!(matches!(run("let a: int = \"s\";", &mut env).unwrap_err(), EvalError::InvalidType(Token::IntegerType, Token::StringType)));
    assert_eq!(last("let e: int = err(\"bad\");", &mut env).unwrap(), Object::Error(Box::new(Object::String("bad".to_string()))));
    assert!(matches!(run("let b: bool = if (false) { 1; };", &mut env).unwrap_err(), EvalError::InvalidTypeButFound(Token::BooleanType, Object::Null)));
}

#[test]
fn expressions_built_by_hand() {
    let mut env = Environment::new();
    let bad = Expression::Integer { value: "1x".to_string() };
    assert!(matches!(bad.evaluate::<F64>(&mut env).unwrap_err(), EvalError::CannotConvertInto(_, _)));
    let bad_float = Expression::Float { value: "1.2.3".to_string() };
    assert!(matches!(bad_float.evaluate::<F64>(&mut env).unwrap_err(), EvalError::CannotConvertInto(_, _)));
    let target = Expression::Assign {
        assign_to: Box::new(Expression::Integer { value: "1".to_string() }),
        value: Box::new(Expression::Integer { value: "2".to_string() }),
    };
    assert!(matches!(target.evaluate::<F64>(&mut env).unwrap_err(), EvalError::CannotAssignTo(Object::Integer(1))));
    let lit = Expression::Integer { value: "42".to_string() };
    assert!(matches!(lit.evaluate::<F64>(&mut env).unwrap(), (OwnerShip::Instance(Object::Integer(42)), false)));
}
