use std::rc::Rc;
use toylang::errors::interpreter_error::InterpreterError;
use toylang::interpreter::class::class::{check_inheritance, class_methods, superclass_value, Class};
use toylang::interpreter::class::instance::{Instance, Property};
use toylang::interpreter::environment::{Binding, Environment};
use toylang::interpreter::function::Function;
use toylang::interpreter::runtime::eval_collections::array_position;
use toylang::interpreter::signal::{call_outcome, statement_outcome, Signal};
use toylang::lexer::lexer::Lexer;
use toylang::lexer::token::{Span, Token, TokenKind};
use toylang::native::types::bool_from_text;
use toylang::parser::parser::Parser;
use toylang::parser::statement::Stmt;

type Env = Environment<i64, String, bool>;

fn ident(name: &str) -> Token {
    Token { kind: TokenKind::IDENT(name.to_string()), span: Span { line: 1, column: 1 } }
}

fn statements(src: &str) -> Vec<Stmt> {
    let mut lexer = Lexer::new(src.to_string());
    let tokens = lexer.tokenize().unwrap().clone();
    Parser::new(&tokens).parse().unwrap()
}

#[test]
fn lookup_prefers_the_resolved_local() {
    let mut env = Env::new();
    env.define_var(0, "x", 1);
    let inner = env.new_enclosed(0);
    env.define_var(inner, "x", 2);
    assert!(matches!(env.lookup(inner, 0, Some(0), "x", 1, 1), Ok(Binding::Var(&2))));
    assert!(matches!(env.lookup(inner, 0, None, "x", 1, 1), Ok(Binding::Var(&1))));
}

#[test]
fn lookup_falls_back_to_functions_and_classes() {
    let mut env = Env::new();
    env.define_func(0, "f", "code".to_string());
    env.define_class(0, "C", true);
    let inner = env.new_enclosed(0);
    assert!(matches!(env.lookup(inner, 0, None, "f", 1, 1), Ok(Binding::Func(s)) if s == "code"));
    assert!(matches!(env.lookup(inner, 0, None, "C", 1, 1), Ok(Binding::Class(&true))));
    match env.lookup(inner, 0, Some(0), "nope", 4, 7) {
        Err(InterpreterError::UndefinedVariable { name, line, col }) => {
            assert_eq!(name, "nope");
            assert_eq!((line, col), (4, 7));
        }
        _ => panic!("expected an undefined variable"),
    }
}

#[test]
fn lookup_with_a_depth_that_misses_reads_from_the_chain() {
    let mut env = Env::new();
    let a = env.new_enclosed(0);
    env.define_var(a, "x", 3);
    let b = env.new_enclosed(a);
    assert!(matches!(env.lookup(b, 0, Some(0), "x", 1, 1), Ok(Binding::Var(&3))));
}

#[test]
fn assign_and_read_through_a_depth() {
    let mut env = Env::new();
    let a = env.new_enclosed(0);
    env.define_var(a, "x", 3);
    let b = env.new_enclosed(a);
    assert!(env.assign_resolved(b, Some(1), "x", 9, 1, 1).is_ok());
    assert_eq!(env.read_resolved(b, Some(1), "x", 1, 1).ok(), Some(&9));
    assert_eq!(env.get_at(a, 0, "x"), Some(&9));
    assert!(env.assign_resolved(b, None, "x", 10, 1, 1).is_ok());
    assert_eq!(env.get_var(b, "x", 1, 1), Some(&10));
    assert!(matches!(
        env.assign_resolved(b, None, "y", 1, 2, 3),
        Err(InterpreterError::UndefinedVariable { line: 2, col: 3, .. })
    ));
    assert!(matches!(
        env.read_resolved(b, Some(0), "y", 5, 6),
        Err(InterpreterError::UndefinedVariable { line: 5, col: 6, .. })
    ));
}

#[test]
fn binding_parameters() {
    let mut env = Env::new();
    let params = vec![ident("a"), ident("b")];
    let call = env.bind_parameters(0, &params, vec![10, 20]).unwrap();
    assert_eq!(call, 1);
    assert_eq!(env.get_var(call, "a", 1, 1), Some(&10));
    assert_eq!(env.get_var(call, "b", 1, 1), Some(&20));
    assert_eq!(env.get_var(0, "a", 1, 1), None);
}

#[test]
fn binding_parameters_checks_the_arity() {
    let mut env = Env::new();
    let params = vec![ident("a")];
    assert!(matches!(
        env.bind_parameters(0, &params, vec![1, 2]),
        Err(InterpreterError::ArityMismatch { expected: 1, got: 2 })
    ));
    assert_eq!(env.len(), 1);
}

#[test]
fn binding_a_parameter_that_is_not_a_name() {
    let mut env = Env::new();
    let params = vec![ident("a"), Token { kind: TokenKind::SEMI, span: Span { line: 1, column: 1 } }];
    match env.bind_parameters(0, &params, vec![1, 2]) {
        Err(InterpreterError::InvalidParameter { name }) => assert_eq!(name, "SEMI"),
        _ => panic!("expected an invalid parameter"),
    }
}

#[test]
fn later_parameter_of_the_same_name_wins() {
    let mut env = Env::new();
    let params = vec![ident("a"), ident("a")];
    let call = env.bind_parameters(0, &params, vec![1, 2]).unwrap();
    assert_eq!(env.get_var(call, "a", 1, 1), Some(&2));
}

#[test]
fn binding_this_and_super() {
    let mut env = Env::new();
    let plain = env.bind_this(0, None, 5);
    assert_eq!(env.get_var(plain, "this", 1, 1), Some(&5));
    let derived = env.bind_this(0, Some(7), 6);
    assert_eq!(env.get_var(derived, "this", 1, 1), Some(&6));
    assert_eq!(env.get_var(derived, "super", 1, 1), Some(&7));
    assert_eq!(env.get_at(derived, 1, "super"), Some(&7));
    assert_eq!(env.get_var(plain, "super", 1, 1), None);
}

#[test]
fn array_positions() {
    assert_eq!(array_position(3, 0), Some(0));
    assert_eq!(array_position(3, 2), Some(2));
    assert_eq!(array_position(3, 3), None);
    assert_eq!(array_position(3, -1), Some(2));
    assert_eq!(array_position(3, -3), Some(0));
    assert_eq!(array_position(3, -4), None);
    assert_eq!(array_position(0, 0), None);
    assert_eq!(array_position(0, i64::MIN), None);
}

#[test]
fn statement_and_call_outcomes() {
    assert_eq!(statement_outcome(Ok(1), 0).ok(), Some(1));
    assert_eq!(statement_outcome(Err(Signal::Return(4)), 0).ok(), Some(4));
    assert_eq!(statement_outcome(Err(Signal::Break), 0).ok(), Some(0));
    assert_eq!(statement_outcome(Err(Signal::Continue), 0).ok(), Some(0));
    assert!(matches!(statement_outcome(Err(Signal::Error(InterpreterError::DivisionByZero)), 0), Err(InterpreterError::DivisionByZero)));
    assert_eq!(call_outcome(Ok(3), false, 0).ok(), Some(0));
    assert_eq!(call_outcome(Err(Signal::Return(3)), false, 0).ok(), Some(3));
    assert_eq!(call_outcome(Err(Signal::Return(3)), true, 0).ok(), Some(0));
    assert!(matches!(call_outcome(Err(Signal::Error(InterpreterError::UnexpectedExpr)), false, 0), Err(InterpreterError::UnexpectedExpr)));
    let s: Signal<i64> = InterpreterError::DivisionByZero.into();
    assert!(matches!(s, Signal::Error(InterpreterError::DivisionByZero)));
}

#[test]
fn functions_keep_what_they_were_made_of() {
    let body = Rc::new(Stmt::Block(vec![]));
    let f = Function::new("f".to_string(), vec![ident("x")], body, 3, true);
    assert_eq!(f.func_name(), "f");
    assert_eq!(f.parameters(), &vec![ident("x")]);
    assert_eq!(f.body(), &Stmt::Block(vec![]));
    assert_eq!(f.closure, 3);
    assert!(f.is_init());
}

#[test]
fn class_methods_from_a_class_body() {
    let stmts = statements("class P { func P(n) { } func show() { } func show() { return 1; } }");
    let methods = match &stmts[0] {
        Stmt::Class { methods, .. } => methods,
        _ => panic!("expected a class"),
    };
    let made = class_methods("P", methods, 2);
    assert_eq!(made.len(), 3);
    assert_eq!(made[0].0, "P");
    assert!(made[0].1.is_init());
    assert_eq!(made[0].1.parameters().len(), 1);
    assert!(!made[1].1.is_init());
    assert_eq!(made[2].1.closure, 2);
    let class = Class::new("P".to_string(), made, None);
    assert_eq!(class.name(), "P");
    assert!(class.superclass().is_none());
    let show = class.find_method("show").unwrap();
    assert!(matches!(show.body(), Stmt::Block(v) if v.len() == 1));
    assert!(class.find_method("missing").is_none());
}

#[test]
fn superclass_is_kept() {
    let base = Rc::new(Class::new("B".to_string(), vec![], None));
    let derived = Class::new("D".to_string(), vec![], Some(base));
    assert_eq!(derived.superclass().map(|c| c.name()), Some("B"));
}

#[test]
fn instance_fields_and_methods() {
    let stmts = statements("class P { func greet() { } }");
    let methods = match &stmts[0] {
        Stmt::Class { methods, .. } => methods,
        _ => panic!("expected a class"),
    };
    let class = Class::new("P".to_string(), class_methods("P", methods, 0), None);
    let mut obj: Instance<i64> = Instance::new(class);
    assert_eq!(obj.class_name(), "P");
    assert_eq!(obj.class().name(), "P");
    assert!(matches!(obj.get("greet", 1, 1), Ok(Property::Method(f)) if f.func_name() == "greet"));
    match obj.get("age", 3, 4) {
        Err(InterpreterError::UndefinedProperty { name, line, col }) => {
            assert_eq!(name, "age");
            assert_eq!((line, col), (3, 4));
        }
        _ => panic!("expected an undefined property"),
    }
    obj.set("age", 79);
    assert!(matches!(obj.get("age", 1, 1), Ok(Property::Field(&79))));
    obj.set("greet", 1);
    assert!(matches!(obj.get("greet", 1, 1), Ok(Property::Field(&1))));
    obj.set("age", 80);
    assert!(matches!(obj.get("age", 1, 1), Ok(Property::Field(&80))));
}

#[test]
fn booleans_from_text() {
    assert_eq!(bool_from_text("true").ok(), Some(true));
    assert_eq!(bool_from_text("false").ok(), Some(false));
    match bool_from_text("yes") {
        Err(InterpreterError::InvalidStatement { message }) => {
            assert_eq!(message, "Cannot convert \"yes\" to boolean")
        }
        _ => panic!("expected an error"),
    }
}

fn class_from(src: &str, name: &str, parent: Option<Rc<Class>>) -> Class {
    let stmts = statements(src);
    let methods = match &stmts[0] {
        Stmt::Class { methods, .. } => methods,
        _ => panic!("expected a class"),
    };
    Class::new(name.to_string(), class_methods(name, methods, 0), parent)
}

#[test]
fn inherited_methods_are_found() {
    let person = Rc::new(class_from("class Person { func greet() { } func show() { } }", "Person", None));
    let student = class_from("class Student inherit Person { func show() { return 1; } }", "Student", Some(person));
    let greet = student.find_method("greet").expect("inherited");
    assert_eq!(greet.func_name(), "greet");
    let show = student.find_method("show").unwrap();
    assert!(matches!(show.body(), Stmt::Block(v) if v.len() == 1));
    assert!(student.find_method("missing").is_none());
    let obj: Instance<i64> = Instance::new(student);
    assert!(matches!(obj.get("greet", 1, 1), Ok(Property::Method(f)) if f.func_name() == "greet"));
}

#[test]
fn inheritance_checks() {
    assert!(check_inheritance("A", "B").is_ok());
    match check_inheritance("A", "A") {
        Err(InterpreterError::InvalidStatement { message }) => assert_eq!(message, "A class cannot inherit from itself"),
        _ => panic!("expected an error"),
    }
    assert_eq!(superclass_value(Some(3)).ok(), Some(3));
    match superclass_value::<i64>(None) {
        Err(InterpreterError::InvalidStatement { message }) => assert_eq!(message, "Superclass must be a class"),
        _ => panic!("expected an error"),
    }
}
