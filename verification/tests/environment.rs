use toylang::errors::interpreter_error::InterpreterError;
use toylang::interpreter::environment::Environment;

type Env = Environment<i64, String, bool>;

#[test]
fn new_store_has_the_globals() {
    let env = Env::new();
    assert_eq!(env.len(), 1);
    assert_eq!(env.get_var(0, "x", 1, 1), None);
}

#[test]
fn get_after_define() {
    let mut env = Env::new();
    env.define_var(0, "x", 5);
    assert_eq!(env.get_var(0, "x", 1, 1), Some(&5));
}

#[test]
fn redefinition_overwrites() {
    let mut env = Env::new();
    env.define_var(0, "x", 5);
    env.define_var(0, "x", 6);
    assert_eq!(env.get_var(0, "x", 1, 1), Some(&6));
}

#[test]
fn defining_one_name_leaves_others() {
    let mut env = Env::new();
    env.define_var(0, "x", 5);
    env.define_var(0, "y", 7);
    assert_eq!(env.get_var(0, "x", 1, 1), Some(&5));
    assert_eq!(env.get_var(0, "y", 1, 1), Some(&7));
}

#[test]
fn enclosed_sees_enclosing() {
    let mut env = Env::new();
    env.define_var(0, "x", 5);
    let inner = env.new_enclosed(0);
    assert_eq!(inner, 1);
    assert_eq!(env.len(), 2);
    assert_eq!(env.get_var(inner, "x", 1, 1), Some(&5));
}

#[test]
fn inner_definition_shadows_and_stays_inside() {
    let mut env = Env::new();
    env.define_var(0, "x", 5);
    let inner = env.new_enclosed(0);
    env.define_var(inner, "x", 9);
    assert_eq!(env.get_var(inner, "x", 1, 1), Some(&9));
    assert_eq!(env.get_var(0, "x", 1, 1), Some(&5));
}

#[test]
fn assign_goes_to_the_nearest_holder() {
    let mut env = Env::new();
    env.define_var(0, "x", 5);
    let inner = env.new_enclosed(0);
    assert!(env.assign_var(inner, "x", 8, 1, 1).is_ok());
    assert_eq!(env.get_var(0, "x", 1, 1), Some(&8));
    assert_eq!(env.get_at(inner, 0, "x"), None);
}

#[test]
fn assign_to_undefined_is_an_error() {
    let mut env = Env::new();
    let inner = env.new_enclosed(0);
    match env.assign_var(inner, "nope", 1, 3, 4) {
        Err(InterpreterError::UndefinedVariable { name, line, col }) => {
            assert_eq!(name, "nope");
            assert_eq!((line, col), (3, 4));
        }
        other => panic!("unexpected {:?}", other),
    }
    assert_eq!(env.get_var(inner, "nope", 1, 1), None);
}

#[test]
fn get_and_assign_at_depth() {
    let mut env = Env::new();
    env.define_var(0, "x", 1);
    let a = env.new_enclosed(0);
    let b = env.new_enclosed(a);
    env.define_var(b, "x", 2);
    assert_eq!(env.get_at(b, 0, "x"), Some(&2));
    assert_eq!(env.get_at(b, 2, "x"), Some(&1));
    assert_eq!(env.get_at(b, 1, "x"), None);
    assert_eq!(env.get_at(b, 3, "x"), None);
    assert_eq!(env.assign_at(b, 2, "x", 10), Some(()));
    assert_eq!(env.get_var(0, "x", 1, 1), Some(&10));
    assert_eq!(env.assign_at(b, 3, "x", 11), None);
    assert_eq!(env.get_var(b, "x", 1, 1), Some(&2));
}

#[test]
fn functions_and_classes_have_their_own_tables() {
    let mut env = Env::new();
    env.define_func(0, "f", "body".to_string());
    env.define_class(0, "C", true);
    let inner = env.new_enclosed(0);
    assert_eq!(env.get_func(inner, "f"), Some(&"body".to_string()));
    assert_eq!(env.get_class(inner, "C"), Some(&true));
    assert_eq!(env.get_var(inner, "f", 1, 1), None);
    assert_eq!(env.get_func(inner, "C"), None);
    env.define_func(inner, "f", "inner".to_string());
    assert_eq!(env.get_func(inner, "f"), Some(&"inner".to_string()));
    assert_eq!(env.get_func(0, "f"), Some(&"body".to_string()));
}
