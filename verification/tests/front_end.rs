use std::collections::HashMap;
use toylang::errors::lang_error::LangError;
use toylang::errors::lex_error::LexError;
use toylang::errors::parse_error::ParseError;
use toylang::interpreter::resolver::Resolver;
use toylang::lexer::lexer::Lexer;
use toylang::parser::parser::Parser;
use toylang::parser::statement::Stmt;
use toylang::{prepare, try_run};

fn locals_of(src: &str) -> HashMap<usize, usize> {
    match prepare(src.to_string()) {
        Ok(Ok(p)) => p.locals,
        Ok(Err(e)) => panic!("front end error {:?}", e),
        Err(name) => panic!("self read of {}", name),
    }
}

fn map(pairs: &[(usize, usize)]) -> HashMap<usize, usize> {
    pairs.iter().cloned().collect()
}

#[test]
fn globals_are_not_recorded() {
    // var(0) a(1) =(2) 1(3) ;(4) a(5) ;(6)
    assert_eq!(locals_of("var a = 1; a;"), map(&[]));
}

#[test]
fn block_local_read_has_depth_zero() {
    // var(0) a(1) =(2) 1(3) ;(4) {(5) var(6) b(7) =(8) a(9) ;(10) b(11) ;(12) }(13)
    assert_eq!(locals_of("var a = 1; { var b = a; b; }"), map(&[(11, 0)]));
}

#[test]
fn nested_blocks_count_scopes_outwards() {
    // {(0) var(1) a(2) ;(3) {(4) a(5) ;(6) {(7) a(8) ;(9) }(10) }(11) }(12)
    assert_eq!(locals_of("{ var a; { a; { a; } } }"), map(&[(5, 1), (8, 2)]));
}

#[test]
fn innermost_declaration_wins() {
    // {(0) var(1) a(2) ;(3) {(4) var(5) a(6) ;(7) a(8) ;(9) }(10) a(11) ;(12) }(13)
    assert_eq!(locals_of("{ var a; { var a; a; } a; }"), map(&[(8, 0), (11, 0)]));
}

#[test]
fn function_parameters_are_one_scope_out_of_the_body() {
    // func(0) f(1) ((2) x(3) )(4) {(5) return(6) x(7) ;(8) }(9)
    assert_eq!(locals_of("func f(x) { return x; }"), map(&[(7, 1)]));
}

#[test]
fn assignment_is_resolved_after_its_value() {
    // {(0) var(1) a(2) ;(3) a(4) =(5) a(6) ;(7) }(8)
    assert_eq!(locals_of("{ var a; a = a; }"), map(&[(4, 0), (6, 0)]));
}

#[test]
fn class_methods_see_this_two_scopes_out() {
    // class(0) P(1) {(2) func(3) m(4) ((5) )(6) {(7) this(8) ;(9) }(10) }(11)
    assert_eq!(locals_of("class P { func m() { this; } }"), map(&[(8, 2)]));
}

#[test]
fn loop_variable_has_a_scope_around_the_body() {
    // loop(0) i(1) in(2) [(3) 1(4) ](5) {(6) i(7) ;(8) }(9)
    assert_eq!(locals_of("loop i in [1] { i; }"), map(&[(7, 1)]));
}

#[test]
fn inheriting_class_has_super_outside_this() {
    // class(0) B(1) {(2) }(3) class(4) D(5) inherit(6) B(7) {(8) func(9) m(10) ((11) )(12)
    // {(13) super(14) ;(15) this(16) ;(17) }(18) }(19)
    assert_eq!(
        locals_of("class B { } class D inherit B { func m() { super; this; } }"),
        map(&[(14, 3), (16, 2)])
    );
}

#[test]
fn reading_in_own_initializer_is_reported() {
    match prepare("{ var a = a; }".to_string()) {
        Err(name) => assert_eq!(name, "a"),
        Ok(_) => panic!("expected the self read to be reported"),
    }
}

#[test]
fn global_self_read_is_allowed() {
    assert!(matches!(prepare("var a = a;".to_string()), Ok(Ok(_))));
}

#[test]
fn prepare_reports_lexer_errors() {
    assert!(matches!(
        prepare("var a = @;".to_string()),
        Ok(Err(LangError::Lex(LexError::UndefinedCharacter { char: '@', line: 1, col: 10 })))
    ));
}

#[test]
fn prepare_reports_parser_errors() {
    assert!(matches!(prepare("var a = 1".to_string()), Ok(Err(LangError::Parse(ParseError::UnexpectedEof)))));
}

#[test]
fn prepare_keeps_the_statements() {
    match prepare("var a = 1; output(a);".to_string()) {
        Ok(Ok(p)) => {
            assert_eq!(p.statements.len(), 2);
            assert!(matches!(&p.statements[0], Stmt::Var { name, .. } if name == "a"));
        }
        _ => panic!("expected a program"),
    }
}

#[test]
fn try_run_gives_the_same_program() {
    let src = "func f(a, b) { var c = a + b; return c; } f(1, 2);";
    let from_try = try_run(src.to_string()).expect("front end succeeds");
    let from_prepare = match prepare(src.to_string()) {
        Ok(Ok(p)) => p,
        _ => panic!("expected a program"),
    };
    assert_eq!(from_try.statements, from_prepare.statements);
    assert_eq!(from_try.locals, from_prepare.locals);
}

#[test]
fn try_run_reports_errors() {
    assert!(matches!(try_run("x = ;".to_string()), Err(LangError::Parse(ParseError::UnexpectedToken { .. }))));
    assert!(matches!(try_run("\"open".to_string()), Err(LangError::Lex(LexError::ExpectedCharacter { .. }))));
}

#[test]
fn resolver_used_directly() {
    let mut lexer = Lexer::new("{ var a = 1; a; }".to_string());
    let tokens = lexer.tokenize().unwrap().clone();
    let statements = Parser::new(&tokens).parse().unwrap();
    let mut resolver = Resolver::new();
    for s in statements.iter() {
        assert_eq!(resolver.try_resolve_stmt(s), Ok(()));
    }
    // {(0) var(1) a(2) =(3) 1(4) ;(5) a(6)
    assert_eq!(resolver.into_locals(), map(&[(6, 0)]));
}

#[test]
fn resolver_reports_self_read() {
    let mut lexer = Lexer::new("{ var b = 1 + b; }".to_string());
    let tokens = lexer.tokenize().unwrap().clone();
    let statements = Parser::new(&tokens).parse().unwrap();
    let mut resolver = Resolver::new();
    assert_eq!(resolver.try_resolve_stmt(&statements[0]), Err("b".to_string()));
}
