use toylang::errors::parse_error::ParseError;
use toylang::lexer::lexer::Lexer;
use toylang::lexer::token::{Span, Token, TokenKind};
use toylang::parser::expression::Expr;
use toylang::parser::parser::Parser;
use toylang::parser::statement::Stmt;

fn tokens(src: &str) -> Vec<Token> {
    let mut lexer = Lexer::new(src.to_string());
    lexer.tokenize().expect("the source lexes").clone()
}

fn parse(src: &str) -> Vec<Stmt> {
    let toks = tokens(src);
    let mut parser = Parser::new(&toks);
    parser.parse().expect("the source parses")
}

fn parse_err(src: &str) -> ParseError {
    let toks = tokens(src);
    let mut parser = Parser::new(&toks);
    match parser.parse() {
        Ok(s) => panic!("expected a parse error, got {:?}", s),
        Err(e) => e,
    }
}

fn tok(kind: TokenKind, line: usize, column: usize) -> Token {
    Token { kind, span: Span { line, column } }
}

fn num(n: &str, col: usize) -> Expr {
    Expr::Literal(tok(TokenKind::NUM(n.to_string()), 1, col))
}

fn var(name: &str, col: usize, id: usize) -> Expr {
    Expr::Var { name: tok(TokenKind::IDENT(name.to_string()), 1, col), id }
}

fn binary(left: Expr, op: TokenKind, col: usize, right: Expr) -> Expr {
    Expr::Binary { left: Box::new(left), operator: tok(op, 1, col), right: Box::new(right) }
}

#[test]
fn empty_program() {
    assert_eq!(parse(""), Vec::<Stmt>::new());
}

#[test]
fn assignment_with_precedence() {
    // x = 1 + 2 * 3;
    let expected = Stmt::Expr(Expr::Assign {
        name: "x".to_string(),
        value: Box::new(binary(
            num("1", 6),
            TokenKind::PLUS,
            8,
            binary(num("2", 10), TokenKind::STAR, 12, num("3", 14)),
        )),
        line: 1,
        col: 2,
        id: 0,
    });
    assert_eq!(parse("x = 1 + 2 * 3;"), vec![expected]);
}

#[test]
fn binary_operators_associate_left() {
    // a - b - c;
    let expected = Stmt::Expr(binary(
        binary(var("a", 2, 0), TokenKind::MINUS, 4, var("b", 6, 2)),
        TokenKind::MINUS,
        8,
        var("c", 10, 4),
    ));
    assert_eq!(parse("a - b - c;"), vec![expected]);
}

#[test]
fn logical_binds_tighter_than_equality() {
    // a == b and c;
    let expected = Stmt::Expr(binary(
        var("a", 2, 0),
        TokenKind::EQ_EQ,
        5,
        binary(var("b", 7, 2), TokenKind::AND, 11, var("c", 13, 4)),
    ));
    assert_eq!(parse("a == b and c;"), vec![expected]);
}

#[test]
fn comparison_includes_in() {
    // a in b;
    let expected = Stmt::Expr(binary(var("a", 2, 0), TokenKind::IN, 5, var("b", 7, 2)));
    assert_eq!(parse("a in b;"), vec![expected]);
}

#[test]
fn unary_and_group() {
    // -(1);
    let expected = Stmt::Expr(Expr::Unary {
        operator: tok(TokenKind::MINUS, 1, 2),
        right: Box::new(Expr::Group { expr: Box::new(num("1", 4)) }),
    });
    assert_eq!(parse("-(1);"), vec![expected]);
}

#[test]
fn post_increment() {
    // i++;
    let expected = Stmt::Expr(Expr::PostUnary {
        operator: tok(TokenKind::INC, 1, 4),
        left: Box::new(var("i", 2, 0)),
    });
    assert_eq!(parse("i++;"), vec![expected]);
}

#[test]
fn compound_assignment() {
    // n += 2;
    let expected = Stmt::Expr(Expr::CompoundAssign {
        name: "n".to_string(),
        value: Box::new(num("2", 7)),
        op: tok(TokenKind::PLUS_EQ, 1, 5),
        id: 0,
    });
    assert_eq!(parse("n += 2;"), vec![expected]);
}

#[test]
fn compound_assignment_on_other_target_keeps_left_side() {
    // 1 += 2; the target is not a name, so only the left side stays
    assert_eq!(parse("1 += 2;"), vec![Stmt::Expr(num("1", 2))]);
}

#[test]
fn call_get_index_and_set() {
    // f(1, 2).a[0] = 3;
    let call = Expr::Call {
        callee: Box::new(var("f", 2, 0)),
        arguments: vec![Box::new(num("1", 4)), Box::new(num("2", 7))],
        line: 1,
        col: 3,
    };
    let get = Expr::Get { object: Box::new(call), name: "a".to_string(), line: 1, col: 10 };
    let expected = Stmt::Expr(Expr::IndexSet {
        object: Box::new(get),
        index: Box::new(num("0", 12)),
        value: Box::new(num("3", 17)),
        line: 1,
        col: 15,
    });
    assert_eq!(parse("f(1, 2).a[0] = 3;"), vec![expected]);
}

#[test]
fn property_assignment() {
    // this.x = 1;
    let expected = Stmt::Expr(Expr::SetProperty {
        object: Box::new(var("this", 5, 0)),
        name: "x".to_string(),
        value: Box::new(num("1", 11)),
    });
    assert_eq!(parse("this.x = 1;"), vec![expected]);
}

#[test]
fn arrays_and_hashmaps() {
    // var m = {a: [1, 2], b: []};
    let arr = Expr::Array { elements: vec![Box::new(num("1", 15)), Box::new(num("2", 18))] };
    let empty = Expr::Array { elements: vec![] };
    let map = Expr::Hashmap {
        fields: vec![("a".to_string(), Box::new(arr)), ("b".to_string(), Box::new(empty))],
    };
    let expected = Stmt::Var { name: "m".to_string(), initializer: Some(map) };
    assert_eq!(parse("var m = {a: [1, 2], b: []};"), vec![expected]);
}

#[test]
fn hashmap_with_trailing_comma() {
    let stmts = parse("var m = {a: 1,};");
    match &stmts[0] {
        Stmt::Var { initializer: Some(Expr::Hashmap { fields }), .. } => {
            assert_eq!(fields.len(), 1);
            assert_eq!(fields[0].0, "a");
        }
        other => panic!("unexpected {:?}", other),
    }
}

#[test]
fn var_without_initializer() {
    assert_eq!(parse("var a;"), vec![Stmt::Var { name: "a".to_string(), initializer: None }]);
}

#[test]
fn if_else_blocks() {
    let stmts = parse("if a { b; } else { c; }");
    match &stmts[0] {
        Stmt::If { condition, if_body, else_body } => {
            assert_eq!(condition, &var("a", 5, 1));
            assert!(matches!(**if_body, Stmt::Block(ref v) if v.len() == 1));
            assert!(matches!(else_body, Some(b) if matches!(**b, Stmt::Block(ref v) if v.len() == 1)));
        }
        other => panic!("unexpected {:?}", other),
    }
}

#[test]
fn three_kinds_of_loop() {
    let stmts = parse("loop 6 { } loop if i > 10 { } loop i in [1] { break; continue; }");
    assert_eq!(stmts.len(), 3);
    assert!(matches!(&stmts[0], Stmt::Loop { count, .. } if *count == num("6", 7)));
    assert!(matches!(&stmts[1], Stmt::LoopIf { condition: Expr::Binary { .. }, .. }));
    match &stmts[2] {
        Stmt::LoopIn { name, object, body } => {
            assert_eq!(name, "i");
            assert!(matches!(object, Expr::Array { elements } if elements.len() == 1));
            assert_eq!(**body, Stmt::Block(vec![Box::new(Stmt::Break), Box::new(Stmt::Continue)]));
        }
        other => panic!("unexpected {:?}", other),
    }
}

#[test]
fn loop_with_identifier_count() {
    let stmts = parse("loop n { }");
    assert!(matches!(&stmts[0], Stmt::Loop { count: Expr::Var { .. }, .. }));
}

#[test]
fn function_declaration() {
    let stmts = parse("func add(a, b) { return a + b; }");
    match &stmts[0] {
        Stmt::Func { name, parameters, body } => {
            assert_eq!(name, "add");
            let names: Vec<TokenKind> = parameters.iter().map(|p| p.kind.clone()).collect();
            assert_eq!(names, vec![TokenKind::IDENT("a".to_string()), TokenKind::IDENT("b".to_string())]);
            match &**body {
                Stmt::Block(v) => assert!(matches!(*v[0], Stmt::Return(Expr::Binary { .. }))),
                other => panic!("unexpected {:?}", other),
            }
        }
        other => panic!("unexpected {:?}", other),
    }
}

#[test]
fn class_with_superclass_and_methods() {
    let stmts = parse("class Student inherit Person { func Student(n) { super(n); } func show() { } }");
    match &stmts[0] {
        Stmt::Class { name, methods, superclass } => {
            assert_eq!(name, "Student");
            assert_eq!(methods.len(), 2);
            assert!(matches!(superclass, Some(Expr::Var { name, .. }) if name.kind == TokenKind::IDENT("Person".to_string())));
            assert!(matches!(&methods[1], Stmt::Func { name, .. } if name == "show"));
        }
        other => panic!("unexpected {:?}", other),
    }
}

#[test]
fn missing_semicolon_after_expression() {
    match parse_err("a = 1 b") {
        ParseError::ExpectedToken { message, line, col } => {
            assert_eq!(message, "Expect ';' after expression");
            assert_eq!((line, col), (1, 8));
        }
        other => panic!("unexpected {:?}", other),
    }
}

#[test]
fn missing_semicolon_at_end_is_unexpected_eof() {
    assert!(matches!(parse_err("a = 1"), ParseError::UnexpectedEof));
}

#[test]
fn invalid_assignment_target() {
    match parse_err("1 = 2;") {
        ParseError::InvalidStatement { message, line, col } => {
            assert_eq!(message, "Invalid assignment target");
            assert_eq!((line, col), (1, 4));
        }
        other => panic!("unexpected {:?}", other),
    }
}

#[test]
fn unexpected_token_in_primary() {
    match parse_err(";") {
        ParseError::UnexpectedToken { token, line, col } => {
            assert_eq!(token, "SEMI");
            assert_eq!((line, col), (1, 2));
        }
        other => panic!("unexpected {:?}", other),
    }
}

#[test]
fn expected_name_after_keywords() {
    assert!(matches!(parse_err("var 1;"), ParseError::ExpectedName { keyword: "var", line: 1, col: 6 }));
    assert!(matches!(parse_err("func (a) {}"), ParseError::ExpectedName { keyword: "func", .. }));
    assert!(matches!(parse_err("class { }"), ParseError::ExpectedName { keyword: "class", .. }));
}

#[test]
fn else_if_chains_nest_in_the_else_body() {
    let stmts = parse("if i < 10 { } else if i < 20 { } else { }");
    assert_eq!(stmts.len(), 1);
    match &stmts[0] {
        Stmt::If { else_body: Some(e), .. } => match &**e {
            Stmt::If { else_body: Some(last), .. } => assert_eq!(**last, Stmt::Block(vec![])),
            other => panic!("unexpected {:?}", other),
        },
        other => panic!("unexpected {:?}", other),
    }
}

#[test]
fn else_needs_a_block_or_an_if() {
    match parse_err("if a { } else b;") {
        ParseError::ExpectedToken { message, .. } => assert_eq!(message, "Expect '{' before block"),
        other => panic!("unexpected {:?}", other),
    }
}

#[test]
fn unclosed_block_is_unexpected_eof() {
    assert!(matches!(parse_err("{ a;"), ParseError::UnexpectedEof));
}

#[test]
fn parameter_must_be_a_name() {
    match parse_err("func f(1) {}") {
        ParseError::ExpectedToken { message, .. } => assert_eq!(message, "Expect parameter name"),
        other => panic!("unexpected {:?}", other),
    }
}

#[test]
fn at_most_255_arguments() {
    let args: Vec<String> = (0..255).map(|i| i.to_string()).collect();
    let ok = format!("f({});", args.join(", "));
    assert_eq!(parse(&ok).len(), 1);
    let args: Vec<String> = (0..256).map(|i| i.to_string()).collect();
    let too_many = format!("f({});", args.join(", "));
    match parse_err(&too_many) {
        ParseError::InvalidStatement { message, .. } => {
            assert_eq!(message, "Can't have more than 255 arguments")
        }
        other => panic!("unexpected {:?}", other),
    }
}

#[test]
fn at_most_255_parameters() {
    let params: Vec<String> = (0..256).map(|i| format!("p{}", i)).collect();
    let src = format!("func f({}) {{ }}", params.join(", "));
    match parse_err(&src) {
        ParseError::InvalidStatement { message, .. } => {
            assert_eq!(message, "Can't have more than 255 parameters")
        }
        other => panic!("unexpected {:?}", other),
    }
}

#[test]
fn hashmap_key_must_be_a_name() {
    match parse_err("var m = {1: 2};") {
        ParseError::ExpectedToken { message, .. } => assert_eq!(message, "Expect key name in hashmap"),
        other => panic!("unexpected {:?}", other),
    }
}

#[test]
fn null_is_a_literal() {
    let expected = Stmt::Var {
        name: "nothing".to_string(),
        initializer: Some(Expr::Literal(tok(TokenKind::NULL, 1, 19))),
    };
    assert_eq!(parse("var nothing = null;"), vec![expected]);
}
