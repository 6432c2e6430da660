use toylang::error::Error;
use toylang::errors::interpreter_error::InterpreterError;
use toylang::errors::lang_error::LangError;
use toylang::errors::lex_error::LexError;
use toylang::errors::parse_error::ParseError;
use toylang::errors::{layout, location_note};
use toylang::lexer::token::TokenKind;

fn plain() {
    colored::control::set_override(false);
}

#[test]
fn lex_error_details_and_locations() {
    plain();
    let e = LexError::UndefinedCharacter { char: '#', line: 2, col: 5 };
    assert_eq!(e.location(), (2, 5));
    assert_eq!(e.detail(), "Undefined character '#'");
    let e = LexError::InvalidNumber { lexeme: "1.2.3".to_string(), line: 1, col: 1 };
    assert_eq!(e.detail(), "Invalid number '1.2.3'");
    let e = LexError::InvalidEscapeCharacter { char: 'q', line: 1, col: 4 };
    assert_eq!(e.detail(), "Invalid escape character '\\q'");
    let e = LexError::ExpectedCharacter { message: "unterminated multiline comment".to_string(), line: 3, col: 9 };
    assert_eq!(e.detail(), "unterminated multiline comment");
    assert_eq!(e.location(), (3, 9));
}

#[test]
fn lex_error_report() {
    plain();
    let e = LexError::UndefinedCharacter { char: '#', line: 2, col: 5 };
    assert_eq!(e.report(), "Lex error: Undefined character '#'\n at line: 2, col: 5 \n");
}

#[test]
fn parse_error_details_and_locations() {
    plain();
    let e = ParseError::UnexpectedToken { token: "SEMI".to_string(), line: 1, col: 2 };
    assert_eq!(e.detail(), "Unexpected token 'SEMI'");
    assert_eq!(e.location(), Some((1, 2)));
    assert_eq!(ParseError::UnexpectedEof.detail(), "Unexpected end of input");
    assert_eq!(ParseError::UnexpectedEof.location(), None);
    let e = ParseError::ExpectedToken { message: "Expect ';' after expression".to_string(), line: 4, col: 1 };
    assert_eq!(e.detail(), "Expect ';' after expression");
    let e = ParseError::ExpectedName { keyword: "func", line: 1, col: 6 };
    assert_eq!(e.detail(), "Expected name after 'func' keyword");
    let e = ParseError::InvalidStatement { message: "Invalid assignment target".to_string(), line: 1, col: 4 };
    assert_eq!(e.detail(), "Invalid statement: Invalid assignment target");
    assert_eq!(e.location(), Some((1, 4)));
}

#[test]
fn parse_error_reports() {
    plain();
    assert_eq!(ParseError::UnexpectedEof.report(), "Parse error: Unexpected end of input\n");
    let e = ParseError::ExpectedName { keyword: "var", line: 10, col: 12 };
    assert_eq!(e.report(), "Parse error: Expected name after 'var' keyword\n at line: 10, col: 12 \n");
}

#[test]
fn interpreter_error_details() {
    plain();
    assert_eq!(InterpreterError::UnsupportedUnaryOp { op: TokenKind::PLUS }.detail(), "Unsupported unary operator 'PLUS'");
    assert_eq!(InterpreterError::UnsupportedBinaryOp { op: TokenKind::DOT }.detail(), "Unsupported binary operator 'DOT'");
    assert_eq!(
        InterpreterError::UnexpectedLiteral { kind: TokenKind::IDENT("x".to_string()) }.detail(),
        "Unexpected literal kind 'IDENT(\"x\")'"
    );
    assert_eq!(InterpreterError::UnexpectedExpr.detail(), "Unexpected expression");
    assert_eq!(
        InterpreterError::UndefinedVariable { name: "v".to_string(), line: 1, col: 1 }.detail(),
        "Undefined variable 'v'"
    );
    assert_eq!(
        InterpreterError::UndefinedFunction { name: "f".to_string(), line: 1, col: 1 }.detail(),
        "Undefined function 'f'"
    );
    assert_eq!(
        InterpreterError::UndefinedProperty { name: "p".to_string(), line: 1, col: 1 }.detail(),
        "Undefined property 'p'"
    );
    assert_eq!(
        InterpreterError::ArityMismatch { expected: 2, got: 13 }.detail(),
        "Expected 2 argument(s) but received 13"
    );
    assert_eq!(
        InterpreterError::InvalidParameter { name: "q".to_string() }.detail(),
        "Invalid parameter 'q'"
    );
    assert_eq!(InterpreterError::DivisionByZero.detail(), "Division by zero");
    assert_eq!(
        InterpreterError::ArithmeticError { message: "bad".to_string() }.detail(),
        "Arithmetic error: bad"
    );
    assert_eq!(
        InterpreterError::InvalidStatement { message: "no".to_string() }.detail(),
        "Invalid statement: no"
    );
}

#[test]
fn interpreter_error_locations_and_reports() {
    plain();
    let e = InterpreterError::UndefinedVariable { name: "v".to_string(), line: 7, col: 3 };
    assert_eq!(e.location(), Some((7, 3)));
    assert_eq!(e.report(), "Runtime error: Undefined variable 'v'\n at line: 7, col: 3 \n");
    assert_eq!(InterpreterError::DivisionByZero.location(), None);
    assert_eq!(InterpreterError::DivisionByZero.report(), "Runtime error: Division by zero\n");
}

#[test]
fn lang_error_reports_the_stage_error() {
    plain();
    let e: LangError = LexError::UndefinedCharacter { char: '$', line: 1, col: 2 }.into();
    assert_eq!(e.report(), "Lex error: Undefined character '$'\n at line: 1, col: 2 \n");
    let e: LangError = ParseError::UnexpectedEof.into();
    assert_eq!(e.report(), "Parse error: Unexpected end of input\n");
    let e: LangError = InterpreterError::UnexpectedExpr.into();
    assert_eq!(e.report(), "Runtime error: Unexpected expression\n");
}

#[test]
fn location_note_and_layout() {
    plain();
    assert_eq!(location_note(12, 0), " at line: 12, col: 0 ");
    assert_eq!(layout("P".to_string(), "d".to_string(), None), "P: d\n");
    assert_eq!(layout("P".to_string(), "d".to_string(), Some("L".to_string())), "P: d\nL\n");
}

#[test]
fn error_texts_with_position() {
    plain();
    assert_eq!(Error::syntax_error("bad", 1, 2), "SyntaxError:\nbad\n at line: 1, col: 2 \n");
    assert_eq!(Error::lexical_error("bad", 3, 4), "Lexical Error:\nbad\n at line: 3, col: 4 \n");
    assert_eq!(Error::parse_error("bad", 5, 6), "Parse Error:\nbad\n at line: 5, col: 6 \n");
    assert_eq!(Error::semantic_error("bad", 7, 8), "Parse Error:\nbad\n at line: 7, col: 8 \n");
}

#[test]
fn error_texts_without_position() {
    plain();
    assert_eq!(Error::runtime_error("boom"), "Runtime Error:\nboom");
    assert_eq!(Error::io_error("disk"), "IO Error:\ndisk");
}

#[test]
fn lex_error_messages() {
    let e = LexError::UndefinedCharacter { char: '#', line: 2, col: 5 };
    assert_eq!(e.message(), "Undefined character '#' at line 2, col 5");
    let e = LexError::InvalidNumber { lexeme: "1.2.3".to_string(), line: 1, col: 6 };
    assert_eq!(e.message(), "Invalid number '1.2.3' at line 1, col 6");
    let e = LexError::InvalidEscapeCharacter { char: 'q', line: 1, col: 4 };
    assert_eq!(e.message(), "Invalid escape character '\\q' at line 1, col 4");
    let e = LexError::ExpectedCharacter { message: "unterminated multiline comment".to_string(), line: 3, col: 9 };
    assert_eq!(e.message(), "unterminated multiline comment at line 3, col 9");
}

#[test]
fn parse_error_messages() {
    let e = ParseError::UnexpectedToken { token: "SEMI".to_string(), line: 1, col: 2 };
    assert_eq!(e.message(), "Unexpected token 'SEMI' at 1:2");
    assert_eq!(ParseError::UnexpectedEof.message(), "Unexpected end of input");
    let e = ParseError::ExpectedToken { message: "Expect ';' after expression".to_string(), line: 4, col: 1 };
    assert_eq!(e.message(), "Expect ';' after expression at 4:1");
    let e = ParseError::ExpectedName { keyword: "var", line: 1, col: 6 };
    assert_eq!(e.message(), "Expected name after 'var' keyword at 1:6");
    let e = ParseError::InvalidStatement { message: "Invalid assignment target".to_string(), line: 1, col: 4 };
    assert_eq!(e.message(), "Invalid statement: Invalid assignment target at 1:4");
}

#[test]
fn interpreter_error_messages() {
    assert_eq!(InterpreterError::UnsupportedUnaryOp { op: TokenKind::PLUS }.message(), "Unsupported unary operator 'PLUS'");
    assert_eq!(InterpreterError::UnsupportedBinaryOp { op: TokenKind::DOT }.message(), "Unsupported binary operator 'DOT'");
    assert_eq!(
        InterpreterError::UnexpectedLiteral { kind: TokenKind::IDENT("x".to_string()) }.message(),
        "Unexpected literal kind 'IDENT(\"x\")'"
    );
    assert_eq!(InterpreterError::UnexpectedExpr.message(), "Unexpected expression");
    assert_eq!(
        InterpreterError::UndefinedVariable { name: "v".to_string(), line: 7, col: 3 }.message(),
        "Undefined variable 'v' at 7:3"
    );
    assert_eq!(
        InterpreterError::UndefinedFunction { name: "f".to_string(), line: 1, col: 2 }.message(),
        "Undefined function 'f' at 1:2"
    );
    assert_eq!(
        InterpreterError::UndefinedProperty { name: "p".to_string(), line: 3, col: 4 }.message(),
        "Undefined property 'p' at 3:4"
    );
    assert_eq!(
        InterpreterError::ArityMismatch { expected: 2, got: 13 }.message(),
        "Arity mismatch: expected 2 argument(s) but received 13"
    );
    assert_eq!(InterpreterError::InvalidParameter { name: "q".to_string() }.message(), "Invalid parameter 'q'");
    assert_eq!(InterpreterError::DivisionByZero.message(), "Division by zero");
    assert_eq!(InterpreterError::ArithmeticError { message: "bad".to_string() }.message(), "Arithmetic error: bad");
    assert_eq!(InterpreterError::InvalidStatement { message: "no".to_string() }.message(), "Invalid statement: no");
}

#[test]
fn lang_error_messages() {
    let e: LangError = ParseError::UnexpectedEof.into();
    assert_eq!(e.message(), "Unexpected end of input");
    let e: LangError = LexError::UndefinedCharacter { char: '$', line: 1, col: 2 }.into();
    assert_eq!(e.message(), "Undefined character '$' at line 1, col 2");
}

#[test]
fn plain_detail_and_position_make_the_message() {
    plain();
    let lex = [
        LexError::UndefinedCharacter { char: '#', line: 2, col: 5 },
        LexError::InvalidEscapeCharacter { char: 'q', line: 1, col: 4 },
        LexError::ExpectedCharacter { message: "unterminated multiline comment".to_string(), line: 3, col: 9 },
    ];
    for e in lex.iter() {
        let (line, col) = e.location();
        assert_eq!(format!("{} at line {}, col {}", e.detail(), line, col), e.message());
    }
    let parse = [
        ParseError::UnexpectedToken { token: "SEMI".to_string(), line: 1, col: 2 },
        ParseError::UnexpectedEof,
        ParseError::ExpectedName { keyword: "class", line: 2, col: 8 },
    ];
    for e in parse.iter() {
        let expected = match e.location() {
            Some((line, col)) => format!("{} at {}:{}", e.detail(), line, col),
            None => e.detail(),
        };
        assert_eq!(expected, e.message());
    }
}
