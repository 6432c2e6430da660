use toylang::error::Error;
use toylang::errors::interpreter_error::InterpreterError;
use toylang::errors::lex_error::LexError;
use toylang::errors::parse_error::ParseError;
use toylang::errors::location_note;

fn coloured() {
    colored::control::set_override(true);
}

#[test]
fn coloured_lex_error_report() {
    coloured();
    let e = LexError::UndefinedCharacter { char: '#', line: 2, col: 5 };
    assert_eq!(e.detail(), "Undefined character '\x1b[33m#\x1b[0m'");
    assert_eq!(
        e.report(),
        "\x1b[1;31mLex error\x1b[0m: Undefined character '\x1b[33m#\x1b[0m'\n\x1b[42;30m at line: 2, col: 5 \x1b[0m\n"
    );
}

#[test]
fn coloured_parse_error_without_position() {
    coloured();
    assert_eq!(
        ParseError::UnexpectedEof.report(),
        "\x1b[1;31mParse error\x1b[0m: Unexpected end of input\n"
    );
}

#[test]
fn coloured_arity_mismatch() {
    coloured();
    assert_eq!(
        InterpreterError::ArityMismatch { expected: 1, got: 0 }.detail(),
        "Expected \x1b[33m1\x1b[0m argument(s) but received \x1b[33m0\x1b[0m"
    );
}

#[test]
fn coloured_location_note() {
    coloured();
    assert_eq!(location_note(3, 4), "\x1b[42;30m at line: 3, col: 4 \x1b[0m");
}

#[test]
fn coloured_error_title() {
    coloured();
    assert_eq!(Error::io_error("disk"), "\x1b[31mIO Error:\x1b[0m\ndisk");
}
