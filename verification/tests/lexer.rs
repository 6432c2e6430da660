use toylang::errors::lex_error::LexError;
use toylang::lexer::lexer::Lexer;
use toylang::lexer::token::{Span, Token, TokenKind};

fn kinds(src: &str) -> Vec<TokenKind> {
    let mut lexer = Lexer::new(src.to_string());
    let tokens = lexer.tokenize().expect("the source lexes");
    tokens.iter().map(|t| t.kind.clone()).collect()
}

fn lex_err(src: &str) -> LexError {
    let mut lexer = Lexer::new(src.to_string());
    match lexer.tokenize() {
        Ok(_) => panic!("expected a lexer error"),
        Err(e) => e,
    }
}

fn tok(kind: TokenKind, line: usize, column: usize) -> Token {
    Token { kind, span: Span { line, column } }
}

#[test]
fn empty_source_gives_only_eof() {
    let mut lexer = Lexer::new(String::new());
    let tokens = lexer.tokenize().unwrap();
    assert_eq!(tokens, &vec![tok(TokenKind::EOF, 1, 1)]);
}

#[test]
fn var_declaration_tokens_and_spans() {
    let mut lexer = Lexer::new("var x = 1;".to_string());
    let tokens = lexer.tokenize().unwrap();
    assert_eq!(
        tokens,
        &vec![
            tok(TokenKind::VAR, 1, 4),
            tok(TokenKind::IDENT("x".to_string()), 1, 6),
            tok(TokenKind::EQUAL, 1, 8),
            tok(TokenKind::NUM("1".to_string()), 1, 10),
            tok(TokenKind::SEMI, 1, 11),
            tok(TokenKind::EOF, 1, 11),
        ]
    );
}

#[test]
fn newline_moves_to_next_line_first_column() {
    let mut lexer = Lexer::new("a\n  b".to_string());
    let tokens = lexer.tokenize().unwrap();
    assert_eq!(
        tokens,
        &vec![
            tok(TokenKind::IDENT("a".to_string()), 1, 2),
            tok(TokenKind::IDENT("b".to_string()), 2, 4),
            tok(TokenKind::EOF, 2, 4),
        ]
    );
}

#[test]
fn operators_take_the_longest_match() {
    assert_eq!(
        kinds("+ ++ += - -- -= * *= / /= % %= ! != = == > >= < <= & |"),
        vec![
            TokenKind::PLUS,
            TokenKind::INC,
            TokenKind::PLUS_EQ,
            TokenKind::MINUS,
            TokenKind::DEC,
            TokenKind::MINUS_EQ,
            TokenKind::STAR,
            TokenKind::STAR_EQ,
            TokenKind::SLASH,
            TokenKind::SLASH_EQ,
            TokenKind::MOD,
            TokenKind::MOD_EQ,
            TokenKind::NOT,
            TokenKind::NOT_EQ,
            TokenKind::EQUAL,
            TokenKind::EQ_EQ,
            TokenKind::GREAT,
            TokenKind::GREAT_EQ,
            TokenKind::LESS,
            TokenKind::LESS_EQ,
            TokenKind::AND,
            TokenKind::OR,
            TokenKind::EOF,
        ]
    );
}

#[test]
fn punctuation() {
    assert_eq!(
        kinds("( ) { } [ ] . , ; :"),
        vec![
            TokenKind::OPEN_PAREN,
            TokenKind::CLOSE_PAREN,
            TokenKind::OPEN_BRACE,
            TokenKind::CLOSE_BRACE,
            TokenKind::OPEN_BRACK,
            TokenKind::CLOSE_BRACK,
            TokenKind::DOT,
            TokenKind::COMMA,
            TokenKind::SEMI,
            TokenKind::COLON,
            TokenKind::EOF,
        ]
    );
}

#[test]
fn keywords_and_identifiers() {
    assert_eq!(
        kinds("var true false null if else loop func return class inherit in break continue and or _x9 vars"),
        vec![
            TokenKind::VAR,
            TokenKind::TRUE,
            TokenKind::FALSE,
            TokenKind::NULL,
            TokenKind::IF,
            TokenKind::ELSE,
            TokenKind::LOOP,
            TokenKind::FUNC,
            TokenKind::RETURN,
            TokenKind::CLASS,
            TokenKind::INHERIT,
            TokenKind::IN,
            TokenKind::BREAK,
            TokenKind::CONTINUE,
            TokenKind::AND,
            TokenKind::OR,
            TokenKind::IDENT("_x9".to_string()),
            TokenKind::IDENT("vars".to_string()),
            TokenKind::EOF,
        ]
    );
}

#[test]
fn numbers_keep_their_digits() {
    assert_eq!(
        kinds("12 3.25 7. 8.x"),
        vec![
            TokenKind::NUM("12".to_string()),
            TokenKind::NUM("3.25".to_string()),
            TokenKind::NUM("7".to_string()),
            TokenKind::DOT,
            TokenKind::NUM("8".to_string()),
            TokenKind::DOT,
            TokenKind::IDENT("x".to_string()),
            TokenKind::EOF,
        ]
    );
}

#[test]
fn strings_with_either_quote_and_escapes() {
    assert_eq!(
        kinds(r#""hi" 'a\'b' "x\ny\t\"\\""#),
        vec![
            TokenKind::STRING("hi".to_string()),
            TokenKind::STRING("a'b".to_string()),
            TokenKind::STRING("x\ny\t\"\\".to_string()),
            TokenKind::EOF,
        ]
    );
}

#[test]
fn other_quote_inside_a_string_is_plain() {
    assert_eq!(
        kinds(r#""it's""#),
        vec![TokenKind::STRING("it's".to_string()), TokenKind::EOF]
    );
}

#[test]
fn comments_are_skipped() {
    assert_eq!(
        kinds("a // rest of line\nb /* several\nlines */ c"),
        vec![
            TokenKind::IDENT("a".to_string()),
            TokenKind::IDENT("b".to_string()),
            TokenKind::IDENT("c".to_string()),
            TokenKind::EOF,
        ]
    );
}

#[test]
fn block_comment_resets_column_but_keeps_line() {
    let mut lexer = Lexer::new("/* a\nbc */x".to_string());
    let tokens = lexer.tokenize().unwrap();
    assert_eq!(tokens[0], tok(TokenKind::IDENT("x".to_string()), 1, 7));
}

#[test]
fn undefined_character() {
    match lex_err("var a = 1 # 2;") {
        LexError::UndefinedCharacter { char, line, col } => {
            assert_eq!(char, '#');
            assert_eq!((line, col), (1, 12));
        }
        other => panic!("unexpected error {:?}", other),
    }
}

#[test]
fn invalid_escape_character() {
    match lex_err("\"a\\qb\"") {
        LexError::InvalidEscapeCharacter { char, line, col } => {
            assert_eq!(char, 'q');
            assert_eq!((line, col), (1, 4));
        }
        other => panic!("unexpected error {:?}", other),
    }
}

#[test]
fn unterminated_string() {
    match lex_err("x = \"abc") {
        LexError::ExpectedCharacter { message, line, col } => {
            assert_eq!(message, "unterminated string, '\"' was never closed");
            assert_eq!((line, col), (1, 9));
        }
        other => panic!("unexpected error {:?}", other),
    }
}

#[test]
fn unterminated_single_quoted_string() {
    match lex_err("'abc") {
        LexError::ExpectedCharacter { message, .. } => {
            assert_eq!(message, "unterminated string, ''' was never closed");
        }
        other => panic!("unexpected error {:?}", other),
    }
}

#[test]
fn unterminated_block_comment() {
    match lex_err("a /* never closed") {
        LexError::ExpectedCharacter { message, line, col } => {
            assert_eq!(message, "unterminated multiline comment");
            assert_eq!((line, col), (1, 18));
        }
        other => panic!("unexpected error {:?}", other),
    }
}

#[test]
fn eof_is_last_and_only_once() {
    let mut lexer = Lexer::new("loop i in [1, 2] { output(i); }\nreturn;".to_string());
    let tokens = lexer.tokenize().unwrap();
    let eofs = tokens.iter().filter(|t| t.kind == TokenKind::EOF).count();
    assert_eq!(eofs, 1);
    assert_eq!(tokens.last().unwrap().kind, TokenKind::EOF);
    let mut previous = 1;
    for t in tokens.iter() {
        assert!(t.span.line >= previous);
        assert!(t.span.column >= 1);
        previous = t.span.line;
    }
}

#[test]
fn token_text_matches_debug_names() {
    assert_eq!(TokenKind::PLUS_EQ.text(), "PLUS_EQ");
    assert_eq!(TokenKind::EOF.text(), "EOF");
    assert_eq!(TokenKind::IDENT("ab".to_string()).text(), "IDENT(\"ab\")");
    assert_eq!(TokenKind::STRING("a\"b\n".to_string()).text(), "STRING(\"a\\\"b\\n\")");
    assert_eq!(TokenKind::NUM("3.5".to_string()).text(), "NUM(3.5)");
    let t = tok(TokenKind::SEMI, 3, 4);
    assert_eq!(t.text(), "SEMI");
}

#[test]
fn token_kind_same_and_duplicate() {
    let a = TokenKind::IDENT("x".to_string());
    assert!(a.same(&TokenKind::IDENT("x".to_string())));
    assert!(!a.same(&TokenKind::IDENT("y".to_string())));
    assert!(!a.same(&TokenKind::STRING("x".to_string())));
    assert!(TokenKind::SEMI.same(&TokenKind::SEMI));
    assert!(!TokenKind::SEMI.same(&TokenKind::COLON));
    assert_eq!(a.duplicate(), a);
    assert_ne!(TokenKind::AND.tag(), TokenKind::OR.tag());
    let t = tok(TokenKind::NUM("4".to_string()), 2, 5);
    assert_eq!(t.duplicate(), t);
}

#[test]
fn error_leaves_earlier_tokens_out_of_the_result() {
    let mut lexer = Lexer::new("a @".to_string());
    assert!(matches!(lexer.tokenize(), Err(LexError::UndefinedCharacter { char: '@', line: 1, col: 4 })));
}
