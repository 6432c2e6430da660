//! ToyLang: a small dynamically typed language.
//!
//! The library holds the front end of the language (the lexer, the parser
//! and the resolver), what the evaluator decides without looking at values
//! (the store of environments and how names are read and written through
//! it, functions, classes and instances, array positions, how a statement
//! or a call ends), the error types and their messages. `prepare` runs the
//! front end on a source text.
pub mod error;
pub mod errors;
pub mod interpreter;
pub mod lexer;
pub mod native;
pub mod paint;
pub mod parser;
pub mod text;

use vstd::prelude::*;
use std::collections::HashMap;
use crate::errors::lang_error::LangError;
use crate::interpreter::resolver::{Resolver, ResolverState, resolve_stmts, lemma_stmts_err_stays, lemma_stmts_view_index, lemma_stmts_view_len};
use crate::lexer::lexer::{Lexer, lex};
use crate::lexer::token::{Token, token_views};
use crate::parser::grammar::program;
use crate::parser::parser::Parser;
use crate::parser::statement::{SpecStmt, Stmt, stmts_view};

verus! {

/// A program ready to run: its statements, and for each variable read and
/// assignment the depth of the scope its name is declared in (keyed by the
/// expression's id; names found in no scope are globals).
pub struct Program {
    pub statements: Vec<Stmt>,
    pub locals: HashMap<usize, usize>,
}

/// The state of a fresh resolver.
pub open spec fn fresh_resolver() -> ResolverState {
    ResolverState { scopes: Seq::empty(), locals: Map::empty() }
}

/// Every way the front end may read `src` resolves without reading a
/// variable in its own initializer.
pub open spec fn resolves_cleanly(src: Seq<char>) -> bool {
    forall|toks: Seq<Token>|
        #![trigger token_views(toks)]
        lex(src) == Ok::<_, crate::errors::lex_error::SpecLexError>(token_views(toks)) ==> match program(toks, 0, Seq::empty()) {
            Ok(ss) => resolve_stmts(fresh_resolver(), ss) is Ok,
            Err(_) => true,
        }
}

/// What the front end gives for `src`, read as `toks`: a lexer error, a
/// parser error, the name of a variable read in its own initializer, or
/// the program.
pub open spec fn front_end_result(src: Seq<char>, toks: Seq<Token>, r: Result<Result<Program, LangError>, String>) -> bool {
    match lex(src) {
        Err(e) => r matches Ok(Err(LangError::Lex(x))) && x@ == e,
        Ok(ts) => token_views(toks) == ts && match program(toks, 0, Seq::empty()) {
            Err(e) => r matches Ok(Err(LangError::Parse(x))) && x@ == e,
            Ok(ss) => match resolve_stmts(fresh_resolver(), ss) {
                Ok(st) => r matches Ok(Ok(p)) && stmts_view(p.statements@) == ss && p.locals@ == st.locals,
                Err(n) => r matches Err(x) && x@ == n,
            },
        },
    }
}

/// Runs the lexer, the parser and the resolver on `source`.
///
/// Gives `Err(name)` where resolving reads the variable `name` in its own
/// initializer, `Ok(Err(..))` for a lexer or parser error, and the program
/// otherwise.
pub fn prepare(source: String) -> (r: Result<Result<Program, LangError>, String>)
    requires
        source@.len() < usize::MAX,
    ensures
        exists|toks: Seq<Token>| front_end_result(source@, toks, r),
{
    let ghost src = source@;
    let mut lexer = Lexer::new(source);
    let tokens = match lexer.tokenize() {
        Ok(t) => t,
        Err(e) => {
            let r = Ok(Err(LangError::Lex(e)));
            assert(front_end_result(source@, Seq::empty(), r));
            return r;
        },
    };
    let ghost toks = tokens@;
    let mut parser = Parser::new(tokens.as_slice());
    let statements = match parser.parse() {
        Ok(s) => s,
        Err(e) => {
            let r = Ok(Err(LangError::Parse(e)));
            assert(front_end_result(source@, toks, r));
            return r;
        },
    };
    let mut resolver = Resolver::new();
    let mut i: usize = 0;
    proof {
        lemma_stmts_view_len(statements@);
    }
    while i < statements.len()
        invariant
            src == source@,
            lex(src) == Ok::<_, crate::errors::lex_error::SpecLexError>(token_views(toks)),
            program(toks, 0, Seq::empty()) == Ok::<_, crate::errors::parse_error::SpecParseError>(stmts_view(statements@)),
            i <= statements@.len(),
            stmts_view(statements@).len() == statements@.len(),
            resolve_stmts(fresh_resolver(), stmts_view(statements@).take(i as int))
                == Ok::<ResolverState, Seq<char>>(resolver@),
        decreases statements@.len() - i,
    {
        proof {
            lemma_stmts_view_index(statements@, i as int);
            assert(stmts_view(statements@).take(i as int + 1).drop_last() =~= stmts_view(statements@).take(i as int));
        }
        match resolver.try_resolve_stmt(&statements[i]) {
            Ok(()) => {},
            Err(name) => {
                proof {
                    lemma_stmts_err_stays(fresh_resolver(), stmts_view(statements@), i as int + 1);
                }
                let r = Err(name);
                assert(front_end_result(source@, toks, r));
                return r;
            },
        }
        i = i + 1;
    }
    assert(stmts_view(statements@).take(statements@.len() as int) =~= stmts_view(statements@));
    let r = Ok(Ok(Program { statements, locals: resolver.into_locals() }));
    assert(front_end_result(source@, toks, r));
    r
}

/// The requirement of `try_run` holds of every text the front end refuses:
/// a text the lexer refuses, and one whose tokens the parser refuses, both
/// resolve cleanly, so `try_run` takes them and (by its contract) gives the
/// lexer's or the parser's error, running nothing.
pub proof fn law_front_end_errors_reach_try_run(src: Seq<char>)
    ensures
        lex(src) is Err ==> resolves_cleanly(src),
        (forall|toks: Seq<Token>| #![trigger token_views(toks)]
            lex(src) == Ok::<_, crate::errors::lex_error::SpecLexError>(token_views(toks))
                ==> program(toks, 0, Seq::empty()) is Err) ==> resolves_cleanly(src),
{
}

/// Runs the lexer, the parser and the resolver on `source`, which must not
/// read a variable in its own initializer.
pub fn try_run(source: String) -> (r: Result<Program, LangError>)
    requires
        source@.len() < usize::MAX,
        resolves_cleanly(source@),
    ensures
        exists|toks: Seq<Token>| front_end_result(source@, toks, Ok(r)),
{
    let ghost src = source@;
    let res = prepare(source);
    match res {
        Ok(r) => r,
        Err(name) => {
            proof {
                let toks = choose|toks: Seq<Token>| front_end_result(src, toks, Err(name));
                assert(lex(src) == Ok::<_, crate::errors::lex_error::SpecLexError>(token_views(toks)));
            }
            Ok(Program { statements: Vec::new(), locals: HashMap::new() })
        },
    }
}

} // verus!
