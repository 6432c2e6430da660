//! User-defined functions and methods.
use vstd::prelude::*;
use std::rc::Rc;
use crate::interpreter::environment::EnvId;
use crate::lexer::token::Token;
use crate::parser::statement::Stmt;

verus! {

/// A function: its name, parameters and body, the environment it was
/// defined in (which its calls are enclosed by), and whether it is a
/// class's initializer.
#[derive(Debug, Clone, PartialEq)]
pub struct Function {
    name: String,
    parameters: Vec<Token>,
    body: Rc<Stmt>,
    pub closure: EnvId,
    is_init: bool,
}

impl Function {
    /// The function's name.
    pub closed spec fn spec_name(self) -> Seq<char> {
        self.name@
    }

    /// The function's parameters.
    pub closed spec fn spec_parameters(self) -> Seq<Token> {
        self.parameters@
    }

    /// The function's body.
    pub closed spec fn spec_body(self) -> Stmt {
        *self.body
    }

    /// The environment the function was defined in.
    pub closed spec fn spec_closure(self) -> EnvId {
        self.closure
    }

    /// Whether the function is a class's initializer.
    pub closed spec fn spec_is_init(self) -> bool {
        self.is_init
    }

    /// A function defined in `environment`; its body must be a block.
    pub fn new(name: String, parameters: Vec<Token>, body: Rc<Stmt>, environment: EnvId, is_init: bool) -> (r: Function)
        requires
            *body is Block,
        ensures
            r.spec_name() == name@,
            r.spec_parameters() == parameters@,
            r.spec_body() == *body,
            r.spec_closure() == environment,
            r.spec_is_init() == is_init,
    {
        Function { name, parameters, body, closure: environment, is_init }
    }

    /// The function's name.
    pub fn func_name(&self) -> (r: &str)
        ensures
            r@ == self.spec_name(),
    {
        self.name.as_str()
    }

    /// The function's parameters.
    pub fn parameters(&self) -> (r: &Vec<Token>)
        ensures
            r@ == self.spec_parameters(),
    {
        &self.parameters
    }

    /// The function's body.
    pub fn body(&self) -> (r: &Stmt)
        ensures
            *r == self.spec_body(),
    {
        &*self.body
    }

    /// Whether the function is a class's initializer.
    pub fn is_init(&self) -> (r: bool)
        ensures
            r == self.spec_is_init(),
    {
        self.is_init
    }
}

} // verus!
