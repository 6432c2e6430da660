//! Classes: a name, methods by name, and possibly a superclass.
use vstd::prelude::*;
use std::rc::Rc;
use crate::errors::interpreter_error::InterpreterError;
use crate::text::owned;
use crate::interpreter::environment::{EnvId, entries_map, find_entry, str_matches};
use crate::interpreter::function::Function;
use crate::lexer::token::Token;
use crate::parser::statement::Stmt;

verus! {

/// A class: its name, its methods (a later method of the same name
/// overrides an earlier one) and its superclass, if it has one.
#[derive(Debug, Clone)]
pub struct Class {
    name: String,
    methods: Vec<(String, Function)>,
    superclass: Option<Rc<Class>>,
}

impl Class {
    /// The class's name.
    pub closed spec fn spec_name(self) -> Seq<char> {
        self.name@
    }

    /// The class's methods by name.
    pub closed spec fn method_table(self) -> Map<Seq<char>, Function> {
        entries_map(self.methods@)
    }

    /// The class's superclass.
    pub closed spec fn spec_superclass(self) -> Option<Class> {
        match self.superclass {
            Some(b) => Some(*b),
            None => None,
        }
    }

    /// A class with the given methods (see `class_methods`).
    pub fn new(name: String, methods: Vec<(String, Function)>, superclass: Option<Rc<Class>>) -> (r: Class)
        ensures
            r.spec_name() == name@,
            r.method_table() == entries_map(methods@),
            r.spec_superclass() == match superclass {
                Some(b) => Some(*b),
                None => None::<Class>,
            },
    {
        Class { name, methods, superclass }
    }

    /// The class's name.
    pub fn name(&self) -> (r: &str)
        ensures
            r@ == self.spec_name(),
    {
        self.name.as_str()
    }

    /// The method `name` of the class: its own method of that name, else the
    /// one its superclass finds (and so on up the chain of superclasses).
    pub closed spec fn lookup_method(self, name: Seq<char>) -> Option<Function>
        decreases self,
    {
        if entries_map(self.methods@).contains_key(name) {
            Some(entries_map(self.methods@)[name])
        } else {
            match self.superclass {
                Some(p) => (*p).lookup_method(name),
                None => None,
            }
        }
    }

    /// The method `name`, searched among the class's own methods first,
    /// then up the chain of superclasses (see `law_method_lookup`).
    pub fn find_method(&self, name: &str) -> (r: Option<&Function>)
        ensures
            match self.lookup_method(name@) {
                Some(f) => r matches Some(x) && *x == f,
                None => r is None,
            },
        decreases self,
    {
        match find_entry(&self.methods, name) {
            Some(i) => Some(&self.methods[i].1),
            None => match &self.superclass {
                Some(p) => {
                    let parent: &Class = &**p;
                    parent.find_method(name)
                },
                None => None,
            },
        }
    }

    /// The class's superclass.
    pub fn superclass(&self) -> (r: Option<&Class>)
        ensures
            match r {
                Some(c) => self.spec_superclass() == Some(*c),
                None => self.spec_superclass() is None,
            },
    {
        match &self.superclass {
            Some(b) => Some(&**b),
            None => None,
        }
    }
}

/// Method lookup goes up the chain of superclasses: a class's own method
/// of a name is found first; without one, the name is looked up in the
/// superclass; a class without a superclass finds only its own methods.
pub proof fn law_method_lookup(c: Class, name: Seq<char>)
    ensures
        c.method_table().contains_key(name) ==> c.lookup_method(name) == Some(c.method_table()[name]),
        !c.method_table().contains_key(name) ==> c.lookup_method(name) == match c.spec_superclass() {
            Some(p) => p.lookup_method(name),
            None => None,
        },
{
}

/// Checks the superclass a class declaration names: a class cannot
/// inherit from itself.
pub fn check_inheritance(class_name: &str, parent_name: &str) -> (r: Result<(), InterpreterError>)
    ensures
        class_name@ == parent_name@ ==> (r matches Err(InterpreterError::InvalidStatement { message })
            && message@ == "A class cannot inherit from itself"@),
        class_name@ != parent_name@ ==> r is Ok,
{
    if owned(class_name) == owned(parent_name) {
        Err(InterpreterError::InvalidStatement { message: owned("A class cannot inherit from itself") })
    } else {
        Ok(())
    }
}

/// The superclass, given the class that the superclass's name evaluated
/// to (`None` when it evaluated to something other than a class).
pub fn superclass_value<C>(found: Option<C>) -> (r: Result<C, InterpreterError>)
    ensures
        match found {
            Some(c) => r == Ok::<C, InterpreterError>(c),
            None => r matches Err(InterpreterError::InvalidStatement { message })
                && message@ == "Superclass must be a class"@,
        },
{
    match found {
        Some(c) => Ok(c),
        None => Err(InterpreterError::InvalidStatement { message: owned("Superclass must be a class") }),
    }
}

/// The function declarations among the statements, in order: name,
/// parameters and body of each.
pub open spec fn declared_functions(ms: Seq<Stmt>) -> Seq<(String, Vec<Token>, Rc<Stmt>)>
    decreases ms.len(),
{
    if ms.len() == 0 {
        Seq::empty()
    } else {
        let before = declared_functions(ms.drop_last());
        match ms.last() {
            Stmt::Func { name, parameters, body } => before.push((name, parameters, body)),
            _ => before,
        }
    }
}

/// `m` is the method made from the declaration `d` of the class
/// `class_name`, defined in `env`: a declaration named after its class is
/// the class's initializer.
pub open spec fn method_of(m: (String, Function), d: (String, Vec<Token>, Rc<Stmt>), class_name: Seq<char>, env: EnvId) -> bool {
    &&& m.0@ == d.0@
    &&& m.1.spec_name() == d.0@
    &&& m.1.spec_parameters() == d.1@
    &&& m.1.spec_body() == *d.2
    &&& m.1.spec_closure() == env
    &&& m.1.spec_is_init() == (d.0@ == class_name)
}

/// Another pointer to the same statement.
///
/// Trusted: calls `Rc::clone`, which std documents as making another `Rc`
/// pointer to the same allocation.
#[verifier::external_body]
fn share(body: &Rc<Stmt>) -> (r: Rc<Stmt>)
    ensures
        *r == **body,
{
    Rc::clone(body)
}

/// A copy of a list of tokens.
fn copy_tokens(ts: &Vec<Token>) -> (r: Vec<Token>)
    ensures
        r@ == ts@,
{
    let mut r: Vec<Token> = Vec::new();
    let mut i: usize = 0;
    while i < ts.len()
        invariant
            i <= ts.len(),
            r@ == ts@.take(i as int),
        decreases ts.len() - i,
    {
        r.push(ts[i].duplicate());
        assert(ts@.take(i as int + 1) =~= ts@.take(i as int).push(ts@[i as int]));
        i = i + 1;
    }
    assert(ts@.take(ts.len() as int) =~= ts@);
    r
}

/// The methods of the class `class_name` declared by the statements of its
/// body, in order, each defined in `env`; statements other than function
/// declarations are skipped. Every declared body must be a block.
pub fn class_methods(class_name: &str, methods: &Vec<Stmt>, env: EnvId) -> (r: Vec<(String, Function)>)
    requires
        forall|i: int| 0 <= i < declared_functions(methods@).len() ==> *(#[trigger] declared_functions(methods@)[i]).2 is Block,
    ensures
        r@.len() == declared_functions(methods@).len(),
        forall|i: int| 0 <= i < r@.len() ==> method_of(#[trigger] r@[i], declared_functions(methods@)[i], class_name@, env),
{
    let mut r: Vec<(String, Function)> = Vec::new();
    let mut k: usize = 0;
    while k < methods.len()
        invariant
            k <= methods@.len(),
            forall|i: int| 0 <= i < declared_functions(methods@).len() ==> *(#[trigger] declared_functions(methods@)[i]).2 is Block,
            declared_functions(methods@.take(k as int)).len() <= declared_functions(methods@).len(),
            forall|i: int| 0 <= i < declared_functions(methods@.take(k as int)).len()
                ==> declared_functions(methods@.take(k as int))[i] == #[trigger] declared_functions(methods@)[i],
            r@.len() == declared_functions(methods@.take(k as int)).len(),
            forall|i: int| 0 <= i < r@.len() ==> method_of(#[trigger] r@[i], declared_functions(methods@)[i], class_name@, env),
        decreases methods@.len() - k,
    {
        proof {
            lemma_declared_prefix(methods@, k as int);
        }
        match &methods[k] {
            Stmt::Func { name, parameters, body } => {
                proof {
                    let j = r@.len() as int;
                    assert(declared_functions(methods@.take(k as int + 1))[j] == (*name, *parameters, *body));
                    assert(declared_functions(methods@)[j] == (*name, *parameters, *body));
                }
                let f = Function::new(name.clone(), copy_tokens(parameters), share(body), env, str_matches(name, class_name));
                r.push((name.clone(), f));
            },
            _ => {},
        }
        k = k + 1;
    }
    assert(methods@.take(methods@.len() as int) =~= methods@);
    r
}

/// Whether every function declared among the statements has a block as
/// its body (what `class_methods` requires).
pub fn declared_bodies_are_blocks(methods: &Vec<Stmt>) -> (r: bool)
    ensures
        r == forall|i: int| 0 <= i < declared_functions(methods@).len() ==> *(#[trigger] declared_functions(methods@)[i]).2 is Block,
{
    let mut k: usize = 0;
    while k < methods.len()
        invariant
            k <= methods@.len(),
            declared_functions(methods@.take(k as int)).len() <= declared_functions(methods@).len(),
            forall|i: int| 0 <= i < declared_functions(methods@.take(k as int)).len()
                ==> declared_functions(methods@.take(k as int))[i] == #[trigger] declared_functions(methods@)[i],
            forall|i: int| 0 <= i < declared_functions(methods@.take(k as int)).len()
                ==> *(#[trigger] declared_functions(methods@)[i]).2 is Block,
        decreases methods@.len() - k,
    {
        proof {
            lemma_declared_prefix(methods@, k as int);
        }
        match &methods[k] {
            Stmt::Func { name, parameters, body } => {
                let j = Ghost(declared_functions(methods@.take(k as int)).len() as int);
                assert(declared_functions(methods@.take(k as int + 1))[j@] == (*name, *parameters, *body));
                let b: &Stmt = body;
                match b {
                    Stmt::Block(_) => {},
                    _ => {
                        assert(!(*declared_functions(methods@)[j@].2 is Block));
                        return false;
                    },
                }
            },
            _ => {},
        }
        k = k + 1;
    }
    assert(methods@.take(methods@.len() as int) =~= methods@);
    true
}

/// The declarations of a prefix are a prefix of the declarations, and one
/// more statement adds its declaration, if it is one.
proof fn lemma_declared_prefix(ms: Seq<Stmt>, k: int)
    requires
        0 <= k < ms.len(),
    ensures
        declared_functions(ms.take(k + 1)) == match ms[k] {
            Stmt::Func { name, parameters, body } => declared_functions(ms.take(k)).push((name, parameters, body)),
            _ => declared_functions(ms.take(k)),
        },
        declared_functions(ms.take(k + 1)).len() <= declared_functions(ms).len(),
        forall|i: int| 0 <= i < declared_functions(ms.take(k + 1)).len()
            ==> declared_functions(ms.take(k + 1))[i] == #[trigger] declared_functions(ms)[i],
{
    assert(ms.take(k + 1).drop_last() =~= ms.take(k));
    lemma_declared_take(ms, k + 1);
}

/// The declarations of a prefix are a prefix of the declarations.
proof fn lemma_declared_take(ms: Seq<Stmt>, k: int)
    requires
        0 <= k <= ms.len(),
    ensures
        declared_functions(ms.take(k)).len() <= declared_functions(ms).len(),
        forall|i: int| 0 <= i < declared_functions(ms.take(k)).len()
            ==> declared_functions(ms.take(k))[i] == #[trigger] declared_functions(ms)[i],
    decreases ms.len(),
{
    if k == ms.len() {
        assert(ms.take(k) =~= ms);
    } else {
        let t = ms.drop_last();
        assert(ms.take(k) =~= t.take(k));
        lemma_declared_take(t, k);
    }
}

} // verus!
