//! The resolver: finds, for each variable read and assignment, how many
//! scopes out its name is declared.
//!
//! A resolver holds a stack of scopes (innermost last), each mapping names
//! to whether their declaration is complete, and the depths found so far,
//! keyed by the `id` of the expression. Reading a variable in its own
//! initializer (declared, not yet defined, in the innermost scope) stops
//! the resolution; `try_resolve_stmt` reports the name, `resolve_stmt`
//! requires that it does not happen.
use vstd::prelude::*;
use std::collections::HashMap;
use crate::lexer::token::{Token, TokenKind};
use crate::parser::expression::{Expr, SpecExpr, exprs_view};
use crate::parser::statement::{SpecStmt, Stmt, boxed_stmts_view, stmts_view};
use crate::text::owned;

verus! {

broadcast use vstd::std_specs::hash::group_hash_axioms;

// ---------------------------------------------------------------------------
// Specification
// ---------------------------------------------------------------------------

/// The state of a resolver, as a mathematical value.
pub struct ResolverState {
    /// The scopes, innermost last: for each name, whether it is defined
    /// (`true`) or only declared (`false`).
    pub scopes: Seq<Map<Seq<char>, bool>>,
    /// For each expression id, the depth of the scope its name was found in
    /// (0 for the innermost).
    pub locals: Map<usize, usize>,
}

/// The state with `name` marked `flag` in the innermost scope; nothing
/// changes when there is no scope (the global level).
pub open spec fn mark(st: ResolverState, name: Seq<char>, flag: bool) -> ResolverState {
    if st.scopes.len() == 0 {
        st
    } else {
        ResolverState {
            scopes: st.scopes.update(st.scopes.len() - 1, st.scopes.last().insert(name, flag)),
            ..st
        }
    }
}

/// The state with a new innermost scope.
pub open spec fn begin_scope(st: ResolverState) -> ResolverState {
    ResolverState { scopes: st.scopes.push(Map::empty()), ..st }
}

/// The state without its innermost scope.
pub open spec fn end_scope(st: ResolverState) -> ResolverState {
    if st.scopes.len() == 0 {
        st
    } else {
        ResolverState { scopes: st.scopes.drop_last(), ..st }
    }
}

/// How many scopes out from the innermost one `name` is declared.
pub open spec fn find_depth(scopes: Seq<Map<Seq<char>, bool>>, name: Seq<char>) -> Option<nat>
    decreases scopes.len(),
{
    if scopes.len() == 0 {
        None
    } else if scopes.last().contains_key(name) {
        Some(0)
    } else {
        match find_depth(scopes.drop_last(), name) {
            Some(d) => Some(d + 1),
            None => None,
        }
    }
}

/// Records the depth of `name` for expression `id`, when it is declared
/// in some scope; a global name is not recorded.
pub open spec fn resolve_local(st: ResolverState, id: usize, name: Seq<char>) -> ResolverState {
    match find_depth(st.scopes, name) {
        Some(d) => ResolverState { locals: st.locals.insert(id, d as usize), ..st },
        None => st,
    }
}

/// Whether reading `name` now reads it inside its own initializer.
pub open spec fn in_own_initializer(st: ResolverState, name: Seq<char>) -> bool {
    st.scopes.len() > 0 && st.scopes.last().contains_key(name) && st.scopes.last()[name] == false
}

/// What resolving an expression gives: the new state, or the name read in
/// its own initializer.
pub type Resolved = Result<ResolverState, Seq<char>>;

/// Resolves an expression: variables and assignment targets are looked up
/// after their sub-expressions, left to right. Expressions of other kinds
/// (post-increments, compound assignments, arrays, hashmaps, indexing) are
/// not looked into.
pub open spec fn resolve_expr(st: ResolverState, e: SpecExpr) -> Resolved
    decreases e,
{
    match e {
        SpecExpr::Var { name: tok, id } => match tok.kind {
            TokenKind::IDENT(name) => if in_own_initializer(st, name@) {
                Err(name@)
            } else {
                Ok(resolve_local(st, id, name@))
            },
            _ => Ok(st),
        },
        SpecExpr::Assign { name, value, id, .. } => match resolve_expr(st, *value) {
            Ok(s1) => Ok(resolve_local(s1, id, name@)),
            Err(n) => Err(n),
        },
        SpecExpr::Binary { left, right, .. } => match resolve_expr(st, *left) {
            Ok(s1) => resolve_expr(s1, *right),
            Err(n) => Err(n),
        },
        SpecExpr::Unary { right, .. } => resolve_expr(st, *right),
        SpecExpr::Group { expr } => resolve_expr(st, *expr),
        SpecExpr::Call { callee, arguments, .. } => match resolve_expr(st, *callee) {
            Ok(s1) => resolve_exprs(s1, arguments),
            Err(n) => Err(n),
        },
        SpecExpr::Get { object, .. } => resolve_expr(st, *object),
        SpecExpr::SetProperty { object, value, .. } => match resolve_expr(st, *object) {
            Ok(s1) => resolve_expr(s1, *value),
            Err(n) => Err(n),
        },
        _ => Ok(st),
    }
}

/// Resolves expressions left to right.
pub open spec fn resolve_exprs(st: ResolverState, es: Seq<SpecExpr>) -> Resolved
    decreases es,
{
    if es.len() == 0 {
        Ok(st)
    } else {
        match resolve_exprs(st, es.drop_last()) {
            Ok(s1) => resolve_expr(s1, es.last()),
            Err(n) => Err(n),
        }
    }
}

/// Declares and defines the parameters of a function in the innermost scope.
pub open spec fn define_params(st: ResolverState, params: Seq<Token>) -> ResolverState
    decreases params.len(),
{
    if params.len() == 0 {
        st
    } else {
        let s1 = define_params(st, params.drop_last());
        match params.last().kind {
            TokenKind::IDENT(n) => mark(mark(s1, n@, false), n@, true),
            _ => s1,
        }
    }
}

/// `r` with the innermost scope closed, if it is a state.
pub open spec fn closed(r: Resolved) -> Resolved {
    match r {
        Ok(s) => Ok(end_scope(s)),
        Err(n) => Err(n),
    }
}

/// Resolves a statement.
///
/// A variable is declared before its initializer is resolved and defined
/// after; a block and a function body each open a scope (the function's
/// parameters are in a scope of their own around its body's block); the
/// variable of a `loop .. in` is in a scope of its own around its body; a
/// class opens a scope holding `this` around its methods, and, when it
/// inherits, one holding `super` around that.
pub open spec fn resolve_stmt(st: ResolverState, s: SpecStmt) -> Resolved
    decreases s,
{
    match s {
        SpecStmt::Expr(e) => resolve_expr(st, e),
        SpecStmt::Var { name, initializer } => {
            let s1 = mark(st, name@, false);
            match initializer {
                Some(e) => match resolve_expr(s1, e) {
                    Ok(s2) => Ok(mark(s2, name@, true)),
                    Err(n) => Err(n),
                },
                None => Ok(mark(s1, name@, true)),
            }
        },
        SpecStmt::Block(stmts) => closed(resolve_stmts(begin_scope(st), stmts)),
        SpecStmt::If { condition, if_body, else_body } => match resolve_expr(st, condition) {
            Ok(s1) => match resolve_stmt(s1, *if_body) {
                Ok(s2) => match else_body {
                    Some(b) => resolve_stmt(s2, *b),
                    None => Ok(s2),
                },
                Err(n) => Err(n),
            },
            Err(n) => Err(n),
        },
        SpecStmt::Loop { count, body } => match resolve_expr(st, count) {
            Ok(s1) => resolve_stmt(s1, *body),
            Err(n) => Err(n),
        },
        SpecStmt::LoopIf { condition, body } => match resolve_expr(st, condition) {
            Ok(s1) => resolve_stmt(s1, *body),
            Err(n) => Err(n),
        },
        SpecStmt::LoopIn { name, object, body } => match resolve_expr(st, object) {
            Ok(s1) => closed(resolve_stmt(mark(begin_scope(s1), name@, true), *body)),
            Err(n) => Err(n),
        },
        SpecStmt::Func { name, parameters, body } => {
            let s1 = mark(mark(st, name@, false), name@, true);
            let s2 = define_params(begin_scope(s1), parameters);
            closed(resolve_stmt(s2, *body))
        },
        SpecStmt::Return(e) => resolve_expr(st, e),
        SpecStmt::Break => Ok(st),
        SpecStmt::Continue => Ok(st),
        SpecStmt::Class { name, methods, superclass } => {
            let s1 = mark(mark(st, name@, false), name@, true);
            match superclass {
                Some(_) => {
                    let s2 = mark(begin_scope(mark(begin_scope(s1), "super"@, true)), "this"@, true);
                    closed(closed(resolve_stmts(s2, methods)))
                },
                None => {
                    let s2 = mark(begin_scope(s1), "this"@, true);
                    closed(resolve_stmts(s2, methods))
                },
            }
        },
    }
}

/// Resolves statements in order.
pub open spec fn resolve_stmts(st: ResolverState, ss: Seq<SpecStmt>) -> Resolved
    decreases ss,
{
    if ss.len() == 0 {
        Ok(st)
    } else {
        match resolve_stmts(st, ss.drop_last()) {
            Ok(s1) => resolve_stmt(s1, ss.last()),
            Err(n) => Err(n),
        }
    }
}

// ---------------------------------------------------------------------------
// Implementation
// ---------------------------------------------------------------------------

/// The names of one scope, in the order they were marked; a later entry
/// for a name overrides an earlier one.
pub open spec fn scope_map(s: Seq<(String, bool)>) -> Map<Seq<char>, bool>
    decreases s.len(),
{
    if s.len() == 0 {
        Map::empty()
    } else {
        scope_map(s.drop_last()).insert(s.last().0@, s.last().1)
    }
}

/// The maps of a stack of scopes.
pub open spec fn scopes_map(s: Seq<Vec<(String, bool)>>) -> Seq<Map<Seq<char>, bool>> {
    s.map_values(|v: Vec<(String, bool)>| scope_map(v@))
}

/// Finds, for each variable read and assignment, the depth of the scope
/// its name is declared in.
pub struct Resolver {
    scopes: Vec<Vec<(String, bool)>>,
    /// The depths found, keyed by expression id.
    pub locals: HashMap<usize, usize>,
}

impl View for Resolver {
    type V = ResolverState;

    closed spec fn view(&self) -> ResolverState {
        ResolverState { scopes: scopes_map(self.scopes@), locals: self.locals@ }
    }
}

impl Resolver {
    /// A resolver with no scopes and no depths.
    pub fn new() -> (r: Resolver)
        ensures
            r@ == (ResolverState { scopes: Seq::empty(), locals: Map::empty() }),
    {
        let r = Resolver { scopes: Vec::new(), locals: HashMap::new() };
        assert(scopes_map(r.scopes@) =~= Seq::<Map<Seq<char>, bool>>::empty());
        r
    }

    /// The depths found, keyed by expression id.
    pub fn into_locals(self) -> (r: HashMap<usize, usize>)
        ensures
            r@ == self@.locals,
    {
        self.locals
    }

    /// Resolves a statement (see `resolve_stmt`); it must not read a
    /// variable in its own initializer.
    pub fn resolve_stmt(&mut self, stmt: &Stmt)
        requires
            resolve_stmt(old(self)@, stmt@) is Ok,
        ensures
            Ok::<ResolverState, Seq<char>>(final(self)@) == resolve_stmt(old(self)@, stmt@),
    {
        let r = self.try_resolve_stmt(stmt);
        assert(r is Ok);
    }

    /// Resolves an expression (see `resolve_expr`); it must not read a
    /// variable in its own initializer.
    pub fn resolve_expr(&mut self, expr: &Expr)
        requires
            resolve_expr(old(self)@, expr@) is Ok,
        ensures
            Ok::<ResolverState, Seq<char>>(final(self)@) == resolve_expr(old(self)@, expr@),
    {
        let r = self.try_resolve_expr(expr);
        assert(r is Ok);
    }

    /// Resolves a statement, or gives the name of a variable read in its
    /// own initializer (the state is then left part-way).
    #[verifier::loop_isolation(false)]
    pub fn try_resolve_stmt(&mut self, stmt: &Stmt) -> (r: Result<(), String>)
        ensures
            match resolve_stmt(old(self)@, stmt@) {
                Ok(st) => r is Ok && final(self)@ == st,
                Err(n) => r matches Err(x) && x@ == n,
            },
        decreases stmt,
    {
        match stmt {
            Stmt::Expr(e) => self.try_resolve_expr(e),
            Stmt::Var { name, initializer } => {
                self.mark(name, false);
                match initializer {
                    Some(e) => {
                        self.try_resolve_expr(e)?;
                    },
                    None => {},
                }
                self.mark(name, true);
                Ok(())
            },
            Stmt::Block(stmts) => {
                self.begin_scope();
                let mut i: usize = 0;
                proof {
                    lemma_boxed_stmts_view_len(stmts@);
                }
                while i < stmts.len()
                    invariant
                        i <= stmts@.len(),
                        boxed_stmts_view(stmts@).len() == stmts@.len(),
                        resolve_stmts(begin_scope(old(self)@), boxed_stmts_view(stmts@).take(i as int))
                            == Ok::<ResolverState, Seq<char>>(self@),
                    decreases stmts@.len() - i,
                {
                    proof {
                        lemma_boxed_stmts_view_index(stmts@, i as int);
                        assert(boxed_stmts_view(stmts@).take(i as int + 1).drop_last()
                            =~= boxed_stmts_view(stmts@).take(i as int));
                        assert(decreases_to!(*stmt => *stmts@[i as int]));
                    }
                    let r = self.try_resolve_stmt(&stmts[i]);
                    if r.is_err() {
                        proof {
                            lemma_stmts_err_stays(begin_scope(old(self)@), boxed_stmts_view(stmts@), i as int + 1);
                        }
                        return r;
                    }
                    i = i + 1;
                }
                assert(boxed_stmts_view(stmts@).take(stmts@.len() as int) =~= boxed_stmts_view(stmts@));
                self.end_scope();
                Ok(())
            },
            Stmt::If { condition, if_body, else_body } => {
                self.try_resolve_expr(condition)?;
                self.try_resolve_stmt(if_body)?;
                match else_body {
                    Some(b) => self.try_resolve_stmt(b),
                    None => Ok(()),
                }
            },
            Stmt::Loop { count, body } => {
                self.try_resolve_expr(count)?;
                self.try_resolve_stmt(body)
            },
            Stmt::LoopIf { condition, body } => {
                self.try_resolve_expr(condition)?;
                self.try_resolve_stmt(body)
            },
            Stmt::LoopIn { name, object, body } => {
                self.try_resolve_expr(object)?;
                self.begin_scope();
                self.mark(name, true);
                let body_ref: &Stmt = body;
                self.try_resolve_stmt(body_ref)?;
                self.end_scope();
                Ok(())
            },
            Stmt::Func { name, parameters, body } => {
                self.mark(name, false);
                self.mark(name, true);
                self.begin_scope();
                let mut i: usize = 0;
                let ghost s0 = self@;
                while i < parameters.len()
                    invariant
                        i <= parameters@.len(),
                        self@ == define_params(s0, parameters@.take(i as int)),
                    decreases parameters@.len() - i,
                {
                    proof {
                        assert(parameters@.take(i as int + 1).drop_last() =~= parameters@.take(i as int));
                    }
                    match &parameters[i].kind {
                        TokenKind::IDENT(n) => {
                            self.mark(n, false);
                            self.mark(n, true);
                        },
                        _ => {},
                    }
                    i = i + 1;
                }
                assert(parameters@.take(parameters@.len() as int) =~= parameters@);
                let body_ref: &Stmt = body;
                self.try_resolve_stmt(body_ref)?;
                self.end_scope();
                Ok(())
            },
            Stmt::Return(e) => self.try_resolve_expr(e),
            Stmt::Break => Ok(()),
            Stmt::Continue => Ok(()),
            Stmt::Class { name, methods, superclass } => {
                self.mark(name, false);
                self.mark(name, true);
                let inherits = superclass.is_some();
                if inherits {
                    self.begin_scope();
                    let sup = owned("super");
                    self.mark(&sup, true);
                }
                self.begin_scope();
                let this = owned("this");
                self.mark(&this, true);
                let mut i: usize = 0;
                let ghost s0 = self@;
                proof {
                    lemma_stmts_view_len(methods@);
                }
                while i < methods.len()
                    invariant
                        i <= methods@.len(),
                        stmts_view(methods@).len() == methods@.len(),
                        resolve_stmts(s0, stmts_view(methods@).take(i as int)) == Ok::<ResolverState, Seq<char>>(self@),
                    decreases methods@.len() - i,
                {
                    proof {
                        lemma_stmts_view_index(methods@, i as int);
                        assert(stmts_view(methods@).take(i as int + 1).drop_last() =~= stmts_view(methods@).take(i as int));
                        assert(decreases_to!(*stmt => methods@[i as int]));
                    }
                    let r = self.try_resolve_stmt(&methods[i]);
                    if r.is_err() {
                        proof {
                            lemma_stmts_err_stays(s0, stmts_view(methods@), i as int + 1);
                        }
                        return r;
                    }
                    i = i + 1;
                }
                assert(stmts_view(methods@).take(methods@.len() as int) =~= stmts_view(methods@));
                self.end_scope();
                if inherits {
                    self.end_scope();
                }
                Ok(())
            },
        }
    }

    /// Resolves an expression, or gives the name of a variable read in its
    /// own initializer (the state is then left part-way).
    #[verifier::loop_isolation(false)]
    pub fn try_resolve_expr(&mut self, expr: &Expr) -> (r: Result<(), String>)
        ensures
            match resolve_expr(old(self)@, expr@) {
                Ok(st) => r is Ok && final(self)@ == st,
                Err(n) => r matches Err(x) && x@ == n,
            },
        decreases expr,
    {
        match expr {
            Expr::Var { name: tok, id } => {
                match &tok.kind {
                    TokenKind::IDENT(name) => {
                        if self.in_own_initializer(name) {
                            return Err(name.clone());
                        }
                        self.resolve_local(*id, name);
                        Ok(())
                    },
                    _ => Ok(()),
                }
            },
            Expr::Assign { name, value, id, .. } => {
                self.try_resolve_expr(value)?;
                self.resolve_local(*id, name);
                Ok(())
            },
            Expr::Binary { left, right, .. } => {
                self.try_resolve_expr(left)?;
                self.try_resolve_expr(right)
            },
            Expr::Unary { right, .. } => self.try_resolve_expr(right),
            Expr::Group { expr: inner } => self.try_resolve_expr(inner),
            Expr::Call { callee, arguments, .. } => {
                self.try_resolve_expr(callee)?;
                let ghost s0 = self@;
                let mut i: usize = 0;
                proof {
                    lemma_exprs_view_len(arguments@);
                }
                while i < arguments.len()
                    invariant
                        i <= arguments@.len(),
                        exprs_view(arguments@).len() == arguments@.len(),
                        resolve_exprs(s0, exprs_view(arguments@).take(i as int)) == Ok::<ResolverState, Seq<char>>(self@),
                    decreases arguments@.len() - i,
                {
                    proof {
                        lemma_exprs_view_index(arguments@, i as int);
                        assert(exprs_view(arguments@).take(i as int + 1).drop_last() =~= exprs_view(arguments@).take(i as int));
                        assert(decreases_to!(*expr => *arguments@[i as int]));
                    }
                    let r = self.try_resolve_expr(&arguments[i]);
                    if r.is_err() {
                        proof {
                            lemma_exprs_err_stays(s0, exprs_view(arguments@), i as int + 1);
                        }
                        return r;
                    }
                    i = i + 1;
                }
                assert(exprs_view(arguments@).take(arguments@.len() as int) =~= exprs_view(arguments@));
                Ok(())
            },
            Expr::Get { object, .. } => self.try_resolve_expr(object),
            Expr::SetProperty { object, value, .. } => {
                self.try_resolve_expr(object)?;
                self.try_resolve_expr(value)
            },
            _ => Ok(()),
        }
    }

    // -----------------------------------------------------------------------

    fn begin_scope(&mut self)
        ensures
            final(self)@ == begin_scope(old(self)@),
    {
        let ghost before = self.scopes@;
        self.scopes.push(Vec::new());
        proof {
            assert(scopes_map(self.scopes@) =~= scopes_map(before).push(Map::empty()));
            assert(scope_map(Seq::<(String, bool)>::empty()) =~= Map::<Seq<char>, bool>::empty());
        }
    }

    fn end_scope(&mut self)
        ensures
            final(self)@ == end_scope(old(self)@),
    {
        let ghost before = self.scopes@;
        if self.scopes.len() > 0 {
            self.scopes.pop();
            assert(scopes_map(self.scopes@) =~= scopes_map(before).drop_last());
        }
    }

    /// Marks `name` in the innermost scope (declare with `false`, define
    /// with `true`).
    fn mark(&mut self, name: &String, flag: bool)
        ensures
            final(self)@ == mark(old(self)@, name@, flag),
    {
        let n = self.scopes.len();
        if n > 0 {
            let ghost before = self.scopes@;
            let mut last = self.scopes.pop().unwrap();
            let ghost last_before = last@;
            last.push((name.clone(), flag));
            self.scopes.push(last);
            proof {
                assert(last@.drop_last() =~= last_before);
                assert(scope_map(last@) == scope_map(last_before).insert(name@, flag));
                assert(scopes_map(self.scopes@) =~= scopes_map(before).update(
                    n - 1, scopes_map(before).last().insert(name@, flag)));
            }
        }
    }

    /// The flag of `name` in one scope, if it is there.
    fn lookup(scope: &Vec<(String, bool)>, name: &String) -> (r: Option<bool>)
        ensures
            match r {
                Some(f) => scope_map(scope@).contains_key(name@) && scope_map(scope@)[name@] == f,
                None => !scope_map(scope@).contains_key(name@),
            },
    {
        let mut i = scope.len();
        assert(scope@.take(i as int) =~= scope@);
        while i > 0
            invariant
                i <= scope@.len(),
                forall|j: int| i <= j < scope@.len() ==> scope@[j].0@ != name@,
                scope_map(scope@).contains_key(name@) == scope_map(scope@.take(i as int)).contains_key(name@),
                scope_map(scope@).contains_key(name@) ==> scope_map(scope@)[name@] == scope_map(scope@.take(i as int))[name@],
            decreases i,
        {
            let entry = &scope[i - 1];
            proof {
                assert(scope@.take(i as int).drop_last() =~= scope@.take(i as int - 1));
            }
            if entry.0 == *name {
                return Some(entry.1);
            }
            i = i - 1;
        }
        None
    }

    fn in_own_initializer(&self, name: &String) -> (r: bool)
        ensures
            r == in_own_initializer(self@, name@),
    {
        let n = self.scopes.len();
        if n == 0 {
            return false;
        }
        match Self::lookup(&self.scopes[n - 1], name) {
            Some(f) => !f,
            None => false,
        }
    }

    /// Records the depth of `name` for expression `id` (see `resolve_local`).
    fn resolve_local(&mut self, id: usize, name: &String)
        ensures
            final(self)@ == resolve_local(old(self)@, id, name@),
    {
        let n = self.scopes.len();
        let mut depth: usize = 0;
        assert(self@.scopes.take(n as int) =~= self@.scopes);
        while depth < n
            invariant
                n == self.scopes@.len(),
                self@ == old(self)@,
                depth <= n,
                find_depth(self@.scopes, name@) == shifted(find_depth(self@.scopes.take(n - depth), name@), depth as nat),
            decreases n - depth,
        {
            proof {
                assert(self@.scopes.take(n - depth).drop_last() =~= self@.scopes.take(n - depth - 1));
                assert(self@.scopes.take(n - depth).last() == self@.scopes[n - depth - 1]);
            }
            if Self::lookup(&self.scopes[n - 1 - depth], name).is_some() {
                self.locals.insert(id, depth);
                return;
            }
            depth = depth + 1;
        }
    }
}

/// Once resolving a prefix of a list of expressions stops, resolving the
/// whole list stops with the same name.
pub proof fn lemma_exprs_err_stays(st: ResolverState, es: Seq<SpecExpr>, k: int)
    requires
        0 <= k <= es.len(),
        resolve_exprs(st, es.take(k)) is Err,
    ensures
        resolve_exprs(st, es) == resolve_exprs(st, es.take(k)),
    decreases es.len() - k,
{
    if k < es.len() {
        assert(es.take(k + 1).drop_last() =~= es.take(k));
        lemma_exprs_err_stays(st, es, k + 1);
    } else {
        assert(es.take(k) =~= es);
    }
}

/// Once resolving a prefix of a list of statements stops, resolving the
/// whole list stops with the same name.
pub proof fn lemma_stmts_err_stays(st: ResolverState, ss: Seq<SpecStmt>, k: int)
    requires
        0 <= k <= ss.len(),
        resolve_stmts(st, ss.take(k)) is Err,
    ensures
        resolve_stmts(st, ss) == resolve_stmts(st, ss.take(k)),
    decreases ss.len() - k,
{
    if k < ss.len() {
        assert(ss.take(k + 1).drop_last() =~= ss.take(k));
        lemma_stmts_err_stays(st, ss, k + 1);
    } else {
        assert(ss.take(k) =~= ss);
    }
}

// ---------------------------------------------------------------------------
// Laws
// ---------------------------------------------------------------------------

/// `r` keeps the number of scopes of `st` and every depth `st` recorded.
pub open spec fn keeps(st: ResolverState, r: Resolved) -> bool {
    r matches Ok(s2) ==> s2.scopes.len() == st.scopes.len() && st.locals.dom().subset_of(s2.locals.dom())
}

proof fn lemma_mark_keeps(st: ResolverState, name: Seq<char>, flag: bool)
    ensures
        mark(st, name, flag).scopes.len() == st.scopes.len(),
        mark(st, name, flag).locals == st.locals,
{
}

proof fn lemma_define_params_keeps(st: ResolverState, params: Seq<Token>)
    ensures
        define_params(st, params).scopes.len() == st.scopes.len(),
        define_params(st, params).locals == st.locals,
    decreases params.len(),
{
    if params.len() > 0 {
        lemma_define_params_keeps(st, params.drop_last());
    }
}

proof fn lemma_expr_keeps(st: ResolverState, e: SpecExpr)
    ensures
        keeps(st, resolve_expr(st, e)),
    decreases e,
{
    match e {
        SpecExpr::Assign { value, .. } => lemma_expr_keeps(st, *value),
        SpecExpr::Binary { left, right, .. } => {
            lemma_expr_keeps(st, *left);
            if let Ok(s1) = resolve_expr(st, *left) {
                lemma_expr_keeps(s1, *right);
            }
        },
        SpecExpr::Unary { right, .. } => lemma_expr_keeps(st, *right),
        SpecExpr::Group { expr } => lemma_expr_keeps(st, *expr),
        SpecExpr::Call { callee, arguments, .. } => {
            lemma_expr_keeps(st, *callee);
            if let Ok(s1) = resolve_expr(st, *callee) {
                lemma_exprs_keeps(s1, arguments);
            }
        },
        SpecExpr::Get { object, .. } => lemma_expr_keeps(st, *object),
        SpecExpr::SetProperty { object, value, .. } => {
            lemma_expr_keeps(st, *object);
            if let Ok(s1) = resolve_expr(st, *object) {
                lemma_expr_keeps(s1, *value);
            }
        },
        _ => {},
    }
}

proof fn lemma_exprs_keeps(st: ResolverState, es: Seq<SpecExpr>)
    ensures
        keeps(st, resolve_exprs(st, es)),
    decreases es,
{
    if es.len() > 0 {
        lemma_exprs_keeps(st, es.drop_last());
        if let Ok(s1) = resolve_exprs(st, es.drop_last()) {
            lemma_expr_keeps(s1, es.last());
        }
    }
}

proof fn lemma_stmt_keeps(st: ResolverState, s: SpecStmt)
    ensures
        keeps(st, resolve_stmt(st, s)),
    decreases s,
{
    match s {
        SpecStmt::Expr(e) => lemma_expr_keeps(st, e),
        SpecStmt::Var { name, initializer } => {
            let s1 = mark(st, name@, false);
            lemma_mark_keeps(st, name@, false);
            if let Some(e) = initializer {
                lemma_expr_keeps(s1, e);
                if let Ok(s2) = resolve_expr(s1, e) {
                    lemma_mark_keeps(s2, name@, true);
                }
            } else {
                lemma_mark_keeps(s1, name@, true);
            }
        },
        SpecStmt::Block(stmts) => {
            lemma_stmts_keeps(begin_scope(st), stmts);
        },
        SpecStmt::If { condition, if_body, else_body } => {
            lemma_expr_keeps(st, condition);
            if let Ok(s1) = resolve_expr(st, condition) {
                lemma_stmt_keeps(s1, *if_body);
                if let Ok(s2) = resolve_stmt(s1, *if_body) {
                    if let Some(b) = else_body {
                        lemma_stmt_keeps(s2, *b);
                    }
                }
            }
        },
        SpecStmt::Loop { count, body } => {
            lemma_expr_keeps(st, count);
            if let Ok(s1) = resolve_expr(st, count) {
                lemma_stmt_keeps(s1, *body);
            }
        },
        SpecStmt::LoopIf { condition, body } => {
            lemma_expr_keeps(st, condition);
            if let Ok(s1) = resolve_expr(st, condition) {
                lemma_stmt_keeps(s1, *body);
            }
        },
        SpecStmt::LoopIn { name, object, body } => {
            lemma_expr_keeps(st, object);
            if let Ok(s1) = resolve_expr(st, object) {
                lemma_mark_keeps(begin_scope(s1), name@, true);
                lemma_stmt_keeps(mark(begin_scope(s1), name@, true), *body);
            }
        },
        SpecStmt::Func { name, parameters, body } => {
            let s1 = mark(mark(st, name@, false), name@, true);
            lemma_mark_keeps(st, name@, false);
            lemma_mark_keeps(mark(st, name@, false), name@, true);
            let s2 = define_params(begin_scope(s1), parameters);
            lemma_define_params_keeps(begin_scope(s1), parameters);
            lemma_stmt_keeps(s2, *body);
        },
        SpecStmt::Return(e) => lemma_expr_keeps(st, e),
        SpecStmt::Class { name, methods, superclass } => {
            let s1 = mark(mark(st, name@, false), name@, true);
            lemma_mark_keeps(st, name@, false);
            lemma_mark_keeps(mark(st, name@, false), name@, true);
            if superclass is Some {
                let s0 = mark(begin_scope(s1), "super"@, true);
                lemma_mark_keeps(begin_scope(s1), "super"@, true);
                let s2 = mark(begin_scope(s0), "this"@, true);
                lemma_mark_keeps(begin_scope(s0), "this"@, true);
                lemma_stmts_keeps(s2, methods);
            } else {
                let s2 = mark(begin_scope(s1), "this"@, true);
                lemma_mark_keeps(begin_scope(s1), "this"@, true);
                lemma_stmts_keeps(s2, methods);
            }
        },
        _ => {},
    }
}

proof fn lemma_stmts_keeps(st: ResolverState, ss: Seq<SpecStmt>)
    ensures
        keeps(st, resolve_stmts(st, ss)),
    decreases ss,
{
    if ss.len() > 0 {
        lemma_stmts_keeps(st, ss.drop_last());
        if let Ok(s1) = resolve_stmts(st, ss.drop_last()) {
            lemma_stmt_keeps(s1, ss.last());
        }
    }
}

/// The scopes with `name` declared and defined in the innermost one; none
/// changes at the global level (no scope open).
pub open spec fn declare_in_innermost(scopes: Seq<Map<Seq<char>, bool>>, name: Seq<char>) -> Seq<Map<Seq<char>, bool>> {
    if scopes.len() == 0 {
        scopes
    } else {
        scopes.update(scopes.len() - 1, scopes.last().insert(name, true))
    }
}

/// The scopes after a statement is resolved: a variable, function or class
/// declaration adds its name to the innermost scope; an `if` or a counted or
/// conditional loop has the effect of its bodies; every other statement
/// (a block, a `loop .. in`, which close the scopes they open, an
/// expression, `return`, `break`, `continue`) leaves the scopes as they
/// were.
pub open spec fn scopes_after(scopes: Seq<Map<Seq<char>, bool>>, s: SpecStmt) -> Seq<Map<Seq<char>, bool>>
    decreases s,
{
    match s {
        SpecStmt::Var { name, .. } => declare_in_innermost(scopes, name@),
        SpecStmt::Func { name, .. } => declare_in_innermost(scopes, name@),
        SpecStmt::Class { name, .. } => declare_in_innermost(scopes, name@),
        SpecStmt::If { if_body, else_body, .. } => {
            let a = scopes_after(scopes, *if_body);
            match else_body {
                Some(b) => scopes_after(a, *b),
                None => a,
            }
        },
        SpecStmt::Loop { body, .. } => scopes_after(scopes, *body),
        SpecStmt::LoopIf { body, .. } => scopes_after(scopes, *body),
        _ => scopes,
    }
}

/// `b` has as many scopes as `a`, and all but the innermost are `a`'s.
pub open spec fn same_outer(a: Seq<Map<Seq<char>, bool>>, b: Seq<Map<Seq<char>, bool>>) -> bool {
    &&& a.len() == b.len()
    &&& forall|i: int| 0 <= i < a.len() - 1 ==> #[trigger] b[i] == a[i]
}

proof fn lemma_mark_twice(st: ResolverState, name: Seq<char>)
    ensures
        mark(mark(st, name, false), name, true).scopes == declare_in_innermost(st.scopes, name),
        mark(mark(st, name, false), name, true).locals == st.locals,
{
    if st.scopes.len() > 0 {
        assert(st.scopes.last().insert(name, false).insert(name, true) =~= st.scopes.last().insert(name, true));
        assert(mark(mark(st, name, false), name, true).scopes =~= declare_in_innermost(st.scopes, name));
    }
}

proof fn lemma_define_params_outer(st: ResolverState, params: Seq<Token>)
    ensures
        same_outer(st.scopes, define_params(st, params).scopes),
    decreases params.len(),
{
    if params.len() > 0 {
        lemma_define_params_outer(st, params.drop_last());
    }
}

/// Resolving an expression records depths and changes no scope.
proof fn lemma_expr_scopes(st: ResolverState, e: SpecExpr)
    ensures
        resolve_expr(st, e) matches Ok(s2) ==> s2.scopes == st.scopes,
    decreases e,
{
    match e {
        SpecExpr::Assign { value, .. } => lemma_expr_scopes(st, *value),
        SpecExpr::Binary { left, right, .. } => {
            lemma_expr_scopes(st, *left);
            if let Ok(s1) = resolve_expr(st, *left) {
                lemma_expr_scopes(s1, *right);
            }
        },
        SpecExpr::Unary { right, .. } => lemma_expr_scopes(st, *right),
        SpecExpr::Group { expr } => lemma_expr_scopes(st, *expr),
        SpecExpr::Call { callee, arguments, .. } => {
            lemma_expr_scopes(st, *callee);
            if let Ok(s1) = resolve_expr(st, *callee) {
                lemma_exprs_scopes(s1, arguments);
            }
        },
        SpecExpr::Get { object, .. } => lemma_expr_scopes(st, *object),
        SpecExpr::SetProperty { object, value, .. } => {
            lemma_expr_scopes(st, *object);
            if let Ok(s1) = resolve_expr(st, *object) {
                lemma_expr_scopes(s1, *value);
            }
        },
        _ => {},
    }
}

proof fn lemma_exprs_scopes(st: ResolverState, es: Seq<SpecExpr>)
    ensures
        resolve_exprs(st, es) matches Ok(s2) ==> s2.scopes == st.scopes,
    decreases es,
{
    if es.len() > 0 {
        lemma_exprs_scopes(st, es.drop_last());
        if let Ok(s1) = resolve_exprs(st, es.drop_last()) {
            lemma_expr_scopes(s1, es.last());
        }
    }
}

/// A statement's effect on the scopes touches only the innermost one.
proof fn lemma_scopes_after_outer(scopes: Seq<Map<Seq<char>, bool>>, s: SpecStmt)
    ensures
        same_outer(scopes, scopes_after(scopes, s)),
    decreases s,
{
    match s {
        SpecStmt::If { if_body, else_body, .. } => {
            lemma_scopes_after_outer(scopes, *if_body);
            if let Some(b) = else_body {
                lemma_scopes_after_outer(scopes_after(scopes, *if_body), *b);
            }
        },
        SpecStmt::Loop { body, .. } => lemma_scopes_after_outer(scopes, *body),
        SpecStmt::LoopIf { body, .. } => lemma_scopes_after_outer(scopes, *body),
        _ => {},
    }
}

/// Closing a scope opened around statements that touched only it gives
/// back the scopes as they were before it was opened.
proof fn lemma_closed_back(outer: Seq<Map<Seq<char>, bool>>, inner: Map<Seq<char>, bool>, after: Seq<Map<Seq<char>, bool>>)
    requires
        same_outer(outer.push(inner), after),
    ensures
        after.len() > 0,
        after.drop_last() == outer,
{
    assert forall|i: int| 0 <= i < outer.len() implies after.drop_last()[i] == outer[i] by {
        assert(after[i] == outer.push(inner)[i]);
    }
    assert(after.drop_last() =~= outer);
}

/// Resolving statements touches only the innermost scope.
proof fn lemma_stmts_outer(st: ResolverState, ss: Seq<SpecStmt>)
    ensures
        resolve_stmts(st, ss) matches Ok(s2) ==> same_outer(st.scopes, s2.scopes),
    decreases ss,
{
    if ss.len() > 0 {
        lemma_stmts_outer(st, ss.drop_last());
        if let Ok(s1) = resolve_stmts(st, ss.drop_last()) {
            law_declarations_mark_innermost(s1, ss.last());
            lemma_scopes_after_outer(s1.scopes, ss.last());
        }
    }
}

/// Resolving a statement changes the scopes only by declaring names in the
/// innermost one: a variable, function or class declaration adds its name
/// (defined) to the innermost scope; a block, a function body, a class
/// body and a `loop .. in` close every scope they open; expressions change
/// no scope (see `scopes_after`).
pub proof fn law_declarations_mark_innermost(st: ResolverState, s: SpecStmt)
    ensures
        resolve_stmt(st, s) matches Ok(s2) ==> s2.scopes == scopes_after(st.scopes, s),
    decreases s,
{
    match s {
        SpecStmt::Expr(e) => lemma_expr_scopes(st, e),
        SpecStmt::Return(e) => lemma_expr_scopes(st, e),
        SpecStmt::Var { name, initializer } => {
            let s1 = mark(st, name@, false);
            match initializer {
                Some(e) => {
                    lemma_expr_scopes(s1, e);
                    if let Ok(s2) = resolve_expr(s1, e) {
                        lemma_mark_twice(st, name@);
                        assert(mark(s2, name@, true).scopes == mark(s1, name@, true).scopes);
                    }
                },
                None => lemma_mark_twice(st, name@),
            }
        },
        SpecStmt::Block(stmts) => {
            let b = begin_scope(st);
            lemma_stmts_outer(b, stmts);
            if let Ok(s2) = resolve_stmts(b, stmts) {
                lemma_closed_back(st.scopes, Map::empty(), s2.scopes);
            }
        },
        SpecStmt::If { condition, if_body, else_body } => {
            lemma_expr_scopes(st, condition);
            if let Ok(s1) = resolve_expr(st, condition) {
                law_declarations_mark_innermost(s1, *if_body);
                if let Ok(s2) = resolve_stmt(s1, *if_body) {
                    if let Some(b) = else_body {
                        law_declarations_mark_innermost(s2, *b);
                    }
                }
            }
        },
        SpecStmt::Loop { count, body } => {
            lemma_expr_scopes(st, count);
            if let Ok(s1) = resolve_expr(st, count) {
                law_declarations_mark_innermost(s1, *body);
            }
        },
        SpecStmt::LoopIf { condition, body } => {
            lemma_expr_scopes(st, condition);
            if let Ok(s1) = resolve_expr(st, condition) {
                law_declarations_mark_innermost(s1, *body);
            }
        },
        SpecStmt::LoopIn { name, object, body } => {
            lemma_expr_scopes(st, object);
            if let Ok(s1) = resolve_expr(st, object) {
                let b = mark(begin_scope(s1), name@, true);
                law_declarations_mark_innermost(b, *body);
                lemma_scopes_after_outer(b.scopes, *body);
                if let Ok(s2) = resolve_stmt(b, *body) {
                    lemma_closed_back(st.scopes, Map::<Seq<char>, bool>::empty().insert(name@, true), s2.scopes);
                }
            }
        },
        SpecStmt::Func { name, parameters, body } => {
            let s1 = mark(mark(st, name@, false), name@, true);
            lemma_mark_twice(st, name@);
            let s2 = define_params(begin_scope(s1), parameters);
            lemma_define_params_outer(begin_scope(s1), parameters);
            law_declarations_mark_innermost(s2, *body);
            lemma_scopes_after_outer(s2.scopes, *body);
            if let Ok(s3) = resolve_stmt(s2, *body) {
                let inner = s2.scopes.last();
                assert(same_outer(s1.scopes.push(inner), s3.scopes)) by {
                    assert forall|i: int| 0 <= i < s1.scopes.len() implies #[trigger] s3.scopes[i] == s1.scopes.push(inner)[i] by {
                        assert(s2.scopes[i] == begin_scope(s1).scopes[i]);
                    }
                }
                lemma_closed_back(s1.scopes, inner, s3.scopes);
            }
        },
        SpecStmt::Class { name, methods, superclass } => {
            let s1 = mark(mark(st, name@, false), name@, true);
            lemma_mark_twice(st, name@);
            if superclass is Some {
                let s0 = mark(begin_scope(s1), "super"@, true);
                let s2 = mark(begin_scope(s0), "this"@, true);
                lemma_stmts_outer(s2, methods);
                if let Ok(s3) = resolve_stmts(s2, methods) {
                    lemma_closed_back(s0.scopes, s2.scopes.last(), s3.scopes);
                    let r1 = end_scope(s3);
                    assert(r1.scopes == s0.scopes);
                    assert(s0.scopes == s1.scopes.push(s0.scopes.last()));
                    assert(s1.scopes == r1.scopes.drop_last());
                }
            } else {
                let s2 = mark(begin_scope(s1), "this"@, true);
                lemma_stmts_outer(s2, methods);
                if let Ok(s3) = resolve_stmts(s2, methods) {
                    lemma_closed_back(s1.scopes, s2.scopes.last(), s3.scopes);
                }
            }
        },
        _ => {},
    }
}

/// Resolving a call resolves its arguments: a variable read as the argument
/// of a call, whose name is declared in some scope, gets the depth of the
/// innermost such scope recorded under its id, as the same read outside a
/// call would, whatever the callee.
pub proof fn law_call_resolves_arguments(st: ResolverState, callee: SpecExpr, tok: Token, id: usize, x: String, line: usize, col: usize)
    requires
        tok.kind == TokenKind::IDENT(x),
        !in_own_initializer(st, x@),
        find_depth(st.scopes, x@) is Some,
        resolve_expr(st, callee) matches Ok(s1) && !s1.locals.contains_key(id),
    ensures
        resolve_expr(st, SpecExpr::Call {
            callee: Box::new(callee),
            arguments: seq![SpecExpr::Var { name: tok, id }],
            line,
            col,
        }) matches Ok(s2) && s2.locals.contains_key(id) && s2.locals[id] == find_depth(st.scopes, x@)->0 as usize,
{
    lemma_expr_scopes(st, callee);
    let s1 = resolve_expr(st, callee)->Ok_0;
    let args = seq![SpecExpr::Var { name: tok, id }];
    assert(args.drop_last() =~= Seq::<SpecExpr>::empty());
    assert(resolve_exprs(s1, args.drop_last()) == Ok::<ResolverState, Seq<char>>(s1));
    assert(s1.scopes == st.scopes);
    assert(!in_own_initializer(s1, x@));
    let v = SpecExpr::Var { name: tok, id };
    assert(resolve_expr(s1, v) == Ok::<ResolverState, Seq<char>>(resolve_local(s1, id, x@)));
    assert(args.last() == v);
    assert(resolve_exprs(s1, args) == resolve_expr(s1, v));
    let c = SpecExpr::Call { callee: Box::new(callee), arguments: args, line, col };
    assert(resolve_expr(st, c) == resolve_exprs(s1, args));
}

/// The name a statement declares, for a variable, function or class
/// declaration.
pub open spec fn declared_name(s: SpecStmt) -> Option<Seq<char>> {
    match s {
        SpecStmt::Var { name, .. } => Some(name@),
        SpecStmt::Func { name, .. } => Some(name@),
        SpecStmt::Class { name, .. } => Some(name@),
        _ => None,
    }
}

/// Whether the statement opens and closes its own scopes or declares
/// nothing: a block, a `loop .. in`, an expression, `return`, `break`,
/// `continue`, or an `if` or loop whose bodies are blocks (as the parser
/// always makes them).
pub open spec fn scope_neutral(s: SpecStmt) -> bool {
    match s {
        SpecStmt::If { if_body, else_body, .. } => *if_body is Block && match else_body {
            Some(b) => *b is Block,
            None => true,
        },
        SpecStmt::Loop { body, .. } => *body is Block,
        SpecStmt::LoopIf { body, .. } => *body is Block,
        SpecStmt::Var { .. } => false,
        SpecStmt::Func { .. } => false,
        SpecStmt::Class { .. } => false,
        _ => true,
    }
}

/// Resolving one statement keeps the depth of the scope stack and changes
/// only the innermost scope: a variable, function or class declaration
/// adds its name, defined, to it (inside a scope; nothing changes at the
/// global level), and a statement that declares nothing at this level
/// leaves every scope as it was.
pub proof fn law_resolve_changes_only_innermost(st: ResolverState, s: SpecStmt)
    ensures
        resolve_stmt(st, s) matches Ok(s2) ==> {
            &&& s2.scopes.len() == st.scopes.len()
            &&& forall|i: int| 0 <= i < st.scopes.len() - 1 ==> #[trigger] s2.scopes[i] == st.scopes[i]
            &&& (declared_name(s) is Some && st.scopes.len() > 0
                ==> s2.scopes.last() == st.scopes.last().insert(declared_name(s)->0, true))
            &&& (declared_name(s) is Some && st.scopes.len() == 0 ==> s2.scopes == st.scopes)
            &&& (scope_neutral(s) ==> s2.scopes == st.scopes)
        },
{
    law_declarations_mark_innermost(st, s);
    lemma_scopes_after_outer(st.scopes, s);
    match s {
        SpecStmt::If { if_body, else_body, .. } => {
            if scope_neutral(s) {
                assert(scopes_after(st.scopes, *if_body) == st.scopes);
                if let Some(b) = else_body {
                    assert(scopes_after(st.scopes, *b) == st.scopes);
                }
            }
        },
        SpecStmt::Loop { body, .. } => {
            if scope_neutral(s) {
                assert(scopes_after(st.scopes, *body) == st.scopes);
            }
        },
        SpecStmt::LoopIf { body, .. } => {
            if scope_neutral(s) {
                assert(scopes_after(st.scopes, *body) == st.scopes);
            }
        },
        _ => {
            if st.scopes.len() > 0 && declared_name(s) is Some {
                assert(declare_in_innermost(st.scopes, declared_name(s)->0).last()
                    == st.scopes.last().insert(declared_name(s)->0, true));
            }
        },
    }
}

/// Resolving a statement leaves as many scopes open as before (every scope
/// it opens, it closes), and forgets no depth recorded before.
pub proof fn law_resolve_keeps_scopes(st: ResolverState, s: SpecStmt)
    ensures
        resolve_stmt(st, s) matches Ok(s2) ==> s2.scopes.len() == st.scopes.len()
            && st.locals.dom().subset_of(s2.locals.dom()),
{
    lemma_stmt_keeps(st, s);
}

/// A variable read finds the innermost scope that declares its name: the
/// depth recorded for it is that of the innermost such scope, and a name
/// declared in no scope is left to the globals.
pub proof fn law_read_finds_innermost(st: ResolverState, tok: Token, id: usize, name: String)
    requires
        tok.kind == TokenKind::IDENT(name),
        !in_own_initializer(st, name@),
    ensures
        resolve_expr(st, SpecExpr::Var { name: tok, id }) == Ok::<ResolverState, Seq<char>>(match find_depth(st.scopes, name@) {
            Some(d) => ResolverState { locals: st.locals.insert(id, d as usize), ..st },
            None => st,
        }),
        find_depth(st.scopes, name@) matches Some(d) ==> d < st.scopes.len()
            && st.scopes[st.scopes.len() - 1 - d].contains_key(name@)
            && forall|k: int| 0 <= k < d ==> !(#[trigger] st.scopes[st.scopes.len() - 1 - k]).contains_key(name@),
{
    lemma_find_depth(st.scopes, name@);
}

proof fn lemma_find_depth(scopes: Seq<Map<Seq<char>, bool>>, name: Seq<char>)
    ensures
        find_depth(scopes, name) matches Some(d) ==> d < scopes.len()
            && scopes[scopes.len() - 1 - d].contains_key(name)
            && forall|k: int| 0 <= k < d ==> !(#[trigger] scopes[scopes.len() - 1 - k]).contains_key(name),
        find_depth(scopes, name) is None ==> forall|k: int| 0 <= k < scopes.len() ==> !(#[trigger] scopes[k]).contains_key(name),
    decreases scopes.len(),
{
    if scopes.len() > 0 {
        let t = scopes.drop_last();
        lemma_find_depth(t, name);
        if !scopes.last().contains_key(name) {
            assert forall|k: int| 0 <= k < t.len() implies t[k] == scopes[k] by {}
            if let Some(e) = find_depth(t, name) {
                let d = e + 1;
                assert(scopes[scopes.len() - 1 - d] == t[t.len() - 1 - e]);
                assert forall|k: int| 0 <= k < d implies !(#[trigger] scopes[scopes.len() - 1 - k]).contains_key(name) by {
                    if k > 0 {
                        assert(scopes[scopes.len() - 1 - k] == t[t.len() - 1 - (k - 1)]);
                    }
                }
            }
        }
    }
}

/// `d` plus `k`, if there is a `d`.
pub open spec fn shifted(d: Option<nat>, k: nat) -> Option<nat> {
    match d {
        Some(x) => Some(x + k),
        None => None,
    }
}

/// The view of a list at an index is the view of its element.
pub proof fn lemma_exprs_view_index(s: Seq<Box<Expr>>, i: int)
    requires
        0 <= i < s.len(),
    ensures
        exprs_view(s).len() == s.len(),
        exprs_view(s)[i] == crate::parser::expression::expr_view(*s[i]),
    decreases s.len(),
{
    if i < s.len() - 1 {
        lemma_exprs_view_index(s.drop_last(), i);
    } else {
        lemma_exprs_view_len(s.drop_last());
    }
}

/// A list and its view have the same length.
pub proof fn lemma_exprs_view_len(s: Seq<Box<Expr>>)
    ensures
        exprs_view(s).len() == s.len(),
    decreases s.len(),
{
    if s.len() > 0 {
        lemma_exprs_view_len(s.drop_last());
    }
}

/// The view of a list at an index is the view of its element.
pub proof fn lemma_boxed_stmts_view_index(s: Seq<Box<Stmt>>, i: int)
    requires
        0 <= i < s.len(),
    ensures
        boxed_stmts_view(s).len() == s.len(),
        boxed_stmts_view(s)[i] == crate::parser::statement::stmt_view(*s[i]),
    decreases s.len(),
{
    if i < s.len() - 1 {
        lemma_boxed_stmts_view_index(s.drop_last(), i);
    } else {
        lemma_boxed_stmts_view_len(s.drop_last());
    }
}

/// A list and its view have the same length.
pub proof fn lemma_boxed_stmts_view_len(s: Seq<Box<Stmt>>)
    ensures
        boxed_stmts_view(s).len() == s.len(),
    decreases s.len(),
{
    if s.len() > 0 {
        lemma_boxed_stmts_view_len(s.drop_last());
    }
}

/// The view of a list at an index is the view of its element.
pub proof fn lemma_stmts_view_index(s: Seq<Stmt>, i: int)
    requires
        0 <= i < s.len(),
    ensures
        stmts_view(s).len() == s.len(),
        stmts_view(s)[i] == crate::parser::statement::stmt_view(s[i]),
    decreases s.len(),
{
    if i < s.len() - 1 {
        lemma_stmts_view_index(s.drop_last(), i);
    } else {
        lemma_stmts_view_len(s.drop_last());
    }
}

/// A list and its view have the same length.
pub proof fn lemma_stmts_view_len(s: Seq<Stmt>)
    ensures
        stmts_view(s).len() == s.len(),
    decreases s.len(),
{
    if s.len() > 0 {
        lemma_stmts_view_len(s.drop_last());
    }
}

} // verus!
