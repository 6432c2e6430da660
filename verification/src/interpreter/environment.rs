//! The environments of a running program.
//!
//! An environment holds variables, functions and classes by name, and may
//! be enclosed by another. All environments of a program live in one store
//! and are named by their index in it (an `EnvId`); an environment is only
//! ever enclosed by one created before it, so every chain of enclosing
//! environments ends. Environments are never removed: a function value
//! keeps the id of the environment it was defined in.
use vstd::prelude::*;
use crate::errors::interpreter_error::InterpreterError;
use crate::lexer::token::{Token, TokenKind};
use crate::text::owned;

verus! {

/// Names an environment of a store.
pub type EnvId = usize;

// ---------------------------------------------------------------------------
// Specification
// ---------------------------------------------------------------------------

/// One environment as a mathematical value.
pub struct Frame<V, F, C> {
    pub variables: Map<Seq<char>, V>,
    pub functions: Map<Seq<char>, F>,
    pub classes: Map<Seq<char>, C>,
    pub enclosing: Option<usize>,
}

/// Each environment is enclosed, if at all, by an earlier one.
pub open spec fn frames_wf<V, F, C>(frames: Seq<Frame<V, F, C>>) -> bool {
    forall|i: int| 0 <= i < frames.len() ==> match #[trigger] frames[i].enclosing {
        Some(e) => e < i,
        None => true,
    }
}

/// The environment `depth` steps out from `env` along the enclosing chain.
pub open spec fn ancestor<V, F, C>(frames: Seq<Frame<V, F, C>>, env: int, depth: nat) -> Option<int>
    decreases depth,
{
    if !(0 <= env < frames.len()) {
        None
    } else if depth == 0 {
        Some(env)
    } else {
        match frames[env].enclosing {
            Some(e) => ancestor(frames, e as int, (depth - 1) as nat),
            None => None,
        }
    }
}

/// Which of an environment's three tables a search reads.
pub enum Table {
    Variables,
    Functions,
    Classes,
}

/// Whether the frame's table `t` holds `name`.
pub open spec fn holds<V, F, C>(f: Frame<V, F, C>, t: Table, name: Seq<char>) -> bool {
    match t {
        Table::Variables => f.variables.contains_key(name),
        Table::Functions => f.functions.contains_key(name),
        Table::Classes => f.classes.contains_key(name),
    }
}

/// The nearest environment, from `env` out along the enclosing chain, whose
/// table `t` holds `name`.
pub open spec fn owner<V, F, C>(frames: Seq<Frame<V, F, C>>, env: int, t: Table, name: Seq<char>) -> Option<int>
    decreases env,
{
    if !(0 <= env < frames.len()) {
        None
    } else if holds(frames[env], t, name) {
        Some(env)
    } else {
        match frames[env].enclosing {
            Some(e) => if e < env { owner(frames, e as int, t, name) } else { None },
            None => None,
        }
    }
}

/// The value of the variable `name` seen from `env`: that of the nearest
/// environment that holds it.
pub open spec fn lookup_var<V, F, C>(frames: Seq<Frame<V, F, C>>, env: int, name: Seq<char>) -> Option<V> {
    match owner(frames, env, Table::Variables, name) {
        Some(i) => Some(frames[i].variables[name]),
        None => None,
    }
}

/// The function `name` seen from `env`.
pub open spec fn lookup_func<V, F, C>(frames: Seq<Frame<V, F, C>>, env: int, name: Seq<char>) -> Option<F> {
    match owner(frames, env, Table::Functions, name) {
        Some(i) => Some(frames[i].functions[name]),
        None => None,
    }
}

/// The class `name` seen from `env`.
pub open spec fn lookup_class<V, F, C>(frames: Seq<Frame<V, F, C>>, env: int, name: Seq<char>) -> Option<C> {
    match owner(frames, env, Table::Classes, name) {
        Some(i) => Some(frames[i].classes[name]),
        None => None,
    }
}

/// The environment `owner` finds holds the name.
pub proof fn lemma_owner_holds<V, F, C>(frames: Seq<Frame<V, F, C>>, env: int, t: Table, name: Seq<char>)
    ensures
        owner(frames, env, t, name) matches Some(i) ==> 0 <= i <= env && i < frames.len() && holds(frames[i], t, name),
    decreases env,
{
    if 0 <= env < frames.len() && !holds(frames[env], t, name) {
        match frames[env].enclosing {
            Some(e) => if e < env { lemma_owner_holds(frames, e as int, t, name); },
            None => {},
        }
    }
}

/// The frames with variable `name` of environment `i` set to `value`.
pub open spec fn with_var<V, F, C>(frames: Seq<Frame<V, F, C>>, i: int, name: Seq<char>, value: V) -> Seq<Frame<V, F, C>> {
    frames.update(i, Frame { variables: frames[i].variables.insert(name, value), ..frames[i] })
}

// ---------------------------------------------------------------------------
// Laws
// ---------------------------------------------------------------------------

/// Setting a variable in one environment leaves unchanged, from every
/// environment, where any other name is found.
pub proof fn lemma_owner_with_var_other<V, F, C>(frames: Seq<Frame<V, F, C>>, i: int, name: Seq<char>, value: V, env: int, t: Table, other: Seq<char>)
    requires
        0 <= i < frames.len(),
        t != Table::Variables || other != name,
    ensures
        owner(with_var(frames, i, name, value), env, t, other) == owner(frames, env, t, other),
    decreases env,
{
    let g = with_var(frames, i, name, value);
    if 0 <= env < frames.len() {
        assert(holds(g[env], t, other) == holds(frames[env], t, other));
        assert(g[env].enclosing == frames[env].enclosing);
        match frames[env].enclosing {
            Some(e) => if e < env { lemma_owner_with_var_other(frames, i, name, value, e as int, t, other); },
            None => {},
        }
    }
}

/// Setting a variable in an environment created after `env` changes
/// nothing that is seen from `env`.
pub proof fn lemma_owner_with_var_later<V, F, C>(frames: Seq<Frame<V, F, C>>, i: int, name: Seq<char>, value: V, env: int, t: Table, other: Seq<char>)
    requires
        0 <= i < frames.len(),
        env < i,
    ensures
        owner(with_var(frames, i, name, value), env, t, other) == owner(frames, env, t, other),
    decreases env,
{
    let g = with_var(frames, i, name, value);
    if 0 <= env < frames.len() {
        assert(g[env] == frames[env]);
        match frames[env].enclosing {
            Some(e) => if e < env { lemma_owner_with_var_later(frames, i, name, value, e as int, t, other); },
            None => {},
        }
    }
}

/// Adding an environment changes nothing that is seen from an existing one.
pub proof fn lemma_owner_push<V, F, C>(frames: Seq<Frame<V, F, C>>, f: Frame<V, F, C>, env: int, t: Table, name: Seq<char>)
    requires
        env < frames.len(),
    ensures
        owner(frames.push(f), env, t, name) == owner(frames, env, t, name),
    decreases env,
{
    if 0 <= env {
        assert(frames.push(f)[env] == frames[env]);
        match frames[env].enclosing {
            Some(e) => if e < env { lemma_owner_push(frames, f, e as int, t, name); },
            None => {},
        }
    }
}

/// Read after define: once `name` is defined in `env` (`define_var`), it
/// is read back (`get_var`) from `env` with the value defined, whatever
/// enclosing environments hold; redefining a name in the same environment
/// overwrites it.
pub proof fn law_get_after_define<V, F, C>(frames: Seq<Frame<V, F, C>>, env: int, name: Seq<char>, value: V)
    requires
        0 <= env < frames.len(),
    ensures
        lookup_var(with_var(frames, env, name, value), env, name) == Some(value),
{
}

/// Defining or assigning a variable changes the value of no other name, as
/// seen from any environment.
pub proof fn law_other_names_unchanged<V, F, C>(frames: Seq<Frame<V, F, C>>, i: int, name: Seq<char>, value: V, env: int, other: Seq<char>)
    requires
        0 <= i < frames.len(),
        other != name,
    ensures
        lookup_var(with_var(frames, i, name, value), env, other) == lookup_var(frames, env, other),
{
    lemma_owner_with_var_other(frames, i, name, value, env, Table::Variables, other);
    lemma_owner_holds(frames, env, Table::Variables, other);
}

/// Read after assign: when `assign_var` from `env` finds `name` in some
/// environment, reading `name` from `env` then gives the value assigned.
pub proof fn law_get_after_assign<V, F, C>(frames: Seq<Frame<V, F, C>>, env: int, name: Seq<char>, value: V)
    requires
        frames_wf(frames),
        owner(frames, env, Table::Variables, name) is Some,
    ensures
        lookup_var(with_var(frames, owner(frames, env, Table::Variables, name)->0, name, value), env, name) == Some(value),
    decreases env,
{
    let i = owner(frames, env, Table::Variables, name)->0;
    lemma_owner_holds(frames, env, Table::Variables, name);
    lemma_owner_assign_same(frames, env, name, value);
}

/// A function defined in an environment is visible from it: when no
/// variable of its name is seen (no local found through a resolved depth,
/// no global), reading the name from that environment finds the function
/// defined there, whatever the globals hold.
pub proof fn law_function_visible_where_defined<V, F, C>(frames: Seq<Frame<V, F, C>>, env: int, globals: int, depth: Option<usize>, name: Seq<char>)
    requires
        0 <= env < frames.len(),
        frames[env].functions.contains_key(name),
        lookup_var(frames, globals, name) is None,
        depth is Some ==> resolved_var(frames, env, depth, name) is None,
    ensures
        resolve_name(frames, env, globals, depth, name) == Some(SpecBinding::<V, F, C>::Func(frames[env].functions[name])),
{
    assert(holds(frames[env], Table::Functions, name));
    assert(owner(frames, env, Table::Functions, name) == Some(env));
}

/// Assignment never defines a variable: `assign_var` from `env` writes to
/// the nearest environment from `env` out that already holds `name` (see
/// `owner`), changes only that variable there, and leaves every other
/// environment as it was; when no environment holds `name`, it changes
/// nothing (its contract then gives the undefined-variable error).
pub proof fn law_assign_writes_only_owner<V, F, C>(frames: Seq<Frame<V, F, C>>, env: int, name: Seq<char>, value: V)
    ensures
        owner(frames, env, Table::Variables, name) matches Some(i) ==> {
            let g = with_var(frames, i, name, value);
            &&& 0 <= i < frames.len()
            &&& frames[i].variables.contains_key(name)
            &&& g.len() == frames.len()
            &&& g[i].variables == frames[i].variables.insert(name, value)
            &&& g[i].functions == frames[i].functions
            &&& g[i].classes == frames[i].classes
            &&& g[i].enclosing == frames[i].enclosing
            &&& forall|j: int| 0 <= j < frames.len() && j != i ==> #[trigger] g[j] == frames[j]
        },
{
    lemma_owner_holds(frames, env, Table::Variables, name);
}

/// Assigning where `owner` points keeps `owner` pointing there.
proof fn lemma_owner_assign_same<V, F, C>(frames: Seq<Frame<V, F, C>>, env: int, name: Seq<char>, value: V)
    requires
        owner(frames, env, Table::Variables, name) is Some,
    ensures
        owner(frames, env, Table::Variables, name) matches Some(i) && 0 <= i < frames.len()
            && owner(with_var(frames, i, name, value), env, Table::Variables, name) == Some(i),
    decreases env,
{
    lemma_owner_holds(frames, env, Table::Variables, name);
    let i = owner(frames, env, Table::Variables, name)->0;
    let g = with_var(frames, i, name, value);
    if env != i {
        assert(!holds(frames[env], Table::Variables, name));
        assert(g[env] == frames[env]);
        match frames[env].enclosing {
            Some(e) => {
                lemma_owner_assign_same(frames, e as int, name, value);
            },
            None => {},
        }
    }
}

/// An environment created by `new_enclosed(e)` sees exactly what `e` sees,
/// until something is defined in it.
pub proof fn law_enclosed_sees_enclosing<V, F, C>(frames: Seq<Frame<V, F, C>>, e: usize, t: Table, name: Seq<char>)
    requires
        e < frames.len(),
    ensures
        owner(
            frames.push(Frame { variables: Map::empty(), functions: Map::empty(), classes: Map::empty(), enclosing: Some(e) }),
            frames.len() as int, t, name,
        ) == owner(frames, e as int, t, name),
{
    let f = Frame::<V, F, C> { variables: Map::empty(), functions: Map::empty(), classes: Map::empty(), enclosing: Some(e) };
    let g = frames.push(f);
    assert(g[frames.len() as int] == f);
    assert(!holds(f, t, name));
    lemma_owner_push(frames, f, e as int, t, name);
}

/// Defining a variable in an inner environment (one created later) hides
/// nothing from outer ones: every name is seen from an earlier environment
/// as before.
pub proof fn law_inner_define_invisible_outside<V, F, C>(frames: Seq<Frame<V, F, C>>, inner: int, name: Seq<char>, value: V, outer: int, other: Seq<char>)
    requires
        0 <= inner < frames.len(),
        outer < inner,
    ensures
        lookup_var(with_var(frames, inner, name, value), outer, other) == lookup_var(frames, outer, other),
{
    lemma_owner_with_var_later(frames, inner, name, value, outer, Table::Variables, other);
    lemma_owner_holds(frames, outer, Table::Variables, other);
}


// ---------------------------------------------------------------------------
// Names read and written through the depths found by the resolver
// ---------------------------------------------------------------------------

/// The variable read through a resolved depth: the one held `depth` steps
/// out from `env`, or else the one seen from `env`. Without a depth, the
/// one seen from `env`.
pub open spec fn resolved_var<V, F, C>(frames: Seq<Frame<V, F, C>>, env: int, depth: Option<usize>, name: Seq<char>) -> Option<V> {
    match depth {
        Some(d) => match ancestor(frames, env, d as nat) {
            Some(a) => if frames[a].variables.contains_key(name) {
                Some(frames[a].variables[name])
            } else {
                lookup_var(frames, env, name)
            },
            None => lookup_var(frames, env, name),
        },
        None => lookup_var(frames, env, name),
    }
}

/// What a name stands for, as a mathematical value.
pub enum SpecBinding<V, F, C> {
    Var(V),
    Func(F),
    Class(C),
}

/// What a name read as an expression stands for: a local variable (when the
/// resolver found a depth for it), else a global variable, else a function
/// or a class seen from `env`.
pub open spec fn resolve_name<V, F, C>(frames: Seq<Frame<V, F, C>>, env: int, globals: int, depth: Option<usize>, name: Seq<char>) -> Option<SpecBinding<V, F, C>> {
    let local = match depth {
        Some(_) => resolved_var(frames, env, depth, name),
        None => None,
    };
    match local {
        Some(v) => Some(SpecBinding::Var(v)),
        None => match lookup_var(frames, globals, name) {
            Some(v) => Some(SpecBinding::Var(v)),
            None => match lookup_func(frames, env, name) {
                Some(f) => Some(SpecBinding::Func(f)),
                None => match lookup_class(frames, env, name) {
                    Some(c) => Some(SpecBinding::Class(c)),
                    None => None,
                },
            },
        },
    }
}

/// The environment an assignment through a resolved depth writes to: the
/// one `depth` steps out from `env` when it exists, else the nearest one
/// from `env` out that holds the name.
pub open spec fn assign_target<V, F, C>(frames: Seq<Frame<V, F, C>>, env: int, depth: Option<usize>, name: Seq<char>) -> Option<int> {
    match depth {
        Some(d) => match ancestor(frames, env, d as nat) {
            Some(a) => Some(a),
            None => owner(frames, env, Table::Variables, name),
        },
        None => owner(frames, env, Table::Variables, name),
    }
}

/// An empty environment enclosed by `e`, holding only the variable `name`.
pub open spec fn frame_with<V, F, C>(e: usize, name: Seq<char>, value: V) -> Frame<V, F, C> {
    Frame { variables: Map::empty().insert(name, value), functions: Map::empty(), classes: Map::empty(), enclosing: Some(e) }
}

/// The name a parameter token declares (its identifier).
pub open spec fn param_name(t: Token) -> Seq<char> {
    match t.kind {
        TokenKind::IDENT(s) => s@,
        _ => Seq::empty(),
    }
}

/// The variables bound by the first `k` parameters to the first `k`
/// arguments, in order (a later parameter of the same name wins).
pub open spec fn bound_params<V>(params: Seq<Token>, args: Seq<V>, k: nat) -> Map<Seq<char>, V>
    decreases k,
{
    if k == 0 {
        Map::empty()
    } else {
        bound_params(params, args, (k - 1) as nat).insert(param_name(params[k - 1]), args[k - 1])
    }
}

/// The environment of a call whose first `k` parameters are bound.
pub open spec fn call_frame<V, F, C>(closure: usize, params: Seq<Token>, args: Seq<V>, k: nat) -> Frame<V, F, C> {
    Frame { variables: bound_params(params, args, k), functions: Map::empty(), classes: Map::empty(), enclosing: Some(closure) }
}

// ---------------------------------------------------------------------------
// Entries: a table as a list of names and values
// ---------------------------------------------------------------------------

/// The table of a list of entries; a later entry for a name overrides an
/// earlier one.
pub open spec fn entries_map<T>(s: Seq<(String, T)>) -> Map<Seq<char>, T>
    decreases s.len(),
{
    if s.len() == 0 {
        Map::empty()
    } else {
        entries_map(s.drop_last()).insert(s.last().0@, s.last().1)
    }
}

/// `i` is the last entry for `name`.
pub open spec fn last_entry<T>(s: Seq<(String, T)>, i: int, name: Seq<char>) -> bool {
    &&& 0 <= i < s.len()
    &&& s[i].0@ == name
    &&& forall|j: int| i < j < s.len() ==> (#[trigger] s[j]).0@ != name
}

/// The table holds a name exactly when some entry has it, and then holds
/// the value of the last such entry.
pub proof fn lemma_entries_last<T>(s: Seq<(String, T)>, i: int, name: Seq<char>)
    requires
        last_entry(s, i, name),
    ensures
        entries_map(s).contains_key(name),
        entries_map(s)[name] == s[i].1,
    decreases s.len(),
{
    if i < s.len() - 1 {
        lemma_entries_last(s.drop_last(), i, name);
    }
}

/// With no entry for a name, the table does not hold it.
pub proof fn lemma_entries_none<T>(s: Seq<(String, T)>, name: Seq<char>)
    requires
        forall|j: int| 0 <= j < s.len() ==> (#[trigger] s[j]).0@ != name,
    ensures
        !entries_map(s).contains_key(name),
    decreases s.len(),
{
    if s.len() > 0 {
        lemma_entries_none(s.drop_last(), name);
    }
}

/// Changing the value of the last entry for a name changes it in the table.
pub proof fn lemma_entries_update<T>(s: Seq<(String, T)>, i: int, name: Seq<char>, v: T)
    requires
        last_entry(s, i, name),
    ensures
        entries_map(s.update(i, (s[i].0, v))) == entries_map(s).insert(name, v),
    decreases s.len(),
{
    let t = s.update(i, (s[i].0, v));
    if i == s.len() - 1 {
        assert(t.drop_last() =~= s.drop_last());
        assert(entries_map(t) =~= entries_map(s).insert(name, v));
    } else {
        assert(t.drop_last() =~= s.drop_last().update(i, (s[i].0, v)));
        lemma_entries_update(s.drop_last(), i, name, v);
        assert(entries_map(t) =~= entries_map(s).insert(name, v));
    }
}

/// The index of the last entry for `name`, if there is one.
pub(crate) fn find_entry<T>(entries: &Vec<(String, T)>, name: &str) -> (r: Option<usize>)
    ensures
        match r {
            Some(i) => last_entry(entries@, i as int, name@) && entries_map(entries@).contains_key(name@)
                && entries_map(entries@)[name@] == entries@[i as int].1,
            None => !entries_map(entries@).contains_key(name@),
        },
{
    let mut i = entries.len();
    while i > 0
        invariant
            i <= entries@.len(),
            forall|j: int| i <= j < entries@.len() ==> (#[trigger] entries@[j]).0@ != name@,
        decreases i,
    {
        if str_matches(&entries[i - 1].0, name) {
            proof {
                lemma_entries_last(entries@, i - 1, name@);
            }
            return Some(i - 1);
        }
        i = i - 1;
    }
    proof {
        lemma_entries_none(entries@, name@);
    }
    None
}

/// Whether a string holds the characters of a string slice.
pub(crate) fn str_matches(s: &String, t: &str) -> (r: bool)
    ensures
        r == (s@ == t@),
{
    let u = owned(t);
    *s == u
}

/// Sets `name` to `value` in a list of entries: the last entry for it is
/// changed, or a new entry is added.
pub(crate) fn put_entry<T>(entries: &mut Vec<(String, T)>, name: String, value: T)
    ensures
        entries_map(final(entries)@) == entries_map(old(entries)@).insert(name@, value),
{
    match find_entry(entries, name.as_str()) {
        Some(i) => {
            proof {
                lemma_entries_update(entries@, i as int, name@, value);
            }
            entries[i].1 = value;
        },
        None => {
            let ghost before = entries@;
            entries.push((name, value));
            assert(entries@.drop_last() =~= before);
        },
    }
}

// ---------------------------------------------------------------------------
// Implementation
// ---------------------------------------------------------------------------

/// One environment: its tables and the environment enclosing it.
struct Scope<V, F, C> {
    variables: Vec<(String, V)>,
    functions: Vec<(String, F)>,
    classes: Vec<(String, C)>,
    enclosing: Option<EnvId>,
}

impl<V, F, C> Scope<V, F, C> {
    spec fn frame(self) -> Frame<V, F, C> {
        Frame {
            variables: entries_map(self.variables@),
            functions: entries_map(self.functions@),
            classes: entries_map(self.classes@),
            enclosing: self.enclosing,
        }
    }

    fn empty(enclosing: Option<EnvId>) -> (r: Scope<V, F, C>)
        ensures
            r.frame() == (Frame::<V, F, C> { variables: Map::empty(), functions: Map::empty(), classes: Map::empty(), enclosing }),
    {
        let r = Scope { variables: Vec::new(), functions: Vec::new(), classes: Vec::new(), enclosing };
        assert(entries_map(r.variables@) =~= Map::<Seq<char>, V>::empty());
        assert(entries_map(r.functions@) =~= Map::<Seq<char>, F>::empty());
        assert(entries_map(r.classes@) =~= Map::<Seq<char>, C>::empty());
        r
    }
}

/// The environments of a program: variables (`V`), functions (`F`) and
/// classes (`C`) by name, in environments that may be enclosed by others.
pub struct Environment<V, F, C> {
    scopes: Vec<Scope<V, F, C>>,
}

impl<V, F, C> View for Environment<V, F, C> {
    type V = Seq<Frame<V, F, C>>;

    closed spec fn view(&self) -> Seq<Frame<V, F, C>> {
        self.scopes@.map_values(|s: Scope<V, F, C>| s.frame())
    }
}

impl<V, F, C> Environment<V, F, C> {
    /// A store holding one environment, enclosed by none: the globals,
    /// with id 0.
    pub fn new() -> (r: Environment<V, F, C>)
        ensures
            r@ == seq![Frame::<V, F, C> { variables: Map::empty(), functions: Map::empty(), classes: Map::empty(), enclosing: None }],
            frames_wf(r@),
    {
        let mut scopes: Vec<Scope<V, F, C>> = Vec::new();
        scopes.push(Scope::empty(None));
        let r = Environment { scopes };
        assert(r@ =~= seq![Frame::<V, F, C> { variables: Map::empty(), functions: Map::empty(), classes: Map::empty(), enclosing: None }]);
        r
    }

    /// Adds a new, empty environment enclosed by `enclosing`, and gives its id.
    pub fn new_enclosed(&mut self, enclosing: EnvId) -> (r: EnvId)
        requires
            enclosing < old(self)@.len(),
            frames_wf(old(self)@),
        ensures
            r == old(self)@.len(),
            final(self)@ == old(self)@.push(Frame { variables: Map::empty(), functions: Map::empty(), classes: Map::empty(), enclosing: Some(enclosing) }),
            frames_wf(final(self)@),
    {
        let ghost before = self@;
        let r = self.scopes.len();
        self.scopes.push(Scope::empty(Some(enclosing)));
        assert(self@ =~= before.push(Frame { variables: Map::empty(), functions: Map::empty(), classes: Map::empty(), enclosing: Some(enclosing) }));
        r
    }

    /// The number of environments.
    pub fn len(&self) -> (r: usize)
        ensures
            r == self@.len(),
    {
        self.scopes.len()
    }

    // -----------------------------------------------------------------------

    /// The variable `name` of the environment `depth` steps out from `env`.
    pub fn get_at(&self, env: EnvId, depth: usize, name: &str) -> (r: Option<&V>)
        requires
            frames_wf(self@),
        ensures
            match ancestor(self@, env as int, depth as nat) {
                Some(a) => match r {
                    Some(v) => self@[a].variables.contains_key(name@) && *v == self@[a].variables[name@],
                    None => !self@[a].variables.contains_key(name@),
                },
                None => r is None,
            },
    {
        match self.ancestor(env, depth) {
            Some(a) => {
                match find_entry(&self.scopes[a].variables, name) {
                    Some(i) => Some(&self.scopes[a].variables[i].1),
                    None => None,
                }
            },
            None => None,
        }
    }

    /// Sets the variable `name` of the environment `depth` steps out from
    /// `env`; `None` when there is no such environment.
    pub fn assign_at(&mut self, env: EnvId, depth: usize, name: &str, value: V) -> (r: Option<()>)
        requires
            frames_wf(old(self)@),
        ensures
            frames_wf(final(self)@),
            match ancestor(old(self)@, env as int, depth as nat) {
                Some(a) => r is Some && final(self)@ == with_var(old(self)@, a, name@, value),
                None => r is None && final(self)@ == old(self)@,
            },
    {
        match self.ancestor(env, depth) {
            Some(a) => {
                self.put_var(a, name, value);
                Some(())
            },
            None => None,
        }
    }

    /// Defines (or redefines) the variable `name` in `env`.
    pub fn define_var(&mut self, env: EnvId, name: &str, value: V)
        requires
            env < old(self)@.len(),
            frames_wf(old(self)@),
        ensures
            final(self)@ == with_var(old(self)@, env as int, name@, value),
            frames_wf(final(self)@),
    {
        self.put_var(env, name, value);
    }

    /// Sets the variable `name` in the nearest environment from `env` out
    /// that holds it; an undefined variable is an error at `line`, `col`.
    pub fn assign_var(&mut self, env: EnvId, name: &str, value: V, line: usize, col: usize) -> (r: Result<(), InterpreterError>)
        requires
            frames_wf(old(self)@),
        ensures
            frames_wf(final(self)@),
            match owner(old(self)@, env as int, Table::Variables, name@) {
                Some(i) => r is Ok && final(self)@ == with_var(old(self)@, i, name@, value),
                None => final(self)@ == old(self)@ && (r matches Err(InterpreterError::UndefinedVariable { name: n, line: l, col: c })
                    && n@ == name@ && l == line && c == col),
            },
    {
        match self.owner(env, Table::Variables, name) {
            Some(i) => {
                self.put_var(i, name, value);
                Ok(())
            },
            None => {
                let n = owned(name);
                Err(InterpreterError::UndefinedVariable { name: n, line, col })
            },
        }
    }

    /// The variable `name` seen from `env` (see `lookup_var`). The position
    /// is not used.
    pub fn get_var(&self, env: EnvId, name: &str, line: usize, col: usize) -> (r: Option<&V>)
        requires
            frames_wf(self@),
        ensures
            match lookup_var(self@, env as int, name@) {
                Some(v) => r matches Some(x) && *x == v,
                None => r is None,
            },
    {
        match self.owner(env, Table::Variables, name) {
            Some(i) => {
                proof {
                    lemma_owner_holds(self@, env as int, Table::Variables, name@);
                }
                match find_entry(&self.scopes[i].variables, name) {
                    Some(k) => Some(&self.scopes[i].variables[k].1),
                    None => None,
                }
            },
            None => None,
        }
    }

    /// Defines (or redefines) the function `name` in `env`.
    pub fn define_func(&mut self, env: EnvId, name: &str, func: F)
        requires
            env < old(self)@.len(),
            frames_wf(old(self)@),
        ensures
            final(self)@ == old(self)@.update(env as int, Frame {
                functions: old(self)@[env as int].functions.insert(name@, func),
                ..old(self)@[env as int]
            }),
            frames_wf(final(self)@),
    {
        let ghost before = self@;
        let n = owned(name);
        put_entry(&mut self.scopes[env].functions, n, func);
        assert(self@ =~= before.update(env as int, Frame {
            functions: before[env as int].functions.insert(name@, func),
            ..before[env as int]
        }));
    }

    /// The function `name` seen from `env` (see `lookup_func`).
    pub fn get_func(&self, env: EnvId, name: &str) -> (r: Option<&F>)
        requires
            frames_wf(self@),
        ensures
            match lookup_func(self@, env as int, name@) {
                Some(f) => r matches Some(x) && *x == f,
                None => r is None,
            },
    {
        match self.owner(env, Table::Functions, name) {
            Some(i) => {
                proof {
                    lemma_owner_holds(self@, env as int, Table::Functions, name@);
                }
                match find_entry(&self.scopes[i].functions, name) {
                    Some(k) => Some(&self.scopes[i].functions[k].1),
                    None => None,
                }
            },
            None => None,
        }
    }

    /// Defines (or redefines) the class `name` in `env`.
    pub fn define_class(&mut self, env: EnvId, name: &str, class: C)
        requires
            env < old(self)@.len(),
            frames_wf(old(self)@),
        ensures
            final(self)@ == old(self)@.update(env as int, Frame {
                classes: old(self)@[env as int].classes.insert(name@, class),
                ..old(self)@[env as int]
            }),
            frames_wf(final(self)@),
    {
        let ghost before = self@;
        let n = owned(name);
        put_entry(&mut self.scopes[env].classes, n, class);
        assert(self@ =~= before.update(env as int, Frame {
            classes: before[env as int].classes.insert(name@, class),
            ..before[env as int]
        }));
    }

    /// The class `name` seen from `env` (see `lookup_class`).
    pub fn get_class(&self, env: EnvId, name: &str) -> (r: Option<&C>)
        requires
            frames_wf(self@),
        ensures
            match lookup_class(self@, env as int, name@) {
                Some(c) => r matches Some(x) && *x == c,
                None => r is None,
            },
    {
        match self.owner(env, Table::Classes, name) {
            Some(i) => {
                proof {
                    lemma_owner_holds(self@, env as int, Table::Classes, name@);
                }
                match find_entry(&self.scopes[i].classes, name) {
                    Some(k) => Some(&self.scopes[i].classes[k].1),
                    None => None,
                }
            },
            None => None,
        }
    }

    // -----------------------------------------------------------------------

    /// Sets variable `name` in environment `i`.
    fn put_var(&mut self, i: EnvId, name: &str, value: V)
        requires
            i < old(self)@.len(),
            frames_wf(old(self)@),
        ensures
            final(self)@ == with_var(old(self)@, i as int, name@, value),
            frames_wf(final(self)@),
    {
        let ghost before = self@;
        let n = owned(name);
        put_entry(&mut self.scopes[i].variables, n, value);
        assert(self@ =~= with_var(before, i as int, name@, value));
    }

    /// See `ancestor`.
    fn ancestor(&self, env: EnvId, depth: usize) -> (r: Option<EnvId>)
        requires
            frames_wf(self@),
        ensures
            match r {
                Some(a) => ancestor(self@, env as int, depth as nat) == Some(a as int) && a < self@.len(),
                None => ancestor(self@, env as int, depth as nat) is None,
            },
    {
        let mut cur = env;
        let mut d = depth;
        while d > 0
            invariant
                frames_wf(self@),
                ancestor(self@, env as int, depth as nat) == ancestor(self@, cur as int, d as nat),
            decreases d,
        {
            if cur >= self.scopes.len() {
                return None;
            }
            match self.scopes[cur].enclosing {
                Some(e) => {
                    cur = e;
                },
                None => {
                    return None;
                },
            }
            d = d - 1;
        }
        if cur < self.scopes.len() {
            Some(cur)
        } else {
            None
        }
    }

    /// Whether environment `i`'s table `t` holds `name`.
    fn holds(&self, i: EnvId, t: &Table, name: &str) -> (r: bool)
        requires
            i < self@.len(),
        ensures
            r == holds(self@[i as int], *t, name@),
    {
        match t {
            Table::Variables => find_entry(&self.scopes[i].variables, name).is_some(),
            Table::Functions => find_entry(&self.scopes[i].functions, name).is_some(),
            Table::Classes => find_entry(&self.scopes[i].classes, name).is_some(),
        }
    }

    /// See `owner`.
    fn owner(&self, env: EnvId, t: Table, name: &str) -> (r: Option<EnvId>)
        requires
            frames_wf(self@),
        ensures
            match r {
                Some(i) => owner(self@, env as int, t, name@) == Some(i as int) && i < self@.len(),
                None => owner(self@, env as int, t, name@) is None,
            },
    {
        if env >= self.scopes.len() {
            return None;
        }
        let mut cur = env;
        loop
            invariant
                frames_wf(self@),
                cur < self@.len(),
                owner(self@, env as int, t, name@) == owner(self@, cur as int, t, name@),
            decreases cur,
        {
            if self.holds(cur, &t, name) {
                return Some(cur);
            }
            match self.scopes[cur].enclosing {
                Some(e) => {
                    proof {
                        assert(self@[cur as int].enclosing == Some(e));
                    }
                    cur = e;
                },
                None => {
                    return None;
                },
            }
        }
    }
}




/// Setting a variable changes no enclosing chain.
proof fn lemma_ancestor_with_var<V, F, C>(frames: Seq<Frame<V, F, C>>, i: int, name: Seq<char>, value: V, env: int, depth: nat)
    requires
        0 <= i < frames.len(),
    ensures
        ancestor(with_var(frames, i, name, value), env, depth) == ancestor(frames, env, depth),
    decreases depth,
{
    let g = with_var(frames, i, name, value);
    if 0 <= env < frames.len() && depth > 0 {
        assert(g[env].enclosing == frames[env].enclosing);
        match frames[env].enclosing {
            Some(e) => lemma_ancestor_with_var(frames, i, name, value, e as int, (depth - 1) as nat),
            None => {},
        }
    }
}

/// An environment found along the enclosing chain is in the store.
proof fn lemma_ancestor_in_store<V, F, C>(frames: Seq<Frame<V, F, C>>, env: int, depth: nat)
    ensures
        ancestor(frames, env, depth) matches Some(a) ==> 0 <= a < frames.len(),
    decreases depth,
{
    if 0 <= env < frames.len() && depth > 0 {
        match frames[env].enclosing {
            Some(e) => lemma_ancestor_in_store(frames, e as int, (depth - 1) as nat),
            None => {},
        }
    }
}

/// Read after write through the depths the resolver found: once
/// `assign_resolved` has set a name from an environment with a depth,
/// `read_resolved` from the same environment with the same depth reads the
/// value written.
pub proof fn law_read_after_assign_resolved<V, F, C>(frames: Seq<Frame<V, F, C>>, env: int, depth: Option<usize>, name: Seq<char>, value: V)
    requires
        frames_wf(frames),
        assign_target(frames, env, depth, name) is Some,
    ensures
        resolved_var(with_var(frames, assign_target(frames, env, depth, name)->0, name, value), env, depth, name) == Some(value),
{
    let i = assign_target(frames, env, depth, name)->0;
    let g = with_var(frames, i, name, value);
    let via_owner = match depth {
        Some(d) => ancestor(frames, env, d as nat) is None,
        None => true,
    };
    if via_owner {
        lemma_owner_holds(frames, env, Table::Variables, name);
        lemma_owner_assign_same(frames, env, name, value);
        if let Some(d) = depth {
            lemma_ancestor_with_var(frames, i, name, value, env, d as nat);
        }
    } else {
        let d = depth->0;
        lemma_ancestor_in_store(frames, env, d as nat);
        lemma_ancestor_with_var(frames, i, name, value, env, d as nat);
        assert(g[i].variables.contains_key(name));
    }
}

/// Binding the parameters after the `i`-th keeps its argument, when none
/// of them has its name.
proof fn lemma_bound_param_kept<V>(params: Seq<Token>, args: Seq<V>, i: int, k: nat)
    requires
        0 <= i < k <= params.len(),
        k <= args.len(),
        forall|j: int| i < j < k ==> param_name(#[trigger] params[j]) != param_name(params[i]),
    ensures
        bound_params(params, args, k).contains_key(param_name(params[i])),
        bound_params(params, args, k)[param_name(params[i])] == args[i],
    decreases k,
{
    if k > i + 1 {
        assert(param_name(params[k - 1]) != param_name(params[i]));
        lemma_bound_param_kept(params, args, i, (k - 1) as nat);
    }
}

/// Inside a call, a parameter reads the argument in its place (of several
/// parameters with one name, the last one's).
pub proof fn law_parameter_reads_argument<V, F, C>(frames: Seq<Frame<V, F, C>>, closure: usize, params: Seq<Token>, args: Seq<V>, i: int)
    requires
        0 <= i < params.len(),
        params.len() == args.len(),
        forall|j: int| i < j < params.len() ==> param_name(#[trigger] params[j]) != param_name(params[i]),
    ensures
        lookup_var(frames.push(call_frame::<V, F, C>(closure, params, args, params.len())), frames.len() as int, param_name(params[i]))
            == Some(args[i]),
{
    let g = frames.push(call_frame::<V, F, C>(closure, params, args, params.len()));
    lemma_bound_param_kept(params, args, i, params.len());
    assert(g[frames.len() as int] == call_frame::<V, F, C>(closure, params, args, params.len()));
}

/// A bound method sees `this` as its instance and, when the class has a
/// superclass, `super` as that class.
pub proof fn law_bound_method_sees_this_and_super<V, F, C>(frames: Seq<Frame<V, F, C>>, closure: usize, superclass: Option<V>, this: V)
    requires
        closure < frames.len(),
        frames.len() < usize::MAX,
    ensures
        ({
            let g = match superclass {
                Some(s) => frames.push(frame_with::<V, F, C>(closure, "super"@, s)).push(frame_with((frames.len()) as usize, "this"@, this)),
                None => frames.push(frame_with::<V, F, C>(closure, "this"@, this)),
            };
            &&& lookup_var(g, g.len() - 1, "this"@) == Some(this)
            &&& (superclass matches Some(s) ==> lookup_var(g, g.len() - 1, "super"@) == Some(s))
        }),
{
    reveal_strlit("this");
    reveal_strlit("super");
    assert("this"@[0] != "super"@[0]);
    match superclass {
        Some(s) => {
            let g1 = frames.push(frame_with::<V, F, C>(closure, "super"@, s));
            let g = g1.push(frame_with((frames.len()) as usize, "this"@, this));
            let top = g.len() - 1;
            assert(g[top] == frame_with::<V, F, C>((frames.len()) as usize, "this"@, this));
            assert(g[top].variables.contains_key("this"@));
            assert(!g[top].variables.contains_key("super"@));
            assert(g[frames.len() as int] == frame_with::<V, F, C>(closure, "super"@, s));
            assert(g[frames.len() as int].variables.contains_key("super"@));
            assert(owner(g, frames.len() as int, Table::Variables, "super"@) == Some(frames.len() as int));
            assert(g[top].enclosing == Some(frames.len() as usize));
            assert(owner(g, top, Table::Variables, "super"@) == owner(g, frames.len() as int, Table::Variables, "super"@));
        },
        None => {
            let g = frames.push(frame_with::<V, F, C>(closure, "this"@, this));
            assert(g[g.len() - 1].variables.contains_key("this"@));
        },
    }
}

/// Binding the next parameter extends the call's environment by one.
proof fn lemma_bind_step<V, F, C>(before: Seq<Frame<V, F, C>>, closure: usize, params: Seq<Token>, args: Seq<V>, i: int, n: String)
    requires
        0 <= i < params.len(),
        i < args.len(),
        params[i].kind == TokenKind::IDENT(n),
    ensures
        with_var(before.push(call_frame(closure, params, args, i as nat)), before.len() as int, n@, args[i])
            == before.push(call_frame::<V, F, C>(closure, params, args, (i + 1) as nat)),
{
    let g = with_var(before.push(call_frame(closure, params, args, i as nat)), before.len() as int, n@, args[i]);
    assert(param_name(params[i]) == n@);
    assert(bound_params(params, args, (i + 1) as nat) == bound_params(params, args, i as nat).insert(n@, args[i]));
    assert(g =~= before.push(call_frame::<V, F, C>(closure, params, args, (i + 1) as nat)));
}

/// What a name stands for where it is read: a variable, a function or a
/// class of the store.
pub enum Binding<'a, V, F, C> {
    Var(&'a V),
    Func(&'a F),
    Class(&'a C),
}

impl<V, F, C> Environment<V, F, C> {
    /// Looks up a name read as an expression from `env` (see
    /// `resolve_name`): with the depth the resolver found for it, the
    /// variable that far out (or else the one seen from `env`); then the
    /// global variable; then a function or a class. A name bound to none
    /// of these is an undefined variable at `line`, `col`.
    pub fn lookup(&self, env: EnvId, globals: EnvId, depth: Option<usize>, name: &str, line: usize, col: usize) -> (r: Result<Binding<'_, V, F, C>, InterpreterError>)
        requires
            frames_wf(self@),
        ensures
            match resolve_name(self@, env as int, globals as int, depth, name@) {
                Some(SpecBinding::Var(v)) => r matches Ok(Binding::Var(x)) && *x == v,
                Some(SpecBinding::Func(f)) => r matches Ok(Binding::Func(x)) && *x == f,
                Some(SpecBinding::Class(c)) => r matches Ok(Binding::Class(x)) && *x == c,
                None => r matches Err(InterpreterError::UndefinedVariable { name: n, line: l, col: c })
                    && n@ == name@ && l == line && c == col,
            },
    {
        if let Some(d) = depth {
            if let Some(v) = self.get_at(env, d, name) {
                return Ok(Binding::Var(v));
            }
            if let Some(v) = self.get_var(env, name, line, col) {
                return Ok(Binding::Var(v));
            }
        }
        if let Some(v) = self.get_var(globals, name, line, col) {
            return Ok(Binding::Var(v));
        }
        if let Some(f) = self.get_func(env, name) {
            return Ok(Binding::Func(f));
        }
        if let Some(c) = self.get_class(env, name) {
            return Ok(Binding::Class(c));
        }
        Err(InterpreterError::UndefinedVariable { name: owned(name), line, col })
    }

    /// Reads a variable through the depth the resolver found for it (see
    /// `resolved_var`); an undefined variable is an error at `line`, `col`.
    pub fn read_resolved(&self, env: EnvId, depth: Option<usize>, name: &str, line: usize, col: usize) -> (r: Result<&V, InterpreterError>)
        requires
            frames_wf(self@),
        ensures
            match resolved_var(self@, env as int, depth, name@) {
                Some(v) => r matches Ok(x) && *x == v,
                None => r matches Err(InterpreterError::UndefinedVariable { name: n, line: l, col: c })
                    && n@ == name@ && l == line && c == col,
            },
    {
        if let Some(d) = depth {
            if let Some(v) = self.get_at(env, d, name) {
                return Ok(v);
            }
        }
        match self.get_var(env, name, line, col) {
            Some(v) => Ok(v),
            None => Err(InterpreterError::UndefinedVariable { name: owned(name), line, col }),
        }
    }

    /// Assigns a variable through the depth the resolver found for it (see
    /// `assign_target`); an undefined variable is an error at `line`, `col`
    /// and changes nothing.
    pub fn assign_resolved(&mut self, env: EnvId, depth: Option<usize>, name: &str, value: V, line: usize, col: usize) -> (r: Result<(), InterpreterError>)
        requires
            frames_wf(old(self)@),
        ensures
            frames_wf(final(self)@),
            match assign_target(old(self)@, env as int, depth, name@) {
                Some(i) => r is Ok && final(self)@ == with_var(old(self)@, i, name@, value),
                None => final(self)@ == old(self)@ && (r matches Err(InterpreterError::UndefinedVariable { name: n, line: l, col: c })
                    && n@ == name@ && l == line && c == col),
            },
    {
        let target = match depth {
            Some(d) => match self.ancestor(env, d) {
                Some(a) => Some(a),
                None => self.owner(env, Table::Variables, name),
            },
            None => self.owner(env, Table::Variables, name),
        };
        match target {
            Some(i) => {
                self.put_var(i, name, value);
                Ok(())
            },
            None => Err(InterpreterError::UndefinedVariable { name: owned(name), line, col }),
        }
    }

    /// The environment of a method bound to an instance: enclosed by the
    /// method's `closure`, it holds `this`; when the class has a
    /// superclass, `super` is held one environment further out.
    pub fn bind_this(&mut self, closure: EnvId, superclass: Option<V>, this: V) -> (r: EnvId)
        requires
            closure < old(self)@.len(),
            frames_wf(old(self)@),
        ensures
            frames_wf(final(self)@),
            r == final(self)@.len() - 1,
            match superclass {
                Some(s) => final(self)@ == old(self)@.push(frame_with(closure, "super"@, s))
                    .push(frame_with((old(self)@.len()) as usize, "this"@, this)),
                None => final(self)@ == old(self)@.push(frame_with(closure, "this"@, this)),
            },
    {
        let ghost before = self@;
        match superclass {
            Some(s) => {
                let super_env = self.new_enclosed(closure);
                self.define_var(super_env, "super", s);
                let ghost mid = self@;
                assert(mid =~= before.push(frame_with(closure, "super"@, s)));
                let this_env = self.new_enclosed(super_env);
                self.define_var(this_env, "this", this);
                assert(self@ =~= mid.push(frame_with(super_env, "this"@, this)));
                this_env
            },
            None => {
                let env = self.new_enclosed(closure);
                self.define_var(env, "this", this);
                assert(self@ =~= before.push(frame_with(closure, "this"@, this)));
                env
            },
        }
    }

    /// The environment of a call: checks the number of arguments against
    /// the parameters, then binds each parameter, in order, in a new
    /// environment enclosed by `closure`. A parameter that is not an
    /// identifier stops the binding with an error naming its kind.
    #[verifier::loop_isolation(false)]
    pub fn bind_parameters(&mut self, closure: EnvId, params: &Vec<Token>, args: Vec<V>) -> (r: Result<EnvId, InterpreterError>)
        requires
            closure < old(self)@.len(),
            frames_wf(old(self)@),
        ensures
            frames_wf(final(self)@),
            params@.len() != args@.len() ==> (final(self)@ == old(self)@
                && (r matches Err(InterpreterError::ArityMismatch { expected, got })
                && expected == params@.len() && got == args@.len())),
            params@.len() == args@.len() ==> match r {
                Ok(e) => e == old(self)@.len()
                    && (forall|i: int| 0 <= i < params@.len() ==> (#[trigger] params@[i]).kind is IDENT)
                    && final(self)@ == old(self)@.push(call_frame(closure, params@, args@, params@.len())),
                Err(err) => exists|k: int|
                    0 <= k < params@.len()
                    && (forall|i: int| 0 <= i < k ==> (#[trigger] params@[i]).kind is IDENT)
                    && !(params@[k].kind is IDENT)
                    && (err matches InterpreterError::InvalidParameter { name } && name@ == params@[k].kind.spec_text())
                    && final(self)@ == old(self)@.push(call_frame(closure, params@, args@, k as nat)),
            },
    {
        if params.len() != args.len() {
            return Err(InterpreterError::ArityMismatch { expected: params.len(), got: args.len() });
        }
        let ghost before = self@;
        let ghost all_args = args@;
        let env = self.new_enclosed(closure);
        assert(self@ =~= before.push(call_frame(closure, params@, all_args, 0)));
        let mut rest = args;
        let mut i: usize = 0;
        while i < params.len()
            invariant
                frames_wf(self@),
                env == before.len(),
                closure < before.len(),
                i <= params@.len(),
                params@.len() == all_args.len(),
                rest@ == all_args.subrange(i as int, all_args.len() as int),
                forall|j: int| 0 <= j < i ==> (#[trigger] params@[j]).kind is IDENT,
                self@ == before.push(call_frame(closure, params@, all_args, i as nat)),
            decreases params@.len() - i,
        {
            let a = rest.remove(0);
            assert(a == all_args[i as int]);
            match &params[i].kind {
                TokenKind::IDENT(n) => {
                    proof {
                        lemma_bind_step::<V, F, C>(before, closure, params@, all_args, i as int, *n);
                    }
                    self.define_var(env, n.as_str(), a);
                    assert(rest@ =~= all_args.subrange(i + 1, all_args.len() as int));
                },
                other => {
                    let name = other.text();
                    return Err(InterpreterError::InvalidParameter { name });
                },
            }
            i = i + 1;
        }
        Ok(env)
    }
}

} // verus!
