//! How running a statement can end other than normally.
use vstd::prelude::*;
use crate::errors::interpreter_error::InterpreterError;

verus! {

/// Why running a statement stopped early: a `return` with its value (of
/// type `V`), an error, a `break` or a `continue`.
#[derive(Debug)]
pub enum Signal<V> {
    Return(V),
    Error(InterpreterError),
    Break,
    Continue,
}

impl<V> From<InterpreterError> for Signal<V> {
    fn from(e: InterpreterError) -> (r: Signal<V>) {
        Signal::Error(e)
    }
}

impl<V> vstd::std_specs::convert::FromSpecImpl<InterpreterError> for Signal<V> {
    open spec fn obeys_from_spec() -> bool {
        true
    }

    open spec fn from_spec(e: InterpreterError) -> Signal<V> {
        Signal::Error(e)
    }
}

/// What running a top-level statement gives: its value, or the value a
/// `return` carried out of it; an error is passed on; a `break` or a
/// `continue` that escaped gives `null`.
pub fn statement_outcome<V>(r: Result<V, Signal<V>>, null: V) -> (out: Result<V, InterpreterError>)
    ensures
        match r {
            Ok(v) => out == Ok::<V, InterpreterError>(v),
            Err(Signal::Return(v)) => out == Ok::<V, InterpreterError>(v),
            Err(Signal::Error(e)) => out == Err::<V, InterpreterError>(e),
            Err(_) => out == Ok::<V, InterpreterError>(null),
        },
{
    match r {
        Ok(v) => Ok(v),
        Err(Signal::Return(v)) => Ok(v),
        Err(Signal::Error(e)) => Err(e),
        Err(_) => Ok(null),
    }
}

/// What a call gives once its body has run: the value a `return` carried
/// (but `null` from an initializer, whatever it returned), `null` when the
/// body ended without one, and the error that stopped it.
pub fn call_outcome<V>(r: Result<V, Signal<V>>, is_init: bool, null: V) -> (out: Result<V, InterpreterError>)
    ensures
        match r {
            Err(Signal::Return(v)) => out == Ok::<V, InterpreterError>(if is_init { null } else { v }),
            Err(Signal::Error(e)) => out == Err::<V, InterpreterError>(e),
            _ => out == Ok::<V, InterpreterError>(null),
        },
{
    match r {
        Err(Signal::Return(v)) => if is_init {
            Ok(null)
        } else {
            Ok(v)
        },
        Err(Signal::Error(e)) => Err(e),
        _ => Ok(null),
    }
}

} // verus!
