//! Conversions between the types of the language.
use vstd::prelude::*;
use crate::errors::interpreter_error::InterpreterError;
use crate::text::{owned, push_str};

verus! {

/// The boolean a value's text form stands for: `true` and `false` convert,
/// any other text is an error that quotes it.
pub fn bool_from_text(text: &str) -> (r: Result<bool, InterpreterError>)
    ensures
        text@ == "true"@ ==> r == Ok::<bool, InterpreterError>(true),
        text@ == "false"@ ==> r == Ok::<bool, InterpreterError>(false),
        text@ != "true"@ && text@ != "false"@ ==> (r matches Err(InterpreterError::InvalidStatement { message })
            && message@ == "Cannot convert \""@ + text@ + "\" to boolean"@),
{
    proof {
        reveal_strlit("true");
        reveal_strlit("false");
        assert("true"@[0] != "false"@[0]);
        assert("true"@ != "false"@);
    }
    let t = owned(text);
    if t == owned("true") {
        Ok(true)
    } else if t == owned("false") {
        Ok(false)
    } else {
        let mut message = owned("Cannot convert \"");
        push_str(&mut message, text);
        push_str(&mut message, "\" to boolean");
        Err(InterpreterError::InvalidStatement { message })
    }
}

} // verus!
