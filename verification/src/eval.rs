//! The script evaluator: runs an externally supplied scoring script against
//! a message and turns its result into a fixed-point score.
//!
//! The script is a Lua program defining `check_spam(message) -> number`. It
//! is executed in a fresh interpreter on every call; the message is bound to
//! the global `message`, and the textual rendering of `check_spam(message)`
//! is handed back to verified code, which parses it into milli-units. Every
//! failure — load error, runtime error, missing entry point, or a result
//! that is not a number — yields the score 0, never an error to the caller.

use vstd::prelude::*;

use crate::score::parse_score;
use crate::score::spec_parse_score;

verus! {

/// A failure inside the scoring script, with the interpreter's error
/// rendered as text.
#[derive(Debug)]
pub struct ScriptError {
    pub message: String,
}

/// Relies on rlua (the Lua interpreter): loads `script`, binds the global
/// `message`, and evaluates `tostring(check_spam(message))`. The script is
/// arbitrary code, so nothing is assumed of the returned text; any failure
/// in the interpreter becomes `Err`.
#[verifier::external_body]
pub(crate) fn lua_check_spam(script: &str, message: &str) -> (r: Result<String, ScriptError>) {
    let lua = rlua::Lua::new();
    let run = lua
        .load(script)
        .exec()
        .and_then(|_| lua.globals().set("message", message))
        .and_then(|_| lua.load("return tostring(check_spam(message))").eval::<String>());
    match run {
        Ok(text) => Ok(text),
        Err(e) => Err(ScriptError { message: format!("{}", e) }),
    }
}

/// The score a script output denotes: its decimal value in milli-units, or
/// 0 when the text is not a decimal number.
pub open spec fn spec_script_score(out: Seq<char>) -> int {
    match spec_parse_score(out) {
        Some(v) => v,
        None => 0,
    }
}

/// Turns a script run's outcome into a score: the decimal value of the
/// returned text in milli-units, and 0 on a script failure or a result that
/// is not a decimal number.
pub fn score_of_output(out: Result<String, ScriptError>) -> (score: i64)
    ensures
        match out {
            Ok(text) => score as int == spec_script_score(text@),
            Err(_) => score == 0,
        },
{
    match out {
        Ok(text) => match parse_score(text.as_str()) {
            Some(v) => v,
            None => 0,
        },
        Err(_) => 0,
    }
}

} // verus!
