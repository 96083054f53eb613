//! Evaluating one submitted line: what is decided before the interpreter
//! runs, and what is made of its answer.
//!
//! Running the code may suspend, so the caller awaits it. Before that, the
//! line is classified and loaded under a name; after it, the answer becomes
//! the text to show. An evaluation never fails as a whole: every path ends
//! in a text.

use vstd::prelude::*;
use crate::error::{format_lua_err, formatted, LuaError, LuaErrorView};
use crate::lua::{chunk_name, chunk_source, display_alternate, load, passable_name, set_name};

verus! {

broadcast use vstd::string::group_string_axioms;

/// What is to be done with a classified line.
pub enum Evaluation<'lua, 'a> {
    /// The chunk is to be run, and its outcome shown.
    Run(mlua::Chunk<'lua, 'a>),
    /// Nothing is to be run: this is the text to show.
    Done(String),
}

/// The name under which submitted code is run.
pub open spec fn evaluation_name() -> Seq<char> {
    seq!['r', 'e', 'p', 'l']
}

/// The outcome of running a chunk, by view: the printed value, or the error.
pub open spec fn outcome_text(outcome: Result<Seq<char>, LuaErrorView>) -> Seq<char> {
    match outcome {
        Ok(printed) => printed,
        Err(err) => formatted(err),
    }
}

/// Decides what is to be done with a line once it is classified. A line
/// that was refused is not run: its diagnostic is the text to show. Code is
/// loaded as it is under the name `repl`, which every chunk can bear, and
/// is to be run.
pub fn begin_evaluation<'lua, 'a>(
    lua: &'lua mlua::Lua,
    classified: &'a Result<String, String>,
) -> (evaluation: Evaluation<'lua, 'a>)
    ensures
        classified matches Err(diagnostic) ==> (evaluation matches Evaluation::Done(text)
            && text@ == diagnostic@),
        classified matches Ok(code) ==> (evaluation matches Evaluation::Run(chunk)
            && chunk_source(chunk) == code@ && chunk_name(chunk) == evaluation_name()),
{
    proof {
        reveal_strlit("repl");
        assert("repl"@ =~= evaluation_name());
        assert(passable_name("repl"@));
    }
    match classified {
        Err(diagnostic) => Evaluation::Done(diagnostic.clone()),
        Ok(code) => match set_name(load(lua, code.as_str()), "repl") {
            Ok(chunk) => Evaluation::Run(chunk),
            Err(err) => Evaluation::Done(display_alternate(&err)),
        },
    }
}

/// The text to show for the outcome of running a chunk: the printed value
/// as it is, an error as [`format_lua_err`] shows it.
pub fn evaluation_text(outcome: Result<String, LuaError>) -> (text: String)
    ensures
        text@ == outcome_text(
            match outcome {
                Ok(printed) => Ok(printed@),
                Err(err) => Err(err@),
            },
        ),
{
    match outcome {
        Ok(printed) => printed,
        Err(err) => format_lua_err(&err),
    }
}

} // verus!
