//! Telling expressions from statements.
//!
//! The grammar of the language has no place for a bare expression at the
//! top of a chunk. So a line is first compiled behind `return`; where that
//! fails it is compiled as it stands; where that fails too, the line is
//! refused with the diagnostic of the second attempt, which reads better for
//! most malformed lines than that of the first.

use vstd::prelude::*;
use crate::error::{error_view, format_lua_err, formatted, kind_of, LuaError, LuaErrorView};
use crate::lua::{compile_report, into_function, load, passable_name, set_name};

verus! {

broadcast use vstd::string::group_string_axioms;

/// How an attempt to compile went.
#[derive(Clone, Debug, PartialEq, Eq)]
pub enum Attempt {
    Compiled,
    Failed(LuaError),
}

/// An [`Attempt`] with its error by view.
pub enum AttemptView {
    Compiled,
    Failed(LuaErrorView),
}

impl View for Attempt {
    type V = AttemptView;

    open spec fn view(&self) -> AttemptView {
        match *self {
            Attempt::Compiled => AttemptView::Compiled,
            Attempt::Failed(err) => AttemptView::Failed(err@),
        }
    }
}

/// The source that is compiled to find out whether `text` is an expression.
pub open spec fn expression_probe(text: Seq<char>) -> Seq<char> {
    seq!['r', 'e', 't', 'u', 'r', 'n', ' '] + text
}

/// The name under which both attempts are compiled.
pub open spec fn probe_name() -> Seq<char> {
    seq!['=', 'r', 'e', 'p', 'l']
}

/// How an attempt went, from the report of the compilation.
pub open spec fn attempt_view(report: Option<(Option<bool>, Seq<char>)>) -> AttemptView {
    match report {
        None => AttemptView::Compiled,
        Some((incomplete, diagnostic)) => AttemptView::Failed(
            LuaErrorView { kind: kind_of(incomplete), diagnostic },
        ),
    }
}

/// How the attempt to compile `source` under `name` goes.
pub open spec fn attempt(source: Seq<char>, name: Seq<char>) -> AttemptView {
    attempt_view(compile_report(source, name))
}

/// What becomes of the line `text`: itself where it compiles behind
/// `return`; else itself where it compiles as it stands; else the text shown
/// for the error of compiling it as it stands.
pub open spec fn classified(text: Seq<char>) -> Result<Seq<char>, Seq<char>> {
    classification(
        text,
        attempt(expression_probe(text), probe_name()),
        attempt(text, probe_name()),
    )
}

/// What becomes of a line, given how the two attempts went: the line itself
/// where it compiled behind `return` or as it stands, else the text shown for
/// the error of the attempt as it stands.
pub open spec fn classification(
    text: Seq<char>,
    as_expression: AttemptView,
    as_statement: AttemptView,
) -> Result<Seq<char>, Seq<char>> {
    match as_expression {
        AttemptView::Compiled => Ok(text),
        AttemptView::Failed(_) => match as_statement {
            AttemptView::Compiled => Ok(text),
            AttemptView::Failed(err) => Err(formatted(err)),
        },
    }
}

/// A `Result` of strings with both sides by view.
pub open spec fn result_view(result: Result<String, String>) -> Result<Seq<char>, Seq<char>> {
    match result {
        Ok(code) => Ok(code@),
        Err(diagnostic) => Err(diagnostic@),
    }
}

/// Builds the source of the first attempt: `return` and the line.
pub fn expression_source(text: &str) -> (source: String)
    ensures
        source@ == expression_probe(text@),
{
    let mut source = "return ".to_owned();
    source.append(text);
    proof {
        reveal_strlit("return ");
        assert("return "@ =~= seq!['r', 'e', 't', 'u', 'r', 'n', ' ']);
    }
    source
}

/// Decides what becomes of a line from the outcomes of the two attempts.
/// The second outcome is not looked at where the first is a success.
pub fn classify(text: &str, as_expression: &Attempt, as_statement: &Attempt) -> (result: Result<
    String,
    String,
>)
    ensures
        result_view(result) == classification(text@, as_expression@, as_statement@),
{
    match as_expression {
        Attempt::Compiled => Ok(text.to_owned()),
        Attempt::Failed(_) => match as_statement {
            Attempt::Compiled => Ok(text.to_owned()),
            Attempt::Failed(err) => Err(format_lua_err(err)),
        },
    }
}

/// Compiles `source` under the name `name`, without running anything, and
/// tells how the attempt went. A name that holds a NUL character cannot be
/// passed on, so under such a name the attempt fails whatever the source.
pub fn try_compile(lua: &mlua::Lua, source: &str, name: &str) -> (attempt: Attempt)
    ensures
        attempt@ == self::attempt(source@, name@),
        !passable_name(name@) ==> attempt is Failed,
{
    match set_name(load(lua, source), name) {
        Ok(chunk) => attempt_of(into_function(chunk)),
        Err(err) => attempt_of(Err(err)),
    }
}

/// Decides whether `text` is an expression or a statement, and returns it
/// unchanged as the code to run, or the text to show where it is neither.
///
/// The line is compiled behind `return` first, and as it stands only where
/// that fails; the outcome is that of [`classify`] on the two attempts.
pub fn fragment_to_expr_or_statement(lua: &mlua::Lua, text: &str) -> (result: Result<
    String,
    String,
>)
    ensures
        result_view(result) == classified(text@),
{
    proof {
        reveal_strlit("=repl");
        assert("=repl"@ =~= probe_name());
    }
    let expr = expression_source(text);
    let as_expression = try_compile(lua, expr.as_str(), "=repl");
    match as_expression {
        Attempt::Compiled => Ok(text.to_owned()),
        Attempt::Failed(_) => {
            let as_statement = try_compile(lua, text, "=repl");
            classify(text, &as_expression, &as_statement)
        },
    }
}

/// How an attempt went, from what the interpreter returned for it: it
/// compiled where a function came back, and failed with the error read by
/// [`LuaError::from_lua`] where an error did.
pub fn attempt_of<'lua>(compiled: Result<mlua::Function<'lua>, mlua::Error>) -> (attempt: Attempt)
    ensures
        attempt@ == (match compiled {
            Ok(_) => AttemptView::Compiled,
            Err(err) => AttemptView::Failed(error_view(err)),
        }),
{
    match compiled {
        Ok(_) => Attempt::Compiled,
        Err(err) => Attempt::Failed(LuaError::from_lua(&err)),
    }
}

} // verus!
