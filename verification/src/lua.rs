//! The interpreter, as far as the console touches it from here: loading a
//! chunk of source, naming it, compiling it, and reading an error.
//!
//! Nothing in this file is proved. Each function hands its arguments to one
//! function of `mlua` and hands back what came out. What the interpreter
//! makes of a source is not written out here: it has a name,
//! [`compile_report`], and the contracts say which call returns it.

use vstd::prelude::*;

verus! {

/// `mlua::Lua`, the interpreter context.
#[verifier::external_type_specification]
#[verifier::external_body]
pub struct ExLua(mlua::Lua);

/// `mlua::Error`.
#[verifier::external_type_specification]
#[verifier::external_body]
pub struct ExError(mlua::Error);

/// `mlua::Chunk`, source that has been loaded and not yet compiled.
#[verifier::external_type_specification]
#[verifier::external_body]
pub struct ExChunk<'lua, 'a>(mlua::Chunk<'lua, 'a>);

/// `mlua::Function`, a compiled chunk.
#[verifier::external_type_specification]
#[verifier::external_body]
pub struct ExFunction<'lua>(mlua::Function<'lua>);

/// What comes of loading `source`, naming the chunk `name` and compiling it
/// without running it: nothing where it compiles, else what the interpreter
/// reports of the error, as [`reported_incomplete`] and [`alternate_text`]
/// read it. The loader is handed the bytes of the source and the name, no
/// environment and no mode, so its answer is taken to rest on these two
/// alone; an interpreter that has run out of memory is left aside.
pub uninterp spec fn compile_report(source: Seq<char>, name: Seq<char>) -> Option<
    (Option<bool>, Seq<char>),
>;

/// The source that a chunk holds.
pub uninterp spec fn chunk_source(chunk: mlua::Chunk) -> Seq<char>;

/// The name that a chunk bears.
pub uninterp spec fn chunk_name(chunk: mlua::Chunk) -> Seq<char>;

/// What an error says of its input: for a syntax error, whether more input
/// could mend it; for any other error, nothing.
pub uninterp spec fn reported_incomplete(err: mlua::Error) -> Option<bool>;

/// The diagnostic of an error in its most verbose form.
pub uninterp spec fn alternate_text(err: mlua::Error) -> Seq<char>;

/// Whether a chunk can bear `name`: the interpreter takes names as C
/// strings, which end at the first NUL, so a name must hold none.
pub open spec fn passable_name(name: Seq<char>) -> bool {
    !name.contains('\0')
}

/// `mlua::Lua::load`: wraps `source` as a chunk of the interpreter `lua`.
/// Nothing is compiled or run yet; the chunk holds the source as it is.
#[verifier::external_body]
pub(crate) fn load<'lua, 'a>(lua: &'lua mlua::Lua, source: &'a str) -> (chunk: mlua::Chunk<
    'lua,
    'a,
>)
    ensures
        chunk_source(chunk) == source@,
{
    lua.load(source)
}

/// `mlua::Chunk::set_name`: gives the chunk the name under which its errors
/// are reported, and leaves its source alone. It fails exactly where the
/// name holds a NUL character: the name is stored, turned into a C string by
/// `CString::new`, and nothing else is tried. Its error is then all that
/// comes of compiling any source under that name.
#[verifier::external_body]
pub(crate) fn set_name<'lua, 'a>(chunk: mlua::Chunk<'lua, 'a>, name: &str) -> (named: Result<
    mlua::Chunk<'lua, 'a>,
    mlua::Error,
>)
    ensures
        named is Ok <==> passable_name(name@),
        named matches Ok(same) ==> chunk_source(same) == chunk_source(chunk) && chunk_name(same)
            == name@,
        named matches Err(err) ==> compile_report(chunk_source(chunk), name@) == Some(
            (reported_incomplete(err), alternate_text(err)),
        ),
{
    chunk.set_name(name)
}

/// `mlua::Chunk::into_function`: compiles the chunk without running it, or
/// fails with the interpreter's diagnostic. Either way the outcome is the
/// [`compile_report`] of the chunk's source and name.
#[verifier::external_body]
pub(crate) fn into_function<'lua, 'a>(chunk: mlua::Chunk<'lua, 'a>) -> (compiled: Result<
    mlua::Function<'lua>,
    mlua::Error,
>)
    ensures
        compiled is Ok ==> compile_report(chunk_source(chunk), chunk_name(chunk)) is None,
        compiled matches Err(err) ==> compile_report(chunk_source(chunk), chunk_name(chunk))
            == Some((reported_incomplete(err), alternate_text(err))),
{
    chunk.into_function()
}

/// Tells the variant `mlua::Error::SyntaxError` from the others: for a
/// syntax error the value of its field `incomplete_input`, for any other
/// error nothing.
#[verifier::external_body]
pub(crate) fn syntax_error_incomplete(err: &mlua::Error) -> (flag: Option<bool>)
    ensures
        flag == reported_incomplete(*err),
{
    match err {
        mlua::Error::SyntaxError { incomplete_input, .. } => Some(*incomplete_input),
        _ => None,
    }
}

/// The `Display` of `mlua::Error` in its alternate form (`{:#}`): the
/// diagnostic with everything that the interpreter attached to it.
#[verifier::external_body]
pub(crate) fn display_alternate(err: &mlua::Error) -> (text: String)
    ensures
        text@ == alternate_text(*err),
{
    format!("{:#}", err)
}

} // verus!
