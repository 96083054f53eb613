//! Interpreter errors as the console sees them, and the text it shows for
//! them.

use vstd::prelude::*;
use crate::lua::{alternate_text, display_alternate, reported_incomplete, syntax_error_incomplete};

verus! {

broadcast use vstd::string::group_string_axioms;

/// The two shapes of an interpreter error that the console tells apart.
#[derive(Clone, Copy, Debug, PartialEq, Eq, Structural)]
pub enum ErrorKind {
    /// A syntax error that more input could mend: the line is the beginning
    /// of valid code.
    IncompleteInput,
    /// Any other error.
    FullDiagnostic,
}

/// An interpreter error: its shape and its full diagnostic text.
#[derive(Clone, Debug, PartialEq, Eq)]
pub struct LuaError {
    pub kind: ErrorKind,
    pub diagnostic: String,
}

/// A [`LuaError`] with its diagnostic as a sequence of characters.
pub struct LuaErrorView {
    pub kind: ErrorKind,
    pub diagnostic: Seq<char>,
}

impl View for LuaError {
    type V = LuaErrorView;

    open spec fn view(&self) -> LuaErrorView {
        LuaErrorView { kind: self.kind, diagnostic: self.diagnostic@ }
    }
}

/// The shape of an error of which `syntax_incomplete` is known: nothing for
/// an error that is no syntax error, else whether the interpreter reported
/// the input as incomplete.
pub open spec fn kind_of(syntax_incomplete: Option<bool>) -> ErrorKind {
    if syntax_incomplete == Some(true) {
        ErrorKind::IncompleteInput
    } else {
        ErrorKind::FullDiagnostic
    }
}

/// An error of the interpreter as the console reads it.
pub open spec fn error_view(err: mlua::Error) -> LuaErrorView {
    LuaErrorView { kind: kind_of(reported_incomplete(err)), diagnostic: alternate_text(err) }
}

/// The text shown for an error: three dots for incomplete input, so that a
/// half-typed line does not flash a diagnostic, else the full diagnostic.
pub open spec fn formatted(err: LuaErrorView) -> Seq<char> {
    match err.kind {
        ErrorKind::IncompleteInput => seq!['.', '.', '.'],
        ErrorKind::FullDiagnostic => err.diagnostic,
    }
}

impl ErrorKind {
    /// The shape of an error, from what the interpreter says of it: incomplete
    /// input only where it is a syntax error and reported as incomplete.
    pub fn of(syntax_incomplete: Option<bool>) -> (kind: ErrorKind)
        ensures
            kind == kind_of(syntax_incomplete),
    {
        match syntax_incomplete {
            Some(true) => ErrorKind::IncompleteInput,
            _ => ErrorKind::FullDiagnostic,
        }
    }
}

impl LuaError {
    /// Reads an error of the interpreter: its shape and its diagnostic in the
    /// interpreter's most verbose form, put together by
    /// [`LuaError::from_report`].
    pub fn from_lua(err: &mlua::Error) -> (made: LuaError)
        ensures
            made@ == error_view(*err),
    {
        LuaError::from_report(syntax_error_incomplete(err), display_alternate(err))
    }

    /// The error of which the interpreter reports this much: whether it is a
    /// syntax error, and if so whether the input is incomplete; and its
    /// diagnostic.
    pub fn from_report(syntax_incomplete: Option<bool>, diagnostic: String) -> (err: LuaError)
        ensures
            err@ == (LuaErrorView { kind: kind_of(syntax_incomplete), diagnostic: diagnostic@ }),
    {
        LuaError { kind: ErrorKind::of(syntax_incomplete), diagnostic }
    }
}

/// The text that the console shows for an error.
pub fn format_lua_err(err: &LuaError) -> (text: String)
    ensures
        text@ == formatted(err@),
{
    match err.kind {
        ErrorKind::IncompleteInput => {
            proof {
                reveal_strlit("...");
                assert("..."@ =~= seq!['.', '.', '.']);
            }
            "...".to_owned()
        },
        ErrorKind::FullDiagnostic => err.diagnostic.clone(),
    }
}

} // verus!
