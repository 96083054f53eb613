//! Severity levels of log entries, their names and their colours.

use vstd::prelude::*;

verus! {

broadcast use vstd::string::group_string_axioms;

/// The severity of a log entry, most severe first.
#[derive(Clone, Copy, Debug, PartialEq, Eq, Structural)]
pub enum Level {
    Error,
    Warn,
    Info,
    Debug,
    Trace,
}

/// The sixteen colours of the ANSI palette, in palette order.
#[derive(Clone, Copy, Debug, PartialEq, Eq, Structural)]
pub enum AnsiColor {
    Black,
    Maroon,
    Green,
    Olive,
    Navy,
    Purple,
    Teal,
    Silver,
    Grey,
    Red,
    Lime,
    Yellow,
    Blue,
    Fuchsia,
    Aqua,
    White,
}

/// The colour in which a severity is shown.
pub open spec fn color_of(level: Level) -> AnsiColor {
    match level {
        Level::Error => AnsiColor::Maroon,
        Level::Warn => AnsiColor::Red,
        Level::Info => AnsiColor::Green,
        Level::Debug => AnsiColor::Blue,
        Level::Trace => AnsiColor::Fuchsia,
    }
}

/// The name under which a severity is shown.
pub open spec fn name_of(level: Level) -> Seq<char> {
    match level {
        Level::Error => "ERROR"@,
        Level::Warn => "WARN"@,
        Level::Info => "INFO"@,
        Level::Debug => "DEBUG"@,
        Level::Trace => "TRACE"@,
    }
}

impl Level {
    /// The colour of the severity text: dark red for errors, bright red for
    /// warnings, green, blue and magenta for the rest.
    pub fn color(self) -> (color: AnsiColor)
        ensures
            color == color_of(self),
    {
        match self {
            Level::Error => AnsiColor::Maroon,
            Level::Warn => AnsiColor::Red,
            Level::Info => AnsiColor::Green,
            Level::Debug => AnsiColor::Blue,
            Level::Trace => AnsiColor::Fuchsia,
        }
    }

    /// The upper-case name of the severity.
    pub fn name(self) -> (name: String)
        ensures
            name@ == name_of(self),
    {
        level_as_str(self)
    }
}

/// `log::Level::as_str`: the upper-case name that the `log` crate gives the
/// level of the same name (`ERROR`, `WARN`, `INFO`, `DEBUG`, `TRACE`).
#[verifier::external_body]
fn level_as_str(level: Level) -> (name: String)
    ensures
        name@ == name_of(level),
{
    let outside = match level {
        Level::Error => log::Level::Error,
        Level::Warn => log::Level::Warn,
        Level::Info => log::Level::Info,
        Level::Debug => log::Level::Debug,
        Level::Trace => log::Level::Trace,
    };
    outside.as_str().to_string()
}

} // verus!
