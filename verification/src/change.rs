//! Display changes: what the console asks the terminal surface to do.

use vstd::prelude::*;
use crate::level::AnsiColor;

verus! {

/// How strongly text is drawn.
#[derive(Clone, Copy, Debug, PartialEq, Eq, Structural)]
pub enum Intensity {
    Normal,
    Bold,
    Half,
}

/// One change to the visible surface. A sequence of them is applied in order.
#[derive(Clone, Debug, PartialEq, Eq)]
pub enum Change {
    /// Sets the title of the surface.
    Title(String),
    /// Writes a run of text at the cursor.
    Text(String),
    /// Sets the foreground colour of the text that follows.
    Foreground(AnsiColor),
    /// Sets the intensity of the text that follows.
    Intensity(Intensity),
    /// Puts every text attribute back to its default.
    ResetAttributes,
}

/// A [`Change`] with its strings as sequences of characters.
pub enum ChangeView {
    Title(Seq<char>),
    Text(Seq<char>),
    Foreground(AnsiColor),
    Intensity(Intensity),
    ResetAttributes,
}

impl View for Change {
    type V = ChangeView;

    open spec fn view(&self) -> ChangeView {
        match *self {
            Change::Title(s) => ChangeView::Title(s@),
            Change::Text(s) => ChangeView::Text(s@),
            Change::Foreground(c) => ChangeView::Foreground(c),
            Change::Intensity(i) => ChangeView::Intensity(i),
            Change::ResetAttributes => ChangeView::ResetAttributes,
        }
    }
}

impl DeepView for Change {
    type V = ChangeView;

    open spec fn deep_view(&self) -> ChangeView {
        self@
    }
}

/// Appends one change to a list under construction.
pub(crate) fn push_change(changes: &mut Vec<Change>, change: Change)
    ensures
        final(changes).deep_view() == old(changes).deep_view().push(change@),
{
    changes.push(change);
    assert(changes.deep_view() =~= old(changes).deep_view().push(change@));
}

} // verus!
