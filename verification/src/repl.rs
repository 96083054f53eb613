//! The read-eval-print loop as a state machine.
//!
//! The console is idle, evaluating, or closed. While it is idle it holds
//! the interpreter; it looks at the log, shows a prompt and takes a line. A
//! line that is not empty goes into the history and is handed out for
//! evaluation together with the interpreter, and the console is evaluating
//! until both come back. Cancelling at the prompt closes the console.
//!
//! The caller does what takes time or touches the outside: it reads the log
//! buffer and the line, runs the evaluation, and draws the changes that each
//! step returns.

use vstd::prelude::*;
use crate::change::{Change, ChangeView};
use crate::classify::{classified, fragment_to_expr_or_statement};
use crate::log_tail::{high_water, new_entries, print_new_log_entries, rendered, LogEntry, LogEntryView};
use crate::text::{terminal_lines, to_terminal_lines};
use crate::log_tail::lemma_high_water_never_falls;
use crate::timestamp::{at_or_before, Timestamp, TimestampView};

verus! {

broadcast use vstd::string::group_string_axioms;

/// A key, as far as the console tells keys apart.
#[derive(Clone, Copy, Debug, PartialEq, Eq, Structural)]
pub enum KeyCode {
    Escape,
    Other,
}

/// An input event, as far as the console tells events apart.
#[derive(Clone, Copy, Debug, PartialEq, Eq, Structural)]
pub enum InputEvent {
    Key(KeyCode),
    Other,
}

/// What the console makes the line editor do in place of its own handling
/// of an event.
#[derive(Clone, Copy, Debug, PartialEq, Eq, Structural)]
pub enum Action {
    Cancel,
}

/// An element of the preview that the line editor shows beside the input.
#[derive(Clone, Debug, PartialEq, Eq)]
pub enum OutputElement {
    Text(String),
}

/// An [`OutputElement`] with its text as a sequence of characters.
pub enum OutputElementView {
    Text(Seq<char>),
}

impl View for OutputElement {
    type V = OutputElementView;

    open spec fn view(&self) -> OutputElementView {
        match *self {
            OutputElement::Text(text) => OutputElementView::Text(text@),
        }
    }
}

impl DeepView for OutputElement {
    type V = OutputElementView;

    open spec fn deep_view(&self) -> OutputElementView {
        self@
    }
}

/// The action for an event that arrives while `line` stands in the editor:
/// escape on an empty line cancels, everything else is left to the editor.
pub open spec fn resolved(event: InputEvent, line: Seq<char>) -> Option<Action> {
    if line.len() == 0 && event == InputEvent::Key(KeyCode::Escape) {
        Some(Action::Cancel)
    } else {
        None
    }
}

/// The preview for a line of which the classification is known: the
/// diagnostic where the line is refused, nothing where it is accepted.
pub open spec fn preview_of(classified: Result<Seq<char>, Seq<char>>) -> Seq<OutputElementView> {
    match classified {
        Ok(_) => Seq::empty(),
        Err(diagnostic) => seq![OutputElementView::Text(diagnostic)],
    }
}

/// Decides whether the console overrides the line editor's handling of
/// `event`.
pub fn resolve_action(event: &InputEvent, line: &str) -> (action: Option<Action>)
    ensures
        action == resolved(*event, line@),
{
    if line.is_empty() {
        match event {
            InputEvent::Key(KeyCode::Escape) => Some(Action::Cancel),
            _ => None,
        }
    } else {
        None
    }
}

/// The preview elements for a classified line.
pub fn preview(classified: &Result<String, String>) -> (elements: Vec<OutputElement>)
    ensures
        elements.deep_view() == preview_of(
            match *classified {
                Ok(code) => Ok(code@),
                Err(diagnostic) => Err(diagnostic@),
            },
        ),
{
    let mut elements: Vec<OutputElement> = Vec::new();
    if let Err(diagnostic) = classified {
        elements.push(OutputElement::Text(diagnostic.clone()));
        assert(elements.deep_view() =~= seq![OutputElementView::Text(diagnostic@)]);
    } else {
        assert(elements.deep_view() =~= Seq::<OutputElementView>::empty());
    }
    elements
}

/// The three phases of the console.
#[derive(Clone, Copy, Debug, PartialEq, Eq, Structural)]
pub enum Phase {
    Idle,
    Evaluating,
    Closed,
}

/// Where the console stands, and with it who holds the interpreter: the
/// console while it is idle, the evaluation while one runs, nobody once the
/// console is closed.
pub enum Stage {
    Idle(mlua::Lua),
    Evaluating,
    Closed,
}

/// The phase of a stage.
pub open spec fn phase_of(stage: Stage) -> Phase {
    match stage {
        Stage::Idle(_) => Phase::Idle,
        Stage::Evaluating => Phase::Evaluating,
        Stage::Closed => Phase::Closed,
    }
}

/// The state of the console.
pub struct Repl {
    stage: Stage,
    history: Vec<String>,
    latest_log_entry: Option<Timestamp>,
}

/// The state of the console as contracts speak of it.
pub struct ReplView {
    /// Where the console stands.
    pub stage: Stage,
    /// The lines submitted so far that were not empty, oldest first.
    pub history: Seq<Seq<char>>,
    /// The high-water mark of the log tail.
    pub latest: Option<TimestampView>,
}

impl View for Repl {
    type V = ReplView;

    closed spec fn view(&self) -> ReplView {
        ReplView {
            stage: self.stage,
            history: self.history.deep_view(),
            latest: self.latest_log_entry.deep_view(),
        }
    }
}

/// What can happen to the console.
pub enum Event {
    /// The log buffer was read and held these entries.
    Polled(Seq<LogEntryView>),
    /// The line editor returned: with a line, or with nothing on cancel.
    Submitted(Option<Seq<char>>),
    /// An evaluation ended: the interpreter is back, with the text to show.
    Evaluated(mlua::Lua, Seq<char>),
}

/// What a submission leads to.
pub enum Submission {
    /// The line is to be evaluated on the interpreter handed out with it.
    Evaluate { context: mlua::Lua, line: String },
    /// The line was empty: prompt again.
    Ignored,
    /// The editor was cancelled: the console is closed.
    Closed,
    /// The console was not idle: nothing was taken.
    Refused,
}

/// A [`Submission`] with its line as a sequence of characters.
pub enum SubmissionView {
    Evaluate { context: mlua::Lua, line: Seq<char> },
    Ignored,
    Closed,
    Refused,
}

impl View for Submission {
    type V = SubmissionView;

    open spec fn view(&self) -> SubmissionView {
        match *self {
            Submission::Evaluate { context, line } => SubmissionView::Evaluate {
                context,
                line: line@,
            },
            Submission::Ignored => SubmissionView::Ignored,
            Submission::Closed => SubmissionView::Closed,
            Submission::Refused => SubmissionView::Refused,
        }
    }
}

/// The state after an event. An event that does not fit the phase leaves
/// the state as it is.
pub open spec fn step(state: ReplView, event: Event) -> ReplView {
    match event {
        Event::Polled(entries) => match state.stage {
            Stage::Idle(_) => ReplView { latest: high_water(entries, state.latest), ..state },
            _ => state,
        },
        Event::Submitted(line) => match state.stage {
            Stage::Idle(_) => match line {
                None => ReplView { stage: Stage::Closed, ..state },
                Some(text) => if text.len() == 0 {
                    state
                } else {
                    ReplView {
                        stage: Stage::Evaluating,
                        history: state.history.push(text),
                        ..state
                    }
                },
            },
            _ => state,
        },
        Event::Evaluated(context, _) => match state.stage {
            Stage::Evaluating => ReplView { stage: Stage::Idle(context), ..state },
            _ => state,
        },
    }
}

/// The changes to draw for an event: the new log entries after a look at
/// the log, the result and the end of its line after an evaluation, nothing
/// for a submission or for an event that does not fit the phase.
pub open spec fn drawn(state: ReplView, event: Event) -> Seq<ChangeView> {
    match event {
        Event::Polled(entries) => match state.stage {
            Stage::Idle(_) => rendered(new_entries(entries, state.latest)),
            _ => Seq::empty(),
        },
        Event::Submitted(_) => Seq::empty(),
        Event::Evaluated(_, text) => match state.stage {
            Stage::Evaluating => result_changes(text),
            _ => Seq::empty(),
        },
    }
}

/// What a submission of `line` leads to in `state`.
pub open spec fn submission(state: ReplView, line: Option<Seq<char>>) -> SubmissionView {
    match state.stage {
        Stage::Idle(context) => match line {
            None => SubmissionView::Closed,
            Some(text) => if text.len() == 0 {
                SubmissionView::Ignored
            } else {
                SubmissionView::Evaluate { context, line: text }
            },
        },
        _ => SubmissionView::Refused,
    }
}

/// The changes that show the text of a result: the text with terminal line
/// endings, and the end of the line.
pub open spec fn result_changes(text: Seq<char>) -> Seq<ChangeView> {
    seq![ChangeView::Text(terminal_lines(text) + seq!['\r', '\n'])]
}

/// The changes with which the console opens: the title of the surface.
pub open spec fn opening_changes() -> Seq<ChangeView> {
    seq![ChangeView::Title(seq!['D', 'e', 'b', 'u', 'g'])]
}

/// The prompt shown in front of the input.
pub open spec fn prompt_text() -> Seq<char> {
    seq!['>', ' ']
}

/// The prompt shown in front of the input.
pub fn prompt() -> (text: String)
    ensures
        text@ == prompt_text(),
{
    proof {
        reveal_strlit("> ");
        assert("> "@ =~= prompt_text());
    }
    "> ".to_owned()
}

/// The changes that show the text of a result.
pub fn render_result(text: &str) -> (changes: Vec<Change>)
    ensures
        changes.deep_view() == result_changes(text@),
{
    let mut line = to_terminal_lines(text);
    line.append("\r\n");
    proof {
        reveal_strlit("\r\n");
        assert("\r\n"@ =~= seq!['\r', '\n']);
    }
    let mut changes: Vec<Change> = Vec::new();
    changes.push(Change::Text(line));
    assert(changes.deep_view() =~= result_changes(text@));
    changes
}

impl Repl {
    /// Opens the console on an interpreter: idle, with no history and no
    /// high-water mark. The changes returned set the title of the surface.
    pub fn start(lua: mlua::Lua) -> (opened: (Repl, Vec<Change>))
        ensures
            opened.0@ == (ReplView {
                stage: Stage::Idle(lua),
                history: Seq::empty(),
                latest: None,
            }),
            opened.1.deep_view() == opening_changes(),
    {
        let repl = Repl { stage: Stage::Idle(lua), history: Vec::new(), latest_log_entry: None };
        let mut changes: Vec<Change> = Vec::new();
        proof {
            reveal_strlit("Debug");
            assert("Debug"@ =~= seq!['D', 'e', 'b', 'u', 'g']);
        }
        changes.push(Change::Title("Debug".to_owned()));
        assert(changes.deep_view() =~= opening_changes());
        assert(repl.history.deep_view() =~= Seq::<Seq<char>>::empty());
        (repl, changes)
    }

    /// The phase of the console.
    pub fn phase(&self) -> (phase: Phase)
        ensures
            phase == phase_of(self@.stage),
    {
        match &self.stage {
            Stage::Idle(_) => Phase::Idle,
            Stage::Evaluating => Phase::Evaluating,
            Stage::Closed => Phase::Closed,
        }
    }

    /// The interpreter, while the console holds it.
    pub fn context(&self) -> (context: Option<&mlua::Lua>)
        ensures
            match self@.stage {
                Stage::Idle(held) => context == Some(&held),
                _ => context is None,
            },
    {
        match &self.stage {
            Stage::Idle(lua) => Some(lua),
            _ => None,
        }
    }

    /// The lines submitted so far that were not empty, oldest first.
    pub fn history(&self) -> (history: &Vec<String>)
        ensures
            history.deep_view() == self@.history,
    {
        &self.history
    }

    /// The high-water mark of the log tail.
    pub fn latest_log_entry(&self) -> (latest: Option<Timestamp>)
        ensures
            latest.deep_view() == self@.latest,
    {
        self.latest_log_entry
    }

    /// Takes what the log buffer holds and returns the changes that draw its
    /// new entries; the high-water mark moves along. While the console is
    /// not idle the log is left alone.
    pub fn poll_log(&mut self, entries: &Vec<LogEntry>) -> (changes: Vec<Change>)
        ensures
            final(self)@ == step(old(self)@, Event::Polled(entries.deep_view())),
            changes.deep_view() == drawn(old(self)@, Event::Polled(entries.deep_view())),
    {
        match &self.stage {
            Stage::Idle(_) => print_new_log_entries(entries, &mut self.latest_log_entry),
            _ => {
                let changes: Vec<Change> = Vec::new();
                assert(changes.deep_view() =~= Seq::<ChangeView>::empty());
                changes
            },
        }
    }

    /// The preview for a line that stands in the editor: its diagnostic
    /// where the line is neither an expression nor a statement, else
    /// nothing. Nothing is run. While the console does not hold the
    /// interpreter there is no preview.
    pub fn render_preview(&self, line: &str) -> (elements: Vec<OutputElement>)
        ensures
            elements.deep_view() == (if self@.stage is Idle {
                preview_of(classified(line@))
            } else {
                Seq::empty()
            }),
    {
        match &self.stage {
            Stage::Idle(lua) => {
                let classified = fragment_to_expr_or_statement(lua, line);
                preview(&classified)
            },
            _ => {
                let elements: Vec<OutputElement> = Vec::new();
                assert(elements.deep_view() =~= Seq::<OutputElementView>::empty());
                elements
            },
        }
    }

    /// Takes what the line editor returned. Cancelling closes the console;
    /// an empty line changes nothing; any other line goes into the history
    /// and is handed out for evaluation together with the interpreter. A
    /// console that is not idle takes nothing.
    pub fn submit(&mut self, line: Option<String>) -> (submission: Submission)
        ensures
            final(self)@ == step(
                old(self)@,
                Event::Submitted(
                    match line {
                        Some(text) => Some(text@),
                        None => None,
                    },
                ),
            ),
            submission@ == self::submission(
                old(self)@,
                match line {
                    Some(text) => Some(text@),
                    None => None,
                },
            ),
    {
        let mut stage = Stage::Evaluating;
        core::mem::swap(&mut self.stage, &mut stage);
        match stage {
            Stage::Idle(context) => match line {
                None => {
                    self.stage = Stage::Closed;
                    Submission::Closed
                },
                Some(text) => {
                    if text.as_str().is_empty() {
                        self.stage = Stage::Idle(context);
                        Submission::Ignored
                    } else {
                        self.history.push(text.clone());
                        assert(self.history.deep_view() =~= old(self).history.deep_view().push(
                            text@,
                        ));
                        Submission::Evaluate { context, line: text }
                    }
                },
            },
            other => {
                self.stage = other;
                Submission::Refused
            },
        }
    }

    /// Takes the interpreter back from an evaluation, with the text to
    /// show, and returns the changes that show it; the console is idle
    /// again. A console that is not evaluating hands the interpreter
    /// straight back and changes nothing.
    pub fn complete(&mut self, context: mlua::Lua, text: &str) -> (shown: Result<
        Vec<Change>,
        mlua::Lua,
    >)
        ensures
            final(self)@ == step(old(self)@, Event::Evaluated(context, text@)),
            match shown {
                Ok(changes) => old(self)@.stage is Evaluating && changes.deep_view() == drawn(
                    old(self)@,
                    Event::Evaluated(context, text@),
                ),
                Err(refused) => !(old(self)@.stage is Evaluating) && refused == context,
            },
    {
        match &self.stage {
            Stage::Evaluating => {
                self.stage = Stage::Idle(context);
                Ok(render_result(text))
            },
            _ => Err(context),
        }
    }
}

/// The state after a run of events, taken in order.
pub open spec fn run(state: ReplView, events: Seq<Event>) -> ReplView
    decreases events.len(),
{
    if events.len() == 0 {
        state
    } else {
        step(run(state, events.drop_last()), events.last())
    }
}

/// Whether `event` starts an evaluation in `state`: it is a submission that
/// hands a line and the interpreter out.
pub open spec fn starts_evaluation(state: ReplView, event: Event) -> bool {
    event matches Event::Submitted(line) && submission(state, line) is Evaluate
}

/// Whether `event` ends an evaluation in `state`: the interpreter comes back
/// to a console that waits for it.
pub open spec fn ends_evaluation(state: ReplView, event: Event) -> bool {
    event is Evaluated && state.stage is Evaluating
}

/// How many evaluations a run of events starts.
pub open spec fn started(state: ReplView, events: Seq<Event>) -> nat
    decreases events.len(),
{
    if events.len() == 0 {
        0
    } else {
        let earlier = started(state, events.drop_last());
        if starts_evaluation(run(state, events.drop_last()), events.last()) {
            earlier + 1
        } else {
            earlier
        }
    }
}

/// How many evaluations a run of events ends.
pub open spec fn ended(state: ReplView, events: Seq<Event>) -> nat
    decreases events.len(),
{
    if events.len() == 0 {
        0
    } else {
        let earlier = ended(state, events.drop_last());
        if ends_evaluation(run(state, events.drop_last()), events.last()) {
            earlier + 1
        } else {
            earlier
        }
    }
}

/// How many evaluations are under way in a stage: one while evaluating,
/// else none.
pub open spec fn in_flight(stage: Stage) -> nat {
    if stage is Evaluating {
        1
    } else {
        0
    }
}

/// Submitting the empty line changes nothing, in any state: the history
/// stays as it is, the phase stays as it is, and no evaluation starts. An
/// idle console answers it by prompting again.
pub proof fn lemma_empty_line_changes_nothing(state: ReplView)
    ensures
        step(state, Event::Submitted(Some(Seq::empty()))) == state,
        !starts_evaluation(state, Event::Submitted(Some(Seq::empty()))),
        state.stage is Idle ==> submission(state, Some(Seq::empty())) is Ignored,
{
}

/// After an evaluation, whatever text it ended with, the console is idle
/// and holds the interpreter that came back; history and high-water mark
/// are as they were when the line was handed out; and the next line that is
/// not empty is handed out with that same interpreter.
pub proof fn lemma_interpreter_comes_back(
    state: ReplView,
    context: mlua::Lua,
    text: Seq<char>,
    next_line: Seq<char>,
)
    requires
        state.stage is Evaluating,
        next_line.len() > 0,
    ensures
        step(state, Event::Evaluated(context, text)) == (ReplView {
            stage: Stage::Idle(context),
            ..state
        }),
        submission(step(state, Event::Evaluated(context, text)), Some(next_line)) == (
        SubmissionView::Evaluate { context, line: next_line }),
{
}

/// An evaluation starts only on an idle console, with the interpreter that
/// the console holds and with the line that was submitted, which goes to
/// the end of the history; the console is evaluating from then on.
pub proof fn lemma_evaluation_starts_from_idle(state: ReplView, event: Event)
    requires
        starts_evaluation(state, event),
    ensures
        event matches Event::Submitted(Some(line)) && state.stage matches Stage::Idle(context)
            && line.len() > 0 && submission(state, Some(line)) == (SubmissionView::Evaluate {
            context,
            line,
        }) && step(state, event) == (ReplView {
            stage: Stage::Evaluating,
            history: state.history.push(line),
            ..state
        }),
{
}

/// At most one evaluation is ever under way. Over any run of events, the
/// evaluations started and those under way at the beginning are as many as
/// the evaluations ended and those under way at the end; and at the end at
/// most one is under way. Applied to the events before a submission, this
/// says that every evaluation started earlier has ended when the next one
/// starts.
pub proof fn lemma_one_evaluation_at_a_time(state: ReplView, events: Seq<Event>)
    ensures
        started(state, events) + in_flight(state.stage) == ended(state, events) + in_flight(
            run(state, events).stage,
        ),
        in_flight(run(state, events).stage) <= 1,
    decreases events.len(),
{
    if events.len() > 0 {
        lemma_one_evaluation_at_a_time(state, events.drop_last());
    }
}

/// A closed console stays closed, and nothing changes in it any more.
pub proof fn lemma_closed_is_final(state: ReplView, events: Seq<Event>)
    requires
        state.stage is Closed,
    ensures
        run(state, events) == state,
        started(state, events) == 0,
    decreases events.len(),
{
    if events.len() > 0 {
        lemma_closed_is_final(state, events.drop_last());
    }
}

/// The history is append-only: over any run of events, the history at the
/// beginning is the beginning of the history at the end.
pub proof fn lemma_history_only_grows(state: ReplView, events: Seq<Event>)
    ensures
        state.history.is_prefix_of(run(state, events).history),
    decreases events.len(),
{
    if events.len() > 0 {
        lemma_history_only_grows(state, events.drop_last());
        let before = run(state, events.drop_last());
        let after = step(before, events.last());
        assert(before.history.is_prefix_of(after.history)) by {
            if after.history != before.history {
                let line = events.last()->Submitted_0->0;
                assert(after.history == before.history.push(line));
            }
        }
    }
}

/// The high-water mark never moves back: over any run of events, a mark
/// that is set stays set, and is no earlier at the end than at the
/// beginning.
pub proof fn lemma_mark_never_falls(state: ReplView, events: Seq<Event>)
    ensures
        state.latest matches Some(before) ==> (run(state, events).latest matches Some(after)
            && at_or_before(before, after)),
    decreases events.len(),
{
    if events.len() > 0 {
        lemma_mark_never_falls(state, events.drop_last());
        let reached = run(state, events.drop_last());
        if let Event::Polled(entries) = events.last() {
            lemma_high_water_never_falls(entries, reached.latest);
        }
    }
}

} // verus!
