use debug_overlay::change::Change;
use debug_overlay::level::Level;
use debug_overlay::log_tail::LogEntry;
use debug_overlay::repl::{
    preview, prompt, render_result, resolve_action, Action, InputEvent, KeyCode, OutputElement, Phase, Repl,
    Submission,
};
use debug_overlay::timestamp::Timestamp;

fn at(secs: i64) -> Timestamp {
    Timestamp::new(secs, 0, 0).unwrap()
}

fn entry(secs: i64, msg: &str) -> LogEntry {
    LogEntry { when: at(secs), level: Level::Info, target: "test".to_string(), msg: msg.to_string() }
}

fn opened() -> Repl {
    Repl::start(mlua::Lua::new()).0
}

fn line(text: &str) -> Option<String> {
    Some(text.to_string())
}

fn taken(submission: Submission) -> (mlua::Lua, String) {
    match submission {
        Submission::Evaluate { context, line } => (context, line),
        Submission::Ignored => panic!("ignored"),
        Submission::Closed => panic!("closed"),
        Submission::Refused => panic!("refused"),
    }
}

#[test]
fn console_opens_idle_with_the_title_set() {
    let (repl, changes) = Repl::start(mlua::Lua::new());
    assert_eq!(changes, vec![Change::Title("Debug".to_string())]);
    assert_eq!(repl.phase(), Phase::Idle);
    assert!(repl.context().is_some());
    assert!(repl.history().is_empty());
    assert_eq!(repl.latest_log_entry(), None);
}

#[test]
fn prompt_is_an_angle_and_a_space() {
    assert_eq!(prompt(), "> ");
}

#[test]
fn escape_on_an_empty_line_cancels() {
    assert_eq!(resolve_action(&InputEvent::Key(KeyCode::Escape), ""), Some(Action::Cancel));
}

#[test]
fn escape_on_a_line_with_text_is_left_to_the_editor() {
    assert_eq!(resolve_action(&InputEvent::Key(KeyCode::Escape), "x"), None);
    assert_eq!(resolve_action(&InputEvent::Key(KeyCode::Escape), " "), None);
}

#[test]
fn other_events_are_left_to_the_editor() {
    assert_eq!(resolve_action(&InputEvent::Key(KeyCode::Other), ""), None);
    assert_eq!(resolve_action(&InputEvent::Other, ""), None);
    assert_eq!(resolve_action(&InputEvent::Key(KeyCode::Other), "x"), None);
    assert_eq!(resolve_action(&InputEvent::Other, "x"), None);
}

#[test]
fn preview_shows_the_diagnostic_of_a_refused_line() {
    assert_eq!(preview(&Err("...".to_string())), vec![OutputElement::Text("...".to_string())]);
    assert_eq!(preview(&Err(String::new())), vec![OutputElement::Text(String::new())]);
}

#[test]
fn preview_shows_nothing_for_an_accepted_line() {
    assert_eq!(preview(&Ok("1 + 2".to_string())), Vec::<OutputElement>::new());
}

#[test]
fn preview_of_a_line_in_the_editor() {
    let repl = opened();
    assert!(repl.render_preview("1 + 2").is_empty());
    assert!(repl.render_preview("local x = 5").is_empty());
    assert!(repl.render_preview("").is_empty());
    assert_eq!(repl.render_preview("x = "), vec![OutputElement::Text("...".to_string())]);
    match &repl.render_preview("x = = =")[..] {
        [OutputElement::Text(text)] => assert!(text.starts_with("syntax error: "), "{}", text),
        other => panic!("{:?}", other),
    }
}

#[test]
fn preview_runs_nothing() {
    let repl = opened();
    assert!(repl.render_preview("previewed = true").is_empty());
    let seen: Option<bool> = repl.context().unwrap().globals().get("previewed").unwrap();
    assert_eq!(seen, None);
}

#[test]
fn no_preview_while_the_interpreter_is_away() {
    let mut repl = opened();
    let _evaluation = taken(repl.submit(line("1 + 2")));
    assert!(repl.render_preview("x = = =").is_empty());
    assert!(repl.context().is_none());
}

#[test]
fn result_is_shown_with_terminal_line_endings() {
    assert_eq!(render_result("3"), vec![Change::Text("3\r\n".to_string())]);
    assert_eq!(render_result(""), vec![Change::Text("\r\n".to_string())]);
    assert_eq!(render_result("{\n    1,\n}"), vec![Change::Text("{\r\n    1,\r\n}\r\n".to_string())]);
}

#[test]
fn empty_line_leaves_history_and_phase_alone() {
    let mut repl = opened();
    assert!(matches!(repl.submit(line("")), Submission::Ignored));
    assert_eq!(repl.phase(), Phase::Idle);
    assert!(repl.history().is_empty());
    assert!(repl.context().is_some());

    let (context, _) = taken(repl.submit(line("x = 1")));
    repl.complete(context, "nil").ok().unwrap();
    assert!(matches!(repl.submit(line("")), Submission::Ignored));
    assert!(matches!(repl.submit(line("")), Submission::Ignored));
    assert_eq!(repl.phase(), Phase::Idle);
    assert_eq!(repl.history(), &vec!["x = 1".to_string()]);
}

#[test]
fn empty_line_is_refused_like_any_other_while_evaluating() {
    let mut repl = opened();
    let _evaluation = taken(repl.submit(line("1")));
    assert!(matches!(repl.submit(line("")), Submission::Refused));
    assert_eq!(repl.phase(), Phase::Evaluating);
    assert_eq!(repl.history(), &vec!["1".to_string()]);
}

#[test]
fn line_goes_into_history_and_out_for_evaluation() {
    let mut repl = opened();
    let (_context, text) = taken(repl.submit(line("1 + 2")));
    assert_eq!(text, "1 + 2");
    assert_eq!(repl.phase(), Phase::Evaluating);
    assert_eq!(repl.history(), &vec!["1 + 2".to_string()]);
    assert!(repl.context().is_none());
}

#[test]
fn line_of_blanks_is_not_empty() {
    let mut repl = opened();
    let (_context, text) = taken(repl.submit(line(" ")));
    assert_eq!(text, " ");
    assert_eq!(repl.history(), &vec![" ".to_string()]);
}

#[test]
fn history_keeps_order_and_duplicates() {
    let mut repl = opened();
    for text in ["a", "b", "b", "a", "", "c"] {
        match repl.submit(line(text)) {
            Submission::Evaluate { context, .. } => {
                repl.complete(context, "nil").ok().unwrap();
            }
            Submission::Ignored => assert_eq!(text, ""),
            _ => panic!("the console is idle"),
        }
    }
    let expected: Vec<String> = ["a", "b", "b", "a", "c"].iter().map(|s| s.to_string()).collect();
    assert_eq!(repl.history(), &expected);
}

#[test]
fn cancel_closes_the_console() {
    let mut repl = opened();
    assert!(matches!(repl.submit(None), Submission::Closed));
    assert_eq!(repl.phase(), Phase::Closed);
    assert!(repl.context().is_none());
}

#[test]
fn closed_console_takes_nothing() {
    let mut repl = opened();
    assert!(matches!(repl.submit(None), Submission::Closed));
    assert!(matches!(repl.submit(line("1 + 2")), Submission::Refused));
    assert!(matches!(repl.submit(line("")), Submission::Refused));
    assert!(matches!(repl.submit(None), Submission::Refused));
    assert!(repl.poll_log(&vec![entry(1, "late")]).is_empty());
    assert!(repl.complete(mlua::Lua::new(), "3").is_err());
    assert_eq!(repl.phase(), Phase::Closed);
    assert!(repl.history().is_empty());
    assert_eq!(repl.latest_log_entry(), None);
}

#[test]
fn interpreter_comes_back_after_an_evaluation() {
    let mut repl = opened();
    let (context, _) = taken(repl.submit(line("answer = 42")));
    context.load("answer = 42").exec().unwrap();
    let shown = repl.complete(context, "nil").ok().unwrap();
    assert_eq!(shown, vec![Change::Text("nil\r\n".to_string())]);
    assert_eq!(repl.phase(), Phase::Idle);
    let answer: i64 = repl.context().unwrap().globals().get("answer").unwrap();
    assert_eq!(answer, 42);

    let (context, text) = taken(repl.submit(line("answer")));
    assert_eq!(text, "answer");
    assert_eq!(context.load("answer").eval::<i64>().unwrap(), 42);
}

#[test]
fn interpreter_comes_back_after_a_failed_evaluation() {
    let mut repl = opened();
    let (context, _) = taken(repl.submit(line("error('boom')")));
    let failure = context.load("error('boom')").exec().unwrap_err().to_string();
    let shown = repl.complete(context, &failure).ok().unwrap();
    assert_eq!(shown, render_result(&failure));
    assert_eq!(repl.phase(), Phase::Idle);
    assert!(repl.context().is_some());
    assert!(matches!(repl.submit(line("1")), Submission::Evaluate { .. }));
}

#[test]
fn one_evaluation_at_a_time() {
    let mut repl = opened();
    let (context, _) = taken(repl.submit(line("first")));
    assert!(matches!(repl.submit(line("second")), Submission::Refused));
    assert!(matches!(repl.submit(None), Submission::Refused));
    assert_eq!(repl.phase(), Phase::Evaluating);
    assert_eq!(repl.history(), &vec!["first".to_string()]);

    repl.complete(context, "1").ok().unwrap();
    let (_context, text) = taken(repl.submit(line("second")));
    assert_eq!(text, "second");
    assert_eq!(repl.history(), &vec!["first".to_string(), "second".to_string()]);
}

#[test]
fn completion_without_an_evaluation_is_handed_back() {
    let mut repl = opened();
    let stray = mlua::Lua::new();
    stray.globals().set("mine", 7).unwrap();
    let back = match repl.complete(stray, "3") {
        Err(back) => back,
        Ok(_) => panic!("no evaluation was under way"),
    };
    assert_eq!(back.globals().get::<_, i64>("mine").unwrap(), 7);
    assert_eq!(repl.phase(), Phase::Idle);
    let held: Option<i64> = repl.context().unwrap().globals().get("mine").unwrap();
    assert_eq!(held, None);
}

#[test]
fn log_is_drawn_while_idle_and_the_mark_moves() {
    let mut repl = opened();
    let buffer = vec![entry(1, "one"), entry(2, "two")];
    let changes = repl.poll_log(&buffer);
    assert_eq!(changes.len(), 18);
    assert_eq!(changes[8], Change::Text(" > one\r\n".to_string()));
    assert_eq!(changes[17], Change::Text(" > two\r\n".to_string()));
    assert_eq!(repl.latest_log_entry(), Some(at(2)));
    assert!(repl.poll_log(&buffer).is_empty());
    assert_eq!(repl.latest_log_entry(), Some(at(2)));
    assert_eq!(repl.phase(), Phase::Idle);
}

#[test]
fn log_is_left_alone_while_evaluating() {
    let mut repl = opened();
    let (context, _) = taken(repl.submit(line("1")));
    let buffer = vec![entry(1, "during")];
    assert!(repl.poll_log(&buffer).is_empty());
    assert_eq!(repl.latest_log_entry(), None);
    repl.complete(context, "1").ok().unwrap();
    assert_eq!(repl.poll_log(&buffer).len(), 9);
    assert_eq!(repl.latest_log_entry(), Some(at(1)));
}

#[test]
fn submission_and_completion_leave_the_mark_alone() {
    let mut repl = opened();
    repl.poll_log(&vec![entry(5, "five")]);
    let (context, _) = taken(repl.submit(line("1")));
    assert_eq!(repl.latest_log_entry(), Some(at(5)));
    repl.complete(context, "1").ok().unwrap();
    assert_eq!(repl.latest_log_entry(), Some(at(5)));
    assert!(matches!(repl.submit(line("")), Submission::Ignored));
    assert_eq!(repl.latest_log_entry(), Some(at(5)));
}

#[test]
fn a_whole_session() {
    let (mut repl, opening) = Repl::start(mlua::Lua::new());
    let mut screen = opening;
    let mut buffer = vec![entry(1, "started")];

    screen.extend(repl.poll_log(&buffer));
    let (context, text) = taken(repl.submit(line("1 + 2")));
    let value: i64 = context.load(&text).eval().unwrap();
    buffer.push(entry(2, "evaluated"));
    screen.extend(repl.complete(context, &value.to_string()).ok().unwrap());

    screen.extend(repl.poll_log(&buffer));
    assert!(matches!(repl.submit(line("")), Submission::Ignored));
    screen.extend(repl.poll_log(&buffer));
    assert!(matches!(repl.submit(None), Submission::Closed));

    let texts: Vec<String> = screen
        .iter()
        .filter_map(|change| match change {
            Change::Text(text) if text.ends_with("\r\n") => Some(text.clone()),
            _ => None,
        })
        .collect();
    assert_eq!(texts, vec![" > started\r\n", "3\r\n", " > evaluated\r\n"]);
    assert_eq!(screen[0], Change::Title("Debug".to_string()));
    assert_eq!(repl.history(), &vec!["1 + 2".to_string()]);
    assert_eq!(repl.phase(), Phase::Closed);
}
