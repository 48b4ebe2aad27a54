use clap_couture::flow::{
    confirm_value, flag_negation, is_blocked, pending, prompt_kind, prompts_wanted, question_text, source_kind, summary, ClapValueSource, Answer, ArgActionKind,
    Event, LevelArg, MarkInfo, MarkState, PendingMark, Phase, PromptKind, Session, Step, ValueSourceKind,
};
use clap_couture::PromptError;

fn state(source: ValueSourceKind) -> MarkState {
    MarkState { arg_defined: true, on_path: true, source }
}

fn other(id: &str) -> LevelArg {
    LevelArg {
        id: id.to_owned(),
        explicit: false,
        exclusive: false,
        conflicts_with_mark: false,
        mark_conflicts: false,
        group_mate: false,
    }
}

fn mark(id: &str, others: Vec<LevelArg>) -> MarkInfo {
    MarkInfo { path: Vec::new(), id: id.to_owned(), level_found: true, others }
}

fn pend(marks: &[usize]) -> Vec<PendingMark> {
    marks.iter().map(|&mark| PendingMark { mark, current: None }).collect()
}

fn ask_index(step: &Step) -> Option<(usize, Option<String>)> {
    match step {
        Step::Ask { pending, error } => Some((*pending, error.clone())),
        _ => None,
    }
}

fn trial(step: &Step) -> Option<(usize, String)> {
    match step {
        Step::Trial { pending, candidate } => Some((*pending, candidate.clone())),
        _ => None,
    }
}

fn answers(session: &Session) -> Vec<(usize, String)> {
    session.answers.iter().map(|a: &Answer| (a.mark, a.value.clone())).collect()
}

/// The marks of a command with a `host`/`socket` group, a `--local` flag and a `--zone`, both
/// declaring a conflict with `--region`; `--host` was passed.
fn connect_marks() -> Vec<MarkInfo> {
    let host = || LevelArg { explicit: true, ..other("host") };
    let local = LevelArg { mark_conflicts: true, ..other("local") };
    let zone = LevelArg { mark_conflicts: true, ..other("zone") };
    let region = LevelArg { conflicts_with_mark: true, ..other("region") };
    vec![
        mark("region", vec![host(), local, other("socket"), zone]),
        mark("socket", vec![LevelArg { group_mate: true, ..host() }, other("region")]),
        mark("zone", vec![other("host"), region]),
    ]
}

#[test]
fn pending_keeps_marks_on_the_path_without_a_given_value() {
    let states = vec![
        state(ValueSourceKind::Absent),
        state(ValueSourceKind::Given),
        state(ValueSourceKind::Default(Some("staging".to_owned()))),
        MarkState { on_path: false, ..state(ValueSourceKind::Absent) },
        MarkState { arg_defined: false, ..state(ValueSourceKind::Absent) },
        state(ValueSourceKind::Default(None)),
        state(ValueSourceKind::ConditionalDefault),
    ];
    let got: Vec<(usize, Option<String>)> = pending(&states).into_iter().map(|p| (p.mark, p.current)).collect();
    assert_eq!(got, [(0, None), (2, Some("staging".to_owned())), (5, None)]);
}

#[test]
fn a_group_mate_passed_blocks_the_mark() {
    let marks = connect_marks();
    assert!(!is_blocked(&marks, &Vec::new(), 0));
    assert!(is_blocked(&marks, &Vec::new(), 1));
    assert!(!is_blocked(&marks, &Vec::new(), 2));
    let answered = vec![Answer { mark: 0, value: "eu".to_owned() }];
    assert!(is_blocked(&marks, &answered, 2));
}

#[test]
fn a_mark_on_another_path_is_not_blocked_by_an_answer_there() {
    let mut marks = connect_marks();
    marks[0].path = vec!["up".to_owned()];
    let answered = vec![Answer { mark: 0, value: "eu".to_owned() }];
    assert!(!is_blocked(&marks, &answered, 2));
}

#[test]
fn never_asks_for_a_mark_that_conflicts_with_an_earlier_answer() {
    let (mut session, step) = Session::start(connect_marks(), pend(&[0, 1, 2]));
    assert_eq!(ask_index(&step), Some((0, None)));
    let step = session.step(Event::Answered(Some("eu".to_owned())));
    assert_eq!(trial(&step), Some((0, "eu".to_owned())));
    let step = session.step(Event::TrialPassed);
    assert!(matches!(step, Step::Finish { with_answers: true }));
    assert!(matches!(session.phase, Phase::Done));
    assert_eq!(answers(&session), [(0, "eu".to_owned())]);
}

#[test]
fn never_asks_for_a_mark_that_conflicts_with_a_passed_arg() {
    let local = LevelArg { explicit: true, mark_conflicts: true, ..other("local") };
    let marks = vec![mark("region", vec![local])];
    let (session, step) = Session::start(marks, pend(&[0]));
    assert!(matches!(step, Step::Finish { with_answers: true }));
    assert_eq!(session.cursor, 1);
    assert!(session.answers.is_empty());
}

#[test]
fn an_exclusive_arg_passed_blocks_every_mark() {
    let exclusive = LevelArg { explicit: true, exclusive: true, ..other("version") };
    let marks = vec![mark("region", vec![exclusive])];
    let (_, step) = Session::start(marks, pend(&[0]));
    assert!(matches!(step, Step::Finish { with_answers: true }));
}

#[test]
fn asks_again_with_claps_message_when_an_answer_is_invalid() {
    let (mut session, step) = Session::start(vec![mark("port", Vec::new())], pend(&[0]));
    assert_eq!(ask_index(&step), Some((0, None)));
    let step = session.step(Event::Answered(Some("abc".to_owned())));
    assert_eq!(trial(&step), Some((0, "abc".to_owned())));
    let message = "invalid value 'abc' for '--port <PORT>': invalid digit found in string".to_owned();
    let step = session.step(Event::TrialFailed(message.clone()));
    assert_eq!(ask_index(&step), Some((0, Some(message))));
    assert!(session.answers.is_empty());
    let step = session.step(Event::Answered(Some("8080".to_owned())));
    assert_eq!(trial(&step), Some((0, "8080".to_owned())));
    let step = session.step(Event::TrialPassed);
    assert!(matches!(step, Step::Finish { with_answers: true }));
    assert_eq!(answers(&session), [(0, "8080".to_owned())]);
}

#[test]
fn asks_every_missing_mark_in_declaration_order() {
    let marks = vec![mark("env", Vec::new()), mark("port", Vec::new()), mark("region", Vec::new())];
    let (mut session, step) = Session::start(marks, pend(&[1, 2]));
    assert_eq!(ask_index(&step), Some((0, None)));
    session.step(Event::Answered(Some("8080".to_owned())));
    let step = session.step(Event::TrialPassed);
    assert_eq!(ask_index(&step), Some((1, None)));
    session.step(Event::Answered(Some("us".to_owned())));
    let step = session.step(Event::TrialPassed);
    assert!(matches!(step, Step::Finish { with_answers: true }));
    assert_eq!(answers(&session), [(1, "8080".to_owned()), (2, "us".to_owned())]);
}

#[test]
fn an_empty_answer_leaves_the_arg_unset() {
    let marks = vec![mark("port", Vec::new()), mark("region", Vec::new())];
    let (mut session, _) = Session::start(marks, pend(&[0, 1]));
    let step = session.step(Event::Answered(None));
    assert_eq!(ask_index(&step), Some((1, None)));
    let step = session.step(Event::Answered(None));
    assert!(matches!(step, Step::Finish { with_answers: true }));
    assert!(session.answers.is_empty());
}

#[test]
fn nothing_pending_finishes_at_once() {
    let (session, step) = Session::start(vec![mark("region", Vec::new())], Vec::new());
    assert!(matches!(step, Step::Finish { with_answers: true }));
    assert!(matches!(session.phase, Phase::Done));
}

#[test]
fn a_cancelled_prompt_ends_the_session() {
    let (mut session, _) = Session::start(vec![mark("region", Vec::new())], pend(&[0]));
    let step = session.step(Event::Failed(PromptError::Cancelled));
    assert!(matches!(step, Step::Cancelled));
    assert!(matches!(session.phase, Phase::Done));
}

#[test]
fn without_a_terminal_the_parse_goes_on_without_answers() {
    let (mut session, _) = Session::start(vec![mark("region", Vec::new())], pend(&[0]));
    let step = session.step(Event::Failed(PromptError::NotATerminal));
    assert!(matches!(step, Step::Finish { with_answers: false }));
}

#[test]
fn a_failed_prompt_hands_back_its_error() {
    let (mut session, _) = Session::start(vec![mark("region", Vec::new())], pend(&[0]));
    let err = std::io::Error::other("broken pipe");
    let step = session.step(Event::Failed(PromptError::Io(err)));
    match step {
        Step::Io(err) => assert_eq!(err.to_string(), "broken pipe"),
        _ => panic!("expected an I/O step"),
    }
}

#[test]
fn a_flag_asks_yes_or_no() {
    assert_eq!(flag_negation(ArgActionKind::SetTrue), Some(false));
    assert_eq!(flag_negation(ArgActionKind::SetFalse), Some(true));
    assert_eq!(flag_negation(ArgActionKind::TakesValue), None);
    assert_eq!(confirm_value(true, false), "true");
    assert_eq!(confirm_value(false, false), "false");
    assert_eq!(confirm_value(true, true), "false");
    assert_eq!(confirm_value(false, true), "true");
    assert_eq!(prompt_kind(Some(false), 3), PromptKind::Confirm);
    assert_eq!(prompt_kind(None, 0), PromptKind::Text);
    assert_eq!(prompt_kind(None, 2), PromptKind::Select);
}

#[test]
fn the_question_falls_back_to_help_then_id() {
    assert_eq!(question_text(Some("Which port?"), Some("Port"), "port"), "Which port?");
    assert_eq!(question_text(None, Some("Region to deploy to"), "region"), "Region to deploy to");
    assert_eq!(question_text(None, None, "env"), "env");
}

#[test]
fn summary_keeps_the_first_line_without_the_prefix() {
    let rendered = "error: invalid value 'abc' for '--port <PORT>': invalid digit found in string\n\nFor more information, try '--help'.\n";
    assert_eq!(summary(rendered), "invalid value 'abc' for '--port <PORT>': invalid digit found in string");
    assert_eq!(summary("error: bad\r\nnext"), "bad");
    assert_eq!(summary("no prefix here"), "no prefix here");
    assert_eq!(summary("error: "), "");
    assert_eq!(summary(""), "");
    assert_eq!(summary("\nsecond"), "");
}

#[test]
fn a_fired_conditional_default_is_never_asked() {
    let states = vec![state(ValueSourceKind::ConditionalDefault), state(ValueSourceKind::Default(Some("info".to_owned())))];
    let got: Vec<(usize, Option<String>)> = pending(&states).into_iter().map(|p| (p.mark, p.current)).collect();
    assert_eq!(got, [(1, Some("info".to_owned()))]);
}

#[test]
fn prompting_needs_marks_and_a_terminal() {
    assert!(prompts_wanted(2, true));
    assert!(!prompts_wanted(0, true));
    assert!(!prompts_wanted(2, false));
}

#[test]
fn conditional_defaults_are_told_apart_from_plain_ones() {
    assert!(matches!(source_kind(None, false, false, None), ValueSourceKind::Absent));
    assert!(matches!(source_kind(None, true, false, None), ValueSourceKind::ConditionalDefault));
    assert!(matches!(
        source_kind(Some(ClapValueSource::DefaultValue), true, true, Some("debug".to_owned())),
        ValueSourceKind::ConditionalDefault
    ));
    assert!(matches!(
        source_kind(Some(ClapValueSource::DefaultValue), true, false, Some("info".to_owned())),
        ValueSourceKind::Default(Some(raw)) if raw == "info"
    ));
    assert!(matches!(source_kind(Some(ClapValueSource::EnvVariable), true, false, None), ValueSourceKind::Given));
    assert!(matches!(source_kind(Some(ClapValueSource::CommandLine), false, false, None), ValueSourceKind::Given));
}
