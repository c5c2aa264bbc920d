use tetanus::journal::JournalError;
use tetanus::rpc::{ErrorCode, RpcError};
use tetanus::run::{
    drawn, exit_status, trace_row, Action, Ending, Event, Print, Run, Shown, Watch,
};

fn shown(trace: bool, json: bool, ui: bool) -> Shown {
    Shown { trace, json, ui }
}

fn ended(action: Action) -> Ending {
    match action {
        Action::End(ending) => ending,
        other => panic!("not an end: {other:?}"),
    }
}

/// Every step of a run that nothing stops, up to the turn.
fn working(shown: Shown) -> (Run, Watch) {
    let (mut run, first) = Run::start(shown, true);
    assert!(matches!(first, Action::Ask));
    loop {
        match run.next("j.jsonl", Event::Done) {
            Action::Work(watch) => return (run, watch),
            Action::End(ending) => panic!("ended before the turn: {ending:?}"),
            _ => {}
        }
    }
}

#[test]
fn a_run_goes_through_every_step_in_order() {
    let (mut run, first) = Run::start(shown(false, false, false), true);
    assert!(matches!(first, Action::Ask));
    assert!(matches!(run.next("j.jsonl", Event::Done), Action::Settle));
    assert!(matches!(run.next("j.jsonl", Event::Done), Action::Adapt));
    assert!(matches!(run.next("j.jsonl", Event::Done), Action::Open { named: true }));
}

#[test]
fn a_run_with_no_screen_to_draw_on_asks_nothing() {
    let (_, action) = Run::start(shown(false, false, true), false);
    assert_eq!(exit_status(&ended(action)), 2);
}

#[test]
fn what_is_watched_is_what_was_asked_for() {
    assert_eq!(working(shown(true, false, false)).1, Watch::Progress);
    assert_eq!(working(shown(false, true, false)).1, Watch::Json);
    assert_eq!(working(shown(false, false, true)).1, Watch::Page);
    assert_eq!(working(shown(false, false, false)).1, Watch::Live);
    assert!(drawn(Watch::Live, true) && !drawn(Watch::Live, false));
    assert!(drawn(Watch::Page, true));
    assert!(!drawn(Watch::Json, true) && !drawn(Watch::Progress, true));
}

#[test]
fn a_finished_run_prints_what_was_asked_for() {
    for (asked, printed) in [
        (shown(true, false, false), Print::Trace),
        (shown(false, true, false), Print::Json),
        (shown(false, false, true), Print::Answer),
        (shown(false, false, false), Print::Journal),
    ] {
        let (mut run, _) = working(asked);
        let mut action = run.next("j.jsonl", Event::Done);
        if let Action::Flush = action {
            action = run.next("j.jsonl", Event::Done);
        }
        match ended(action) {
            Ending::Printed(print) => assert_eq!(print, printed),
            other => panic!("{other:?}"),
        }
    }
}

#[test]
fn a_stopped_run_says_where_the_journal_is_unless_a_script_reads_it() {
    for (asked, journal) in [(shown(false, false, false), true), (shown(false, true, false), false)]
    {
        let (mut run, _) = working(asked);
        let ending = ended(run.next("j.jsonl", Event::Stopped));
        assert_eq!(exit_status(&ending), 130);
        assert!(matches!(ending, Ending::Stopped { journal: said } if said == journal));
    }
}

#[test]
fn a_failed_turn_is_reported_with_its_own_status() {
    let (mut run, _) = working(shown(false, false, false));
    let error = RpcError::new(ErrorCode::ProviderError, "unreachable");
    assert_eq!(exit_status(&ended(run.next("j.jsonl", Event::Failed(error)))), 6);

    let (mut run, _) = working(shown(false, false, false));
    let told = ended(run.next("j.jsonl", Event::Said("out of room".to_string())));
    assert_eq!(exit_status(&told), 1);
    assert!(matches!(told, Ending::Reported(told) if told.message == "out of room"));

    let (mut run, _) = Run::start(shown(false, false, false), true);
    let unread = JournalError::Io("denied".to_string());
    match ended(run.next("j.jsonl", Event::Unlogged(unread))) {
        Ending::Failed(error) => {
            assert_eq!(error.kind(), Some(ErrorCode::Io));
            assert_eq!(error.field("path").as_deref(), Some("j.jsonl"));
        }
        other => panic!("{other:?}"),
    }
}

#[test]
fn an_entry_of_the_sequence_keeps_its_columns() {
    assert_eq!(trace_row(3, Some(17), "turn/start", Some("{}")).text(), "   3    17  turn/start  {}");
    assert_eq!(trace_row(12, None, "progress", None).text(), "  12        progress");
}
