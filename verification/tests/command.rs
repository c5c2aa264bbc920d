use tetanus::command::{
    broken, exit_status, nowhere_to_draw, Action, Command, Ending, Event, Process, Shape,
};
use tetanus::journal::JournalError;
use tetanus::rpc::{ErrorCode, RpcError};

fn replay(raw: bool, live: bool, ui: bool, json: bool) -> Command {
    Command::Replay { path: "s1".to_string(), dir: None, raw, live, ui, json }
}

/// How a command that answers at once ends.
fn ended(action: Action) -> Ending {
    match action {
        Action::End(ending) => ending,
        other => panic!("not an end: {other:?}"),
    }
}

#[test]
fn a_view_with_no_screen_to_draw_on_opens_nothing() {
    for command in [
        Command::Sessions { dir: None, ui: true, think: false, json: false },
        replay(false, false, true, false),
    ] {
        let (_, action) = Process::start(command, false);
        let ending = ended(action);
        assert_eq!(exit_status(&ending), 2);
        assert!(matches!(ending, Ending::Failed(error) if error.field("field").as_deref() == Some("ui")));
    }
    assert_eq!(nowhere_to_draw().message, "--ui needs a terminal to draw on");
}

#[test]
fn the_pages_that_need_no_settings_answer_at_once() {
    let (_, models) = Process::start(Command::Models { json: true }, true);
    assert!(matches!(ended(models), Ending::Shown(Shape::Json)));
    let (_, tools) = Process::start(Command::Tools { json: false }, true);
    assert!(matches!(ended(tools), Ending::Shown(Shape::Page)));
    let (_, info) = Process::start(Command::Info, true);
    assert_eq!(exit_status(&ended(info)), 0);
}

#[test]
fn the_defaults_are_settled_without_a_document() {
    let dump = |defaults| Command::Config { dir: None, defaults, json: false };
    let (_, compiled) = Process::start(dump(true), true);
    assert!(matches!(compiled, Action::Compile));
    let (mut process, booted) = Process::start(dump(false), true);
    assert!(matches!(booted, Action::Boot));
    assert!(matches!(process.next(Event::Booted("/srv".to_string())), Action::Dump));
    assert!(matches!(ended(process.next(Event::Answered)), Ending::Shown(Shape::Page)));
}

#[test]
fn a_document_that_cannot_be_run_on_is_told_from_one_that_is_refused() {
    let config = || Command::Config { dir: None, defaults: false, json: false };
    let error = || RpcError::new(ErrorCode::InvalidParams, "bad");
    let (mut process, _) = Process::start(config(), true);
    assert!(matches!(ended(process.next(Event::BootUnread(error()))), Ending::Misconfigured(_)));
    let (mut process, _) = Process::start(config(), true);
    let refused = ended(process.next(Event::BootRefused(error())));
    assert_eq!(exit_status(&refused), 2);
    assert!(matches!(refused, Ending::Refused(_)));
}

#[test]
fn a_journal_is_looked_for_where_it_was_said_and_then_under_the_root() {
    let (mut process, first) = Process::start(replay(false, false, false, false), true);
    assert!(matches!(first, Action::Look));
    assert!(matches!(process.next(Event::There(false)), Action::Boot));
    let under = process.next(Event::Booted("/srv/j".to_string()));
    assert!(matches!(under, Action::LookUnder { extended: false }));
    assert!(matches!(process.next(Event::There(false)), Action::LookUnder { extended: true }));
    let ending = ended(process.next(Event::There(false)));
    assert_eq!(exit_status(&ending), 4);
    match ending {
        Ending::Failed(error) => {
            assert_eq!(error.kind(), Some(ErrorCode::SessionNotFound));
            assert_eq!(error.field("path").as_deref(), Some("s1"));
            assert_eq!(error.field("root").as_deref(), Some("/srv/j"));
        }
        other => panic!("{other:?}"),
    }
}

#[test]
fn a_path_that_is_there_is_read_as_it_was_asked_for() {
    let (mut raw, _) = Process::start(replay(true, false, false, false), true);
    assert!(matches!(raw.next(Event::There(true)), Action::ReadText));
    let ending = ended(raw.next(Event::Text(Some(3))));
    assert_eq!(exit_status(&ending), 1);
    assert!(matches!(ending, Ending::Broken(3)));

    let (mut cooked, _) = Process::start(replay(false, false, false, false), true);
    assert!(matches!(cooked.next(Event::There(true)), Action::ReadLog));
    assert!(matches!(ended(cooked.next(Event::Read)), Ending::Shown(Shape::Timeline)));

    let (mut live, _) = Process::start(replay(false, true, false, false), true);
    live.next(Event::There(true));
    assert!(matches!(live.next(Event::Read), Action::Play));

    let (mut viewed, _) = Process::start(replay(false, false, true, false), true);
    viewed.next(Event::There(true));
    assert!(matches!(viewed.next(Event::Read), Action::Browse));
    match ended(viewed.next(Event::NoView("no tty".to_string()))) {
        Ending::Noted(Shape::Timeline, said) => assert_eq!(said, "no full-screen view: no tty"),
        other => panic!("{other:?}"),
    }
}

#[test]
fn a_journal_that_cannot_be_read_names_its_line() {
    let (mut process, _) = Process::start(replay(false, false, false, false), true);
    process.next(Event::There(true));
    let error = JournalError::Corrupt { line: 12, said: "bad line".to_string() };
    match ended(process.next(Event::Unread(error, "/srv/j/s1.jsonl".to_string()))) {
        Ending::Failed(error) => {
            assert_eq!(error.kind(), Some(ErrorCode::LogCorrupt));
            assert_eq!(error.number("line"), Some(12));
        }
        other => panic!("{other:?}"),
    }
    assert_eq!(
        broken(2),
        (
            "the journal is not readable at line 2".to_string(),
            "that line is shown above; repair or remove it"
        )
    );
}

#[test]
fn an_interrupted_view_exits_as_an_interrupted_command() {
    let (mut process, _) =
        Process::start(Command::Sessions { dir: None, ui: true, think: false, json: false }, true);
    assert!(matches!(process.next(Event::Booted("/srv".to_string())), Action::List));
    assert!(matches!(process.next(Event::Answered), Action::Pick(None)));
    assert_eq!(exit_status(&ended(process.next(Event::Interrupted))), 130);
}

#[test]
fn only_what_is_bound_is_announced() {
    let socket = || Command::Serve { dir: None, listen: Some("127.0.0.1:0".to_string()) };
    let (mut process, _) = Process::start(socket(), true);
    assert!(matches!(process.next(Event::Booted("/srv".to_string())), Action::Bind));
    match process.next(Event::Bound("127.0.0.1:34567".to_string())) {
        Action::Announce(Some(address)) => assert_eq!(address, "127.0.0.1:34567"),
        other => panic!("{other:?}"),
    }
    assert!(matches!(process.next(Event::Announced), Action::Serve));
    assert_eq!(exit_status(&ended(process.next(Event::Ended))), 0);

    let (mut taken, _) = Process::start(socket(), true);
    taken.next(Event::Booted("/srv".to_string()));
    match ended(taken.next(Event::Unbound("in use".to_string()))) {
        Ending::Failed(error) => {
            assert!(error.message.contains("127.0.0.1:0"), "{error:?}");
            assert!(error.message.contains("in use"), "{error:?}");
        }
        other => panic!("{other:?}"),
    }

    let (mut stdio, _) = Process::start(Command::Serve { dir: None, listen: None }, true);
    let said = stdio.next(Event::Booted("/srv".to_string()));
    assert!(matches!(said, Action::Announce(None)));
}

#[test]
fn a_session_chosen_off_the_list_is_read_and_come_back_from() {
    let command = Command::Sessions { dir: None, ui: true, think: true, json: false };
    let (mut process, action) = Process::start(command, true);
    assert!(matches!(action, Action::Boot));
    assert!(matches!(process.next(Event::Booted("/srv".to_string())), Action::List));
    assert!(matches!(process.next(Event::Answered), Action::Pick(None)));
    assert!(matches!(process.next(Event::Chosen), Action::ReadLog));
    assert!(matches!(process.next(Event::Read), Action::Browse));
    assert!(matches!(process.next(Event::Quit), Action::Pick(None)));

    assert!(matches!(process.next(Event::Chosen), Action::ReadLog));
    let corrupt = JournalError::Corrupt { line: 3, said: "bad line".to_string() };
    match process.next(Event::Unread(corrupt, "/srv/s1.jsonl".to_string())) {
        Action::Pick(Some(why)) => assert_eq!(why, "bad line"),
        other => panic!("the list is gone: {other:?}"),
    }
    assert!(matches!(ended(process.next(Event::Quit)), Ending::Closed));
}

#[test]
fn a_refused_default_is_nobodys_document_to_fix() {
    let compiled = Command::Config { dir: None, defaults: true, json: false };
    let (mut process, _) = Process::start(compiled, true);
    let refused = ended(process.next(Event::BootRefused(RpcError::new(ErrorCode::InvalidParams, "bad"))));
    assert!(matches!(refused, Ending::Failed(_)), "{refused:?}");
}
