use tetanus::chat::{ends, heard, not_a_command, parse, turned, turns_on, Input, Step, Turned, Typed};
use tetanus::event::SessionEvent;
use tetanus::rpc::{ErrorCode, RpcError};

#[test]
fn a_typed_line_is_the_question() {
    assert_eq!(
        parse("what did I just say?\n"),
        Input::Ask("what did I just say?")
    );
    assert_eq!(parse("  spaced out  \n"), Input::Ask("spaced out"));
}

#[test]
fn an_empty_line_asks_nothing() {
    for line in ["\n", "", "   \n", "\t\n"] {
        assert_eq!(parse(line), Input::Blank, "{line:?}");
    }
}

#[test]
fn the_leaving_commands_all_leave() {
    for line in ["/exit\n", "/quit\n", "/q\n", "  /exit  \n"] {
        assert_eq!(parse(line), Input::Leave, "{line:?}");
    }
}

#[test]
fn help_is_asked_for_two_ways() {
    for line in ["/help\n", "/?\n"] {
        assert_eq!(parse(line), Input::Help, "{line:?}");
    }
}

#[test]
fn a_double_slash_asks_what_would_have_been_a_command() {
    assert_eq!(parse("//exit\n"), Input::Ask("/exit"));
    assert_eq!(
        parse("//usr/bin holds what?\n"),
        Input::Ask("/usr/bin holds what?")
    );
    // The escape with nothing after it is one slash, which is not a
    // question worth a turn.
    assert_eq!(parse("//\n"), Input::Blank);
}

#[test]
fn an_unknown_command_is_not_a_question() {
    assert_eq!(parse("/reset\n"), Input::Unknown("/reset"));
    assert_eq!(parse("/model deepseek-chat\n"), Input::Unknown("/model"));
}

#[test]
fn every_way_a_line_arrives_has_a_step() {
    assert!(matches!(heard(Typed::Line("\n".into())), Step::Wait));
    assert!(matches!(heard(Typed::Line("/help".into())), Step::Help));
    assert!(matches!(heard(Typed::Line("hi\n".into())), Step::Ask(said) if said == "hi"));
    assert!(matches!(heard(Typed::Line("/quit".into())), Step::Leave));
    assert!(matches!(heard(Typed::Line("/nope now".into())), Step::Unknown(word) if word == "/nope"));
    assert!(matches!(heard(Typed::Eof), Step::Leave));
    assert!(matches!(heard(Typed::Interrupted), Step::Stop));
    match heard(Typed::Broken("the pipe broke".into())) {
        Step::Fail(error) => {
            assert_eq!(error.kind(), Some(ErrorCode::Io));
            assert_eq!(error.message, "standard input: the pipe broke");
        }
        other => panic!("{other:?}"),
    }
}

#[test]
fn every_way_out_of_a_chat_has_its_status() {
    assert_eq!(ends(&Step::Leave), Some(0));
    assert_eq!(ends(&turned(Turned::Interrupted)), Some(130));
    let failed = RpcError::new(ErrorCode::ProviderError, "unreachable");
    assert_eq!(ends(&turned(Turned::Failed(failed))), Some(6));
    assert_eq!(ends(&turned(Turned::Ended)), None);
    match turned(Turned::Unflushed("disk full".into())) {
        Step::Report(told) => {
            assert_eq!((told.message.as_str(), told.note.as_deref()), ("disk full", None));
            assert_eq!(ends(&Step::Report(told)), Some(1));
        }
        other => panic!("not a report: {other:?}"),
    }
    assert_eq!(ends(&Step::Ask("hi".into())), None);
}

#[test]
fn a_command_nobody_has_is_named_with_the_card_to_read() {
    assert_eq!(not_a_command("/reset"), "/reset is not a command; /help lists them");
}

#[test]
fn every_turn_that_was_started_is_remembered() {
    let event = |ty: &str| SessionEvent { ty: ty.into(), seq: 0, time: 0, data: "{}".into(), source_event_seqs: None };
    let events = [event("turn/start"), event("turn/end"), event("turn/start"), event("step/end")];
    assert_eq!(turns_on(&events), 2);
    assert_eq!(turns_on(&[]), 0);
}
