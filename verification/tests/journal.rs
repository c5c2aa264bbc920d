use tetanus::event::{SessionEvent, StopReason};
use tetanus::journal::{
    about, journal_fault, journal_home, journal_lines, missing_journal, next_seq, reason, JournalError, TurnStop,
};
use tetanus::render::raw::Line;
use tetanus::rpc::{ErrorCode, RpcError};

#[test]
fn every_way_a_journal_fails_has_its_code() {
    let corrupt = JournalError::Corrupt { line: 4, said: "bad".to_string() };
    let error = journal_fault(&corrupt, "j");
    assert_eq!(error.kind(), Some(ErrorCode::LogCorrupt));
    assert_eq!(error.number("line"), Some(4));
    let io = journal_fault(&JournalError::Io("denied".to_string()), "/j");
    assert_eq!(io.kind(), Some(ErrorCode::Io));
    assert_eq!(io.field("path").as_deref(), Some("/j"));
    let other = journal_fault(&JournalError::Other("odd".to_string()), "/j");
    assert_eq!((other.kind(), other.data), (Some(ErrorCode::Internal), None));
}

#[test]
fn a_journal_that_is_not_there_says_where_it_was_looked_for() {
    let path = missing_journal("nope.jsonl", None);
    assert_eq!(path.message, "no journal at nope.jsonl");
    assert_eq!(path.field("root"), None);
    let id = missing_journal("s1", Some("/srv/j"));
    assert_eq!(id.field("root").as_deref(), Some("/srv/j"));
    assert_eq!(id.field("path").as_deref(), Some("s1"));
}

#[test]
fn a_path_that_was_named_stands() {
    let bare = about(RpcError::new(ErrorCode::Io, "denied"), "/j");
    assert_eq!(bare.field("path").as_deref(), Some("/j"));
    let named = RpcError::about(ErrorCode::Io, "denied", "path", "/other");
    assert_eq!(about(named, "/j").field("path").as_deref(), Some("/other"));
    let elsewhere = about(RpcError::new(ErrorCode::Internal, "odd"), "/j");
    assert_eq!(elsewhere.field("path"), None);
}

#[test]
fn every_line_that_holds_anything_keeps_its_number() {
    let text = "{\"type\":\"a\",\"seq\":0,\"time\":1,\"data\":{}}\n\n  \nhalf a line\n";
    let lines = journal_lines(text);
    assert_eq!(lines.len(), 2);
    assert!(matches!(&lines[0], Line::Event(event) if event.ty == "a"));
    assert!(matches!(&lines[1], Line::Unreadable { number: 4, text } if text == "half a line"));
    assert!(journal_lines("\n \n").is_empty());
}

#[test]
fn the_next_event_follows_the_last() {
    let event = |seq| SessionEvent {
        ty: "a".to_string(),
        seq,
        time: 0,
        data: "{}".to_string(),
        source_event_seqs: None,
    };
    assert_eq!(next_seq(&Vec::new()), 0);
    assert_eq!(next_seq(&vec![event(0), event(7)]), 8);
}

#[test]
fn every_stop_crosses_under_a_word() {
    assert_eq!(reason(TurnStop::Natural), StopReason::Natural);
    assert_eq!(reason(TurnStop::PreStepRejected), StopReason::PreStepRejected);
    assert_eq!(reason(TurnStop::MaxSteps), StopReason::MaxSteps);
    assert_eq!(reason(TurnStop::Cancelled), StopReason::Cancelled);
    assert_eq!(reason(TurnStop::MaxTokens).as_str(), "max-tokens");
    assert_eq!(reason(TurnStop::Interrupted).as_str(), "interrupted");
}

#[test]
fn a_journal_is_kept_where_its_path_says() {
    let text = |said: &str| Some(said.to_string());
    assert_eq!(
        journal_home(text("/srv/j"), text("turn"), true),
        ("/srv/j".to_string(), text("turn"))
    );
    assert_eq!(journal_home(text("/srv/j"), text("turn"), false).1, None);
    assert_eq!(journal_home(text(""), None, true), (".".to_string(), None));
    assert_eq!(journal_home(None, text("turn"), true), (".".to_string(), text("turn")));
}
