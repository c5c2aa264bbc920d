use tetanus::acp::client::{
    check_cwd, collect, decode_question, decode_session, decode_settled, decode_update,
    default_timeout, AcpClient, Answered, ClientError, Closing, Launch, Params, PermissionPolicy,
    PromptOutcome, Route, Waited,
};
use tetanus::acp::frame::WireError;
use tetanus::acp::wire::{
    ContentBlock, PermissionOutcome, SessionNotification, SessionUpdate, StopReason,
    ToolCallStatus,
};
use tetanus::render::figures::Elapsed;

fn client() -> AcpClient {
    AcpClient::new(PermissionPolicy::Reject)
}

fn message(text: &str) -> SessionUpdate {
    SessionUpdate::AgentMessageChunk { content: ContentBlock::text(text) }
}

/// The reply an agent writes to a call.
fn reply(id: &str, payload: &str) -> String {
    format!(r#"{{"jsonrpc":"2.0","id":"{id}",{payload}}}"#)
}

#[test]
fn a_client_asks_in_the_order_the_protocol_has() {
    let mut client = client();
    assert!(client.can_call());
    let hello = client.initialize().expect("initialize");
    assert_eq!(hello.method, "initialize");
    let session = client.new_session("/tmp").expect("session/new");
    assert_eq!(session.method, "session/new");
    assert!(matches!(&session.params, Params::NewSession(new) if new.cwd == "/tmp"));
    assert_ne!(hello.id, session.id, "two calls, two ids");

    match client.line(&reply(&session.id, r#""result":{"sessionId":"s1"}"#)) {
        Route::Settle { call, answered } => {
            assert_eq!(call, session.number);
            let got = client
                .waited(call, session.method, Waited::Answered(answered))
                .expect("an answer");
            assert_eq!(decode_session(&got).expect("an id"), "s1");
        }
        other => panic!("{other:?}"),
    }
    // The same answer again is nobody's.
    let again = client.line(&reply(&session.id, r#""result":{"sessionId":"s1"}"#));
    assert!(matches!(again, Route::Ignore), "{again:?}");
}

#[test]
fn a_client_completes_a_whole_turn() {
    let mut client = client();
    let call = client.prompt("s1", vec![ContentBlock::text("hello")]).expect("prompt");
    assert_eq!(call.method, "session/prompt");

    let line = r#"{"jsonrpc":"2.0","method":"session/update","params":{"sessionId":"s1","update":{"sessionUpdate":"agent_message_chunk","content":{"type":"text","text":"You said: hello"}}}}"#;
    let note = match client.line(line) {
        Route::Update(note) => note,
        other => panic!("{other:?}"),
    };
    let settled = decode_settled(r#"{"stopReason":"end_turn"}"#).expect("a stop reason");
    let outcome = PromptOutcome {
        stop_reason: settled.stop_reason,
        updates: collect(vec![note], "s1"),
    };
    assert_eq!(outcome.stop_reason, StopReason::EndTurn);
    assert_eq!(outcome.messages(), ["You said: hello"]);
    assert!(outcome.tool_calls().is_empty());
}

#[test]
fn two_sessions_on_one_connection_do_not_mix() {
    let note = |session: &str, said: &str| SessionNotification {
        session_id: session.to_string(),
        update: message(said),
    };
    let heard = vec![note("a", "apples"), note("b", "oranges"), note("a", "more apples")];
    let kept = collect(heard, "a");
    let outcome = PromptOutcome { stop_reason: StopReason::EndTurn, updates: kept };
    assert_eq!(outcome.messages(), ["apples", "more apples"]);

    let heard = vec![note("a", "apples"), note("b", "oranges"), note("a", "more apples")];
    let kept = collect(heard, "b");
    let outcome = PromptOutcome { stop_reason: StopReason::EndTurn, updates: kept };
    assert!(outcome.messages().iter().any(|said| said.contains("oranges")));
    assert!(
        !outcome.messages().iter().any(|said| said.contains("apples")),
        "the second turn carried the first's work: {:?}",
        outcome.messages(),
    );
}

#[test]
fn an_agent_refusal_crosses_the_pipe_intact() {
    let mut client = client();
    let call = client.prompt("never-opened", vec![ContentBlock::text("hi")]).expect("prompt");
    let payload =
        r#""error":{"code":-32602,"message":"unknown session","data":{"kind":"image"}}"#;
    let answered = match client.line(&reply(&call.id, payload)) {
        Route::Settle { answered, .. } => answered,
        other => panic!("{other:?}"),
    };
    match client.waited(call.number, call.method, Waited::Answered(answered)) {
        Err(ClientError::Refused(error)) => {
            assert_eq!(error.code, -32602);
            assert_eq!(error.message, "unknown session");
            assert_eq!(error.data.as_deref(), Some(r#"{"kind":"image"}"#));
        }
        other => panic!("{other:?}"),
    }
}

#[test]
fn a_client_answers_the_agents_permission_question() {
    for (policy, chosen) in [
        (PermissionPolicy::AllowOnce, "allow-once"),
        (PermissionPolicy::Reject, "reject-once"),
    ] {
        let mut client = AcpClient::new(policy);
        let question = r#"{"jsonrpc":"2.0","id":"tetanus-acp-1","method":"session/request_permission","params":{"sessionId":"s","toolCall":{"toolCallId":"call_7"},"options":[{"optionId":"allow-once","name":"Allow once","kind":"allow_once"},{"optionId":"reject-once","name":"Reject","kind":"reject_once"}]}}"#;
        match client.line(question) {
            Route::Answer {
                id,
                answer: Answered::Outcome(PermissionOutcome::Selected { option_id }),
            } => {
                assert_eq!(id, r#""tetanus-acp-1""#);
                assert_eq!(option_id, chosen);
            }
            other => panic!("{other:?}"),
        }
        assert_eq!(client.answered(), ["call_7"]);
        assert_eq!(policy.option_id(), chosen);
    }
    assert_eq!(PermissionPolicy::default(), PermissionPolicy::Reject);
}

#[test]
fn a_question_without_the_option_is_withdrawn() {
    let mut client = AcpClient::new(PermissionPolicy::AllowOnce);
    let question = r#"{"jsonrpc":"2.0","id":1,"method":"session/request_permission","params":{"sessionId":"s","toolCall":{"toolCallId":"c"},"options":[{"optionId":"reject-once","name":"Reject","kind":"reject_once"}]}}"#;
    assert!(matches!(
        client.line(question),
        Route::Answer { answer: Answered::Outcome(PermissionOutcome::Cancelled), .. }
    ));
    // A request this client does not know is answered, not left waiting.
    let unknown = r#"{"jsonrpc":"2.0","id":2,"method":"fs/read","params":{}}"#;
    assert!(matches!(
        client.line(unknown),
        Route::Answer { answer: Answered::Error { code: -32601, .. }, .. }
    ));
    assert_eq!(
        decode_question(r#"{"toolCall":{"toolCallId":"c"},"options":[{"optionId":"x","name":"X","kind":"k"}]}"#)
            .map(|(call, offered)| (call, offered.len())),
        None,
        "a question names its session",
    );
}

#[test]
fn a_line_that_is_not_the_protocol_is_passed_over() {
    let mut client = client();
    for line in ["", "running 1 test", "42", r#"{"jsonrpc":"2.0","method":"session/hologram"}"#] {
        assert!(matches!(client.line(line), Route::Ignore), "{line}");
    }
}

#[test]
fn closing_is_bounded_and_closing_twice_is_not_an_error() {
    let mut client = client();
    assert!(matches!(client.close(), Closing::Wait(_)));
    assert_eq!(client.close(), Closing::Done);
}

#[test]
fn a_call_after_the_agent_is_gone_fails_promptly() {
    let mut client = client();
    let waiting = client.initialize().expect("initialize");
    assert_eq!(client.ended(), [waiting.number], "the waiter was not released");
    match client.waited(waiting.number, waiting.method, Waited::Released) {
        Err(ClientError::Transport(_)) => {}
        other => panic!("{other:?}"),
    }
    client.close();
    let refused = client.new_session("/tmp").expect_err("the agent is gone");
    assert!(matches!(refused, ClientError::Transport(_)), "{refused:?}");
    assert!(client.cancel("s1").is_err());
}

#[test]
fn a_relative_cwd_is_refused_before_it_is_sent() {
    let mut client = client();
    let refused = client.new_session("workspace").expect_err("a relative cwd");
    assert!(matches!(refused, ClientError::Protocol(_)), "{refused:?}");
    let first = client.initialize().expect("initialize");
    assert_eq!(first.number, AcpClient::new(PermissionPolicy::Reject).initialize().unwrap().number);
}

#[test]
fn a_relative_cwd_is_refused_on_a_load_too() {
    let refused = client().load_session("whatever", "workspace").expect_err("a relative cwd");
    assert!(matches!(refused, ClientError::Protocol(_)), "{refused:?}");
    assert!(check_cwd("/tmp").is_ok());
}

#[test]
fn a_deadline_names_the_call_it_was_for() {
    let mut client = client().with_timeout(Elapsed::from_millis(1_500));
    let call = client.initialize().expect("initialize");
    match client.waited(call.number, call.method, Waited::Elapsed) {
        Err(error) => {
            assert_eq!(error.describe(), "`initialize` did not answer within 1.5s");
        }
        Ok(answered) => panic!("{answered}"),
    }
    // An answer that comes after the deadline is nobody's.
    assert!(matches!(client.line(&reply(&call.id, r#""result":{}"#)), Route::Ignore));
    assert_eq!(default_timeout().secs, 120);
}

#[test]
fn every_failure_says_what_it_was() {
    let refused =
        ClientError::Refused(WireError { code: -32602, message: "no".to_string(), data: None });
    assert_eq!(refused.describe(), "no (code -32602)");
    assert_eq!(
        ClientError::Transport("closed".to_string()).describe(),
        "the agent is gone: closed"
    );
    assert_eq!(
        ClientError::Protocol("odd".to_string()).describe(),
        "the agent broke protocol: odd"
    );
    assert!(matches!(decode_settled("{}"), Err(ClientError::Protocol(_))));
    assert!(matches!(decode_session("{}"), Err(ClientError::Protocol(_))));
}

#[test]
fn an_update_is_read_off_the_wire() {
    match decode_update(
        r#"{"sessionUpdate":"tool_call","toolCallId":"c1","title":"echo","status":"pending","rawInput":{"a":1}}"#,
    ) {
        Some(SessionUpdate::ToolCall { tool_call_id, title, status, raw_input }) => {
            assert_eq!((tool_call_id.as_str(), title.as_str()), ("c1", "echo"));
            assert_eq!(status, ToolCallStatus::Pending);
            assert_eq!(raw_input.as_deref(), Some(r#"{"a":1}"#));
        }
        other => panic!("{other:?}"),
    }
    assert!(decode_update(r#"{"sessionUpdate":"hologram"}"#).is_none());
}

#[test]
fn a_launch_is_built_up_in_order() {
    let launch = Launch::new("agent").arg("--acp").arg("--quiet").env("KEY", "value");
    assert_eq!(launch.program, "agent");
    assert_eq!(launch.args, ["--acp", "--quiet"]);
    assert_eq!(launch.env, [("KEY".to_string(), "value".to_string())]);
    assert_eq!(launch.cwd, None);
}

#[test]
fn closing_twice_is_closing_once() {
    let mut client = client().with_timeout(Elapsed { secs: 3, nanos: 0 });
    client.initialize().expect("initialize");
    assert_eq!(client.close(), Closing::Wait(Elapsed { secs: 3, nanos: 0 }));
    assert_eq!(client.close(), Closing::Done);
    let late = client.new_session("/tmp").expect_err("closed");
    assert!(matches!(late, ClientError::Transport(_)), "{late:?}");
    assert_eq!(client.close(), Closing::Done);
}

#[test]
fn an_answer_may_be_spelled_as_a_list() {
    assert_eq!(decode_session(r#"["s1"]"#).expect("an id"), "s1");
    assert!(decode_session(r#"["s1", 2]"#).is_err());
    let settled = decode_settled(r#"["end_turn"]"#).expect("a reason");
    assert_eq!(settled.stop_reason, StopReason::EndTurn);
    let (call, options) = decode_question(
        r#"["s1", { "toolCallId": "c1" }, [["allow-once", "Allow once", "allow_once"]]]"#,
    )
    .expect("a question");
    assert_eq!((call.as_str(), options), ("c1", vec!["allow-once".to_string()]));
}

#[test]
fn an_update_may_be_spelled_as_a_list() {
    match decode_update(r#"["agent_message_chunk", ["text", "hi"]]"#) {
        Some(SessionUpdate::AgentMessageChunk { content: ContentBlock::Text { text } }) => {
            assert_eq!(text, "hi");
        }
        other => panic!("{other:?}"),
    }
    match decode_update(r#"["tool_call", "c1", "echo", { "pending": null }, null]"#) {
        Some(SessionUpdate::ToolCall { tool_call_id, title, status, raw_input }) => {
            assert_eq!((tool_call_id.as_str(), title.as_str()), ("c1", "echo"));
            assert_eq!(status, ToolCallStatus::Pending);
            assert_eq!(raw_input, None);
        }
        other => panic!("{other:?}"),
    }
    match decode_update(r#"["tool_call_update", "c1", { "completed": {} }, [[0, [0, "out"]]]]"#) {
        Some(SessionUpdate::ToolCallUpdate { status, content, .. }) => {
            assert_eq!(status, ToolCallStatus::Completed);
            assert_eq!(content.len(), 1);
        }
        other => panic!("{other:?}"),
    }
    let left_out = decode_update(r#"["tool_call_update", "c1", "failed"]"#);
    assert!(matches!(left_out, Some(SessionUpdate::ToolCallUpdate { .. })), "{left_out:?}");

    // A list has a place for what a call was given, and no more places after.
    assert!(decode_update(r#"["tool_call", "c1", "echo", "pending"]"#).is_none());
    assert!(decode_update(r#"["tool_call", "c1", "echo", "pending", null, 1]"#).is_none());
    assert!(decode_update(r#"["agent_message_chunk"]"#).is_none());
    assert!(decode_update("[]").is_none());
    // The tag of an update is a word.
    assert!(decode_update(r#"[0, ["text", "hi"]]"#).is_none());
    assert!(decode_update(r#"["tool_call_update", "c1", { "failed": 1 }]"#).is_none());
}

#[test]
fn a_stop_reason_may_be_spelled_as_an_object() {
    let settled = decode_settled(r#"{ "stopReason": { "max_tokens": null } }"#).expect("a reason");
    assert_eq!(settled.stop_reason, StopReason::MaxTokens);
    for broken in [
        r#"{ "stopReason": { "max_tokens": {} } }"#,
        r#"{ "stopReason": { "max_tokens": null, "refusal": null } }"#,
        r#"{ "stopReason": { "tired": null } }"#,
        r#"{ "stopReason": {} }"#,
        r#"{ "stopReason": 0 }"#,
    ] {
        assert!(decode_settled(broken).is_err(), "{broken}");
    }
}
