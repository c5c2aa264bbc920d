use tetanus::acp::bridge::{
    absolute, decided, outcome_of, AcpBridge, Answer, ApprovalOutcome, Step,
};
use tetanus::acp::content::accept;
use tetanus::acp::frame::{Message, WireError};
use tetanus::acp::updates::{replay, updates_of};
use tetanus::acp::wire::{
    ContentBlock, PermissionOutcome, RequestPermissionResponse, SessionUpdate,
    ToolCallContent, ToolCallStatus, PROTOCOL_VERSION,
};
use tetanus::acp::wire::StopReason as Acp;
use tetanus::event::SessionEvent;
use tetanus::event::StopReason as Harness;
use tetanus::rpc::{ErrorCode, RpcError};

/// A request, as a client writes one.
fn request(id: i64, method: &str, params: &str) -> String {
    format!(r#"{{"jsonrpc":"2.0","id":{id},"method":"{method}","params":{params}}}"#)
}

/// A notification, as a client writes one.
fn notification(method: &str, params: &str) -> String {
    format!(r#"{{"jsonrpc":"2.0","method":"{method}","params":{params}}}"#)
}

/// A connection that has introduced itself.
fn greeted() -> AcpBridge {
    let mut bridge = AcpBridge::new();
    bridge.initialize();
    bridge
}

/// A connection with one session on it.
fn opened() -> AcpBridge {
    let mut bridge = greeted();
    bridge.created(Ok("s1".to_string())).expect("a session");
    bridge
}

fn prompt_of(session_id: &str, text: &str) -> String {
    format!(r#"{{"sessionId":"{session_id}","prompt":[{{"type":"text","text":"{text}"}}]}}"#)
}

/// The refusal a step answers with.
fn refused(step: Step) -> RpcError {
    match step {
        Step::Answer { answer: Answer::Refused(error), .. } => error,
        other => panic!("expected a refusal, got {other:?}"),
    }
}

fn committed(ty: &str, data: &str) -> SessionEvent {
    SessionEvent {
        ty: ty.to_string(),
        seq: 0,
        time: 0,
        data: data.to_string(),
        source_event_seqs: None,
    }
}

#[test]
fn initialize_states_one_version_and_no_capabilities() {
    let mut bridge = AcpBridge::new();
    match bridge.frame(&request(1, "initialize", r#"{ "protocolVersion": 99 }"#)) {
        Step::Answer { id, answer: Answer::Initialized(hello) } => {
            assert_eq!(id, "1", "the answer echoes the id");
            assert_eq!(hello.protocol_version, PROTOCOL_VERSION);
            assert_eq!(hello.agent_info.name, "tetanus-acp");
            assert!(hello.auth_methods.is_empty());
            let prompts = hello.agent_capabilities.prompt_capabilities;
            assert!(!prompts.image && !prompts.audio && !prompts.embedded_context);
            assert!(hello.agent_capabilities.load_session);
        }
        other => panic!("{other:?}"),
    }
}

#[test]
fn a_call_before_initialize_is_refused() {
    let mut bridge = AcpBridge::new();
    let error = refused(bridge.frame(&request(1, "session/new", r#"{ "cwd": "/tmp" }"#)));
    assert_eq!(error.kind(), Some(ErrorCode::InvalidRequest));
    assert!(error.message.contains("initialize"), "{error:?}");

    bridge.initialize();
    let served = bridge.frame(&request(2, "session/new", r#"{ "cwd": "/tmp" }"#));
    assert!(matches!(served, Step::Create { id } if id == "2"));
}

#[test]
fn authenticate_is_a_no_op_because_nothing_was_advertised() {
    let step = greeted().frame(&request(1, "authenticate", "{}"));
    assert!(matches!(step, Step::Answer { answer: Answer::Authenticated, .. }), "{step:?}");
}

#[test]
fn a_session_needs_an_absolute_cwd_and_no_mcp_servers() {
    let mut bridge = greeted();
    let relative = refused(bridge.frame(&request(1, "session/new", r#"{ "cwd": "workspace" }"#)));
    assert_eq!(relative.data.as_deref(), Some(r#"{"field":"cwd"}"#));

    let mounted = bridge.frame(&request(
        2,
        "session/new",
        r#"{ "cwd": "/tmp", "mcpServers": [{ "name": "x" }] }"#,
    ));
    assert_eq!(refused(mounted).data.as_deref(), Some(r#"{"field":"mcpServers"}"#));

    let plain = bridge.frame(&request(3, "session/new", r#"{ "cwd": "/tmp", "mcpServers": [] }"#));
    assert!(matches!(plain, Step::Create { .. }), "{plain:?}");
    assert_eq!(bridge.created(Ok("s1".into())).expect("an id").session_id, "s1");
}

#[test]
fn an_absolute_path_starts_at_the_root() {
    assert!(absolute("/tmp"));
    assert!(!absolute("tmp"));
    assert!(!absolute(""));
}

#[test]
fn a_prompt_for_an_unknown_session_is_refused() {
    let error = refused(
        greeted().frame(&request(1, "session/prompt", &prompt_of("somebody-elses-session", "hi"))),
    );
    assert_eq!(error.kind(), Some(ErrorCode::InvalidParams));
    assert!(error.message.contains("unknown session"), "{error:?}");
}

#[test]
fn prompt_admission_preserves_order_and_refuses_what_was_not_advertised() {
    let mut bridge = opened();
    for (prompt, kind) in [
        ("[]", None),
        (r#"[{ "type": "text", "text": "   " }]"#, None),
        (r#"[{ "type": "image", "data": "AA", "mimeType": "image/png" }]"#, Some("image")),
        (r#"[{ "type": "audio", "data": "AA", "mimeType": "audio/wav" }]"#, Some("audio")),
        (r#"[{ "type": "resource", "resource": { "text": "x" } }]"#, Some("resource")),
        (r#"[{ "type": "hologram" }]"#, Some("hologram")),
    ] {
        let params = format!(r#"{{ "sessionId": "s1", "prompt": {prompt} }}"#);
        let error = refused(bridge.frame(&request(1, "session/prompt", &params)));
        assert_eq!(error.kind(), Some(ErrorCode::InvalidParams), "{error:?}");
        let named = kind.map(|kind| format!(r#"{{"kind":"{kind}"}}"#));
        assert_eq!(error.data, named, "{error:?}");
    }

    let mixed = r#"{ "sessionId": "s1", "prompt": [
        { "type": "text", "text": "read this" },
        { "type": "resource_link", "name": "notes", "uri": "file:///notes.md" },
        { "type": "text", "text": "and summarise" }
    ] }"#;
    match bridge.frame(&request(2, "session/prompt", mixed)) {
        Step::Prompt { session_id, content, .. } => {
            assert_eq!(session_id, "s1");
            assert_eq!(
                content,
                "read this\n[resource_link name=notes uri=file:///notes.md]\nand summarise"
            );
        }
        other => panic!("{other:?}"),
    }
}

#[test]
fn a_prompt_is_taken_whole_or_not_at_all() {
    let blocks = [ContentBlock::text("one"), ContentBlock::Other(r#"{"type":"hologram"}"#.into())];
    let error = accept(&blocks).expect_err("a block nobody advertised");
    assert_eq!(error.kind.as_deref(), Some("hologram"));
    assert_eq!(accept(&blocks[..1]).expect("text"), "one");
}

#[test]
fn one_prompt_at_a_time_per_session() {
    let mut bridge = opened();
    let first = bridge.frame(&request(1, "session/prompt", &prompt_of("s1", "one")));
    assert!(matches!(first, Step::Prompt { .. }), "{first:?}");

    let second = refused(bridge.frame(&request(2, "session/prompt", &prompt_of("s1", "two"))));
    assert!(second.message.contains("already in flight"), "{second:?}");

    let answered = bridge.settled("s1", Ok(Harness::Natural)).expect("settled");
    assert_eq!(answered.stop_reason, Acp::EndTurn);
    assert!(bridge.claim("s1").is_ok(), "the slot was not given back");
}

#[test]
fn cancel_is_one_way_and_an_unknown_session_is_a_no_op() {
    let mut bridge = opened();
    let known = bridge.frame(&notification("session/cancel", r#"{ "sessionId": "s1" }"#));
    assert!(matches!(&known, Step::Interrupt { session_id } if session_id == "s1"), "{known:?}");
    let unknown = bridge.frame(&notification("session/cancel", r#"{ "sessionId": "nobody" }"#));
    assert!(matches!(unknown, Step::Silent), "{unknown:?}");
}

#[test]
fn an_explicitly_cancelled_prompt_settles_cancelled() {
    let mut bridge = opened();
    bridge.frame(&request(1, "session/prompt", &prompt_of("s1", "work")));
    let step = bridge.cancel("s1".to_string());
    assert!(matches!(step, Step::Interrupt { session_id } if session_id == "s1"));

    let answered = bridge.settled("s1", Ok(Harness::Natural)).expect("settled");
    assert_eq!(answered.stop_reason, Acp::Cancelled);
    // A cancel outlives the turn it was for by nothing.
    bridge.claim("s1").expect("the slot");
    let again = bridge.settled("s1", Ok(Harness::Natural)).expect("settled");
    assert_eq!(again.stop_reason, Acp::EndTurn);
}

#[test]
fn the_stop_reason_mapping_is_total() {
    assert_eq!(Acp::of(&Harness::Natural), Acp::EndTurn);
    assert_eq!(Acp::of(&Harness::MaxSteps), Acp::MaxTurnRequests);
    assert_eq!(Acp::of(&Harness::Cancelled), Acp::Cancelled);
    assert_eq!(Acp::of(&Harness::PreStepRejected), Acp::EndTurn);
    assert_eq!(
        Acp::of(&Harness::Other("something-new".into())),
        Acp::EndTurn,
        "a word this build does not know is quiescence, not a refusal",
    );
}

/// A turn that says something, calls a tool, and answers.
fn turn() -> Vec<SessionEvent> {
    vec![
        committed("turn/start", r#"{"turn":1}"#),
        committed("user/message", r#"{"content":"hi"}"#),
        committed("assistant/chunk", r#"{"chunk":"text","delta":"Let me","turn":1,"step":1}"#),
        committed("assistant/message", r#"{"content":"Let me echo that back."}"#),
        committed("tool/call", r#"{"id":"c1","name":"echo","arguments":{"text":"hi"}}"#),
        committed("tool/result", r#"{"call_id":"c1","name":"echo","ok":true,"content":"hi"}"#),
        committed("assistant/message", r#"{"content":"You said: hi"}"#),
        committed("turn/end", r#"{"turn":1,"steps":2,"stop_reason":"natural"}"#),
    ]
}

#[test]
fn only_committed_messages_reach_the_client() {
    let texts: Vec<String> = turn()
        .iter()
        .flat_map(updates_of)
        .filter_map(|update| match update {
            SessionUpdate::AgentMessageChunk { content: ContentBlock::Text { text } } => Some(text),
            _ => None,
        })
        .collect();
    assert_eq!(texts, ["Let me echo that back.", "You said: hi"]);
}

#[test]
fn a_tool_call_and_its_result_name_each_other() {
    let told = replay(&turn());
    assert_eq!(told.len(), 4, "{told:?}");
    match (&told[1], &told[2]) {
        (
            SessionUpdate::ToolCall { tool_call_id, title, status, raw_input },
            SessionUpdate::ToolCallUpdate { tool_call_id: answered, status: ended, content },
        ) => {
            assert_eq!((title.as_str(), *status), ("echo", ToolCallStatus::Pending));
            assert_eq!(raw_input.as_deref(), Some(r#"{"text":"hi"}"#));
            assert_eq!(answered, tool_call_id);
            assert_eq!(*ended, ToolCallStatus::Completed);
            match &content[0] {
                ToolCallContent::Content { content: ContentBlock::Text { text } } => {
                    assert_eq!(text, "hi");
                }
                other => panic!("{other:?}"),
            }
        }
        other => panic!("{other:?}"),
    }
    let failed = committed("tool/result", r#"{"call_id":"c1","name":"echo","ok":false,"content":""}"#);
    assert!(matches!(
        updates_of(&failed)[0],
        SessionUpdate::ToolCallUpdate { status: ToolCallStatus::Failed, .. }
    ));
}

#[test]
fn a_permission_question_is_one_shot_and_fails_closed() {
    for (answer, expected) in [
        (
            r#""result":{"outcome":{"outcome":"selected","optionId":"allow-once"}}"#,
            ApprovalOutcome::AllowedOnce,
        ),
        (
            r#""result":{"outcome":{"outcome":"selected","optionId":"reject-once"}}"#,
            ApprovalOutcome::Rejected,
        ),
        (r#""result":{"outcome":{"outcome":"cancelled"}}"#, ApprovalOutcome::Cancelled),
        (
            r#""result":{"outcome":{"outcome":"selected","optionId":"always-allow"}}"#,
            ApprovalOutcome::Unavailable,
        ),
        (r#""error":{"code":-32603,"message":"no"}"#, ApprovalOutcome::Unavailable),
    ] {
        let mut bridge = AcpBridge::new();
        let (id, asked) = bridge.request_permission("s", "call_1");
        assert_eq!(asked.tool_call.tool_call_id, "call_1");
        let offered: Vec<&str> =
            asked.options.iter().map(|option| option.option_id.as_str()).collect();
        assert_eq!(offered, ["allow-once", "reject-once"], "one-shot only");

        let reply = format!(r#"{{"jsonrpc":"2.0","id":"{id}",{answer}}}"#);
        match bridge.frame(&reply) {
            Step::Release { waiter, answered } => {
                assert_eq!(waiter, id);
                assert_eq!(outcome_of(Some(answered)), expected);
            }
            other => panic!("{other:?}"),
        }
        // The question is answered once: the same reply again is nobody's.
        assert!(matches!(bridge.frame(&reply), Step::Silent));
    }
}

#[test]
fn only_the_offered_grant_grants() {
    let chosen = |id: &str| PermissionOutcome::Selected { option_id: id.to_string() };
    assert_eq!(decided(&chosen("allow-once")), ApprovalOutcome::AllowedOnce);
    assert_eq!(decided(&chosen("reject-once")), ApprovalOutcome::Rejected);
    assert_eq!(decided(&chosen("allow-always")), ApprovalOutcome::Unavailable);
    assert_eq!(decided(&PermissionOutcome::Cancelled), ApprovalOutcome::Cancelled);
    assert_eq!(outcome_of(None), ApprovalOutcome::Unavailable);
    assert!(RequestPermissionResponse::decode(r#"{"outcome":{"outcome":"perhaps"}}"#).is_none());
}

#[test]
fn a_bridge_request_carries_a_non_colliding_id() {
    let mut bridge = AcpBridge::new();
    assert!(bridge.can_ask());
    let (first, _) = bridge.request_permission("s", "c");
    let (second, _) = bridge.request_permission("s", "c");
    for id in [&first, &second] {
        assert!(id.starts_with("tetanus-acp-"), "{id}");
    }
    assert_ne!(first, second, "each question gets its own id");
}

#[test]
fn shutdown_releases_waiters_and_refuses_later_calls() {
    let mut bridge = opened();
    let (id, _) = bridge.request_permission("s1", "c");
    assert_eq!(bridge.shutdown(), [id]);
    assert_eq!(outcome_of(None), ApprovalOutcome::Unavailable);

    let later = refused(bridge.frame(&request(1, "session/new", r#"{ "cwd": "/tmp" }"#)));
    assert!(later.message.contains("shut down"), "{later:?}");
    assert!(bridge.shutdown().is_empty());
}

#[test]
fn malformed_frames_are_answered_and_unknown_notifications_ignored() {
    let mut bridge = greeted();
    for (raw, code) in [("{not json", ErrorCode::ParseError), ("42", ErrorCode::InvalidRequest)] {
        match bridge.frame(raw) {
            Step::Answer { id, answer: Answer::Refused(error) } => {
                assert_eq!(id, "null", "released with a null id");
                assert_eq!(error.kind(), Some(code));
            }
            other => panic!("{other:?}"),
        }
    }

    let unknown = refused(bridge.frame(&request(1, "session/load", "{}")));
    assert_eq!(unknown.kind(), Some(ErrorCode::MethodNotFound));
    let made_up = refused(bridge.frame(&request(2, "session/hologram", "{}")));
    assert_eq!(made_up.kind(), Some(ErrorCode::MethodNotFound));

    assert!(matches!(bridge.frame(&notification("session/hologram", "{}")), Step::Silent));
}

#[test]
fn a_loaded_session_is_read_back_and_can_be_prompted() {
    let mut bridge = greeted();
    let load = request(1, "session/load", r#"{ "sessionId": "s7", "cwd": "/tmp" }"#);
    match bridge.frame(&load) {
        Step::Load { id, session_id } => assert_eq!((id.as_str(), session_id.as_str()), ("1", "s7")),
        other => panic!("{other:?}"),
    }
    let told = bridge.loaded("s7", Ok(turn())).expect("a history");
    assert_eq!(told.len(), 4);
    let step = bridge.frame(&request(2, "session/prompt", &prompt_of("s7", "go on")));
    assert!(matches!(step, Step::Prompt { .. }), "{step:?}");
}

#[test]
fn a_failed_turn_gives_its_slot_back() {
    let mut bridge = opened();
    bridge.claim("s1").expect("the slot");
    let failed = RpcError::new(ErrorCode::ProviderError, "unreachable");
    let error = bridge.settled("s1", Err(failed)).expect_err("the turn failed");
    assert_eq!(error.kind(), Some(ErrorCode::ProviderError));
    assert!(bridge.claim("s1").is_ok());
}

#[test]
fn a_frame_is_a_request_a_notification_or_a_response() {
    assert!(matches!(
        Message::decode(r#"{"jsonrpc":"2.0","id":"a","method":"m","params":{"x": 1}}"#),
        Some(Message::Request { id, method, params })
            if id == r#""a""# && method == "m" && params == r#"{"x":1}"#
    ));
    assert!(matches!(
        Message::decode(r#"{"jsonrpc":"2.0","method":"m"}"#),
        Some(Message::Notification { method, .. }) if method == "m"
    ));
    assert!(matches!(
        Message::decode(r#"{"jsonrpc":"2.0","id":4,"result":{}}"#),
        Some(Message::Response { id, payload: Ok(result) }) if id == "4" && result == "{}"
    ));
    match Message::decode(r#"{"jsonrpc":"2.0","id":4,"error":{"code":-32601,"message":"no"}}"#) {
        Some(Message::Response { payload: Err(WireError { code, message, .. }), .. }) => {
            assert_eq!((code, message.as_str()), (-32601, "no"));
        }
        other => panic!("{other:?}"),
    }
    assert!(Message::decode("42").is_none());
}

#[test]
fn a_block_nobody_knows_keeps_its_kind() {
    assert_eq!(ContentBlock::decode(r#"{ "type": "hologram" }"#).kind(), "hologram");
    assert_eq!(ContentBlock::decode(r#"{ "type": "text", "text": "hi" }"#).kind(), "text");
}

#[test]
fn parameters_that_are_no_record_are_refused_whole() {
    let mut bridge = AcpBridge::new();
    for params in ["7", "\"one\"", "true", "[1, null, 3]", r#"{ "protocolVersion": "one" }"#] {
        let error = refused(bridge.frame(&request(1, "initialize", params)));
        assert_eq!(error.kind(), Some(ErrorCode::InvalidParams), "{params}");
        assert_eq!(error.data, None, "{params}");
    }
    let early = refused(bridge.frame(&request(2, "authenticate", "{}")));
    assert_eq!(early.kind(), Some(ErrorCode::InvalidRequest), "a refused call initialized");

    let mut bridge = opened();
    for params in ["7", r#"["/tmp", [], 3]"#, r#"{ "cwd": 7 }"#, r#"{ "cwd": "/tmp", "mcpServers": 7 }"#] {
        let error = refused(bridge.frame(&request(3, "session/new", params)));
        assert_eq!(error.kind(), Some(ErrorCode::InvalidParams), "{params}");
        assert_eq!(error.data, None, "{params}");
    }
    for params in ["7", "{}", r#"{ "sessionId": 7 }"#, r#"{ "sessionId": "s1", "prompt": 7 }"#] {
        let error = refused(bridge.frame(&request(4, "session/prompt", params)));
        assert_eq!(error.kind(), Some(ErrorCode::InvalidParams), "{params}");
        assert_eq!(error.data, None, "{params}");
    }
}

#[test]
fn a_record_may_be_spelled_as_a_list() {
    let mut bridge = AcpBridge::new();
    let hello = bridge.frame(&request(1, "initialize", "[1]"));
    assert!(matches!(hello, Step::Answer { answer: Answer::Initialized(_), .. }), "{hello:?}");
    let made = bridge.frame(&request(2, "session/new", r#"["/tmp", []]"#));
    assert!(matches!(made, Step::Create { .. }), "{made:?}");
    bridge.created(Ok("s1".to_string())).expect("created");
    let asked = bridge.frame(&request(
        3,
        "session/prompt",
        r#"["s1", [{ "type": "text", "text": "hi" }]]"#,
    ));
    assert!(matches!(&asked, Step::Prompt { content, .. } if content == "hi"), "{asked:?}");
    let stop = bridge.frame(&notification("session/cancel", r#"["s1"]"#));
    assert!(matches!(&stop, Step::Interrupt { session_id } if session_id == "s1"), "{stop:?}");
}

#[test]
fn a_block_may_be_spelled_as_a_list_or_tagged_by_its_place() {
    let text = |json: &str| match ContentBlock::decode(json) {
        ContentBlock::Text { text } => text,
        other => panic!("{json}: {other:?}"),
    };
    assert_eq!(text(r#"["text","hi"]"#), "hi");
    assert_eq!(text(r#"[0,"hi"]"#), "hi");
    assert_eq!(text(r#"{"type":0,"text":"hi"}"#), "hi");
    let image = ContentBlock::decode(r#"["image","aGk=","image/png"]"#);
    assert!(
        matches!(&image, ContentBlock::Image { data, mime_type }
            if data == "aGk=" && mime_type == "image/png"),
        "{image:?}",
    );
    assert_eq!(ContentBlock::decode(r#"[2,"aGk=","audio/wav"]"#).kind(), "audio");
    let link = ContentBlock::decode(r#"["resource_link","notes","file:///n"]"#);
    assert!(
        matches!(&link, ContentBlock::ResourceLink { name, uri }
            if name == "notes" && uri == "file:///n"),
        "{link:?}",
    );
    assert_eq!(ContentBlock::decode(r#"[4,{"uri":"file:///n"}]"#).kind(), "resource");

    // What fits no kind is kept as it arrived.
    for other in [r#"["text"]"#, r#"["text","a","b"]"#, r#"[9,"hi"]"#, "[]", r#"{"type":5}"#] {
        let block = ContentBlock::decode(other);
        assert!(matches!(&block, ContentBlock::Other(kept) if kept == other), "{block:?}");
        assert_eq!(block.kind(), "unknown");
    }
}

#[test]
fn an_outcome_may_be_spelled_as_a_list() {
    let decode = |json: &str| RequestPermissionResponse::decode(json).map(|said| said.outcome);
    let chosen = decode(r#"{ "outcome": ["selected", "allow-once"] }"#);
    assert!(
        matches!(&chosen, Some(PermissionOutcome::Selected { option_id })
            if option_id == "allow-once"),
        "{chosen:?}",
    );
    let withdrawn = decode(r#"[["cancelled"]]"#);
    assert!(matches!(withdrawn, Some(PermissionOutcome::Cancelled)), "{withdrawn:?}");
    assert!(decode(r#"{ "outcome": ["cancelled", 1] }"#).is_none());
    assert!(decode(r#"{ "outcome": ["selected"] }"#).is_none());
    assert!(decode(r#"{ "outcome": [0] }"#).is_none());
}
