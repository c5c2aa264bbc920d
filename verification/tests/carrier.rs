use tetanus::carrier::{
    answered, begin, dispatch, frame, picked, refusal, Call, PickerError, Request, Status,
};
use tetanus::rpc::ErrorCode;

fn call(path: &str, body: &str) -> Request {
    Request {
        method: "POST".to_string(),
        path: path.to_string(),
        token: None,
        authorization: None,
        content_type: Some("application/json; charset=utf-8".to_string()),
        body: body.as_bytes().to_vec(),
    }
}

#[test]
fn a_call_is_a_post_and_says_who_is_asking() {
    let get = Request { method: "GET".to_string(), ..call("/api/rpc.hello", "") };
    let refused = begin(&get).expect_err("not a post");
    assert_eq!(refused.status, Status::MethodNotAllowed);
    assert_eq!(refused.allow, Some("POST"));

    assert_eq!(begin(&call("/api/a", "")).expect("a call"), None);
    let bearer =
        Request { authorization: Some("Bearer t0ken".to_string()), ..call("/api/a", "") };
    assert_eq!(begin(&bearer).expect("a call").as_deref(), Some("t0ken"));
    let header = Request { token: Some("own".to_string()), ..bearer };
    assert_eq!(begin(&header).expect("a call").as_deref(), Some("own"));
    let basic = Request { authorization: Some("Basic x".to_string()), ..call("/api/a", "") };
    assert_eq!(begin(&basic).expect("a call"), None);
}

#[test]
fn nothing_runs_for_a_caller_who_was_not_admitted() {
    let refused = dispatch(&call("/api/session.list", "{}"), false).expect_err("refused");
    assert_eq!(refused.status, Status::Unauthorized);
}

#[test]
fn a_call_declares_json_before_it_is_looked_at() {
    for kind in [None, Some("text/plain".to_string())] {
        let request = Request { content_type: kind, ..call("/nowhere", "{not json") };
        let refused = dispatch(&request, true).expect_err("refused");
        assert_eq!(refused.status, Status::UnsupportedMedia);
    }
    let shouted =
        Request { content_type: Some(" Application/JSON ".to_string()), ..call("/api/a", "") };
    assert!(dispatch(&shouted, true).is_ok());
}

#[test]
fn a_call_names_a_method_and_carries_json() {
    for path in ["/api/", "/other", ""] {
        let refused = dispatch(&call(path, "{}"), true).expect_err("refused");
        assert_eq!(refused.status, Status::NotFound, "{path}");
        assert_eq!(refused.error.kind(), Some(ErrorCode::MethodNotFound));
    }
    let refused = dispatch(&call("/api/a", "{not json"), true).expect_err("refused");
    assert_eq!(refused.status, Status::BadRequest);
    assert!(refused.error.message.starts_with("the body is not JSON: "), "{refused:?}");
    assert_eq!(refused.error.kind(), Some(ErrorCode::ParseError));
}

#[test]
fn a_call_becomes_one_frame() {
    match dispatch(&call("/api/session.list", r#"{ "b": [1], "a": "x" }"#), true) {
        Ok(Call::Frame(frame)) => assert_eq!(
            frame,
            r#"{"id":1,"jsonrpc":"2.0","method":"session.list","params":{"a":"x","b":[1]}}"#
        ),
        other => panic!("{other:?}"),
    }
    match dispatch(&call("/api/rpc.hello", ""), true) {
        Ok(Call::Frame(frame)) => {
            assert_eq!(frame, r#"{"id":1,"jsonrpc":"2.0","method":"rpc.hello","params":{}}"#);
        }
        other => panic!("{other:?}"),
    }
    assert_eq!(frame("m", "{not json"), None);
}

#[test]
fn the_chooser_is_answered_here() {
    match picked("host.listDirectory", "{}") {
        Some(Call::List { path: None }) => {}
        other => panic!("{other:?}"),
    }
    assert!(matches!(
        picked("host.listDirectory", r#"{"path":"/tmp"}"#),
        Some(Call::List { path: Some(path) }) if path == "/tmp"
    ));
    assert!(matches!(
        picked("host.createDirectory", r#"{"path":"/tmp","name":"x"}"#),
        Some(Call::Create { path, name }) if path == "/tmp" && name == "x"
    ));
    assert!(matches!(
        picked("host.createDirectory", r#"{"path":"/tmp"}"#),
        Some(Call::Answer(error)) if error.kind() == Some(ErrorCode::InvalidParams)
    ));
    assert!(picked("session.list", "{}").is_none());
}

#[test]
fn a_call_with_no_answer_is_refused() {
    assert_eq!(answered(Some("{}".to_string())).expect("an answer"), "{}");
    assert_eq!(answered(None).expect_err("silence").status, Status::BadRequest);
}

#[test]
fn every_way_a_directory_fails_names_its_path() {
    for (err, code) in [
        (PickerError::Unreadable("/a".to_string()), ErrorCode::Io),
        (PickerError::Exists("/a".to_string()), ErrorCode::InvalidParams),
        (PickerError::CreateFailed("/a".to_string()), ErrorCode::Io),
    ] {
        let error = refusal(&err, "it failed");
        assert_eq!(error.kind(), Some(code));
        assert_eq!(error.message, "it failed");
        assert_eq!(error.field("path").as_deref(), Some("/a"));
    }
}
