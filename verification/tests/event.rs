use tetanus::event::{Chunk, KnownEvent, SessionEvent, StopReason};

fn event(ty: &str, data: &str) -> SessionEvent {
    SessionEvent { ty: ty.into(), seq: 0, time: 0, data: data.into(), source_event_seqs: None }
}

#[test]
fn a_known_payload_parses_to_its_type() {
    let parsed = event(
        "tool/result",
        r#"{ "call_id": "c1", "name": "echo", "ok": true, "content": "hi" }"#,
    )
    .parse();

    match parsed {
        Some(KnownEvent::ToolResult { call_id, ok, .. }) => {
            assert_eq!(call_id, "c1");
            assert!(ok);
        }
        other => panic!("{other:?}"),
    }
}

#[test]
fn an_unknown_type_and_a_malformed_payload_both_decline() {
    assert!(event("todo/write", r#"{ "items": 3 }"#).parse().is_none());
    assert!(event("turn/start", r#"{ "turn": "one" }"#).parse().is_none());
    assert!(event("turn/start", r#""not an object""#).parse().is_none());
}

#[test]
fn an_unknown_stop_reason_survives_as_text() {
    let parsed =
        event("turn/end", r#"{ "turn": 1, "steps": 2, "stop_reason": "budget-exhausted" }"#)
            .parse();

    match parsed {
        Some(KnownEvent::TurnEnd { stop_reason, .. }) => {
            assert_eq!(stop_reason.as_str(), "budget-exhausted");
        }
        other => panic!("{other:?}"),
    }
}

#[test]
fn a_stop_reason_has_two_spellings() {
    let ended = |reason: &str| {
        let data = format!(r#"{{ "turn": 1, "steps": 2, "stop_reason": {reason} }}"#);
        match event("turn/end", &data).parse() {
            Some(KnownEvent::TurnEnd { stop_reason, .. }) => Some(stop_reason),
            _ => None,
        }
    };
    assert!(matches!(ended(r#"{ "natural": null }"#), Some(StopReason::Natural)));
    assert!(matches!(ended(r#"{ "max-steps": null }"#), Some(StopReason::MaxSteps)));
    // Only a reason this build knows is spelled so, and with nothing in it.
    assert!(ended(r#"{ "budget-exhausted": null }"#).is_none());
    assert!(ended(r#"{ "natural": {} }"#).is_none());
    assert!(ended(r#"{ "natural": null, "cancelled": null }"#).is_none());
    assert!(ended("7").is_none());
}

#[test]
fn a_chunk_is_named_by_its_word_or_its_place() {
    let chunk = |data: &str| match event("assistant/chunk", data).parse() {
        Some(KnownEvent::AssistantChunk { chunk }) => Some(chunk),
        _ => None,
    };
    let text = chunk(r#"{ "chunk": 0, "delta": "hi" }"#);
    assert!(matches!(&text, Some(Chunk::Text { delta }) if delta == "hi"), "{text:?}");
    let thought = chunk(r#"{ "chunk": 1, "delta": "hm" }"#);
    assert!(matches!(&thought, Some(Chunk::Reasoning { delta }) if delta == "hm"), "{thought:?}");
    assert!(chunk(r#"{ "chunk": 3, "delta": "hi" }"#).is_none());
}
