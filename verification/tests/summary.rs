use tetanus::event::{SessionEvent, StopReason};
use tetanus::render::summary::{checked_summary, summary, TurnSummary};

fn event(seq: u64, time: u64, ty: &str, data: &str) -> SessionEvent {
    SessionEvent { ty: ty.to_string(), seq, time, data: data.to_string(), source_event_seqs: None }
}

fn billed(prompt: u64, completion: u64) -> String {
    format!(r#"{{ "content": "on it", "usage": {{ "prompt_tokens": {}, "completion_tokens": {} }} }}"#, prompt, completion)
}

fn summarised(events: &[SessionEvent]) -> TurnSummary {
    summary(events, 1, 2, StopReason::Natural, None, "on it".into())
}

#[test]
fn a_summary_adds_up_what_every_step_spent() {
    let spent = summarised(&[
        event(0, 1_000, "turn/start", r#"{ "turn": 1 }"#),
        event(1, 1_100, "assistant/message", &billed(21, 5)),
        event(2, 4_500, "assistant/message", &billed(29, 5)),
        event(3, 4_600, "turn/end", r#"{ "turn": 1 }"#),
    ]);

    assert_eq!(spent.usage.expect("usage").prompt_tokens, 50);
    assert_eq!(spent.usage.expect("usage").completion_tokens, 10);
    assert_eq!(spent.duration_ms, Some(3_600));
    assert_eq!(spent.stop_reason, StopReason::Natural);
}

#[test]
fn an_unmetered_turn_reports_no_usage_rather_than_none_spent() {
    let spent = summarised(&[
        event(0, 1_000, "turn/start", r#"{ "turn": 1 }"#),
        event(1, 1_100, "assistant/message", r#"{ "content": "on it" }"#),
    ]);

    assert_eq!(spent.usage, None);
    assert_eq!(spent.duration_ms, Some(100));
}

#[test]
fn an_empty_journal_took_no_time_at_all() {
    let spent = summarised(&[]);
    assert_eq!(spent.duration_ms, None);
    assert_eq!(spent.usage, None);
    assert_eq!((spent.turn, spent.steps, spent.content.as_str()), (1, 2, "on it"));
}

#[test]
fn a_clock_that_went_back_took_no_time() {
    let spent = summarised(&[
        event(0, 5_000, "turn/start", r#"{ "turn": 1 }"#),
        event(1, 4_000, "turn/end", r#"{ "turn": 1 }"#),
    ]);
    assert_eq!(spent.duration_ms, Some(0));
}

#[test]
fn a_turn_past_its_counters_has_no_summary() {
    let checked = |events: &[SessionEvent]| {
        checked_summary(events, 1, 2, StopReason::Natural, None, "on it".to_string())
    };
    let once = [event(0, 1_000, "assistant/message", &billed(u64::MAX, 1))];
    assert_eq!(checked(&once).and_then(|spent| spent.usage).map(|u| u.prompt_tokens), Some(u64::MAX));
    let twice = [
        event(0, 1_000, "assistant/message", &billed(u64::MAX, 1)),
        event(1, 1_100, "assistant/message", &billed(1, 1)),
    ];
    assert!(checked(&twice).is_none());
}
