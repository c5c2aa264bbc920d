use tetanus::event::SessionEvent;
use tetanus::paint::{Charset, Line, Role};
use tetanus::render::draft::Draft;
use tetanus::render::figures::Elapsed;
use tetanus::render::live::{Live, BLOCK};
use tetanus::render::rows;
use tetanus::render::timeline::render;

/// The columns a terminal draws a text in.
fn visible_width(text: &str) -> usize {
    tame(text)
        .chars()
        .map(|c| match c {
            '\u{1100}'..='\u{115f}'
            | '\u{2e80}'..='\u{a4cf}'
            | '\u{ac00}'..='\u{d7a3}'
            | '\u{f900}'..='\u{faff}'
            | '\u{ff00}'..='\u{ff60}' => 2,
            _ => 1,
        })
        .sum()
}

/// A text with everything in it that drives a terminal taken out.
fn tame(text: &str) -> String {
    let mut out = String::new();
    let mut chars = text.chars();
    while let Some(c) = chars.next() {
        if c == '\u{1b}' {
            match chars.next() {
                Some('[') => {
                    for c in chars.by_ref() {
                        if ('\u{40}'..='\u{7e}').contains(&c) {
                            break;
                        }
                    }
                }
                Some(']') => {
                    for c in chars.by_ref() {
                        if c == '\u{7}' {
                            break;
                        }
                    }
                }
                _ => {}
            }
        } else if c == '\n' || !c.is_control() {
            out.push(c);
        }
    }
    out
}

/// A tamed text on one line.
fn tame_line(text: &str) -> String {
    tame(text).split_whitespace().collect::<Vec<_>>().join(" ")
}

/// A text cut to a width, with a mark where it was.
fn truncate(text: &str, room: usize, charset: Charset) -> String {
    let flat = tame_line(text);
    if visible_width(&flat) <= room {
        return flat;
    }
    let mark = charset.glyph("…", "...");
    let mut out = String::new();
    for c in flat.chars() {
        let next = format!("{out}{c}{mark}");
        if visible_width(&next) > room {
            break;
        }
        out.push(c);
    }
    out.push_str(mark);
    out
}

/// A text folded to a width, between words where it can be.
fn wrap(text: &str, room: usize) -> Vec<String> {
    let mut rows = Vec::new();
    for line in tame(text).lines() {
        let mut row = String::new();
        for word in line.split_whitespace() {
            let mut word = word.to_string();
            if !row.is_empty() && visible_width(&row) + 1 + visible_width(&word) > room {
                rows.push(std::mem::take(&mut row));
            }
            while visible_width(&word) > room.max(1) {
                let mut head = String::new();
                for c in word.chars() {
                    if visible_width(&format!("{head}{c}")) > room.max(2) {
                        break;
                    }
                    head.push(c);
                }
                word = word[head.len()..].to_string();
                rows.push(head);
            }
            if !row.is_empty() {
                row.push(' ');
            }
            row.push_str(&word);
        }
        rows.push(row);
    }
    rows
}

/// One draft, finished for a terminal so wide.
fn lay(draft: &Draft, charset: Charset, width: usize) -> Vec<Line> {
    match draft {
        Draft::Row(line) => vec![line.clone()],
        Draft::Session { model } => vec![rows::session(&tame(model))],
        Draft::Said { who, said } => rows::said(*who, &wrap(said, rows::said_room(width))),
        Draft::Folded { first, rest } => {
            let room = rows::folded_room(width, *rest);
            vec![rows::folded(&truncate(first, room, charset), *rest)]
        }
        Draft::Call { name, value } => {
            let glyph = rows::call_glyph(charset);
            let named = tame(name);
            let head = visible_width(&rows::head(glyph, &named));
            let value = truncate(value, rows::tool_room(width, head), charset);
            vec![rows::tool(glyph, Role::Tool, &named, &value)]
        }
        Draft::Result { ok, name, content, answers, whole } => {
            let glyph = rows::result_glyph(charset, *ok);
            let named = tame(name);
            let head = visible_width(&rows::head(glyph, &named));
            let says = answers.as_ref().map(|call| rows::says(&tame(call)));
            let marked = says.as_deref().map(visible_width).unwrap_or(0);
            let room = rows::result_room(width, head, marked);
            let plan = rows::plan(content, *whole);
            rows::produced(
                charset,
                *ok,
                &named,
                head,
                says.as_deref(),
                &wrap(&plan.head, room),
                plan.hidden,
                &wrap(&plan.tail, room),
            )
        }
        Draft::Closing(how) => {
            let reason = tame(how.reason.as_str());
            let veto = how.veto.as_deref().map(tame).unwrap_or_default();
            rows::closing(charset, how, &reason, &veto)
        }
        Draft::Raw { ty, data } => {
            let named = tame(ty);
            let room = rows::raw_room(width, visible_width(&named));
            vec![rows::raw(&named, &truncate(data, room, charset))]
        }
    }
}

/// A payload, as the journal stores it.
fn payload(data: &str) -> String {
    serde_json::from_str::<serde_json::Value>(data).expect("a payload").to_string()
}

/// An event at a stated moment on the journal's clock.
fn timed(time: u64, ty: &str, data: &str) -> SessionEvent {
    SessionEvent { ty: ty.to_string(), seq: 0, time, data: payload(data), source_event_seqs: None }
}

fn event(ty: &str, data: &str) -> SessionEvent {
    timed(0, ty, data)
}

/// The view on a terminal so wide.
struct Watch {
    view: Live,
    width: usize,
}

fn view(width: usize) -> Watch {
    Watch { view: Live::new("asking the model", false), width }
}

impl Watch {
    fn settle(&mut self, event: &SessionEvent) -> Vec<String> {
        let drafts = self.view.checked_push(event).expect("a counter in range");
        drafts
            .iter()
            .flat_map(|draft| lay(draft, Charset::Unicode, self.width))
            .map(|line| line.text())
            .collect()
    }

    fn block(&self, millis: u64) -> Vec<String> {
        let spin = ["⠋", "⠙", "⠹", "⠸"][self.view.ticks() % 4];
        let folded = match self.view.arriving() {
            Some((_, said)) => wrap(&said, rows::said_room(self.width)),
            None => Vec::new(),
        };
        self.view
            .block(Charset::Unicode, spin, Elapsed::from_millis(millis), &folded)
            .iter()
            .map(|line| line.text())
            .collect()
    }
}

fn turn() -> Vec<SessionEvent> {
    vec![
        event("turn/start", r#"{ "turn": 1 }"#),
        event("step/start", r#"{ "turn": 1, "step": 1 }"#),
        event("user/message", r#"{ "content": "echo this" }"#),
        event(
            "assistant/chunk",
            r#"{ "chunk": "text", "delta": "on ", "turn": 1, "step": 1 }"#,
        ),
        event(
            "assistant/chunk",
            r#"{ "chunk": "text", "delta": "it", "turn": 1, "step": 1 }"#,
        ),
        event("assistant/message", r#"{ "content": "on it" }"#),
        event(
            "tool/call",
            r#"{ "id": "c1", "name": "echo", "arguments": { "text": "hi" } }"#,
        ),
        event(
            "tool/result",
            r#"{ "call_id": "c1", "name": "echo", "ok": true, "content": "hi" }"#,
        ),
        event("step/end", r#"{ "turn": 1, "step": 1 }"#),
        event(
            "turn/end",
            r#"{ "turn": 1, "steps": 1, "stop_reason": "natural" }"#,
        ),
    ]
}

#[test]
fn what_settles_is_the_timeline() {
    let events = turn();
    let mut live = view(80);
    let settled: Vec<String> = events.iter().flat_map(|event| live.settle(event)).collect();

    let printed: Vec<String> = render(&events, false)
        .iter()
        .flat_map(|draft| lay(draft, Charset::Unicode, 80))
        .map(|line| line.text())
        .collect();

    assert_eq!(settled, printed);
}

#[test]
fn a_chunk_settles_nothing_and_shows_in_the_block() {
    let mut live = view(80);
    for event in turn().iter().take(5) {
        live.settle(event);
    }

    let block = live.block(400);
    assert_eq!(block[0], "  ai    on it");
    assert!(block[1].contains("streaming the answer"), "{block:?}");
}

#[test]
fn the_assembled_message_takes_the_answer_out_of_the_block() {
    let mut live = view(80);
    for event in turn().iter().take(6) {
        live.settle(event);
    }

    assert_eq!(
        live.block(0).len(),
        1,
        "only the footer is left"
    );
}

#[test]
fn a_long_answer_shows_its_tail_and_keeps_the_block_short() {
    let mut live = view(40);
    let words: String = std::iter::repeat_n("word", 60)
        .collect::<Vec<_>>()
        .join(" ");
    live.settle(&event(
        "assistant/chunk",
        &format!(r#"{{ "chunk": "text", "delta": "{}", "turn": 1, "step": 1 }}"#, words),
    ));

    let block = live.block(0);
    assert_eq!(block.len(), BLOCK);
    assert!(
        !block[0].contains("ai"),
        "the head was kept: {:?}",
        block[0]
    );
    assert!(block[BLOCK - 2].ends_with("word"), "{block:?}");
}

#[test]
fn the_footer_says_what_is_being_waited_on() {
    let mut live = view(80);
    live.settle(&event(
        "tool/call",
        r#"{ "id": "c1", "name": "echo", "arguments": {} }"#,
    ));

    let first = live.block(1500)
        .pop()
        .expect("footer");
    assert_eq!(first, "  ⠋ running echo · 1.5s");

    live.view.tick();
    let second = live.block(75_000).pop().expect("footer");
    assert_eq!(second, "  ⠙ running echo · 1m15s");
}

#[test]
fn the_block_empties_when_the_turn_ends() {
    let mut live = view(80);
    for event in turn() {
        live.settle(&event);
    }

    assert!(live.block(0).is_empty());
}

#[test]
fn reasoning_is_shown_as_thinking() {
    let mut live = view(80);
    live.settle(&event(
        "assistant/chunk",
        r#"{ "chunk": "reasoning", "delta": "the user wants an echo", "turn": 1, "step": 1 }"#,
    ));

    let block = live.block(0);
    assert_eq!(block[0], "  think the user wants an echo");
    assert!(block[1].contains("thinking"), "{block:?}");
}

#[test]
fn a_turn_that_was_stopped_leaves_no_block() {
    let mut live = view(80);
    live.settle(&turn()[3]);
    assert!(live.view.arriving().is_some());
    live.view.finish();
    assert!(live.block(0).is_empty());
}
