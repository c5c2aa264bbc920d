use std::time::Duration;

use tetanus::event::SessionEvent;
use tetanus::paint::{Charset, Line, Role};
use tetanus::render::draft::Draft;
use tetanus::render::live::Live;
use tetanus::render::replay::{pace, since, Playback, CEILING, FLOOR};
use tetanus::render::rows;
use tetanus::render::timeline::render;

/// The columns a terminal draws a text in.
fn visible_width(text: &str) -> usize {
    tame(text)
        .chars()
        .map(|c| match c {
            '\u{1100}'..='\u{115f}'
            | '\u{2e80}'..='\u{a4cf}'
            | '\u{ac00}'..='\u{d7a3}'
            | '\u{f900}'..='\u{faff}'
            | '\u{ff00}'..='\u{ff60}' => 2,
            _ => 1,
        })
        .sum()
}

/// A text with everything in it that drives a terminal taken out.
fn tame(text: &str) -> String {
    let mut out = String::new();
    let mut chars = text.chars();
    while let Some(c) = chars.next() {
        if c == '\u{1b}' {
            match chars.next() {
                Some('[') => {
                    for c in chars.by_ref() {
                        if ('\u{40}'..='\u{7e}').contains(&c) {
                            break;
                        }
                    }
                }
                Some(']') => {
                    for c in chars.by_ref() {
                        if c == '\u{7}' {
                            break;
                        }
                    }
                }
                _ => {}
            }
        } else if c == '\n' || !c.is_control() {
            out.push(c);
        }
    }
    out
}

/// A tamed text on one line.
fn tame_line(text: &str) -> String {
    tame(text).split_whitespace().collect::<Vec<_>>().join(" ")
}

/// A text cut to a width, with a mark where it was.
fn truncate(text: &str, room: usize, charset: Charset) -> String {
    let flat = tame_line(text);
    if visible_width(&flat) <= room {
        return flat;
    }
    let mark = charset.glyph("…", "...");
    let mut out = String::new();
    for c in flat.chars() {
        let next = format!("{out}{c}{mark}");
        if visible_width(&next) > room {
            break;
        }
        out.push(c);
    }
    out.push_str(mark);
    out
}

/// A text folded to a width, between words where it can be.
fn wrap(text: &str, room: usize) -> Vec<String> {
    let mut rows = Vec::new();
    for line in tame(text).lines() {
        let mut row = String::new();
        for word in line.split_whitespace() {
            let mut word = word.to_string();
            if !row.is_empty() && visible_width(&row) + 1 + visible_width(&word) > room {
                rows.push(std::mem::take(&mut row));
            }
            while visible_width(&word) > room.max(1) {
                let mut head = String::new();
                for c in word.chars() {
                    if visible_width(&format!("{head}{c}")) > room.max(2) {
                        break;
                    }
                    head.push(c);
                }
                word = word[head.len()..].to_string();
                rows.push(head);
            }
            if !row.is_empty() {
                row.push(' ');
            }
            row.push_str(&word);
        }
        rows.push(row);
    }
    rows
}

/// One draft, finished for a terminal so wide.
fn lay(draft: &Draft, charset: Charset, width: usize) -> Vec<Line> {
    match draft {
        Draft::Row(line) => vec![line.clone()],
        Draft::Session { model } => vec![rows::session(&tame(model))],
        Draft::Said { who, said } => rows::said(*who, &wrap(said, rows::said_room(width))),
        Draft::Folded { first, rest } => {
            let room = rows::folded_room(width, *rest);
            vec![rows::folded(&truncate(first, room, charset), *rest)]
        }
        Draft::Call { name, value } => {
            let glyph = rows::call_glyph(charset);
            let named = tame(name);
            let head = visible_width(&rows::head(glyph, &named));
            let value = truncate(value, rows::tool_room(width, head), charset);
            vec![rows::tool(glyph, Role::Tool, &named, &value)]
        }
        Draft::Result { ok, name, content, answers, whole } => {
            let glyph = rows::result_glyph(charset, *ok);
            let named = tame(name);
            let head = visible_width(&rows::head(glyph, &named));
            let says = answers.as_ref().map(|call| rows::says(&tame(call)));
            let marked = says.as_deref().map(visible_width).unwrap_or(0);
            let room = rows::result_room(width, head, marked);
            let plan = rows::plan(content, *whole);
            rows::produced(
                charset,
                *ok,
                &named,
                head,
                says.as_deref(),
                &wrap(&plan.head, room),
                plan.hidden,
                &wrap(&plan.tail, room),
            )
        }
        Draft::Closing(how) => {
            let reason = tame(how.reason.as_str());
            let veto = how.veto.as_deref().map(tame).unwrap_or_default();
            rows::closing(charset, how, &reason, &veto)
        }
        Draft::Raw { ty, data } => {
            let named = tame(ty);
            let room = rows::raw_room(width, visible_width(&named));
            vec![rows::raw(&named, &truncate(data, room, charset))]
        }
    }
}

fn event(seq: u64, time: u64, ty: &str, data: &str) -> SessionEvent {
    SessionEvent { ty: ty.to_string(), seq, time, data: data.to_string(), source_event_seqs: None }
}

/// How long a gap is held, at a speed.
fn paced(gap: u64, speed: f64) -> Duration {
    Duration::from_millis(pace(gap)).div_f64(speed)
}

/// Drafts, as a terminal eighty columns wide prints them.
fn lines(drafts: &[Draft]) -> String {
    drafts
        .iter()
        .flat_map(|draft| lay(draft, Charset::Unicode, 80))
        .map(|line| format!("{}\n", line.text()))
        .collect()
}

/// A journal played into a pipe.
fn play(events: &[SessionEvent]) -> String {
    let mut playback = Playback::new();
    let mut live = Live::new("asking the model", false);
    let mut out = String::new();
    for event in events {
        assert!(playback.next(false, event.time).is_none(), "a pipe was made to wait");
        out.push_str(&lines(&live.push(event)));
    }
    out
}

fn turn() -> Vec<SessionEvent> {
    vec![
        event(0, 1_000, "turn/start", r#"{ "turn": 1 }"#),
        event(1, 1_000, "step/start", r#"{ "turn": 1, "step": 1 }"#),
        event(2, 1_000, "user/message", r#"{ "content": "echo this" }"#),
        event(
            3,
            1_020,
            "assistant/chunk",
            r#"{ "chunk": "text", "delta": "on it", "turn": 1, "step": 1 }"#,
        ),
        event(4, 1_400, "assistant/message", r#"{ "content": "on it" }"#),
        event(
            5,
            9_999,
            "turn/end",
            r#"{ "turn": 1, "steps": 1, "stop_reason": "natural" }"#,
        ),
    ]
}

#[test]
fn a_gap_is_never_shorter_than_the_floor() {
    assert_eq!(paced(0, 1.0), Duration::from_millis(FLOOR));
    assert_eq!(paced(139, 1.0), Duration::from_millis(FLOOR));
    assert_eq!(paced(200, 1.0), Duration::from_millis(200));
}

#[test]
fn a_gap_is_never_longer_than_the_ceiling() {
    assert_eq!(paced(240_000, 1.0), Duration::from_millis(CEILING));
    assert_eq!(paced(2_001, 1.0), Duration::from_millis(CEILING));
}

#[test]
fn speed_divides_what_the_clamp_settled() {
    assert_eq!(paced(0, 2.0), Duration::from_millis(FLOOR) / 2);
    assert_eq!(paced(0, 0.5), Duration::from_millis(FLOOR) * 2);
    assert_eq!(paced(1_000, 4.0), Duration::from_millis(250));
    assert_eq!(paced(240_000, 4.0), Duration::from_millis(CEILING) / 4);
}

#[test]
fn a_piped_playback_is_the_timeline() {
    let events = turn();
    let played = play(&events);
    let printed = lines(&render(&events, false));

    assert_eq!(played, printed);
    assert!(!played.contains('\u{1b}'), "escapes in a pipe");
}

#[test]
fn an_empty_journal_plays_as_nothing() {
    assert_eq!(play(&[]), "");
}

#[test]
fn a_watched_playback_waits_between_the_events() {
    let mut playback = Playback::new();
    let holds: Vec<(u64, u64)> = turn()
        .iter()
        .filter_map(|event| playback.next(true, event.time))
        .map(|hold| (hold.gap, hold.elapsed.secs * 1_000 + u64::from(hold.elapsed.nanos) / 1_000_000))
        .collect();
    assert_eq!(
        holds,
        [(140, 0), (140, 0), (140, 0), (380, 20), (2_000, 400)]
    );
}

#[test]
fn the_clock_counts_from_the_first_event() {
    assert_eq!((since(1_000, 2_500).secs, since(1_000, 2_500).nanos), (1, 500_000_000));
    assert_eq!((since(1_000, 400).secs, since(1_000, 400).nanos), (0, 0));
}
