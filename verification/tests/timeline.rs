use tetanus::event::SessionEvent;
use tetanus::paint::{Charset, Line, Role};
use tetanus::render::draft::Draft;
use tetanus::render::figures::{duration, tokens, Elapsed};
use tetanus::render::rows;
use tetanus::render::stats::{checked_stats, stats, told, Stats};
use tetanus::render::timeline::{checked_render, render, Reader, CAP};

/// The columns a terminal draws a text in.
fn visible_width(text: &str) -> usize {
    tame(text)
        .chars()
        .map(|c| match c {
            '\u{1100}'..='\u{115f}'
            | '\u{2e80}'..='\u{a4cf}'
            | '\u{ac00}'..='\u{d7a3}'
            | '\u{f900}'..='\u{faff}'
            | '\u{ff00}'..='\u{ff60}' => 2,
            _ => 1,
        })
        .sum()
}

/// A text with everything in it that drives a terminal taken out.
fn tame(text: &str) -> String {
    let mut out = String::new();
    let mut chars = text.chars();
    while let Some(c) = chars.next() {
        if c == '\u{1b}' {
            match chars.next() {
                Some('[') => {
                    for c in chars.by_ref() {
                        if ('\u{40}'..='\u{7e}').contains(&c) {
                            break;
                        }
                    }
                }
                Some(']') => {
                    for c in chars.by_ref() {
                        if c == '\u{7}' {
                            break;
                        }
                    }
                }
                _ => {}
            }
        } else if c == '\n' || !c.is_control() {
            out.push(c);
        }
    }
    out
}

/// A tamed text on one line.
fn tame_line(text: &str) -> String {
    tame(text).split_whitespace().collect::<Vec<_>>().join(" ")
}

/// A text cut to a width, with a mark where it was.
fn truncate(text: &str, room: usize, charset: Charset) -> String {
    let flat = tame_line(text);
    if visible_width(&flat) <= room {
        return flat;
    }
    let mark = charset.glyph("…", "...");
    let mut out = String::new();
    for c in flat.chars() {
        let next = format!("{out}{c}{mark}");
        if visible_width(&next) > room {
            break;
        }
        out.push(c);
    }
    out.push_str(mark);
    out
}

/// A text folded to a width, between words where it can be.
fn wrap(text: &str, room: usize) -> Vec<String> {
    let mut rows = Vec::new();
    for line in tame(text).lines() {
        let mut row = String::new();
        for word in line.split_whitespace() {
            let mut word = word.to_string();
            if !row.is_empty() && visible_width(&row) + 1 + visible_width(&word) > room {
                rows.push(std::mem::take(&mut row));
            }
            while visible_width(&word) > room.max(1) {
                let mut head = String::new();
                for c in word.chars() {
                    if visible_width(&format!("{head}{c}")) > room.max(2) {
                        break;
                    }
                    head.push(c);
                }
                word = word[head.len()..].to_string();
                rows.push(head);
            }
            if !row.is_empty() {
                row.push(' ');
            }
            row.push_str(&word);
        }
        rows.push(row);
    }
    rows
}

/// One draft, finished for a terminal so wide.
fn lay(draft: &Draft, charset: Charset, width: usize) -> Vec<Line> {
    match draft {
        Draft::Row(line) => vec![line.clone()],
        Draft::Session { model } => vec![rows::session(&tame(model))],
        Draft::Said { who, said } => rows::said(*who, &wrap(said, rows::said_room(width))),
        Draft::Folded { first, rest } => {
            let room = rows::folded_room(width, *rest);
            vec![rows::folded(&truncate(first, room, charset), *rest)]
        }
        Draft::Call { name, value } => {
            let glyph = rows::call_glyph(charset);
            let named = tame(name);
            let head = visible_width(&rows::head(glyph, &named));
            let value = truncate(value, rows::tool_room(width, head), charset);
            vec![rows::tool(glyph, Role::Tool, &named, &value)]
        }
        Draft::Result { ok, name, content, answers, whole } => {
            let glyph = rows::result_glyph(charset, *ok);
            let named = tame(name);
            let head = visible_width(&rows::head(glyph, &named));
            let says = answers.as_ref().map(|call| rows::says(&tame(call)));
            let marked = says.as_deref().map(visible_width).unwrap_or(0);
            let room = rows::result_room(width, head, marked);
            let plan = rows::plan(content, *whole);
            rows::produced(
                charset,
                *ok,
                &named,
                head,
                says.as_deref(),
                &wrap(&plan.head, room),
                plan.hidden,
                &wrap(&plan.tail, room),
            )
        }
        Draft::Closing(how) => {
            let reason = tame(how.reason.as_str());
            let veto = how.veto.as_deref().map(tame).unwrap_or_default();
            rows::closing(charset, how, &reason, &veto)
        }
        Draft::Raw { ty, data } => {
            let named = tame(ty);
            let room = rows::raw_room(width, visible_width(&named));
            vec![rows::raw(&named, &truncate(data, room, charset))]
        }
    }
}

/// A payload, as the journal stores it.
fn payload(data: &str) -> String {
    serde_json::from_str::<serde_json::Value>(data).expect("a payload").to_string()
}

/// An event at a stated moment on the journal's clock.
fn timed(time: u64, ty: &str, data: &str) -> SessionEvent {
    SessionEvent { ty: ty.to_string(), seq: 0, time, data: payload(data), source_event_seqs: None }
}

fn event(ty: &str, data: &str) -> SessionEvent {
    timed(0, ty, data)
}

/// A JSON string.
fn quoted(text: &str) -> String {
    serde_json::Value::from(text).to_string()
}

fn page(events: &[SessionEvent], charset: Charset, width: usize, think: bool) -> Vec<Line> {
    render(events, think).iter().flat_map(|draft| lay(draft, charset, width)).collect()
}

fn rendered(events: &[SessionEvent], charset: Charset, width: usize) -> String {
    thought(events, charset, width, false)
}

/// The same, with the thinking asked for or folded.
fn thought(events: &[SessionEvent], charset: Charset, width: usize, think: bool) -> String {
    page(events, charset, width, think).iter().map(|line| format!("{}\n", line.text())).collect()
}

/// The same in colour: one number for each role.
fn painted(events: &[SessionEvent], charset: Charset, width: usize) -> String {
    let mut out = String::new();
    for line in page(events, charset, width, false) {
        for span in &line.spans {
            match span.role {
                Role::Plain => out.push_str(&span.text),
                role => out.push_str(&format!("\u{1b}[{}m{}\u{1b}[0m", role as u8, span.text)),
            }
        }
        out.push('\n');
    }
    out
}

/// The strip about a conversation, on one line.
fn strip_of(stats: &Stats) -> String {
    told(Charset::Unicode, stats).iter().map(|line| line.text()).collect::<Vec<_>>().join(" ")
}

/// A message that thought about it first.
fn reasoned(reasoning: &str) -> Vec<SessionEvent> {
    vec![event(
        "assistant/message",
        &format!(r#"{{ "content": "42", "reasoning": {} }}"#, quoted(reasoning)),
    )]
}

#[test]
fn an_empty_journal_says_it_is_empty() {
    assert_eq!(
        rendered(&[], Charset::Unicode, 80),
        "the journal is empty\n"
    );
}

#[test]
fn a_turn_reads_as_a_conversation() {
    let out = rendered(
        &[
            event("turn/start", r#"{ "turn": 1 }"#),
            event("step/start", r#"{ "turn": 1, "step": 1 }"#),
            event("user/message", r#"{ "content": "echo this" }"#),
            event(
                "assistant/chunk",
                r#"{ "chunk": "text", "delta": "on ", "turn": 1, "step": 1 }"#,
            ),
            event("assistant/message", r#"{ "content": "on it" }"#),
            event(
                "tool/call",
                r#"{ "id": "c1", "name": "echo", "arguments": { "text": "hi" } }"#,
            ),
            event(
                "tool/result",
                r#"{ "call_id": "c1", "name": "echo", "ok": true, "content": "hi" }"#,
            ),
            event("step/end", r#"{ "turn": 1, "step": 1 }"#),
            event(
                "turn/end",
                r#"{ "turn": 1, "steps": 1, "stop_reason": "natural" }"#,
            ),
        ],
        Charset::Unicode,
        80,
    );

    assert_eq!(
        out,
        "\nturn 1\n  step 1\n  you   echo this\n  ai    on it\n  \
         ▸ echo  {\"text\":\"hi\"}\n  ✓ echo  hi\n\nturn 1 · natural · 1 step\n"
    );
}

#[test]
fn an_out_of_order_result_names_its_call() {
    let out = rendered(
        &[
            event(
                "tool/call",
                r#"{ "id": "c1", "name": "read", "arguments": {} }"#,
            ),
            event(
                "tool/call",
                r#"{ "id": "c2", "name": "list", "arguments": {} }"#,
            ),
            event(
                "tool/result",
                r#"{ "call_id": "c1", "name": "read", "ok": false, "content": "denied" }"#,
            ),
        ],
        Charset::Unicode,
        80,
    );

    assert!(out.ends_with("  ✗ read  denied (for c1)\n"), "{out}");
}

#[test]
fn an_unknown_type_is_passed_through() {
    let out = rendered(
        &[event("todo/write", r#"{ "items": 3 }"#)],
        Charset::Unicode,
        80,
    );

    assert_eq!(out, "  todo/write  {\"items\":3}\n");
}

#[test]
fn long_values_are_cut_and_wrapped_text_stays_aligned() {
    let out = rendered(
        &[
            event("assistant/message", r#"{ "content": "one\ntwo" }"#),
            event(
                "tool/call",
                &format!(r#"{{ "id": "c1", "name": "echo", "arguments": {{ "text": "{}" }} }}"#, "x".repeat(60)),
            ),
        ],
        Charset::Unicode,
        40,
    );

    let lines: Vec<&str> = out.lines().collect();
    assert_eq!(lines[0], "  ai    one");
    assert_eq!(lines[1], "        two");
    assert_eq!(lines[2].chars().count(), 40, "{:?}", lines[2]);
    assert!(lines[2].ends_with('…'), "{:?}", lines[2]);
}

#[test]
fn an_ascii_terminal_keeps_the_columns() {
    let out = rendered(
        &[
            event(
                "tool/call",
                r#"{ "id": "c1", "name": "echo", "arguments": {} }"#,
            ),
            event(
                "tool/result",
                r#"{ "call_id": "c1", "name": "echo", "ok": true, "content": "hi" }"#,
            ),
            event(
                "turn/end",
                r#"{ "turn": 2, "steps": 1, "stop_reason": "max-steps" }"#,
            ),
        ],
        Charset::Ascii,
        80,
    );

    assert!(out.is_ascii(), "{out:?}");
    assert!(out.contains("  > echo  {}\n  + echo  hi\n"), "{out:?}");
    assert!(
        out.ends_with("turn 2 - step budget spent - 1 step\n"),
        "{out}"
    );
}

#[test]
fn a_long_message_folds_under_its_label() {
    let text = "the agent claims your prompt, assembles a prompt and a tool catalogue";
    let out = rendered(
        &[event("assistant/message", &format!(r#"{{ "content": {} }}"#, quoted(text)))],
        Charset::Unicode,
        40,
    );

    let lines: Vec<&str> = out.lines().collect();
    assert!(lines.len() > 1, "nothing was folded:\n{out}");
    assert!(lines[0].starts_with("  ai    the agent"), "{out}");
    for line in &lines[1..] {
        assert!(line.starts_with("        "), "`{line}` lost the column");
        assert!(line.chars().count() <= 40, "`{line}` overruns 40");
    }
    assert_eq!(
        out.split_whitespace().collect::<Vec<_>>()[1..].join(" "),
        text
    );
}

#[test]
fn colour_does_not_move_the_text_column() {
    let events = [
        event("user/message", r#"{ "content": "echo this" }"#),
        event("assistant/message", r#"{ "content": "on it" }"#),
    ];

    let painted = painted(&events, Charset::Unicode, 80);

    assert!(
        painted.contains('\u{1b}'),
        "nothing was painted:\n{painted:?}"
    );
    assert_eq!(
        unpainted(&painted),
        rendered(&events, Charset::Unicode, 80),
        "colour moved the text"
    );
}

#[test]
fn a_stop_reason_this_build_never_heard_of_is_still_shown() {
    for (wire, shown) in [
        ("natural", "natural"),
        ("pre-step-rejected", "rejected before the step"),
        ("max-steps", "step budget spent"),
        ("cancelled", "cancelled"),
        ("budget-exhausted", "budget-exhausted"),
    ] {
        let out = rendered(
            &[event(
                "turn/end",
                &format!(r#"{{ "turn": 1, "steps": 2, "stop_reason": "{}" }}"#, wire),
            )],
            Charset::Unicode,
            80,
        );

        assert_eq!(out, format!("\nturn 1 · {shown} · 2 steps\n"), "{wire}");
    }
}

fn unpainted(text: &str) -> String {
    let mut out = String::new();
    let mut chars = text.chars();
    while let Some(char) = chars.next() {
        if char != '\u{1b}' {
            out.push(char);
            continue;
        }
        for escape in chars.by_ref() {
            if escape == 'm' {
                break;
            }
        }
    }
    out
}

#[test]
fn the_composer_hands_back_what_the_writer_writes() {
    let events = [
        event("turn/start", r#"{ "turn": 1 }"#),
        event("user/message", r#"{ "content": "echo this" }"#),
        event(
            "assistant/chunk",
            r#"{ "chunk": "text", "delta": "on ", "turn": 1, "step": 1 }"#,
        ),
        event("assistant/message", r#"{ "content": "on it" }"#),
        event(
            "turn/end",
            r#"{ "turn": 1, "steps": 2, "stop_reason": "natural" }"#,
        ),
    ];

    let mut reader = Reader::new(false);
    let composed: Vec<String> = events
        .iter()
        .flat_map(|event| reader.lines(event))
        .flat_map(|draft| lay(&draft, Charset::Unicode, 80))
        .map(|line| line.text())
        .collect();

    assert_eq!(
        format!("{}\n", composed.join("\n")),
        rendered(&events, Charset::Unicode, 80)
    );
}

#[test]
fn the_closing_line_reports_what_the_turn_spent() {
    let mut events = vec![
        event("turn/start", r#"{ "turn": 1 }"#),
        event(
            "assistant/message",
            r#"{ "content": "one", "usage": { "prompt_tokens": 20, "completion_tokens": 5 } }"#,
        ),
        event(
            "assistant/message",
            r#"{ "content": "two", "usage": { "prompt_tokens": 28, "completion_tokens": 4 } }"#,
        ),
        event(
            "turn/end",
            r#"{ "turn": 1, "steps": 2, "stop_reason": "natural" }"#,
        ),
    ];
    let told = rendered(&events, Charset::Unicode, 80);
    assert!(
        told.ends_with("turn 1 \u{b7} natural \u{b7} 2 steps \u{b7} 57 tokens\n"),
        "{told}"
    );

    events[1] = event("assistant/message", r#"{ "content": "one" }"#);
    events[2] = event("assistant/message", r#"{ "content": "two" }"#);
    let silent = rendered(&events, Charset::Unicode, 80);
    assert!(
        silent.ends_with("turn 1 \u{b7} natural \u{b7} 2 steps\n"),
        "{silent}"
    );
}

#[test]
fn each_turn_is_billed_for_itself() {
    let mut events = Vec::new();
    for turn in 1..=2 {
        events.push(event("turn/start", &format!(r#"{{ "turn": {} }}"#, turn)));
        events.push(event(
            "assistant/message",
            r#"{ "content": "hi", "usage": { "prompt_tokens": 10, "completion_tokens": 2 } }"#,
        ));
        events.push(event(
            "turn/end",
            &format!(r#"{{ "turn": {}, "steps": 1, "stop_reason": "natural" }}"#, turn),
        ));
    }
    let told = rendered(&events, Charset::Unicode, 80);
    assert_eq!(
        told.matches("\u{b7} 12 tokens").count(),
        2,
        "a tally carried over:\n{told}"
    );
    assert!(
        told.contains("turn 2 \u{b7} natural \u{b7} 1 step \u{b7} 12 tokens"),
        "{told}"
    );
}

#[test]
fn a_turn_that_took_time_says_how_long() {
    let slow = [
        timed(0, "turn/start", r#"{ "turn": 1 }"#),
        timed(
            12_400,
            "turn/end",
            r#"{ "turn": 1, "steps": 1, "stop_reason": "natural" }"#,
        ),
    ];
    let told = rendered(&slow, Charset::Unicode, 80);
    assert!(
        told.ends_with("turn 1 \u{b7} natural \u{b7} 1 step \u{b7} 12.4s\n"),
        "{told}"
    );

    let quick = [
        timed(0, "turn/start", r#"{ "turn": 1 }"#),
        timed(
            999,
            "turn/end",
            r#"{ "turn": 1, "steps": 1, "stop_reason": "natural" }"#,
        ),
    ];
    let told = rendered(&quick, Charset::Unicode, 80);
    assert!(
        told.ends_with("turn 1 \u{b7} natural \u{b7} 1 step\n"),
        "{told}"
    );
}

#[test]
fn a_duration_is_written_one_way_for_the_whole_binary() {
    for (millis, shown) in [
        (0, "0.0s"),
        (1_500, "1.5s"),
        (59_940, "59.9s"),
        (60_000, "1m00s"),
        (65_000, "1m05s"),
        (3_725_000, "62m05s"),
    ] {
        assert_eq!(duration(Elapsed::from_millis(millis)), shown, "{millis}");
    }
}

#[test]
fn a_token_count_is_written_the_way_upstream_writes_one() {
    for (count, shown) in [
        (0, "0"),
        (1, "1"),
        (999, "999"),
        (1_000, "1K"),
        (1_050, "1.1K"),
        (12_150, "12.2K"),
        (517_000, "517K"),
        (999_999, "1000K"),
        (1_234_567, "1.2M"),
        (150_000_000, "150M"),
    ] {
        assert_eq!(tokens(count), shown, "{count}");
    }
}

#[test]
fn thinking_is_folded_to_its_first_line() {
    let out = thought(
        &reasoned("Work it out.\nSix by seven.\nThat is 42."),
        Charset::Unicode,
        80,
        false,
    );

    assert_eq!(out, "  think Work it out.  +2 lines\n  ai    42\n");
}

#[test]
fn think_prints_the_whole_of_it() {
    let out = thought(
        &reasoned("Work it out.\nSix by seven.\nThat is 42."),
        Charset::Unicode,
        80,
        true,
    );

    assert_eq!(
        out,
        "  think Work it out.\n        Six by seven.\n        That is 42.\n  ai    42\n"
    );
}

#[test]
fn a_fold_counts_only_what_it_hides() {
    let one = thought(&reasoned("Six by seven."), Charset::Unicode, 80, false);
    assert_eq!(one, "  think Six by seven.\n  ai    42\n");

    let none = thought(&reasoned(""), Charset::Unicode, 80, false);
    assert_eq!(none, "  ai    42\n");
}

#[test]
fn a_fold_is_one_line_however_narrow_the_terminal() {
    let out = thought(
        &reasoned("A first line with a great many words in it indeed.\nAnd a second."),
        Charset::Unicode,
        40,
        false,
    );
    let folded = out.lines().next().expect("a line");

    assert_eq!(folded.chars().count(), 40);
    assert!(
        folded.ends_with("+1 line"),
        "the count went missing: {folded:?}"
    );
    assert!(folded.contains('\u{2026}'), "nothing was cut: {folded:?}");
}

fn produced(lines: usize) -> Vec<SessionEvent> {
    let content: Vec<String> = (1..=lines)
        .map(|at| format!("row {at} of the output that a tool produced"))
        .collect();
    vec![
        event(
            "tool/call",
            r#"{ "id": "c1", "name": "read", "arguments": {} }"#,
        ),
        event(
            "tool/result",
            &format!(r#"{{ "call_id": "c1", "name": "read", "ok": true, "content": {} }}"#, quoted(&content.join("\n"))),
        ),
    ]
}

#[test]
fn a_result_too_wide_for_the_line_is_folded_and_not_cut() {
    let words = "alpha bravo charlie delta echo foxtrot golf hotel india juliet";
    let out = rendered(
        &[
            event(
                "tool/call",
                r#"{ "id": "c1", "name": "read", "arguments": {} }"#,
            ),
            event(
                "tool/result",
                &format!(r#"{{ "call_id": "c1", "name": "read", "ok": true, "content": {} }}"#, quoted(words)),
            ),
        ],
        Charset::Unicode,
        40,
    );

    let lines: Vec<&str> = out.lines().skip(1).collect();
    assert!(lines.len() > 1, "not folded: {lines:?}");
    for line in &lines {
        assert!(line.chars().count() <= 40, "`{line}` overruns 40");
    }
    assert!(!out.contains('\u{2026}'), "something was cut: {out:?}");
    // Every word, and the continuations under the first one.
    let whole = lines.join(" ");
    let said: Vec<&str> = whole.split_whitespace().skip(2).collect();
    assert_eq!(said.join(" "), words, "{lines:?}");
    // Columns, not bytes: the mark in front of the name is one column and
    // three bytes, which is the whole reason the padding is built the way
    // it is.
    let column = lines[0]
        .split("alpha")
        .next()
        .expect("the value starts somewhere")
        .chars()
        .count();
    for line in &lines[1..] {
        let indent = line.chars().count() - line.trim_start().chars().count();
        assert_eq!(indent, column, "{lines:?}");
    }
}

#[test]
fn a_result_longer_than_the_cap_keeps_its_head_and_its_tail() {
    let out = rendered(&produced(40), Charset::Unicode, 80);
    let rows: Vec<&str> = out.lines().skip(1).collect();

    assert_eq!(rows.len(), CAP + 1, "{rows:?}");
    assert!(rows[0].contains("row 1 of"), "{rows:?}");
    assert!(rows[7].contains("row 8 of"), "{rows:?}");
    assert_eq!(rows[8].trim(), "\u{2026} +24 lines", "{rows:?}");
    assert!(rows[9].contains("row 33 of"), "{rows:?}");
    assert!(rows[CAP].contains("row 40 of"), "{rows:?}");
}

#[test]
fn the_count_is_of_the_lines_the_tool_wrote_not_the_ones_drawn() {
    let wide = rendered(&produced(40), Charset::Unicode, 80);
    let narrow = rendered(&produced(40), Charset::Unicode, 30);

    assert!(narrow.lines().count() > wide.lines().count(), "{narrow}");
    for out in [&wide, &narrow] {
        assert!(out.contains("+24 lines"), "{out}");
        assert!(out.contains("row 8 of"), "{out}");
        assert!(!out.contains("row 9 of"), "{out}");
        assert!(out.contains("row 33 of"), "{out}");
        assert!(!out.contains("row 32 of"), "{out}");
    }
}

#[test]
fn the_cap_folds_nothing_until_it_is_passed() {
    let flat = rendered(&produced(CAP), Charset::Unicode, 80);
    assert_eq!(flat.lines().skip(1).count(), CAP, "{flat}");
    assert!(flat.contains("row 8 of"), "{flat}");
    assert!(!flat.contains('\u{2026}'), "{flat}");

    let over = rendered(&produced(CAP + 1), Charset::Unicode, 80);
    assert!(over.contains("+1 line\n"), "{over}");
    assert!(!over.contains("+1 lines"), "{over}");
}

#[test]
fn a_folded_result_names_its_call_without_overrunning() {
    let out = rendered(
        &[
            event(
                "tool/call",
                r#"{ "id": "c1", "name": "read", "arguments": {} }"#,
            ),
            event(
                "tool/call",
                r#"{ "id": "c2", "name": "list", "arguments": {} }"#,
            ),
            event(
                "tool/result",
                r#"{ "call_id": "c1", "name": "read", "ok": true, "content": "alpha bravo charlie delta echo foxtrot golf hotel india" }"#,
            ),
        ],
        Charset::Unicode,
        40,
    );

    let lines: Vec<&str> = out.lines().collect();
    for line in &lines {
        assert!(line.chars().count() <= 40, "`{line}` overruns 40");
    }
    assert!(out.ends_with("(for c1)\n"), "{out}");
    assert_eq!(
        out.matches("(for c1)").count(),
        1,
        "said on more than one row: {out}"
    );
}

#[test]
fn a_short_value_out_of_a_journal_cannot_drive_the_terminal() {
    let clear = "\u{1b}[2J";
    let told = rendered(
        &[
            event(
                "session/start",
                r#"{ "session_id": "s", "provider": "mock", "max_steps": 4, "model": "deep\u001b[2Jseek" }"#,
            ),
            event(&format!("weather/{clear}report"), r#"{ "wind": 12 }"#),
            event(
                "tool/call",
                r#"{ "id": "c\u001b[2J1", "name": "ec\u001b[2Jho", "arguments": { "text": "hi" } }"#,
            ),
            event(
                "tool/call",
                r#"{ "id": "c2", "name": "read", "arguments": {} }"#,
            ),
            event(
                "tool/result",
                r#"{ "call_id": "c\u001b[2J1", "name": "ec\u001b[2Jho", "ok": true, "content": "hi" }"#,
            ),
            event(
                "turn/end",
                r#"{ "turn": 1, "steps": 1, "stop_reason": "a \u001b[2J veto", "stop_veto": "we\u001b[2Jather" }"#,
            ),
        ],
        Charset::Unicode,
        80,
    );

    assert!(
        !told.contains('\u{1b}'),
        "an escape reached the page:\n{told}"
    );
    for word in [
        "deepseek",
        "weather/report",
        "echo",
        "(for c1)",
        "a  veto",
        "held open by weather",
    ] {
        assert!(told.contains(word), "`{word}` is not drawn:\n{told}");
    }
}

#[test]
fn a_slow_turn_says_how_fast_the_model_was() {
    let out = rendered(
        &[
            timed(0, "turn/start", r#"{ "turn": 1 }"#),
            timed(0, "step/start", r#"{ "turn": 1, "step": 1 }"#),
            // Six hundred milliseconds to the first token, then four
            // hundred to decode two hundred of them: five hundred a second.
            timed(
                600,
                "assistant/chunk",
                r#"{ "chunk": "text", "delta": "on ", "turn": 1, "step": 1 }"#,
            ),
            timed(
                1_000,
                "assistant/message",
                r#"{ "content": "on it", "usage": { "prompt_tokens": 10, "completion_tokens": 200 } }"#,
            ),
            timed(1_000, "step/start", r#"{ "turn": 1, "step": 2 }"#),
            // A second step waits on a tool, not on the model: its wait is
            // not the one reported, and its decoding still counts.
            timed(
                3_000,
                "assistant/chunk",
                r#"{ "chunk": "text", "delta": "done", "turn": 1, "step": 2 }"#,
            ),
            timed(
                3_600,
                "assistant/message",
                r#"{ "content": "done", "usage": { "prompt_tokens": 10, "completion_tokens": 100 } }"#,
            ),
            timed(
                4_000,
                "turn/end",
                r#"{ "turn": 1, "steps": 2, "stop_reason": "natural" }"#,
            ),
        ],
        Charset::Unicode,
        120,
    );

    let closing = out.lines().last().expect("a closing line").to_string();
    assert!(closing.contains("first token in 0.6s"), "{closing}");
    // Three hundred tokens over a second of decoding.
    assert!(closing.contains("300 tok/s"), "{closing}");
    assert!(
        closing.contains("4.0s"),
        "the duration went missing: {closing}"
    );
}

#[test]
fn a_fast_or_unmeasured_turn_says_nothing_about_pace() {
    let quick = rendered(
        &[
            timed(0, "turn/start", r#"{ "turn": 1 }"#),
            timed(0, "step/start", r#"{ "turn": 1, "step": 1 }"#),
            timed(
                10,
                "assistant/chunk",
                r#"{ "chunk": "text", "delta": "on", "turn": 1, "step": 1 }"#,
            ),
            timed(
                20,
                "assistant/message",
                r#"{ "content": "on it", "usage": { "prompt_tokens": 1, "completion_tokens": 2 } }"#,
            ),
            timed(
                30,
                "turn/end",
                r#"{ "turn": 1, "steps": 1, "stop_reason": "natural" }"#,
            ),
        ],
        Charset::Unicode,
        120,
    );
    assert!(!quick.contains("tok/s"), "{quick}");
    assert!(!quick.contains("first token"), "{quick}");

    let unmeasured = rendered(
        &[
            timed(0, "turn/start", r#"{ "turn": 1 }"#),
            timed(0, "step/start", r#"{ "turn": 1, "step": 1 }"#),
            timed(
                900,
                "assistant/chunk",
                r#"{ "chunk": "text", "delta": "on", "turn": 1, "step": 1 }"#,
            ),
            timed(2_000, "assistant/message", r#"{ "content": "on it" }"#),
            timed(
                2_000,
                "turn/end",
                r#"{ "turn": 1, "steps": 1, "stop_reason": "natural" }"#,
            ),
        ],
        Charset::Unicode,
        120,
    );
    // The wait is a fact the journal holds even when nothing was billed.
    assert!(unmeasured.contains("first token in 0.9s"), "{unmeasured}");
    assert!(!unmeasured.contains("tok/s"), "{unmeasured}");
}

#[test]
fn the_fold_reads_a_conversation_off_its_journal() {
    let told = stats(&[
        timed(0, "turn/start", r#"{ "turn": 1 }"#),
        timed(0, "step/start", r#"{ "turn": 1, "step": 1 }"#),
        timed(
            500,
            "assistant/chunk",
            r#"{ "chunk": "text", "delta": "on", "turn": 1, "step": 1 }"#,
        ),
        timed(
            1_500,
            "assistant/message",
            r#"{ "content": "on it", "usage": { "prompt_tokens": 100, "completion_tokens": 50 } }"#,
        ),
        timed(
            1_500,
            "tool/call",
            r#"{ "id": "slow", "name": "echo", "arguments": {} }"#,
        ),
        timed(
            1_600,
            "tool/call",
            r#"{ "id": "quick", "name": "echo", "arguments": {} }"#,
        ),
        // The second call answers first: paired by id, the slow one is a
        // second and the quick one is a tenth.
        timed(
            1_700,
            "tool/result",
            r#"{ "call_id": "quick", "name": "echo", "ok": true, "content": "" }"#,
        ),
        timed(
            2_500,
            "tool/result",
            r#"{ "call_id": "slow", "name": "echo", "ok": true, "content": "" }"#,
        ),
        timed(
            2_500,
            "turn/end",
            r#"{ "turn": 1, "steps": 1, "stop_reason": "natural" }"#,
        ),
        timed(3_000, "turn/start", r#"{ "turn": 2 }"#),
        timed(3_000, "step/start", r#"{ "turn": 2, "step": 1 }"#),
        timed(
            3_200,
            "assistant/chunk",
            r#"{ "chunk": "text", "delta": "again", "turn": 2, "step": 1 }"#,
        ),
        timed(
            3_700,
            "assistant/message",
            r#"{ "content": "again", "usage": { "prompt_tokens": 40, "completion_tokens": 10 } }"#,
        ),
        timed(
            3_700,
            "turn/end",
            r#"{ "turn": 2, "steps": 1, "stop_reason": "natural" }"#,
        ),
    ]);

    assert_eq!(told.turns, 2);
    assert_eq!(told.steps, 2);
    // 1.5s of the first step and 0.7s of the second.
    assert_eq!(told.thinking, 2_200);
    // A second for the slow call, a tenth for the quick one.
    assert_eq!(told.tooling, 1_100);
    assert_eq!(told.waits, 2);
    assert_eq!(told.wait(), Some(350));
    // Sixty tokens decoded over a second and a half.
    assert_eq!(told.decoded, 60);
    assert_eq!(told.decoding, 1_500);
    assert_eq!(told.rate(), Some(40));
    assert_eq!(told.prompt_tokens, 140);
    assert_eq!(told.completion_tokens, 60);
}

#[test]
fn a_group_with_nothing_in_it_is_left_out() {
    let counted = strip_of(
        &Stats {
            turns: 1,
            steps: 1,
            ..Stats::default()
        },
    );
    let strip = counted;
    assert!(strip.contains("1 turn · 1 step"), "{strip}");
    assert!(!strip.contains("tok/s"), "{strip}");
    assert!(!strip.contains(" in "), "{strip}");

    let nothing = strip_of(&Stats::default());
    assert!(nothing.contains("nothing has been asked yet"), "{nothing}");
}

#[test]
fn a_turn_cut_off_at_the_cap_says_the_answer_is_unfinished() {
    let events = [
        event("turn/start", r#"{ "turn": 1 }"#),
        event(
            "assistant/message",
            r#"{ "content": "it was the best of" }"#,
        ),
        event(
            "turn/end",
            r#"{ "turn": 1, "steps": 1, "stop_reason": "max-tokens" }"#,
        ),
    ];
    let out = rendered(&events, Charset::Unicode, 80);

    assert!(out.contains("cut off at the output cap"), "{out}");
    assert!(
        !out.contains("max-tokens"),
        "the wire word reached the page: {out}"
    );
    assert!(out.contains("the answer stops where the cap did"), "{out}");

    // And it is not painted as a turn that ended well.
    let painted = painted(&events, Charset::Unicode, 80);
    let cut = painted
        .lines()
        .find(|line| line.contains("cut off"))
        .expect("the closing line");
    let natural = {
        let ended = [
            event("turn/start", r#"{ "turn": 1 }"#),
            event(
                "turn/end",
                r#"{ "turn": 1, "steps": 1, "stop_reason": "natural" }"#,
            ),
        ];
        crate::painted(&ended, Charset::Unicode, 80)
            .lines()
            .find(|line| line.contains("natural"))
            .expect("the closing line")
            .to_string()
    };
    let colour = |line: &str| {
        line.split('\u{1b}')
            .find(|part| part.starts_with('[') && part.contains('m'))
            .map(|part| part.split('m').next().unwrap_or_default().to_string())
    };
    assert_ne!(
        colour(cut),
        colour(&natural),
        "a cut-off turn is painted like a finished one"
    );
}

#[test]
fn the_room_beside_a_name_is_measured_in_columns() {
    let out = rendered(
        &[
            event(
                "tool/call",
                r#"{ "call_id": "c1", "name": "\u65e5\u672c\u8a9e", "arguments": { "text": "alpha bravo charlie delta echo foxtrot" } }"#,
            ),
            event(
                "tool/result",
                r#"{ "call_id": "c1", "name": "\u65e5\u672c\u8a9e", "ok": true, "content": "alpha bravo charlie delta echo foxtrot golf hotel" }"#,
            ),
        ],
        Charset::Unicode,
        40,
    );

    for line in out.lines() {
        assert!(
            visible_width(line) <= 40,
            "`{line}` is {} columns",
            visible_width(line)
        );
    }
}

#[test]
fn a_journal_past_its_counters_is_not_read() {
    let billed = event(
        "assistant/message",
        &format!(
            r#"{{ "content": "x", "usage": {{ "prompt_tokens": {}, "completion_tokens": 1 }} }}"#,
            u64::MAX
        ),
    );
    let once = [billed.clone()];
    assert_eq!(checked_render(&once, false).map(|drafts| drafts.len()), Some(1));
    assert_eq!(checked_stats(&once).map(|stats| stats.prompt_tokens), Some(u64::MAX));

    let twice = [billed.clone(), billed.clone()];
    assert!(checked_render(&twice, false).is_none());
    assert_eq!(checked_stats(&twice), None);

    let mut reader = Reader::new(false);
    assert!(reader.checked_lines(&billed).is_some());
    assert!(reader.checked_lines(&billed).is_none());
    assert_eq!(reader.checked_lines(&event("user/message", r#"{ "content": "hi" }"#)).map(|d| d.len()), Some(1));
}

#[test]
fn a_turn_too_short_to_rate_is_read_however_much_it_decoded() {
    let turn = |ended: u64| {
        vec![
            timed(0, "turn/start", r#"{ "turn": 1 }"#),
            timed(0, "step/start", r#"{ "turn": 1, "step": 1 }"#),
            timed(0, "assistant/chunk", r#"{ "chunk": "text", "delta": "a" }"#),
            timed(
                500,
                "assistant/message",
                r#"{ "content": "a",
                     "usage": { "prompt_tokens": 0, "completion_tokens": 1000000000000000000 } }"#,
            ),
            timed(
                ended,
                "turn/end",
                r#"{ "turn": 1, "steps": 1, "stop_reason": "natural" }"#,
            ),
        ]
    };
    assert!(checked_render(&turn(600), false).is_some());
    assert!(checked_render(&turn(2_000), false).is_none());
}
