use tetanus::event::SessionEvent;
use tetanus::input::{Flow, Key, Move};
use tetanus::paint::{Charset, Line, Role};
use tetanus::render::browse::{hits, keys, Journal, KEPT};
use tetanus::render::draft::Draft;
use tetanus::render::rows as draw;
use tetanus::render::timeline::render;

/// The columns a terminal draws a text in.
fn visible_width(text: &str) -> usize {
    tame(text)
        .chars()
        .map(|c| match c {
            '\u{1100}'..='\u{115f}'
            | '\u{2e80}'..='\u{a4cf}'
            | '\u{ac00}'..='\u{d7a3}'
            | '\u{f900}'..='\u{faff}'
            | '\u{ff00}'..='\u{ff60}' => 2,
            _ => 1,
        })
        .sum()
}

/// A text with everything in it that drives a terminal taken out.
fn tame(text: &str) -> String {
    let mut out = String::new();
    let mut chars = text.chars();
    while let Some(c) = chars.next() {
        if c == '\u{1b}' {
            match chars.next() {
                Some('[') => {
                    for c in chars.by_ref() {
                        if ('\u{40}'..='\u{7e}').contains(&c) {
                            break;
                        }
                    }
                }
                Some(']') => {
                    for c in chars.by_ref() {
                        if c == '\u{7}' {
                            break;
                        }
                    }
                }
                _ => {}
            }
        } else if c == '\n' || !c.is_control() {
            out.push(c);
        }
    }
    out
}

/// A tamed text on one line.
fn tame_line(text: &str) -> String {
    tame(text).split_whitespace().collect::<Vec<_>>().join(" ")
}

/// A text cut to a width, with a mark where it was.
fn truncate(text: &str, room: usize, charset: Charset) -> String {
    let flat = tame_line(text);
    if visible_width(&flat) <= room {
        return flat;
    }
    let mark = charset.glyph("…", "...");
    let mut out = String::new();
    for c in flat.chars() {
        let next = format!("{out}{c}{mark}");
        if visible_width(&next) > room {
            break;
        }
        out.push(c);
    }
    out.push_str(mark);
    out
}

/// A text folded to a width, between words where it can be.
fn wrap(text: &str, room: usize) -> Vec<String> {
    let mut rows = Vec::new();
    for line in tame(text).lines() {
        let mut row = String::new();
        for word in line.split_whitespace() {
            let mut word = word.to_string();
            if !row.is_empty() && visible_width(&row) + 1 + visible_width(&word) > room {
                rows.push(std::mem::take(&mut row));
            }
            while visible_width(&word) > room.max(1) {
                let mut head = String::new();
                for c in word.chars() {
                    if visible_width(&format!("{head}{c}")) > room.max(2) {
                        break;
                    }
                    head.push(c);
                }
                word = word[head.len()..].to_string();
                rows.push(head);
            }
            if !row.is_empty() {
                row.push(' ');
            }
            row.push_str(&word);
        }
        rows.push(row);
    }
    rows
}

/// One draft, finished for a terminal so wide.
fn lay(draft: &Draft, charset: Charset, width: usize) -> Vec<Line> {
    match draft {
        Draft::Row(line) => vec![line.clone()],
        Draft::Session { model } => vec![draw::session(&tame(model))],
        Draft::Said { who, said } => draw::said(*who, &wrap(said, draw::said_room(width))),
        Draft::Folded { first, rest } => {
            let room = draw::folded_room(width, *rest);
            vec![draw::folded(&truncate(first, room, charset), *rest)]
        }
        Draft::Call { name, value } => {
            let glyph = draw::call_glyph(charset);
            let named = tame(name);
            let head = visible_width(&draw::head(glyph, &named));
            let value = truncate(value, draw::tool_room(width, head), charset);
            vec![draw::tool(glyph, Role::Tool, &named, &value)]
        }
        Draft::Result { ok, name, content, answers, whole } => {
            let glyph = draw::result_glyph(charset, *ok);
            let named = tame(name);
            let head = visible_width(&draw::head(glyph, &named));
            let says = answers.as_ref().map(|call| draw::says(&tame(call)));
            let marked = says.as_deref().map(visible_width).unwrap_or(0);
            let room = draw::result_room(width, head, marked);
            let plan = draw::plan(content, *whole);
            draw::produced(
                charset,
                *ok,
                &named,
                head,
                says.as_deref(),
                &wrap(&plan.head, room),
                plan.hidden,
                &wrap(&plan.tail, room),
            )
        }
        Draft::Closing(how) => {
            let reason = tame(how.reason.as_str());
            let veto = how.veto.as_deref().map(tame).unwrap_or_default();
            draw::closing(charset, how, &reason, &veto)
        }
        Draft::Raw { ty, data } => {
            let named = tame(ty);
            let room = draw::raw_room(width, visible_width(&named));
            vec![draw::raw(&named, &truncate(data, room, charset))]
        }
    }
}

/// A payload, as the journal stores it.
fn payload(data: &str) -> String {
    serde_json::from_str::<serde_json::Value>(data).expect("a payload").to_string()
}

/// An event at a stated moment on the journal's clock.
fn timed(time: u64, ty: &str, data: &str) -> SessionEvent {
    SessionEvent { ty: ty.to_string(), seq: 0, time, data: payload(data), source_event_seqs: None }
}

fn event(ty: &str, data: &str) -> SessionEvent {
    timed(0, ty, data)
}

const COLS: usize = 60;

/// A journal at a width, finished for the terminal.
fn laid(events: &[SessionEvent], cols: usize) -> Vec<Line> {
    render(events, false).iter().flat_map(|draft| lay(draft, Charset::Unicode, cols)).collect()
}

/// The lines a reader of the printed page gets for the same events.
fn timeline(events: &[SessionEvent], cols: usize) -> Vec<String> {
    laid(events, cols).iter().map(|line| line.text()).collect()
}

/// The journal on a screen: a window over its lines, so many from the end.
struct View {
    journal: Journal,
    events: Vec<SessionEvent>,
    lines: Vec<Line>,
    cols: usize,
    height: usize,
    back: usize,
}

impl View {
    fn new(events: &[SessionEvent], cols: usize) -> View {
        let mut view = View {
            journal: Journal::new("up/dn scroll", 0),
            events: events.to_vec(),
            lines: Vec::new(),
            cols,
            height: 0,
            back: 0,
        };
        view.fill(cols);
        view
    }

    fn fill(&mut self, cols: usize) {
        self.cols = cols;
        self.lines = laid(&self.events, cols);
        let go = self.journal.fill(&self.lines);
        self.go(go);
    }

    fn window(&self) -> usize {
        self.height.saturating_sub(4)
    }

    fn go(&mut self, to: Move) {
        match to {
            Move::Stay => {}
            Move::Back(rows) => self.back += rows,
            Move::On(rows) => self.back = self.back.saturating_sub(rows),
            Move::Top => self.back = self.lines.len(),
            Move::Follow => self.back = 0,
            Move::Land(rows) => self.back = rows,
        }
    }

    fn key(&mut self, key: Key) -> Flow {
        let (flow, go) = self.journal.key(key);
        self.go(go);
        flow
    }
}

/// One frame, as rows of text.
fn rows(view: &mut View, cols: usize, height: usize) -> Vec<String> {
    view.height = height;
    view.journal.measure(height);
    if view.cols != cols {
        view.fill(cols);
    }
    let (all, window) = (view.lines.len(), view.window());
    view.back = view.back.min(all.saturating_sub(window));
    let end = all - view.back;
    let mut rows = vec!["j.jsonl".to_string(), String::new()];
    rows.extend(view.lines[end.saturating_sub(window)..end].iter().map(|line| line.text()));
    rows.resize(height - 1, String::new());
    rows.push(view.journal.hint(Charset::Unicode).text());
    rows
}

fn turn() -> Vec<SessionEvent> {
    vec![
        event("session/start", r#"{ "model": "deepseek-chat" }"#),
        event("turn/start", r#"{ "turn": 1 }"#),
        event("step/start", r#"{ "turn": 1, "step": 1 }"#),
        event("user/message", r#"{ "content": "echo this" }"#),
        event("assistant/message", r#"{ "content": "on it" }"#),
        event(
            "tool/call",
            r#"{ "id": "c1", "name": "echo", "arguments": { "text": "hi" } }"#,
        ),
        event(
            "tool/result",
            r#"{ "call_id": "c1", "name": "echo", "ok": true, "content": "hi" }"#,
        ),
        event("step/end", r#"{ "turn": 1, "step": 1 }"#),
        event(
            "turn/end",
            r#"{ "turn": 1, "steps": 1, "stop_reason": "natural" }"#,
        ),
    ]
}

fn typed(view: &mut View, text: &str) {
    view.key(Key::Char('/'));
    for letter in text.chars() {
        view.key(Key::Char(letter));
    }
}

fn body(rows: &[String]) -> Vec<String> {
    let body = &rows[2..rows.len() - 1];
    let end = body
        .iter()
        .rposition(|row| !row.is_empty())
        .map_or(0, |i| i + 1);
    body[..end].to_vec()
}

#[test]
fn what_the_page_holds_is_the_timeline() {
    let events = turn();
    let want = timeline(&events, COLS);
    let mut view = View::new(&events, COLS);

    assert_eq!(body(&rows(&mut view, COLS, want.len() + 6)), want);
}

#[test]
fn a_journal_taller_than_the_screen_opens_at_its_end() {
    let events = turn();
    let want = timeline(&events, COLS);
    let mut view = View::new(&events, COLS);

    assert_eq!(body(&rows(&mut view, COLS, 8)), want[want.len() - 4..]);

    view.key(Key::Home);
    assert_eq!(body(&rows(&mut view, COLS, 8)), want[..4]);

    view.key(Key::End);
    assert_eq!(body(&rows(&mut view, COLS, 8)), want[want.len() - 4..]);
}

#[test]
fn a_resize_composes_the_lines_again() {
    let events = vec![event(
        "user/message",
        r#"{ "content": "a prompt long enough that where it wraps depends on how wide the screen is" }"#,
    )];
    let mut view = View::new(&events, 70);

    let wide = timeline(&events, 70);
    let narrow = timeline(&events, 34);
    assert_ne!(wide, narrow, "the case needs a width the wrapping notices");

    assert_eq!(body(&rows(&mut view, 70, 20)), wide);
    assert_eq!(body(&rows(&mut view, 34, 20)), narrow);
}

#[test]
fn the_keys_move_the_window_by_what_they_say() {
    let events = turn();
    let mut view = View::new(&events, COLS);
    rows(&mut view, COLS, 12);

    view.key(Key::PageUp);
    assert_eq!(view.back, 12 - KEPT);
    view.key(Key::Up);
    assert_eq!(view.back, 12 - KEPT + 1);
    view.key(Key::Down);
    assert_eq!(view.back, 12 - KEPT);
    view.key(Key::PageDown);
    assert_eq!(view.back, 0);
}

#[test]
fn q_and_esc_close_the_view() {
    let events = turn();
    let mut view = View::new(&events, COLS);

    assert_eq!(view.key(Key::Char('x')), Flow::Go);
    assert_eq!(view.key(Key::Char('q')), Flow::Stop);
    assert_eq!(view.key(Key::Esc), Flow::Stop);
}

fn text(rows: &[String]) -> String {
    body(rows).join("\n")
}

#[test]
fn a_search_reaches_the_line_that_holds_it() {
    let events = turn();
    let mut view = View::new(&events, COLS);
    rows(&mut view, COLS, 8);

    typed(&mut view, "echo");
    view.key(Key::Enter);
    let first = rows(&mut view, COLS, 8);
    assert!(body(&first)[0].contains("echo"), "{first:?}");
    assert!(first[first.len() - 1].contains("match 1 of"), "{first:?}");

    view.key(Key::Char('n'));
    let second = rows(&mut view, COLS, 8);
    assert!(text(&second).contains("echo"), "{second:?}");
    assert_ne!(body(&second), body(&first), "`n` stayed put");
    assert!(
        second[second.len() - 1].contains("match 2 of"),
        "{second:?}"
    );

    // Round the end and back to the first, which is the whole reason the
    // count is on the footer: without it a wrap looks like a view stuck.
    let hits = hits(&timeline(&events, COLS), "echo").len();
    for _ in 1..hits {
        view.key(Key::Char('n'));
    }
    assert_eq!(body(&rows(&mut view, COLS, 8))[0], body(&first)[0]);
}

#[test]
fn the_prompt_takes_the_printable_keys_while_it_is_open() {
    let events = turn();
    let mut view = View::new(&events, COLS);
    let before = rows(&mut view, COLS, 8);

    view.key(Key::Char('/'));
    assert_eq!(view.key(Key::Char('q')), Flow::Go, "`q` closed the view");
    view.key(Key::Backspace);
    for letter in "echo".chars() {
        view.key(Key::Char(letter));
    }
    assert!(view.journal.typing(), "the prompt closed under a word");
    assert_eq!(body(&rows(&mut view, COLS, 8)), body(&before), "it moved");

    view.key(Key::Esc);
    assert!(!view.journal.typing());
    assert_eq!(body(&rows(&mut view, COLS, 8)), body(&before));
    assert_eq!(
        view.key(Key::Char('q')),
        Flow::Stop,
        "`q` is a letter still"
    );
}

#[test]
fn a_word_no_line_holds_is_said_rather_than_acted_on() {
    let events = turn();
    let mut view = View::new(&events, COLS);
    let before = rows(&mut view, COLS, 8);

    assert_eq!(view.key(Key::Char('n')), Flow::Go);
    assert_eq!(body(&rows(&mut view, COLS, 8)), body(&before));

    typed(&mut view, "zebra");
    view.key(Key::Enter);
    let after = rows(&mut view, COLS, 8);
    assert!(
        after[after.len() - 1].contains("no line holds zebra"),
        "{after:?}"
    );
    assert_eq!(body(&after), body(&before), "the page moved on no match");
}

#[test]
fn a_resize_finds_the_lines_again() {
    let events = turn();
    let mut view = View::new(&events, 70);
    rows(&mut view, 70, 8);

    typed(&mut view, "echo");
    view.key(Key::Enter);
    assert!(text(&rows(&mut view, 70, 8)).contains("echo"));

    let narrow = rows(&mut view, 34, 8);
    assert!(body(&narrow)[0].contains("echo"), "{narrow:?}");
    assert!(
        narrow[narrow.len() - 1].contains("match 1 of"),
        "{narrow:?}"
    );
}

#[test]
fn every_line_that_holds_the_word_is_a_hit() {
    let lines: Vec<String> = ["Echo", "an eCHo", "silence", "ech o"].map(String::from).to_vec();
    assert_eq!(hits(&lines, "echo"), [0, 1]);
    assert_eq!(hits(&lines, "ECHO"), [0, 1]);
    assert!(hits(&lines, "zebra").is_empty());
}

#[test]
fn the_match_walks_round_both_ways() {
    let events = turn();
    let mut view = View::new(&events, COLS);
    rows(&mut view, COLS, 8);
    typed(&mut view, "echo");
    view.key(Key::Enter);
    let there = view.journal.hint(Charset::Unicode).text();
    view.key(Key::Char('n'));
    view.key(Key::Char('N'));
    assert_eq!(view.journal.hint(Charset::Unicode).text(), there);
}

#[test]
fn the_keys_are_written_in_the_charset() {
    assert!(keys(Charset::Ascii).is_ascii());
    assert!(!keys(Charset::Unicode).is_ascii());
}

#[test]
fn a_journal_has_a_key_card() {
    let mut journal = Journal::new(&keys(Charset::Unicode), 20);
    assert_eq!(journal.hint(Charset::Unicode).text(), "↑↓ scroll · / find · ? keys · q quit");
    assert_eq!(journal.key(Key::Char('?')), (Flow::Go, Move::Stay));
    assert!(journal.help());
    assert_eq!(journal.key(Key::Char('q')), (Flow::Go, Move::Stay));
    assert!(!journal.help());

    // In the search prompt it is a letter.
    journal.key(Key::Char('/'));
    journal.key(Key::Char('?'));
    assert!(!journal.help());
    assert_eq!(journal.hint(Charset::Unicode).text(), "/?");

    let card = tetanus::render::browse::map(Charset::Ascii);
    assert_eq!(card[0].0, "up dn");
    assert!(card.iter().any(|row| row.0 == "/"), "{card:?}");
}
