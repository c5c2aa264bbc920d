use tetanus::event::SessionEvent;
use tetanus::input::Key;
use tetanus::paint::{Charset, Line, Role};
use tetanus::render::chat::{card, card_room, commands};
use tetanus::render::draft::Draft;
use tetanus::render::fault::{lines, note_room, said};
use tetanus::render::figures::Elapsed;
use tetanus::render::fire::{composes, Act, Composed, Fire, Said, Scene, Typed, LABEL};
use tetanus::render::rows;
use tetanus::rpc::{ErrorCode, RpcError};

/// The columns a terminal draws a text in.
fn visible_width(text: &str) -> usize {
    tame(text)
        .chars()
        .map(|c| match c {
            '\u{1100}'..='\u{115f}'
            | '\u{2e80}'..='\u{a4cf}'
            | '\u{ac00}'..='\u{d7a3}'
            | '\u{f900}'..='\u{faff}'
            | '\u{ff00}'..='\u{ff60}' => 2,
            _ => 1,
        })
        .sum()
}

/// A text with everything in it that drives a terminal taken out.
fn tame(text: &str) -> String {
    let mut out = String::new();
    let mut chars = text.chars();
    while let Some(c) = chars.next() {
        if c == '\u{1b}' {
            match chars.next() {
                Some('[') => {
                    for c in chars.by_ref() {
                        if ('\u{40}'..='\u{7e}').contains(&c) {
                            break;
                        }
                    }
                }
                Some(']') => {
                    for c in chars.by_ref() {
                        if c == '\u{7}' {
                            break;
                        }
                    }
                }
                _ => {}
            }
        } else if c == '\n' || !c.is_control() {
            out.push(c);
        }
    }
    out
}

/// A tamed text on one line.
fn tame_line(text: &str) -> String {
    tame(text).split_whitespace().collect::<Vec<_>>().join(" ")
}

/// A text cut to a width, with a mark where it was.
fn truncate(text: &str, room: usize, charset: Charset) -> String {
    let flat = tame_line(text);
    if visible_width(&flat) <= room {
        return flat;
    }
    let mark = charset.glyph("…", "...");
    let mut out = String::new();
    for c in flat.chars() {
        let next = format!("{out}{c}{mark}");
        if visible_width(&next) > room {
            break;
        }
        out.push(c);
    }
    out.push_str(mark);
    out
}

/// A text folded to a width, between words where it can be.
fn wrap(text: &str, room: usize) -> Vec<String> {
    let mut rows = Vec::new();
    for line in tame(text).lines() {
        let mut row = String::new();
        for word in line.split_whitespace() {
            let mut word = word.to_string();
            if !row.is_empty() && visible_width(&row) + 1 + visible_width(&word) > room {
                rows.push(std::mem::take(&mut row));
            }
            while visible_width(&word) > room.max(1) {
                let mut head = String::new();
                for c in word.chars() {
                    if visible_width(&format!("{head}{c}")) > room.max(2) {
                        break;
                    }
                    head.push(c);
                }
                word = word[head.len()..].to_string();
                rows.push(head);
            }
            if !row.is_empty() {
                row.push(' ');
            }
            row.push_str(&word);
        }
        rows.push(row);
    }
    rows
}

/// One draft, finished for a terminal so wide.
fn lay(draft: &Draft, charset: Charset, width: usize) -> Vec<Line> {
    match draft {
        Draft::Row(line) => vec![line.clone()],
        Draft::Session { model } => vec![rows::session(&tame(model))],
        Draft::Said { who, said } => rows::said(*who, &wrap(said, rows::said_room(width))),
        Draft::Folded { first, rest } => {
            let room = rows::folded_room(width, *rest);
            vec![rows::folded(&truncate(first, room, charset), *rest)]
        }
        Draft::Call { name, value } => {
            let glyph = rows::call_glyph(charset);
            let named = tame(name);
            let head = visible_width(&rows::head(glyph, &named));
            let value = truncate(value, rows::tool_room(width, head), charset);
            vec![rows::tool(glyph, Role::Tool, &named, &value)]
        }
        Draft::Result { ok, name, content, answers, whole } => {
            let glyph = rows::result_glyph(charset, *ok);
            let named = tame(name);
            let head = visible_width(&rows::head(glyph, &named));
            let says = answers.as_ref().map(|call| rows::says(&tame(call)));
            let marked = says.as_deref().map(visible_width).unwrap_or(0);
            let room = rows::result_room(width, head, marked);
            let plan = rows::plan(content, *whole);
            rows::produced(
                charset,
                *ok,
                &named,
                head,
                says.as_deref(),
                &wrap(&plan.head, room),
                plan.hidden,
                &wrap(&plan.tail, room),
            )
        }
        Draft::Closing(how) => {
            let reason = tame(how.reason.as_str());
            let veto = how.veto.as_deref().map(tame).unwrap_or_default();
            rows::closing(charset, how, &reason, &veto)
        }
        Draft::Raw { ty, data } => {
            let named = tame(ty);
            let room = rows::raw_room(width, visible_width(&named));
            vec![rows::raw(&named, &truncate(data, room, charset))]
        }
    }
}

/// A payload, as the journal stores it.
fn payload(data: &str) -> String {
    serde_json::from_str::<serde_json::Value>(data).expect("a payload").to_string()
}

/// An event at a stated moment on the journal's clock.
fn timed(time: u64, ty: &str, data: &str) -> SessionEvent {
    SessionEvent { ty: ty.to_string(), seq: 0, time, data: payload(data), source_event_seqs: None }
}

fn event(ty: &str, data: &str) -> SessionEvent {
    timed(0, ty, data)
}

const COLS: usize = 60;
const ROWS: usize = 10;

/// The conversation on a terminal, with the line being typed.
struct View {
    fire: Fire,
    line: Vec<char>,
    at: usize,
}

fn fire() -> View {
    View::new(COLS)
}

impl View {
    fn new(width: usize) -> View {
        View { fire: Fire::new(width, "mock-echo-1", false), line: Vec::new(), at: 0 }
    }

    /// What a line editor makes of a key.
    fn edit(&mut self, key: Key) -> Typed {
        match key {
            Key::Char(c) => {
                self.line.insert(self.at, c);
                self.at += 1;
            }
            Key::Backspace if self.at > 0 => {
                self.at -= 1;
                self.line.remove(self.at);
            }
            Key::Home => self.at = 0,
            Key::Ctrl('c') => return Typed::Interrupted,
            Key::Ctrl('d') if self.line.is_empty() => return Typed::Left,
            Key::Ctrl('d') if self.at < self.line.len() => {
                self.line.remove(self.at);
            }
            Key::Enter => {
                self.at = 0;
                return Typed::Asked(self.line.drain(..).collect());
            }
            _ => return Typed::Ignored,
        }
        Typed::Editing
    }

    fn key(&mut self, key: Key) -> Act {
        if !self.fire.offers(key) {
            return Act::Go;
        }
        let typed = self.edit(key);
        let rows = match composes(key, &typed) {
            true => self.composed(self.fire.width()),
            false => Vec::new(),
        };
        self.fire.checked_key(key, typed, rows).expect("a counter in range")
    }

    fn push(&mut self, event: &SessionEvent) {
        let drafts = self.fire.checked_push(event.clone()).expect("a counter in range");
        let width = self.fire.width();
        let rows = drafts.iter().flat_map(|draft| lay(draft, Charset::Unicode, width)).collect();
        self.fire.settle(rows);
    }

    fn card(&mut self) {
        let rows = card_rows(self.fire.width());
        self.fire.card(rows);
    }

    fn fault(&mut self, error: RpcError) {
        let rows = fault_rows(&error, self.fire.width());
        self.fire.fault(error, rows);
    }

    fn find(&mut self, word: &str) {
        let rows = self.composed(self.fire.width());
        assert!(self.fire.checked_find(word, rows), "a counter out of range");
    }

    /// The whole conversation again, at a width.
    fn composed(&self, cols: usize) -> Vec<Line> {
        let pieces = self.fire.checked_again().expect("a counter in range");
        let mut rows = Vec::new();
        for (i, piece) in pieces.iter().enumerate() {
            match (piece, self.fire.said(i)) {
                (Composed::Drafts(drafts), _) => {
                    rows.extend(drafts.iter().flat_map(|draft| lay(draft, Charset::Unicode, cols)));
                }
                (Composed::Kept, Said::Card) => rows.extend(card_rows(cols)),
                (Composed::Kept, Said::Note(said)) => rows.push(Line::of(Role::Warn, said)),
                (Composed::Kept, Said::Fault(error)) => rows.extend(fault_rows(error, cols)),
                (Composed::Kept, Said::Event(_)) => unreachable!("an event makes drafts"),
            }
        }
        rows
    }

    /// The whole conversation again, for another width.
    fn fill(&mut self, cols: usize) {
        let rows = self.composed(cols);
        assert!(self.fire.checked_refill(cols, rows), "a counter out of range");
    }

    fn scene(&mut self, cols: usize, height: usize) -> Scene {
        if self.fire.width() != cols {
            self.fill(cols);
        }
        let folded = match self.fire.live().arriving() {
            Some((_, said)) => wrap(&said, rows::said_room(cols)),
            None => Vec::new(),
        };
        let block = self.fire.live().block(
            Charset::Unicode,
            "⠋",
            Elapsed::from_millis(0),
            &folded,
        );
        // The part of the line that holds the cursor.
        let room = cols - LABEL - 1;
        let from = self.at.saturating_sub(room);
        let typed: String = self.line[from..].iter().take(room).collect();
        let drawn = self.fire.wanted().unwrap_or_default().to_string();
        self.fire.frame(height, Charset::Unicode, &block, &typed, self.at - from, &drawn)
    }
}

/// The card of commands at a width.
fn card_rows(cols: usize) -> Vec<Line> {
    let said = commands()
        .iter()
        .map(|row| truncate(row.1, card_room(cols), Charset::Unicode))
        .collect();
    card(&said)
}

/// A failure at a width.
fn fault_rows(error: &RpcError, cols: usize) -> Vec<Line> {
    let (message, note) = said(error);
    let note = note.map(|note| wrap(&note, note_room(cols))).unwrap_or_default();
    lines(Charset::Unicode, &tame_line(&message), &note)
}

/// One frame at a stated width, as rows of text. A row too wide is cut.
fn rows_at(view: &mut View, cols: usize, height: usize) -> Vec<String> {
    let scene = view.scene(cols, height);
    let bar = |left: &str, right: &str| {
        let gap = cols.saturating_sub(visible_width(left) + visible_width(right));
        format!("{left}{}{right}", " ".repeat(gap))
    };
    let here = scene.here.text();
    let left = match visible_width(&scene.hint) + visible_width(&here) < cols {
        true => &scene.hint,
        false => &scene.short,
    };
    let mut out = vec![bar(&scene.head.0.text(), &scene.head.1.text())];
    out.extend(scene.rows.iter().map(|row| row.text()));
    out.push(scene.prompt.text());
    out.push(bar(left, &here));
    out.iter().map(|row| fitted(row, cols)).collect()
}

/// A row of a frame, cut where the frame ends.
fn fitted(row: &str, cols: usize) -> String {
    let row = row.trim_end();
    match visible_width(row) <= cols {
        true => row.to_string(),
        false => row.chars().take(cols - 1).chain(['…']).collect(),
    }
}

/// One frame, as rows of text.
fn rows(view: &mut View, height: usize) -> Vec<String> {
    rows_at(view, COLS, height)
}

/// Where the frame puts the terminal's cursor, as (row, column).
fn cursor(view: &mut View, height: usize) -> (usize, usize) {
    view.scene(COLS, height).cursor
}

/// A journal event carrying one message.
fn said_by(who: &str, text: &str) -> SessionEvent {
    let ty = format!("{who}/message").replace("you/", "user/");
    let content = serde_json::Value::from(text);
    timed(0, &ty, &format!(r#"{{ "content": {content}, "turn": 1 }}"#))
}

fn typing(view: &mut View, text: &str) {
    for char in text.chars() {
        assert_eq!(view.key(Key::Char(char)), Act::Go);
    }
}

#[test]
fn the_prompt_is_the_second_to_last_row_and_the_cursor_is_on_it() {
    let mut view = fire();
    view.fire.note("turn 1");
    view.fire.note("  you   hello");
    typing(&mut view, "next");

    let rows = rows(&mut view, ROWS);
    assert_eq!(rows.len(), ROWS, "not the height asked for: {rows:?}");
    assert!(rows[0].starts_with("tetanus"), "no heading: {rows:?}");
    assert!(rows[0].ends_with("chat on mock-echo-1"), "{rows:?}");
    assert_eq!(rows[ROWS - 2], "> next", "not the prompt: {rows:?}");
    assert!(rows[ROWS - 1].contains("enter ask"), "no footer: {rows:?}");
    assert!(
        rows.iter().any(|row| row.contains("you   hello")),
        "the transcript is missing: {rows:?}"
    );
    assert_eq!(cursor(&mut view, ROWS), (ROWS - 2, "> next".len()));
}

#[test]
fn enter_asks_what_was_typed_and_nothing_when_nothing_was() {
    let mut view = fire();
    typing(&mut view, "what is this");

    assert_eq!(view.key(Key::Enter), Act::Asked("what is this".into()));
    assert_eq!(view.key(Key::Enter), Act::Go);
    assert_eq!(rows(&mut view, ROWS)[ROWS - 2], ">");
}

#[test]
fn a_line_typed_while_a_turn_runs_is_held_rather_than_sent() {
    let mut view = fire();
    view.fire.started("running the turn on mock-echo-1");
    typing(&mut view, "and another thing");

    assert_eq!(view.key(Key::Enter), Act::Go);
    let rows = rows(&mut view, ROWS);
    assert_eq!(rows[ROWS - 2], "> and another thing", "{rows:?}");
    assert!(rows[ROWS - 1].contains("working"), "{rows:?}");

    view.fire.finished();
    assert_eq!(
        view.key(Key::Enter),
        Act::Asked("and another thing".into()),
        "the line was lost when the turn ended"
    );
}

#[test]
fn the_window_moves_only_when_the_reader_moves_it() {
    let mut view = fire();
    for n in 1..=40 {
        view.fire.note(&format!("line {n}"));
    }
    rows(&mut view, ROWS);

    assert_eq!(view.key(Key::Up), Act::Go);
    assert_eq!(view.key(Key::Up), Act::Go);
    let back = rows(&mut view, ROWS);
    assert!(back[ROWS - 1].contains("2 back"), "{back:?}");

    view.fire.note("line 41");
    let after = rows(&mut view, ROWS);
    assert_eq!(
        back[2], after[2],
        "an arriving line moved the window: {after:?}"
    );

    assert_eq!(view.key(Key::Esc), Act::Go);
    let end = rows(&mut view, ROWS);
    assert!(end[ROWS - 1].contains("end"), "{end:?}");
    assert!(
        end.iter().any(|row| row.contains("line 41")),
        "the foot is not the newest line: {end:?}"
    );
}

#[test]
fn a_resize_composes_the_conversation_again() {
    let mut view = View::new(100);
    view.push(&said_by(
        "you",
        &"a question long enough to fold ".repeat(3),
    ));

    let wide = rows_at(&mut view, 100, ROWS);
    assert!(
        wide.iter()
            .any(|row| row.contains("a question long enough")),
        "{wide:?}"
    );

    let narrow = rows_at(&mut view, 46, ROWS);
    for row in &narrow {
        assert!(visible_width(row) <= 46, "`{row}` overruns 46");
    }
    assert!(
        !narrow.iter().any(|row| row.contains('\u{2026}')),
        "a row was cut instead of composed again: {narrow:?}"
    );
    // Every word survives the rewrap, which a cut does not allow.
    let said: String = narrow.join(" ");
    assert!(
        said.contains("a question long enough to fold"),
        "{narrow:?}"
    );

    // And back again: the wide frame is the wide frame, not the narrow
    // one with the folds still in it.
    let again = rows_at(&mut view, 100, ROWS);
    assert_eq!(wide, again, "widening did not undo the fold");
}

#[test]
fn everything_on_the_page_is_composed_again() {
    let whole = "a sentence about a file long enough that a narrow window has to cut it";
    let mut view = View::new(90);
    view.card();
    view.fault(RpcError::new(ErrorCode::Io, whole));

    let wide = rows_at(&mut view, 90, ROWS + 6);
    assert!(
        wide.iter().any(|row| row.contains(whole)),
        "the fault is not whole at 90: {wide:?}"
    );

    let narrow = rows_at(&mut view, 44, ROWS + 6);
    for row in &narrow {
        assert!(visible_width(row) <= 44, "`{row}` overruns 44");
    }
    assert!(
        narrow.iter().any(|row| row.contains("/exit")),
        "the card is not on the narrow page: {narrow:?}"
    );

    let again = rows_at(&mut view, 90, ROWS + 6);
    assert_eq!(wide, again, "widening did not undo the cut");
}

#[test]
fn find_counts_the_matches_and_lands_on_the_newest() {
    let mut view = fire();
    for n in 1..=30 {
        view.fire.note(&format!("line {n}"));
    }
    view.fire.note("the word is alpha");
    for n in 31..=50 {
        view.fire.note(&format!("line {n}"));
    }
    view.fire.note("alpha again, at the foot");
    rows(&mut view, ROWS);

    view.find("alpha");
    let found = rows(&mut view, ROWS);
    assert!(found[ROWS - 1].contains("2 of 2"), "{found:?}");
    assert!(
        found.iter().any(|row| row.contains("alpha again")),
        "the window did not land on the newest match: {found:?}"
    );

    view.find("zzz");
    let none = rows(&mut view, ROWS);
    assert!(none[ROWS - 1].contains("no line holds zzz"), "{none:?}");
}

#[test]
fn the_matches_are_walked_and_the_walk_goes_round() {
    let mut view = fire();
    for n in 1..=3 {
        view.fire.note(&format!("alpha {n}"));
    }
    view.find("alpha");
    assert!(rows(&mut view, ROWS)[ROWS - 1].contains("3 of 3"));

    assert_eq!(view.key(Key::Ctrl('n')), Act::Go);
    assert!(
        rows(&mut view, ROWS)[ROWS - 1].contains("1 of 3"),
        "no round"
    );
    assert_eq!(view.key(Key::Ctrl('p')), Act::Go);
    assert!(
        rows(&mut view, ROWS)[ROWS - 1].contains("3 of 3"),
        "no round back"
    );

    assert_eq!(view.key(Key::Esc), Act::Go);
    assert!(
        rows(&mut view, ROWS)[ROWS - 1].contains("end"),
        "still searching"
    );
}

#[test]
fn a_search_survives_a_resize() {
    let mut view = View::new(90);
    view.push(&said_by("you", &"alpha ".repeat(24)));
    view.find("alpha");

    let wide = rows_at(&mut view, 90, ROWS);
    assert!(wide[ROWS - 1].contains(" of "), "{wide:?}");

    let narrow = rows_at(&mut view, 40, ROWS);
    assert!(
        narrow[ROWS - 1].contains(" of "),
        "the search was lost in the rewrap: {narrow:?}"
    );
    for row in &narrow {
        assert!(visible_width(row) <= 40, "`{row}` overruns 40");
    }
}

#[test]
fn the_two_ways_out_are_not_the_same_way_out() {
    let mut view = fire();
    assert_eq!(view.key(Key::Ctrl('d')), Act::Leave);
    assert_eq!(view.key(Key::Ctrl('c')), Act::Stopped);

    // On a line with something on it, Ctrl-D is a delete and not a way
    // out - which is what every other line editor does with it.
    let mut typed = fire();
    typing(&mut typed, "hi");
    assert_eq!(typed.key(Key::Home), Act::Go);
    assert_eq!(typed.key(Key::Ctrl('d')), Act::Go);
    assert_eq!(rows(&mut typed, ROWS)[ROWS - 2], "> i");
}

#[test]
fn a_long_line_keeps_its_cursor_on_the_row() {
    let mut view = fire();
    typing(&mut view, &"typing on and on ".repeat(6));

    let rows = rows(&mut view, ROWS);
    for row in &rows {
        assert!(
            visible_width(row) <= COLS,
            "`{row}` overruns {COLS} columns"
        );
    }
    let (row, col) = cursor(&mut view, ROWS);
    assert_eq!(row, ROWS - 2, "the cursor left the prompt row");
    assert!(col < COLS, "the cursor is off the row: {col}");
}

#[test]
fn a_running_turn_shows_its_block_over_the_prompt() {
    let mut view = fire();
    view.fire.started("asking the model");
    view.fire.tick();
    view.push(&event(
        "assistant/chunk",
        r#"{ "chunk": "text", "delta": "on it", "turn": 1, "step": 1 }"#,
    ));
    let shown = rows(&mut view, ROWS);
    assert!(shown.iter().any(|row| row.contains("ai    on it")), "{shown:?}");
    view.fire.finished();
    let after = rows(&mut view, ROWS);
    assert!(!after.iter().any(|row| row.contains("on it")), "{after:?}");
}

#[test]
fn a_line_of_spaces_is_not_a_question() {
    let mut view = fire();
    typing(&mut view, "   ");
    assert_eq!(view.key(Key::Enter), Act::Go);
    assert_eq!(view.fire.count(), 0);
    assert_eq!(view.fire.model(), "mock-echo-1");
}

#[test]
fn an_event_past_its_counters_is_not_read() {
    let mut view = fire();
    let billed = event(
        "assistant/message",
        &format!(
            r#"{{ "content": "x", "usage": {{ "prompt_tokens": {}, "completion_tokens": 1 }} }}"#,
            u64::MAX
        ),
    );
    assert!(view.fire.checked_push(billed.clone()).is_some());
    assert!(view.fire.checked_push(billed).is_none());
    assert_eq!(view.fire.count(), 1);
    assert!(view.fire.checked_again().is_some());
}

#[test]
fn a_resize_leaves_a_later_turn_its_block() {
    let mut view = View::new(COLS);
    view.fire.started("the first turn");
    view.push(&timed(0, "turn/start", r#"{ "turn": 1 }"#));
    view.push(&timed(0, "turn/end", r#"{ "turn": 1, "steps": 1, "stop_reason": "natural" }"#));
    view.fire.finished();
    view.fire.started("the second turn");
    view.push(&timed(0, "turn/start", r#"{ "turn": 2 }"#));
    view.push(&timed(0, "assistant/chunk", r#"{ "chunk": "text", "delta": "half of" }"#));

    let shown = rows_at(&mut view, COLS, 20);
    assert!(shown.iter().any(|row| row.contains("streaming the answer")), "{shown:?}");
    let wider = rows_at(&mut view, COLS + 10, 20);
    assert!(wider.iter().any(|row| row.contains("streaming the answer")), "{wider:?}");
    assert!(wider.iter().any(|row| row.contains("half of")), "{wider:?}");

    // Its own end is what takes it down.
    view.push(&timed(0, "turn/end", r#"{ "turn": 2, "steps": 1, "stop_reason": "natural" }"#));
    let over = rows_at(&mut view, COLS, 20);
    assert!(!over.iter().any(|row| row.contains("streaming the answer")), "{over:?}");
}

#[test]
fn a_composer_is_built_again_with_the_rows() {
    let mut view = View::new(COLS);
    view.fire.started("running the turn");
    view.push(&event("turn/start", r#"{ "turn": 1 }"#));
    view.push(&event("assistant/chunk", r#"{ "chunk": "text", "delta": "half of" }"#));
    view.fire.tick();
    view.fire.tick();
    assert_eq!(view.fire.live().ticks(), 2);

    rows_at(&mut view, COLS + 10, 20);
    assert_eq!(view.fire.live().ticks(), 0, "a resize starts the spinner again");
    assert!(!view.fire.live().over());

    view.fire.tick();
    view.find("half");
    assert_eq!(view.fire.live().ticks(), 0, "and so does a search");
    view.fire.tick();
    view.key(Key::Esc);
    assert_eq!(view.fire.live().ticks(), 0, "and so does the end of one");

    // A view with no turn running has no block, at any width.
    view.fire.finished();
    rows_at(&mut view, COLS, 20);
    assert!(view.fire.live().over());
}
