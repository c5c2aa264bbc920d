use tetanus::input::{Flow, Key};
use tetanus::paint::{Charset, Framed, Line};
use tetanus::render::cell::Cell;
use tetanus::render::pick::{Picker, MARK};
use tetanus::render::sessions;
use tetanus::render::sessions::{title, AgentState, SessionInfo};

/// The columns a terminal draws a text in.
fn visible_width(text: &str) -> usize {
    tame(text)
        .chars()
        .map(|c| match c {
            '\u{1100}'..='\u{115f}'
            | '\u{2e80}'..='\u{a4cf}'
            | '\u{ac00}'..='\u{d7a3}'
            | '\u{f900}'..='\u{faff}'
            | '\u{ff00}'..='\u{ff60}' => 2,
            _ => 1,
        })
        .sum()
}

/// A text with everything in it that drives a terminal taken out.
fn tame(text: &str) -> String {
    let mut out = String::new();
    let mut chars = text.chars();
    while let Some(c) = chars.next() {
        if c == '\u{1b}' {
            match chars.next() {
                Some('[') => {
                    for c in chars.by_ref() {
                        if ('\u{40}'..='\u{7e}').contains(&c) {
                            break;
                        }
                    }
                }
                Some(']') => {
                    for c in chars.by_ref() {
                        if c == '\u{7}' {
                            break;
                        }
                    }
                }
                _ => {}
            }
        } else if c == '\n' || !c.is_control() {
            out.push(c);
        }
    }
    out
}

/// A tamed text on one line.
fn tame_line(text: &str) -> String {
    tame(text).split_whitespace().collect::<Vec<_>>().join(" ")
}

/// A text cut to a width, with a mark where it was.
fn truncate(text: &str, room: usize, charset: Charset) -> String {
    let flat = tame_line(text);
    if visible_width(&flat) <= room {
        return flat;
    }
    let mark = charset.glyph("…", "...");
    let mut out = String::new();
    for c in flat.chars() {
        let next = format!("{out}{c}{mark}");
        if visible_width(&next) > room {
            break;
        }
        out.push(c);
    }
    out.push_str(mark);
    out
}

/// A whole screen, as rows of text so wide.
fn screen(frame: &Framed, cols: usize) -> Vec<String> {
    let bar = |(left, right): &(Line, Line)| {
        let (left, right) = (left.text(), right.text());
        let gap = cols.saturating_sub(visible_width(&left) + visible_width(&right));
        format!("{left}{}{right}", " ".repeat(gap)).trim_end().to_string()
    };
    let mut rows = vec![bar(&frame.head)];
    rows.extend(frame.rows.iter().map(|row| row.text().trim_end().to_string()));
    rows.push(bar(&frame.foot));
    rows
}

/// A text as a page draws it, and the columns it takes.
fn cell(text: &str) -> Cell {
    let text = tame(text);
    let width = visible_width(&text);
    Cell { text, width }
}

/// What the sessions are about, cut to a width.
fn titles(listed: &[&SessionInfo], room: usize) -> Vec<String> {
    listed.iter().map(|session| truncate(title(session), room, Charset::Unicode)).collect()
}

const COLS: usize = 60;

fn session(id: &str, created: u64) -> SessionInfo {
    SessionInfo {
        session_id: id.to_string(),
        path: format!("sessions/{id}.jsonl"),
        named: cell(id),
        created_time: created,
        last_seq: 2,
        title: Some(format!("about {id}")),
        state: AgentState::Idle,
    }
}

/// A list of `count` sessions, oldest first, so the view has to reorder it.
fn list(count: u64) -> Vec<SessionInfo> {
    (0..count).map(|n| session(&format!("s{n}"), n + 1)).collect()
}

/// One row per session, newest first.
fn laid(list: &Vec<SessionInfo>, cols: usize) -> Vec<Line> {
    let listed = sessions::ordered(list);
    sessions::rows(&listed, &titles(&listed, sessions::room_in_row(cols, &listed)))
}

fn composed(list: &Vec<SessionInfo>, cols: usize) -> Vec<String> {
    laid(list, cols).iter().map(|row| row.text()).collect()
}

/// The list on a screen.
struct View {
    picker: Picker,
    list: Vec<SessionInfo>,
    cols: usize,
}

impl View {
    fn new(list: &Vec<SessionInfo>, cols: usize) -> View {
        View { picker: Picker::new(laid(list, cols - MARK)), list: list.clone(), cols }
    }
}

/// One frame, as rows of text.
fn rows(view: &mut View, cols: usize, height: usize) -> Vec<String> {
    if view.cols != cols {
        view.cols = cols;
        view.picker.fill(laid(&view.list, cols - MARK));
    }
    let frame = view.picker.frame(height, Charset::Unicode);
    screen(&frame, cols)
}

/// The rows between the heading's blank and the footer, blanks dropped.
fn body(rows: &[String]) -> Vec<String> {
    rows[2..rows.len() - 1]
        .iter()
        .filter(|row| !row.is_empty())
        .cloned()
        .collect()
}

#[test]
fn what_the_page_holds_is_the_session_list() {
    let list = list(3);
    let mut view = View::new(&list, COLS);
    let want = composed(&list, COLS - MARK);

    let shown = body(&rows(&mut view, COLS, 12));
    assert_eq!(shown.len(), 3);
    assert_eq!(shown[0], format!("› {}", want[0]));
    assert_eq!(shown[1], format!("  {}", want[1]));
    assert!(
        want[0].starts_with("s2"),
        "the newest is not first: {want:?}"
    );
}

#[test]
fn the_window_follows_the_cursor() {
    let list = list(8);
    let mut view = View::new(&list, COLS);

    let shown = rows(&mut view, COLS, 8);
    assert_eq!(body(&shown).len(), 4);
    assert!(shown[shown.len() - 1].contains("1 of 8"), "{shown:?}");

    for _ in 0..4 {
        view.picker.key(Key::Down);
    }
    let shown = rows(&mut view, COLS, 8);
    assert!(body(&shown)[3].starts_with('›'), "{shown:?}");
    assert!(shown[shown.len() - 1].contains("5 of 8"), "{shown:?}");

    view.picker.key(Key::End);
    let shown = rows(&mut view, COLS, 8);
    assert!(body(&shown)[3].starts_with('›'), "{shown:?}");
    assert!(shown[shown.len() - 1].contains("8 of 8"), "{shown:?}");

    view.picker.key(Key::Home);
    let shown = rows(&mut view, COLS, 8);
    assert!(body(&shown)[0].starts_with('›'), "{shown:?}");
    assert!(shown[shown.len() - 1].contains("1 of 8"), "{shown:?}");
}

#[test]
fn the_keys_move_the_cursor_by_what_they_say() {
    let list = list(8);
    let mut view = View::new(&list, COLS);
    rows(&mut view, COLS, 8);

    view.picker.key(Key::PageDown);
    assert_eq!(view.picker.at(), 3);
    view.picker.key(Key::PageDown);
    assert_eq!(view.picker.at(), 6);
    view.picker.key(Key::PageDown);
    assert_eq!(view.picker.at(), 7, "the cursor ran off the end");
    view.picker.key(Key::PageUp);
    assert_eq!(view.picker.at(), 4);

    assert_eq!(view.picker.key(Key::Char('x')), Flow::Go);
    assert_eq!(view.picker.at(), 4, "an unknown key moved the cursor");
    assert_eq!(view.picker.key(Key::Char('q')), Flow::Stop);
    assert_eq!(view.picker.key(Key::Esc), Flow::Stop);
}

#[test]
fn a_resize_composes_the_rows_again() {
    let list = list(3);
    let mut view = View::new(&list, 70);

    assert_eq!(body(&rows(&mut view, 70, 12)).len(), 3);
    let narrow = rows(&mut view, 40, 12);
    for row in &narrow {
        assert!(row.chars().count() <= 40, "`{row}` overruns 40");
    }
    assert_eq!(
        body(&narrow)[0],
        format!(
            "› {}",
            composed(&list, 40 - MARK)[0]
        )
    );
}

#[test]
fn enter_chooses_the_journal_under_the_cursor() {
    let list = list(3);
    let mut view = View::new(&list, COLS);
    let listed = sessions::ordered(&list);
    rows(&mut view, COLS, 12);

    view.picker.key(Key::Down);
    assert_eq!(view.picker.chosen(&listed), None);
    assert_eq!(view.picker.key(Key::Enter), Flow::Stop);
    assert_eq!(view.picker.chosen(&listed).as_deref(), Some("sessions/s1.jsonl"));

    view.picker.resume(Some("no journal there".to_string()));
    assert_eq!(view.picker.chosen(&listed), None);
    assert_eq!(view.picker.at(), 1, "the cursor moved while the journal was read");
    let shown = rows(&mut view, COLS, 12);
    assert!(shown[11].starts_with("no journal there"), "{shown:?}");
    view.picker.key(Key::Up);
    let shown = rows(&mut view, COLS, 12);
    assert!(shown[11].starts_with("↑↓ move · ? keys · q quit"), "{shown:?}");

    let mut none = Picker::new(Vec::new());
    assert_eq!(none.key(Key::Enter), Flow::Go);
}

#[test]
fn the_list_has_a_key_card() {
    let mut view = View::new(&list(3), COLS);
    rows(&mut view, COLS, 12);
    assert_eq!(view.picker.key(Key::Char('?')), Flow::Go);
    assert!(view.picker.help());
    // Read and not worked in: the key that takes it down does nothing else.
    assert_eq!(view.picker.key(Key::Char('q')), Flow::Go);
    assert!(!view.picker.help());
    let card = tetanus::render::pick::map(Charset::Unicode);
    assert!(card.contains(&("enter", "read the journal under the cursor")));
    assert_eq!(card.last(), Some(&("?", "this card; any key goes back")));
}

fn spell(view: &mut View, text: &str) {
    for c in text.chars() {
        assert_eq!(view.picker.key(Key::Char(c)), Flow::Go);
    }
}

#[test]
fn a_slash_takes_rows_off_the_list() {
    let list = list(12);
    let listed = sessions::ordered(&list);
    let mut view = View::new(&list, COLS);
    rows(&mut view, COLS, 20);

    // Narrowed at every keystroke, whatever the case.
    spell(&mut view, "/About S1");
    let shown = rows(&mut view, COLS, 20);
    let kept: Vec<String> = body(&shown);
    assert_eq!(kept.len(), 3, "{shown:?}");
    assert!(kept.iter().all(|row| row.contains("about s1")), "{shown:?}");
    assert!(shown[19].starts_with("/About S1"), "{shown:?}");
    assert!(shown[19].ends_with("1 of 3"), "{shown:?}");

    // Letters are letters until Enter, and then the keys are keys.
    assert_eq!(view.picker.key(Key::Enter), Flow::Go);
    view.picker.key(Key::Down);
    assert_eq!(view.picker.key(Key::Enter), Flow::Stop);
    assert_eq!(view.picker.chosen(&listed).as_deref(), Some("sessions/s10.jsonl"));
    view.picker.resume(None);

    // The whole list again, with the cursor on the row it was on.
    assert_eq!(view.picker.key(Key::Esc), Flow::Go);
    let shown = rows(&mut view, COLS, 20);
    assert_eq!(body(&shown).len(), 12);
    assert!(body(&shown)[1].starts_with("› s10"), "{shown:?}");
    assert!(shown[19].ends_with("2 of 12"), "{shown:?}");
    assert_eq!(view.picker.key(Key::Esc), Flow::Stop);
}

#[test]
fn a_list_narrowed_to_nothing_says_so() {
    let mut view = View::new(&list(3), COLS);
    rows(&mut view, COLS, 12);
    spell(&mut view, "/q?x");
    let shown = rows(&mut view, COLS, 12);
    assert!(body(&shown).is_empty(), "{shown:?}");
    assert!(shown[11].starts_with("/q?x"), "{shown:?}");
    assert!(shown[11].ends_with("none"), "{shown:?}");
    view.picker.key(Key::Enter);
    let shown = rows(&mut view, COLS, 12);
    assert!(shown[11].starts_with("no row holds q?x"), "{shown:?}");
    // There is no row to read.
    assert_eq!(view.picker.key(Key::Enter), Flow::Go);

    // A search taken back a letter at a time, and left empty, is no search.
    spell(&mut view, "/s");
    view.picker.key(Key::Backspace);
    view.picker.key(Key::Backspace);
    assert_eq!(body(&rows(&mut view, COLS, 12)).len(), 3);
    view.picker.key(Key::Enter);
    let shown = rows(&mut view, COLS, 12);
    assert!(shown[11].starts_with("↑↓ move"), "{shown:?}");
    assert!(tetanus::render::pick::map(Charset::Ascii).iter().any(|row| row.0 == "/"));
}

#[test]
fn a_resize_keeps_the_row_and_the_narrowing() {
    let mut view = View::new(&list(12), COLS);
    rows(&mut view, COLS, 20);
    spell(&mut view, "/s1");
    view.picker.key(Key::Enter);
    view.picker.key(Key::End);
    let wide = body(&rows(&mut view, COLS, 20));
    let narrow = body(&rows(&mut view, 40, 20));
    assert_eq!(wide.len(), narrow.len());
    assert!(wide.last().is_some_and(|row| row.starts_with("› s1 ")), "{wide:?}");
    assert!(narrow.last().is_some_and(|row| row.starts_with("› s1 ")), "{narrow:?}");
}
