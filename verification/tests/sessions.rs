use tetanus::paint::Charset;
use tetanus::render::cell::Cell;
use tetanus::render::sessions::{
    ordered, render, room_in_row, room_on_page, rows, title, AgentState, SessionInfo,
};

/// The columns a terminal draws a text in.
fn visible_width(text: &str) -> usize {
    tame(text)
        .chars()
        .map(|c| match c {
            '\u{1100}'..='\u{115f}'
            | '\u{2e80}'..='\u{a4cf}'
            | '\u{ac00}'..='\u{d7a3}'
            | '\u{f900}'..='\u{faff}'
            | '\u{ff00}'..='\u{ff60}' => 2,
            _ => 1,
        })
        .sum()
}

/// A text with everything in it that drives a terminal taken out.
fn tame(text: &str) -> String {
    let mut out = String::new();
    let mut chars = text.chars();
    while let Some(c) = chars.next() {
        if c == '\u{1b}' {
            match chars.next() {
                Some('[') => {
                    for c in chars.by_ref() {
                        if ('\u{40}'..='\u{7e}').contains(&c) {
                            break;
                        }
                    }
                }
                Some(']') => {
                    for c in chars.by_ref() {
                        if c == '\u{7}' {
                            break;
                        }
                    }
                }
                _ => {}
            }
        } else if c == '\n' || !c.is_control() {
            out.push(c);
        }
    }
    out
}

/// A tamed text on one line.
fn tame_line(text: &str) -> String {
    tame(text).split_whitespace().collect::<Vec<_>>().join(" ")
}

/// A text cut to a width, with a mark where it was.
fn truncate(text: &str, room: usize, charset: Charset) -> String {
    let flat = tame_line(text);
    if visible_width(&flat) <= room {
        return flat;
    }
    let mark = charset.glyph("…", "...");
    let mut out = String::new();
    for c in flat.chars() {
        let next = format!("{out}{c}{mark}");
        if visible_width(&next) > room {
            break;
        }
        out.push(c);
    }
    out.push_str(mark);
    out
}

/// A text as a page draws it, and the columns it takes.
fn cell(text: &str) -> Cell {
    let text = tame(text);
    let width = visible_width(&text);
    Cell { text, width }
}

/// What the sessions are about, cut to a width.
fn titles(listed: &[&SessionInfo], room: usize) -> Vec<String> {
    listed.iter().map(|session| truncate(title(session), room, Charset::Unicode)).collect()
}

fn session(id: &str, created: u64, last_seq: i64, title: Option<&str>) -> SessionInfo {
    SessionInfo {
        session_id: id.to_string(),
        path: format!("sessions/{id}.jsonl"),
        named: cell(id),
        created_time: created,
        last_seq,
        title: title.map(str::to_string),
        state: AgentState::Idle,
    }
}

fn shown(sessions: Vec<SessionInfo>, width: usize) -> String {
    under(sessions, width, "/srv/j")
}

fn under(sessions: Vec<SessionInfo>, width: usize, root: &str) -> String {
    let listed = ordered(&sessions);
    let titles = titles(&listed, room_on_page(width, &listed));
    let page = render(width, root, &listed, &titles);
    let mut out = format!("\n{}", page.heading);
    if let Some(at) = &page.at {
        out.push_str(&format!("  {at}"));
    }
    out.push('\n');
    for row in &page.rows {
        out.push_str(&format!("{}\n", row.text()));
    }
    out
}

#[test]
fn the_newest_session_is_first_and_the_columns_line_up() {
    let out = shown(
        vec![
            session("turn", 1_000, 5, Some("echo this")),
            session("s1755", 2_000, 17, Some("summarise the release notes")),
        ],
        80,
    );

    assert_eq!(
        out,
        "\nsessions  /srv/j\n\
         s1755  18 events  idle  summarise the release notes\n\
         turn    6 events  idle  echo this\n"
    );
}

#[test]
fn a_tie_on_time_is_still_settled() {
    let rows = vec![
        session("b", 7, 0, Some("second")),
        session("a", 7, 0, Some("first")),
    ];
    let out = shown(rows.clone(), 80);

    assert!(
        out.find("first") < out.find("second"),
        "the tie was not settled:\n{out}"
    );
    assert_eq!(out, shown(rows.into_iter().rev().collect(), 80));
}

#[test]
fn a_journal_is_counted_in_events_and_the_singular_is_spelled() {
    let out = shown(
        vec![
            session("fresh", 2, -1, None),
            session("one", 1, 0, Some("hi")),
        ],
        80,
    );

    assert!(out.contains("0 events"), "{out}");
    assert!(out.contains("1 event  "), "{out}");
    assert!(!out.contains("-1"), "an empty journal counted down:\n{out}");
}

#[test]
fn a_session_with_no_prompt_yet_says_so() {
    let out = shown(vec![session("fresh", 1, -1, None)], 80);
    assert!(out.contains("no prompt yet"), "{out}");
}

#[test]
fn the_title_gives_way_before_the_id_does() {
    let id = "s".repeat(30);
    let out = shown(vec![session(&id, 1, 2, Some(&"y".repeat(90)))], 60);

    for row in out.lines() {
        assert!(row.chars().count() <= 60, "`{row}` overruns 60");
    }
    assert!(out.contains(&id), "the id was cut:\n{out}");
    assert!(out.contains('…'), "the title was not cut:\n{out}");
}

#[test]
fn a_window_too_narrow_for_the_table_stacks_the_row() {
    let id = "s".repeat(40);
    let out = shown(vec![session(&id, 1, 3, Some("fix the parser"))], 50);
    let lines: Vec<&str> = out.lines().collect();

    for row in &lines {
        assert!(visible_width(row) <= 50, "`{row}` overruns 50");
    }
    assert!(
        lines.iter().any(|row| row.trim() == id),
        "the id is not on a line of its own:\n{out}"
    );
    let under = lines
        .iter()
        .find(|row| row.contains("fix the parser"))
        .unwrap_or_else(|| panic!("the title is on no line:\n{out}"));
    assert!(under.starts_with("      "), "not indented: `{under}`");
    assert!(under.contains("4 events"), "no counters: `{under}`");
    assert!(under.contains("idle"), "no state: `{under}`");
}

#[test]
fn a_window_that_holds_the_table_still_gets_one() {
    let out = shown(
        vec![
            session("first", 2, 3, Some("fix the parser")),
            session("second", 1, 1, Some("read the log")),
        ],
        100,
    );

    let rows: Vec<&str> = out
        .lines()
        .filter(|row| row.contains("events") || row.contains("event "))
        .collect();
    assert_eq!(rows.len(), 2, "not one line per session:\n{out}");
    assert!(
        rows[0].starts_with("first"),
        "not a table row: `{}`",
        rows[0]
    );
}

#[test]
fn the_picker_gets_one_row_per_session_at_any_width() {
    let list = vec![
            session(&"s".repeat(40), 2, 3, Some("fix the parser")),
            session(&"t".repeat(40), 1, 1, Some("read the log")),
        ];
    let listed = ordered(&list);
    let composed = rows(&listed, &titles(&listed, room_in_row(50, &listed)));

    assert_eq!(composed.len(), 2, "the picker's rows: {composed:?}");
}

#[test]
fn an_id_and_a_state_off_the_wire_are_drawn_and_not_obeyed() {
    let clear = "\u{1b}[2J";
    let out = shown(
        vec![SessionInfo {
            state: AgentState::Other(cell(&format!("re{clear}trying"))),
            ..session(&format!("s{clear}1"), 1, 2, Some("hi"))
        }],
        80,
    );

    assert!(!out.contains('\u{1b}'), "{out:?}");
    assert!(out.contains("s1"), "{out}");
    assert!(out.contains("retrying"), "{out}");
}

#[test]
fn every_cell_is_padded_in_the_columns_it_draws() {
    let out = shown(
        vec![
            session("\u{65e5}\u{672c}\u{8a9e}", 2, 2, Some("wide")),
            session("session-2", 1, 2, Some("plain")),
        ],
        80,
    );

    let starts: Vec<usize> = ["wide", "plain"]
        .iter()
        .map(|title| {
            let line = out.lines().find(|line| line.contains(title)).expect(title);
            visible_width(&line[..line.find(title).expect(title)])
        })
        .collect();
    assert_eq!(
        starts[0], starts[1],
        "the titles are not in one column:\n{out}"
    );
}

#[test]
fn an_empty_list_says_what_writes_one() {
    assert_eq!(
        under(Vec::new(), 80, "/srv/j"),
        "\nsessions  /srv/j\nno sessions yet - tetanus run writes one\n"
    );
}
