use tetanus::paint::Role;
use tetanus::render::raw::{parse, render, unreadable, Line};

/// The page as it is printed, with one number of colour for each role.
fn shown(lines: &Vec<Line>, color: bool) -> String {
    let mut out = String::new();
    for row in render(lines) {
        for span in &row.spans {
            match (color, span.role) {
                (true, role) if role != Role::Plain => {
                    out.push_str(&format!("\u{1b}[{}m{}\u{1b}[0m", role as u8, span.text));
                }
                _ => out.push_str(&span.text),
            }
        }
        out.push('\n');
    }
    out
}

#[test]
fn a_journal_line_parses_as_the_contracts_event() {
    let text = r#"{"type":"turn/start","seq":7,"time":1,"data":{"n":1}}"#;
    match parse(1, text) {
        Line::Event(event) => {
            assert_eq!(event.seq, 7);
            assert_eq!(event.ty, "turn/start");
            assert_eq!(event.source_event_seqs, None);
        }
        Line::Unreadable { .. } => panic!("a valid line was refused: {text}"),
    }
}

#[test]
fn a_line_that_is_not_an_event_keeps_its_place() {
    match parse(3, "half a line") {
        Line::Unreadable { number, text } => {
            assert_eq!(number, 3);
            assert_eq!(text, "half a line");
        }
        Line::Event(_) => panic!("nonsense parsed as an event"),
    }
}

#[test]
fn a_sequence_with_a_hole_is_still_printed() {
    let lines = vec![
        parse(1, r#"{"type":"turn/start","seq":0,"time":1,"data":{}}"#),
        parse(2, r#"{"type":"turn/end","seq":9,"time":2,"data":{}}"#),
    ];
    assert_eq!(unreadable(&lines), None);

    assert_eq!(
        shown(&lines, false),
        "   0  turn/start           {}\n   9  turn/end             {}\n"
    );
}

#[test]
fn a_broken_line_is_shown_where_it_is() {
    let lines = vec![
        parse(1, r#"{"type":"turn/start","seq":0,"time":1,"data":{}}"#),
        parse(2, "{oh no"),
    ];
    assert_eq!(unreadable(&lines), Some(2));

    assert_eq!(
        shown(&lines, false),
        "   0  turn/start           {}\n   ?  unreadable           line 2: {oh no\n"
    );
}

#[test]
fn an_empty_file_says_it_is_empty() {
    assert_eq!(shown(&Vec::new(), false), "the journal is empty\n");
}

#[test]
fn colour_does_not_move_a_column() {
    let lines = vec![parse(
        1,
        r#"{"type":"turn/start","seq":0,"time":1,"data":{}}"#,
    )];

    let painted = shown(&lines, true);
    assert!(painted.contains("\u{1b}["), "nothing was painted");
    assert_eq!(strip(&painted), shown(&lines, false));
}

fn strip(text: &str) -> String {
    let mut out = String::new();
    let mut chars = text.chars();
    while let Some(c) = chars.next() {
        if c != '\u{1b}' {
            out.push(c);
            continue;
        }
        for c in chars.by_ref() {
            if c == 'm' {
                break;
            }
        }
    }
    out
}

#[test]
fn a_line_keeps_the_sequence_it_was_derived_from() {
    let derived = r#"{"type":"t","seq":7,"time":1,"data":{},"sourceEventSeqs":[3, 4]}"#;
    match parse(1, derived) {
        Line::Event(event) => assert_eq!(event.source_event_seqs.as_deref(), Some("[3,4]")),
        other => panic!("{other:?}"),
    }
    let bare = r#"{"type":"t","seq":7,"time":1,"data":{},"sourceEventSeqs":null}"#;
    match parse(1, bare) {
        Line::Event(event) => assert_eq!(event.source_event_seqs, None),
        other => panic!("{other:?}"),
    }
}
