use tetanus::paint::{Charset, Sheet};
use tetanus::render::cell::Cell;
use tetanus::render::config::{render, room, value, ConfigLayer, Entry, GAP};

/// The columns a terminal draws a text in.
fn visible_width(text: &str) -> usize {
    tame(text)
        .chars()
        .map(|c| match c {
            '\u{1100}'..='\u{115f}'
            | '\u{2e80}'..='\u{a4cf}'
            | '\u{ac00}'..='\u{d7a3}'
            | '\u{f900}'..='\u{faff}'
            | '\u{ff00}'..='\u{ff60}' => 2,
            _ => 1,
        })
        .sum()
}

/// A text with everything in it that drives a terminal taken out.
fn tame(text: &str) -> String {
    let mut out = String::new();
    let mut chars = text.chars();
    while let Some(c) = chars.next() {
        if c == '\u{1b}' {
            match chars.next() {
                Some('[') => {
                    for c in chars.by_ref() {
                        if ('\u{40}'..='\u{7e}').contains(&c) {
                            break;
                        }
                    }
                }
                Some(']') => {
                    for c in chars.by_ref() {
                        if c == '\u{7}' {
                            break;
                        }
                    }
                }
                _ => {}
            }
        } else if c == '\n' || !c.is_control() {
            out.push(c);
        }
    }
    out
}

/// A tamed text on one line.
fn tame_line(text: &str) -> String {
    tame(text).split_whitespace().collect::<Vec<_>>().join(" ")
}

/// A text cut to a width, with a mark where it was.
fn truncate(text: &str, room: usize, charset: Charset) -> String {
    let flat = tame_line(text);
    if visible_width(&flat) <= room {
        return flat;
    }
    let mark = charset.glyph("…", "...");
    let mut out = String::new();
    for c in flat.chars() {
        let next = format!("{out}{c}{mark}");
        if visible_width(&next) > room {
            break;
        }
        out.push(c);
    }
    out.push_str(mark);
    out
}

/// A sheet, as it is printed on a terminal with no colour.
fn printed(sheet: &Sheet) -> String {
    let mut out = format!("\n{}", sheet.heading.text());
    if let Some(at) = &sheet.at {
        out.push_str(&format!("  {at}"));
    }
    out.push('\n');
    for field in &sheet.fields {
        let pad = " ".repeat(field.column.saturating_sub(visible_width(&field.label)));
        let said = field.said.text();
        let said = if said.is_empty() { "(empty)" } else { said.as_str() };
        out.push_str(&format!("{}{pad}  {said}\n", field.label));
    }
    for row in &sheet.rows {
        out.push_str(&format!("{}\n", row.text()));
    }
    if let Some(note) = &sheet.note {
        out.push_str(&format!("note: {note}\n"));
    }
    out
}

/// A text as a page draws it, and the columns it takes.
fn cell(text: &str) -> Cell {
    let text = tame(text);
    let width = visible_width(&text);
    Cell { text, width }
}

/// A resolved key, before its value is cut to the room the page has for one.
struct Resolved {
    key: Cell,
    value: String,
    layer: ConfigLayer,
}

fn entry(key: &str, spelled: &str, layer: ConfigLayer) -> Resolved {
    Resolved { key: cell(key), value: value(spelled), layer }
}

fn rendered(resolved: &[Resolved], width: usize) -> String {
    headed(resolved, width, None)
}

fn headed(resolved: &[Resolved], width: usize, read: Option<&str>) -> String {
    let keys = resolved.iter().map(|entry| entry.key.width).collect();
    let layers = resolved.iter().map(|entry| entry.layer.width()).collect();
    let room = room(width, &keys, &layers);
    let entries = resolved
        .iter()
        .map(|entry| Entry {
            key: entry.key.clone(),
            value: cell(&truncate(&entry.value, room, Charset::Unicode)),
            layer: entry.layer.clone(),
        })
        .collect();
    printed(&render(&entries, read))
}

#[test]
fn every_column_starts_in_one_place() {
    let out = rendered(
        &[
            entry("log.level", r#""info""#, ConfigLayer::Default),
            entry("model", r#""deepseek-v4""#, ConfigLayer::Flag),
            entry("session.dir", r#""sessions""#, ConfigLayer::File),
        ],
        80,
    );

    assert_eq!(
        out,
        "\nconfig\nlog.level    info         default\n\
         model        deepseek-v4  flag\n\
         session.dir  sessions     file\n"
    );
}

#[test]
fn a_string_loses_its_quotes_and_nothing_else_does() {
    let out = rendered(
        &[
            entry("a.text", r#""plain""#, ConfigLayer::File),
            entry("a.bool", r#"true"#, ConfigLayer::File),
            entry("a.number", r#"8"#, ConfigLayer::File),
            entry("a.list", r#"["one", "two"]"#, ConfigLayer::File),
        ],
        80,
    );

    let values: Vec<&str> = out
        .lines()
        .skip(2)
        .filter_map(|line| line.split_whitespace().nth(1))
        .collect();
    assert_eq!(values, ["plain", "true", "8", "[\"one\",\"two\"]"]);
}

#[test]
fn a_long_value_is_cut_so_the_layer_stays_on_the_row() {
    let out = rendered(
        &[
            entry("short", r#""x""#, ConfigLayer::Env),
            entry("long", &format!(r#""{}""#, "y".repeat(90)), ConfigLayer::Env),
        ],
        40,
    );

    let rows: Vec<&str> = out.lines().skip(2).collect();
    for row in &rows {
        assert!(row.chars().count() <= 40, "`{row}` overruns 40");
        assert!(row.ends_with("env"), "`{row}` lost its layer");
    }
    assert!(rows[1].contains('…'), "`{}` was not cut", rows[1]);
}

#[test]
fn a_layer_this_build_never_heard_of_is_still_shown() {
    let out = rendered(
        &[entry(
            "log.level",
            r#""trace""#,
            ConfigLayer::Other(cell("workspace")),
        )],
        80,
    );

    assert_eq!(out, "\nconfig\nlog.level  trace  workspace\n");
}

#[test]
fn an_empty_table_says_so() {
    assert_eq!(rendered(&[], 80), "\nconfig\nnothing is set\n");
}

#[test]
fn a_key_out_of_a_file_is_drawn_and_not_obeyed() {
    let clear = "\u{1b}[2J";
    let out = rendered(
        &[entry(
            &format!("log{clear}.level"),
            r#""trace""#,
            ConfigLayer::Other(cell(&format!("work{clear}space"))),
        )],
        80,
    );

    assert!(!out.contains('\u{1b}'), "{out:?}");
    assert_eq!(out, "\nconfig\nlog.level  trace  workspace\n");
}

#[test]
fn the_key_column_is_measured_and_padded_in_columns() {
    let out = rendered(
        &[
            entry("\u{65e5}\u{672c}\u{8a9e}", r#""wide""#, ConfigLayer::File),
            entry("log.level", r#""trace""#, ConfigLayer::File),
        ],
        80,
    );

    for value in ["wide", "trace"] {
        let line = out.lines().find(|line| line.contains(value)).expect(value);
        let at = line.find(value).expect(value);
        assert_eq!(
            visible_width(&line[..at]),
            "log.level".len() + GAP,
            "the value does not start where the other one does: {line:?}"
        );
    }
}

#[test]
fn the_page_says_which_document_it_read() {
    let entries = [entry("model", r#""deepseek-v4""#, ConfigLayer::File)];

    let named = headed(&entries, 80, Some("/home/u/.tetanus/settings.yaml"));
    assert_eq!(
        named,
        "\nconfig  /home/u/.tetanus/settings.yaml\nmodel  deepseek-v4  file\n"
    );

    let none = headed(&entries, 80, None);
    assert_eq!(none, "\nconfig\nmodel  deepseek-v4  file\n");
}

#[test]
fn the_value_has_what_the_outer_columns_leave() {
    assert_eq!(room(40, &vec![5, 4], &vec![3, 3]), 40 - 5 - 3 - 2 * GAP);
    assert_eq!(room(10, &vec![20], &vec![3]), 0);
    assert_eq!(room(10, &Vec::new(), &Vec::new()), 6);
}

#[test]
fn a_value_is_spelled_as_one_line_of_json() {
    assert_eq!(value(r#""a \"quoted\" word""#), r#"a "quoted" word"#);
    assert_eq!(value(r#"{ "b": 1, "a": [ true, null ] }"#), r#"{"a":[true,null],"b":1}"#);
}
