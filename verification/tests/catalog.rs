use tetanus::paint::{Charset, Page};
use tetanus::render::catalog::{
    argument, arguments, beside, models, tools, Argument, Provider, Tool, GAP,
};
use tetanus::render::cell::Cell;

/// The columns a terminal draws a text in.
fn visible_width(text: &str) -> usize {
    tame(text)
        .chars()
        .map(|c| match c {
            '\u{1100}'..='\u{115f}'
            | '\u{2e80}'..='\u{a4cf}'
            | '\u{ac00}'..='\u{d7a3}'
            | '\u{f900}'..='\u{faff}'
            | '\u{ff00}'..='\u{ff60}' => 2,
            _ => 1,
        })
        .sum()
}

/// A text with everything in it that drives a terminal taken out.
fn tame(text: &str) -> String {
    let mut out = String::new();
    let mut chars = text.chars();
    while let Some(c) = chars.next() {
        if c == '\u{1b}' {
            match chars.next() {
                Some('[') => {
                    for c in chars.by_ref() {
                        if ('\u{40}'..='\u{7e}').contains(&c) {
                            break;
                        }
                    }
                }
                Some(']') => {
                    for c in chars.by_ref() {
                        if c == '\u{7}' {
                            break;
                        }
                    }
                }
                _ => {}
            }
        } else if c == '\n' || !c.is_control() {
            out.push(c);
        }
    }
    out
}

/// A tamed text on one line.
fn tame_line(text: &str) -> String {
    tame(text).split_whitespace().collect::<Vec<_>>().join(" ")
}

/// A text cut to a width, with a mark where it was.
fn truncate(text: &str, room: usize, charset: Charset) -> String {
    let flat = tame_line(text);
    if visible_width(&flat) <= room {
        return flat;
    }
    let mark = charset.glyph("…", "...");
    let mut out = String::new();
    for c in flat.chars() {
        let next = format!("{out}{c}{mark}");
        if visible_width(&next) > room {
            break;
        }
        out.push(c);
    }
    out.push_str(mark);
    out
}

/// A text as a page draws it, and the columns it takes.
fn cell(text: &str) -> Cell {
    let text = tame(text);
    let width = visible_width(&text);
    Cell { text, width }
}

/// A page, as it is printed.
fn printed(page: &Page) -> String {
    let mut out = format!("\n{}\n", page.heading);
    for row in &page.rows {
        out.push_str(&row.text());
        out.push('\n');
    }
    out
}

fn provider(name: &str, models: &[&str], env: Option<&str>, available: bool) -> Provider {
    Provider {
        name: cell(name),
        models: models.iter().map(|model| tame(model)).collect(),
        credential_env: env.map(tame),
        available,
    }
}

/// What a catalogue says of one tool.
struct Described {
    name: String,
    description: String,
    parameters: String,
}

fn tool(name: &str, description: &str, parameters: &str) -> Described {
    Described {
        name: name.to_string(),
        description: description.to_string(),
        parameters: parameters.to_string(),
    }
}

fn shown(providers: Vec<Provider>, width: usize) -> String {
    printed(&models(width, &providers))
}

fn listed(described: Vec<Described>, width: usize) -> String {
    let names: Vec<Cell> = described.iter().map(|tool| cell(&tool.name)).collect();
    let room = beside(width, &names.iter().map(|name| name.width).collect()).room;
    let mut all = Vec::new();
    for (tool, name) in described.iter().zip(names) {
        let mut rows = Vec::new();
        for taken in arguments(&tool.parameters) {
            let drawn = Argument { name: tame(&taken.name), kind: tame(&taken.kind), ..taken };
            rows.push(argument(&drawn));
        }
        let said = truncate(&tool.description, room, Charset::Unicode);
        all.push(Tool { name, said, arguments: rows });
    }
    printed(&tools(width, &all))
}

#[test]
fn a_provider_that_cannot_be_reached_names_the_variable_to_set() {
    let out = shown(
        vec![
            provider("mock", &["mock-echo"], None, true),
            provider(
                "deepseek-official",
                &["deepseek-chat", "deepseek-reasoner"],
                Some("DEEPSEEK_API_KEY"),
                false,
            ),
        ],
        80,
    );

    assert_eq!(
        out,
        "\nmodels\n\
         mock               ready\n\
         \x20 mock-echo  default\n\
         \n\
         deepseek-official  set DEEPSEEK_API_KEY\n\
         \x20 deepseek-chat  default\n\
         \x20 deepseek-reasoner\n"
    );
}

#[test]
fn an_unavailable_provider_with_no_variable_still_says_so() {
    let out = shown(vec![provider("local", &["gguf"], None, false)], 80);
    assert!(out.contains("local  unavailable"), "{out}");
}

#[test]
fn a_provider_with_no_catalog_points_at_the_flag() {
    let out = shown(vec![provider("openai-compatible", &[], None, true)], 80);
    assert!(out.contains("name one with --model"), "{out}");
}

#[test]
fn an_empty_provider_list_says_so() {
    assert_eq!(
        shown(Vec::new(), 80),
        "\nmodels\nno providers are registered\n"
    );
}

#[test]
fn every_argument_carries_its_type_and_whether_it_is_required() {
    let out = listed(
        vec![tool(
            "echo",
            "Return the given text unchanged.",
            r#"{ "type": "object", "properties": { "text": { "type": "string" }, "times": { "type": "integer" } }, "required": ["text"] }"#,
        )],
        80,
    );

    assert_eq!(
        out,
        "\ntools\n\
         echo  Return the given text unchanged.\n\
         \x20     text (string, required)\n\
         \x20     times (integer)\n"
    );
}

#[test]
fn a_schema_this_view_cannot_read_still_lists_its_tool() {
    for schema in [r#"{}"#, r#""free text""#, r#"{ "type": "string" }"#] {
        let out = listed(vec![tool("odd", "Takes something else.", schema)], 80);
        assert_eq!(out, "\ntools\nodd  Takes something else.\n");
    }
}

#[test]
fn a_long_description_is_cut_to_the_terminal() {
    let out = listed(vec![tool("read", &"y".repeat(90), r#"{}"#)], 40);

    for row in out.lines() {
        assert!(row.chars().count() <= 40, "`{row}` overruns 40");
    }
    assert!(out.contains('…'), "the description was not cut:\n{out}");
}

#[test]
fn a_provider_name_that_fills_the_row_puts_its_state_underneath() {
    let name = "deepseek-through-a-corporate-proxy-eu";
    let out = shown(
        vec![provider(name, &["m1"], Some("PROXY_TOKEN"), false)],
        50,
    );

    for row in out.lines() {
        assert!(visible_width(row) <= 50, "`{row}` overruns 50");
    }
    assert!(
        out.lines().any(|row| row.trim() == name),
        "the name is not on a line of its own:\n{out}"
    );
    assert!(
        out.lines()
            .any(|row| row.starts_with("  ") && row.contains("set PROXY_TOKEN")),
        "the state is not under it:\n{out}"
    );
}

#[test]
fn a_name_too_wide_for_the_row_stacks_what_follows_it() {
    let name = "filesystem__read_text_file__with_a_range";
    let out = listed(
        vec![tool(
            name,
            "Read part of a file",
            r#"{"properties": {"path": {"type": "string"}}, "required": ["path"]}"#,
        )],
        50,
    );

    for row in out.lines() {
        assert!(visible_width(row) <= 50, "`{row}` overruns 50");
    }
    assert!(
        out.lines().any(|row| row.trim() == name),
        "the name is not on a line of its own:\n{out}"
    );
    assert!(
        out.contains("Read part of a file"),
        "the description was cut away:\n{out}"
    );
    let argument = out
        .lines()
        .find(|row| row.contains("path"))
        .unwrap_or_else(|| panic!("the argument is on no row:\n{out}"));
    assert!(
        visible_width(argument) <= 50 && argument.starts_with("  "),
        "the argument is off the page: `{argument}`"
    );
}

#[test]
fn an_empty_tool_list_says_so() {
    assert_eq!(listed(Vec::new(), 80), "\ntools\nno tools are registered\n");
}

#[test]
fn a_name_off_the_wire_cannot_drive_the_terminal() {
    let clear = "\u{1b}[2J";
    let page = shown(
        vec![provider(
            &format!("deep{clear}seek"),
            &[&format!("v4{clear}pro")],
            Some(&format!("DEEP{clear}KEY")),
            false,
        )],
        80,
    );
    assert!(!page.contains('\u{1b}'), "{page:?}");
    assert!(page.contains("deepseek"), "{page}");
    assert!(page.contains("v4pro"), "{page}");
    assert!(page.contains("set DEEPKEY"), "{page}");

    let page = listed(
        vec![tool(
            &format!("ec{clear}ho"),
            "Say it back.",
            r#"{ "properties": { "te\u001b[2Jxt": { "type": "str\u001b[2Jing" } } }"#,
        )],
        80,
    );
    assert!(!page.contains('\u{1b}'), "{page:?}");
    assert!(page.contains("echo"), "{page}");
    assert!(page.contains("text (string)"), "{page}");
}

#[test]
fn the_name_column_is_measured_and_padded_in_columns() {
    let out = listed(
        vec![
            tool(
                "\u{65e5}\u{672c}\u{8a9e}\u{306e}\u{30c4}\u{30fc}\u{30eb}",
                "Say it wide.",
                r#"{}"#,
            ),
            tool("read", "Read a file.", r#"{}"#),
        ],
        80,
    );

    for said in ["Say it wide.", "Read a file."] {
        let line = out.lines().find(|line| line.contains(said)).expect(said);
        let at = line.find(said).expect(said);
        assert_eq!(
            visible_width(&line[..at]),
            14 + GAP,
            "the description does not start where the other one does: {line:?}"
        );
    }
}

#[test]
fn a_page_stacks_when_a_name_leaves_no_sentence_beside_it() {
    let wide = beside(80, &vec![4, 17]);
    assert_eq!((wide.stacked, wide.pad, wide.room), (false, 17, 61));
    let edge = beside(18, &vec![0]);
    assert_eq!((edge.stacked, edge.room), (false, 16));
    let narrow = beside(18, &vec![1]);
    assert_eq!((narrow.stacked, narrow.pad, narrow.room), (true, 0, 16));
    assert_eq!(beside(0, &vec![9]).room, 1);
}

#[test]
fn an_argument_with_no_type_takes_anything() {
    let read = arguments(r#"{ "properties": { "a": {}, "b": { "type": 4 } }, "required": [1, "b"] }"#);
    let rows: Vec<String> = read.iter().map(argument).collect();
    assert_eq!(rows, ["a (any)", "b (any, required)"]);
}
