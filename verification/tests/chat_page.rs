use tetanus::paint::{Charset, Line, Sheet};
use tetanus::render::chat::{banner, card, card_room, commands, help, marker, or_empty, Opened};

/// The columns a terminal draws a text in.
fn visible_width(text: &str) -> usize {
    tame(text)
        .chars()
        .map(|c| match c {
            '\u{1100}'..='\u{115f}'
            | '\u{2e80}'..='\u{a4cf}'
            | '\u{ac00}'..='\u{d7a3}'
            | '\u{f900}'..='\u{faff}'
            | '\u{ff00}'..='\u{ff60}' => 2,
            _ => 1,
        })
        .sum()
}

/// A text with everything in it that drives a terminal taken out.
fn tame(text: &str) -> String {
    let mut out = String::new();
    let mut chars = text.chars();
    while let Some(c) = chars.next() {
        if c == '\u{1b}' {
            match chars.next() {
                Some('[') => {
                    for c in chars.by_ref() {
                        if ('\u{40}'..='\u{7e}').contains(&c) {
                            break;
                        }
                    }
                }
                Some(']') => {
                    for c in chars.by_ref() {
                        if c == '\u{7}' {
                            break;
                        }
                    }
                }
                _ => {}
            }
        } else if c == '\n' || !c.is_control() {
            out.push(c);
        }
    }
    out
}

/// A tamed text on one line.
fn tame_line(text: &str) -> String {
    tame(text).split_whitespace().collect::<Vec<_>>().join(" ")
}

/// A text cut to a width, with a mark where it was.
fn truncate(text: &str, room: usize, charset: Charset) -> String {
    let flat = tame_line(text);
    if visible_width(&flat) <= room {
        return flat;
    }
    let mark = charset.glyph("…", "...");
    let mut out = String::new();
    for c in flat.chars() {
        let next = format!("{out}{c}{mark}");
        if visible_width(&next) > room {
            break;
        }
        out.push(c);
    }
    out.push_str(mark);
    out
}

/// A sheet, as it is printed on a terminal with no colour.
fn printed(sheet: &Sheet) -> String {
    let mut out = format!("\n{}", sheet.heading.text());
    if let Some(at) = &sheet.at {
        out.push_str(&format!("  {at}"));
    }
    out.push('\n');
    for field in &sheet.fields {
        let pad = " ".repeat(field.column.saturating_sub(visible_width(&field.label)));
        let said = field.said.text();
        let said = if said.is_empty() { "(empty)" } else { said.as_str() };
        out.push_str(&format!("{}{pad}  {said}\n", field.label));
    }
    for row in &sheet.rows {
        out.push_str(&format!("{}\n", row.text()));
    }
    if let Some(note) = &sheet.note {
        out.push_str(&format!("note: {note}\n"));
    }
    out
}

/// The page a chat opens on, with what came from outside tamed.
fn opened(chat: Opened) -> String {
    let (model, journal) = (tame_line(chat.model), tame_line(chat.journal));
    printed(&banner(
        Charset::Unicode,
        &Opened { model: &model, journal: &journal, turns: chat.turns },
    ))
}

#[test]
fn the_opening_page_names_the_model_and_the_journal() {
    let page = opened(Opened {
                model: "deepseek-chat",
                journal: "sessions/chat.jsonl",
                turns: 0,
            });

    assert_eq!(
        page,
        "\nchat on deepseek-chat\n\
         journal  sessions/chat.jsonl\n\
         keys     /help for the commands · ctrl-d to leave\n"
    );
}

#[test]
fn a_resumed_chat_says_what_it_remembers() {
    for (turns, expected) in [(1, "1 turn already"), (4, "4 turns already")] {
        let page = opened(Opened {
                    model: "mock-echo-1",
                    journal: "sessions/chat.jsonl",
                    turns,
                });
        assert!(page.contains(expected), "{page}");
    }
}

#[test]
fn a_name_or_a_path_from_outside_is_drawn_not_obeyed() {
    let page = opened(Opened {
                model: "mo\u{1b}[2Jck",
                journal: "se\u{1b}]0;pwned\u{7}ssions/chat.jsonl",
                turns: 0,
            });

    assert_eq!(
        page,
        "\nchat on mock\n\
         journal  sessions/chat.jsonl\n\
         keys     /help for the commands \u{b7} ctrl-d to leave\n"
    );
}

#[test]
fn a_row_with_nothing_left_to_draw_says_so() {
    let page = opened(Opened {
                model: "\u{1b}[2J",
                journal: "\u{1b}]0;pwned\u{7}",
                turns: 0,
            });

    assert_eq!(
        page,
        "\nchat on (empty)\n\
         journal  (empty)\n\
         keys     /help for the commands \u{b7} ctrl-d to leave\n"
    );
}

#[test]
fn the_marker_is_a_glyph_and_the_room_to_type_after_it() {
    assert_eq!(marker(Charset::Unicode).text(), "› ");
    assert_eq!(marker(Charset::Ascii).text(), "> ");

    assert_eq!(format!("{}\n", Line::blank().text()), "\n");
}

#[test]
fn the_card_lists_every_command() {
    let card = printed(&help());

    for command in ["/help", "/?", "/exit", "/quit", "/q", "//text"] {
        assert!(card.contains(command), "{command} is missing:\n{card}");
    }
    assert!(card.contains("ctrl-d"), "{card}");
}

#[test]
fn the_card_on_a_transcript_is_the_same_card() {
    let said: Vec<String> = commands()
        .iter()
        .map(|row| truncate(row.1, card_room(40), Charset::Unicode))
        .collect();
    let rows: Vec<String> = card(&said).iter().map(|line| line.text()).collect();

    assert_eq!(rows[0], "commands");
    assert_eq!(rows.len(), 1 + commands().len());
    for (row, command) in rows[1..].iter().zip(commands()) {
        assert!(row.starts_with(&format!("  {}", command.0)), "{row}");
        assert!(visible_width(row) <= 40, "`{row}` overruns 40");
    }
    // What the commands do starts in one column.
    assert_eq!(rows[1], format!("  /help       {}", said[0]));
    assert_eq!(rows[4], format!("  /find word  {}", said[3]));
}

#[test]
fn a_name_that_says_nothing_is_said_to_be_empty() {
    assert_eq!(or_empty(""), "(empty)");
    assert_eq!(or_empty("mock"), "mock");
}
