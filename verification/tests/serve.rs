use tetanus::paint::Sheet;
use tetanus::render::serve::{banner, stopped, Carrier, Serving};

/// The columns a terminal draws a text in.
fn visible_width(text: &str) -> usize {
    tame(text)
        .chars()
        .map(|c| match c {
            '\u{1100}'..='\u{115f}'
            | '\u{2e80}'..='\u{a4cf}'
            | '\u{ac00}'..='\u{d7a3}'
            | '\u{f900}'..='\u{faff}'
            | '\u{ff00}'..='\u{ff60}' => 2,
            _ => 1,
        })
        .sum()
}

/// A text with everything in it that drives a terminal taken out.
fn tame(text: &str) -> String {
    let mut out = String::new();
    let mut chars = text.chars();
    while let Some(c) = chars.next() {
        if c == '\u{1b}' {
            match chars.next() {
                Some('[') => {
                    for c in chars.by_ref() {
                        if ('\u{40}'..='\u{7e}').contains(&c) {
                            break;
                        }
                    }
                }
                Some(']') => {
                    for c in chars.by_ref() {
                        if c == '\u{7}' {
                            break;
                        }
                    }
                }
                _ => {}
            }
        } else if c == '\n' || !c.is_control() {
            out.push(c);
        }
    }
    out
}

/// A sheet, as it is printed on a terminal with no colour.
fn printed(sheet: &Sheet) -> String {
    let mut out = format!("\n{}", sheet.heading.text());
    if let Some(at) = &sheet.at {
        out.push_str(&format!("  {at}"));
    }
    out.push('\n');
    for field in &sheet.fields {
        let pad = " ".repeat(field.column.saturating_sub(visible_width(&field.label)));
        let said = field.said.text();
        let said = if said.is_empty() { "(empty)" } else { said.as_str() };
        out.push_str(&format!("{}{pad}  {said}\n", field.label));
    }
    for row in &sheet.rows {
        out.push_str(&format!("{}\n", row.text()));
    }
    if let Some(note) = &sheet.note {
        out.push_str(&format!("note: {note}\n"));
    }
    out
}

/// A tamed text on one line.
fn tame_line(text: &str) -> String {
    tame(text).split_whitespace().collect::<Vec<_>>().join(" ")
}

/// The banner, with the directory tamed.
fn rendered(serving: &Serving) -> String {
    let sessions = tame_line(serving.sessions);
    printed(&banner(&Serving {
        carrier: serving.carrier,
        sessions: &sessions,
        protocol: serving.protocol,
    }))
}

#[test]
fn the_banner_says_what_the_server_is_doing() {
    let told = rendered(&Serving {
        carrier: Carrier::Stdio,
        sessions: "sessions",
        protocol: "1.0",
    });

    assert_eq!(
        told,
        "\ntetanus serving on stdio\n\
         sessions  sessions\n\
         protocol  1.0\n\
         note: end with Ctrl-D\n"
    );
}

#[test]
fn the_banner_names_the_directory_the_work_lands_in() {
    let told = rendered(&Serving {
        carrier: Carrier::Stdio,
        sessions: "/srv/journals",
        protocol: "1.0",
    });

    assert!(told.contains("sessions  /srv/journals"), "{told}");
}

#[test]
fn the_closing_line_says_why_the_server_ended() {
    let told = format!("note: {}\n", stopped(Carrier::Stdio));

    assert_eq!(
        told,
        "note: the peer closed stdin, so the server stopped\n"
    );
}

#[test]
fn the_websocket_banner_leads_with_the_address_it_bound() {
    let told = rendered(&Serving {
        carrier: Carrier::WebSocket("127.0.0.1:34567"),
        sessions: "sessions",
        protocol: "1.0",
    });

    assert_eq!(
        told,
        "\ntetanus serving on websocket\n\
         address   127.0.0.1:34567\n\
         sessions  sessions\n\
         protocol  1.0\n\
         note: end with Ctrl-C\n"
    );
}

#[test]
fn the_websocket_closing_line_names_the_interrupt() {
    let told = format!("note: {}\n", stopped(Carrier::WebSocket("127.0.0.1:34567")));

    assert_eq!(told, "note: interrupted, so the server stopped\n");
}

#[test]
fn a_directory_named_with_an_escape_sequence_stays_one_row() {
    let told = rendered(&Serving {
        carrier: Carrier::Stdio,
        sessions: "na\u{1b}[2Jsty\u{1b}]0;pwned\u{7}\nlogs",
        protocol: "1.0",
    });

    assert_eq!(
        told,
        "\ntetanus serving on stdio\n\
         sessions  nasty logs\n\
         protocol  1.0\n\
         note: end with Ctrl-D\n"
    );
}

#[test]
fn every_carrier_has_its_name_and_its_key() {
    assert_eq!((Carrier::Stdio.name(), Carrier::Stdio.stop_key()), ("stdio", "Ctrl-D"));
    let socket = Carrier::WebSocket("127.0.0.1:34567");
    assert_eq!((socket.name(), socket.stop_key()), ("websocket", "Ctrl-C"));
}
