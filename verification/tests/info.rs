use tetanus::paint::Sheet;
use tetanus::render::info::{render, Build};

/// The columns a terminal draws a text in.
fn visible_width(text: &str) -> usize {
    tame(text)
        .chars()
        .map(|c| match c {
            '\u{1100}'..='\u{115f}'
            | '\u{2e80}'..='\u{a4cf}'
            | '\u{ac00}'..='\u{d7a3}'
            | '\u{f900}'..='\u{faff}'
            | '\u{ff00}'..='\u{ff60}' => 2,
            _ => 1,
        })
        .sum()
}

/// A text with everything in it that drives a terminal taken out.
fn tame(text: &str) -> String {
    let mut out = String::new();
    let mut chars = text.chars();
    while let Some(c) = chars.next() {
        if c == '\u{1b}' {
            match chars.next() {
                Some('[') => {
                    for c in chars.by_ref() {
                        if ('\u{40}'..='\u{7e}').contains(&c) {
                            break;
                        }
                    }
                }
                Some(']') => {
                    for c in chars.by_ref() {
                        if c == '\u{7}' {
                            break;
                        }
                    }
                }
                _ => {}
            }
        } else if c == '\n' || !c.is_control() {
            out.push(c);
        }
    }
    out
}

/// A sheet, as it is printed on a terminal with no colour.
fn printed(sheet: &Sheet) -> String {
    let mut out = format!("\n{}", sheet.heading.text());
    if let Some(at) = &sheet.at {
        out.push_str(&format!("  {at}"));
    }
    out.push('\n');
    for field in &sheet.fields {
        let pad = " ".repeat(field.column.saturating_sub(visible_width(&field.label)));
        let said = field.said.text();
        let said = if said.is_empty() { "(empty)" } else { said.as_str() };
        out.push_str(&format!("{}{pad}  {said}\n", field.label));
    }
    for row in &sheet.rows {
        out.push_str(&format!("{}\n", row.text()));
    }
    if let Some(note) = &sheet.note {
        out.push_str(&format!("note: {note}\n"));
    }
    out
}

fn rendered(build: &Build) -> String {
    printed(&render(build))
}

fn build() -> Build {
    Build {
        version: "0.1.0",
        protocol: "1.0",
        providers: 2,
        tools: 1,
        os: "linux",
        arch: "x86_64",
    }
}

#[test]
fn the_page_carries_what_a_bug_report_needs() {
    assert_eq!(
        rendered(&build()),
        "\ntetanus 0.1.0\n\
         protocol   1.0\n\
         providers  2  tetanus models\n\
         tools      1  tetanus tools\n\
         platform   linux x86_64\n"
    );
}

#[test]
fn a_build_that_registers_nothing_says_zero() {
    let empty = Build {
        providers: 0,
        tools: 0,
        ..build()
    };
    let page = rendered(&empty);

    assert!(page.contains("providers  0"), "{page}");
    assert!(page.contains("tools      0"), "{page}");
    assert!(page.contains("tetanus tools"), "{page}");
}
