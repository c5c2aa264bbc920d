use tetanus::paint::{Charset, Framed, Line};
use tetanus::render::cell::Cell;
use tetanus::render::keys::{card, hint, Row};

/// The columns a terminal draws a text in.
fn visible_width(text: &str) -> usize {
    tame(text)
        .chars()
        .map(|c| match c {
            '\u{1100}'..='\u{115f}'
            | '\u{2e80}'..='\u{a4cf}'
            | '\u{ac00}'..='\u{d7a3}'
            | '\u{f900}'..='\u{faff}'
            | '\u{ff00}'..='\u{ff60}' => 2,
            _ => 1,
        })
        .sum()
}

/// A text with everything in it that drives a terminal taken out.
fn tame(text: &str) -> String {
    let mut out = String::new();
    let mut chars = text.chars();
    while let Some(c) = chars.next() {
        if c == '\u{1b}' {
            match chars.next() {
                Some('[') => {
                    for c in chars.by_ref() {
                        if ('\u{40}'..='\u{7e}').contains(&c) {
                            break;
                        }
                    }
                }
                Some(']') => {
                    for c in chars.by_ref() {
                        if c == '\u{7}' {
                            break;
                        }
                    }
                }
                _ => {}
            }
        } else if c == '\n' || !c.is_control() {
            out.push(c);
        }
    }
    out
}

/// A whole screen, as rows of text so wide.
fn screen(frame: &Framed, cols: usize) -> Vec<String> {
    let bar = |(left, right): &(Line, Line)| {
        let (left, right) = (left.text(), right.text());
        let gap = cols.saturating_sub(visible_width(&left) + visible_width(&right));
        format!("{left}{}{right}", " ".repeat(gap)).trim_end().to_string()
    };
    let mut rows = vec![bar(&frame.head)];
    rows.extend(frame.rows.iter().map(|row| row.text().trim_end().to_string()));
    rows.push(bar(&frame.foot));
    rows
}

const COLS: usize = 60;

/// The card on a screen so tall.
fn shown(height: usize, what: &str, keys: &[Row]) -> Framed {
    let widths = keys.iter().map(|(name, _)| visible_width(name)).collect();
    card(Charset::Unicode, height, what, &keys.to_vec(), &widths)
}

const MAP: [Row; 3] = [
    ("↑ ↓", "one line back, one line on"),
    ("pgup pgdn", "a screenful either way"),
    ("?", "this card; any key goes back"),
];

#[test]
fn a_card_is_a_column_of_keys_and_a_way_back() {
    let frame = shown(10, "journal", &MAP);
    let rows = screen(&frame, COLS);

    assert_eq!(rows.len(), 10, "not the height asked for: {rows:?}");
    assert!(rows[0].starts_with("tetanus"), "not headed: {rows:?}");
    assert!(rows[0].ends_with("journal keys"), "not named: {rows:?}");
    assert_eq!(rows[9], "any key goes back", "no way back: {rows:?}");

    let said: Vec<usize> = MAP
        .iter()
        .map(|(_, does)| {
            let row = rows
                .iter()
                .find(|row| row.contains(does))
                .unwrap_or_else(|| panic!("{does} is on no row: {rows:?}"));
            // Columns, not bytes: an arrow is three bytes wide and one
            // column, which is the whole reason the padding is measured
            // the way it is.
            visible_width(&row[..row.find(does).expect("found above")])
        })
        .collect();
    assert_eq!(
        said,
        vec![said[0]; MAP.len()],
        "the descriptions do not line up: {rows:?}"
    );
}

#[test]
fn a_short_screen_counts_the_keys_it_could_not_show() {
    // Four rows of furniture and six rows of screen leaves two: one key,
    // and the row that says the other two are elsewhere.
    let frame = shown(6, "journal", &MAP);
    let rows = screen(&frame, COLS);

    assert!(
        rows.iter().any(|row| row.contains("one line back")),
        "the first key was dropped: {rows:?}"
    );
    assert!(
        rows.iter().any(|row| row.contains("and 2 more")),
        "the dropped keys are not counted: {rows:?}"
    );
    assert!(
        !rows
            .iter()
            .any(|row| row.contains("any key goes back") && row.contains("this card")),
        "a key row was written over the footer: {rows:?}"
    );
}

#[test]
fn a_screen_with_no_room_shows_the_count_alone() {
    let rows = screen(&shown(4, "journal", &MAP), COLS);
    assert!(!rows.iter().any(|row| row.contains("one line back")), "{rows:?}");
    assert_eq!(rows[rows.len() - 1], "any key goes back");
}

#[test]
fn a_hint_too_wide_for_the_screen_gives_way_to_the_short_one() {
    let full = Cell { text: "↑↓ scroll · q quit".to_string(), width: 18 };
    assert_eq!(hint(18, &full, "q quit"), "↑↓ scroll · q quit");
    assert_eq!(hint(17, &full, "q quit"), "q quit");
}
