use tetanus::input::{Flow, Key, Move};
use tetanus::paint::Charset;
use tetanus::render::watch::{hints, Left, Watch, KEYS};

#[test]
fn the_keys_move_the_watched_turn() {
    let mut watch = Watch::new(80, 12);
    assert_eq!(watch.key(Key::PageUp), (Flow::Go, Move::Back(7)));
    assert_eq!(watch.key(Key::PageDown), (Flow::Go, Move::On(7)));
    assert_eq!(watch.key(Key::Up), (Flow::Go, Move::Back(1)));
    assert_eq!(watch.key(Key::Down), (Flow::Go, Move::On(1)));
    assert_eq!(watch.key(Key::Home), (Flow::Go, Move::Top));
    assert_eq!(watch.key(Key::End), (Flow::Go, Move::Follow));
    assert_eq!(watch.key(Key::Char('x')), (Flow::Go, Move::Stay));
    assert_eq!(watch.key(Key::Esc), (Flow::Stop, Move::Stay));
    // A screen too short for a screenful still moves.
    assert_eq!(Watch::new(80, 3).key(Key::PageUp), (Flow::Go, Move::Back(1)));
}

#[test]
fn the_card_is_read_and_not_worked_in() {
    let mut watch = Watch::new(80, 12);
    watch.key(Key::Char('?'));
    assert!(watch.help);
    assert_eq!(watch.key(Key::Char('q')), (Flow::Go, Move::Stay));
    assert!(!watch.help);
    assert_eq!(watch.key(Key::Char('q')), (Flow::Stop, Move::Stay));
}

#[test]
fn a_beat_answers_no_more_keys_than_a_frame_does() {
    let mut watch = Watch::new(80, 12);
    let (flow, moves, turned) = watch.beat(&vec![Key::Up; KEYS + 8]);
    assert_eq!((flow, moves.len(), turned), (Flow::Go, KEYS, false));
    let (flow, moves, turned) = watch.beat(&Vec::new());
    assert_eq!((flow, moves.len(), turned), (Flow::Go, 0, true));
    let (flow, moves, turned) = watch.beat(&vec![Key::Up, Key::Ctrl('c'), Key::Up]);
    assert_eq!((flow, moves.len(), turned), (Flow::Stop, 2, false));
    watch.beat(&vec![Key::Resize(100, 30)]);
    assert_eq!((watch.cols, watch.height), (100, 30));
}

#[test]
fn closing_a_finished_turn_is_no_interruption() {
    let mut watch = Watch::new(80, 12);
    assert_eq!(watch.leave(Flow::Stop), Left::Dropped);
    assert_eq!(watch.leave(Flow::Go), Left::No);
    watch.finish();
    assert_eq!(watch.leave(Flow::Stop), Left::Finished);
}

#[test]
fn the_footer_and_the_card_name_the_same_ways_out() {
    let (full, short) = hints(Charset::Ascii);
    assert_eq!(full, "up/dn scroll - ? keys - q quit");
    assert_eq!(short, "? keys - q quit");
    let rows = tetanus::render::watch::map(Charset::Unicode);
    assert_eq!(rows[0].0, "↑ ↓");
    assert!(rows.iter().any(|row| row.0 == "q") && rows.iter().any(|row| row.0 == "?"));
}
