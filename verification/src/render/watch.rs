//! A turn watched on a screen of its own.
//!
//! The view outlives the turn: one that came down the moment the model stopped
//! talking would show the finished turn for a single frame, and the reader's
//! chance to look back through it is after it has happened.
use vstd::prelude::*;
use vstd::string::*;

use crate::input::{Flow, Key, Move};
use crate::paint;
use crate::paint::Charset;
use crate::render::chat;
use crate::render::keys;
use crate::render::rows;
use crate::text;

verus! {

/// Keystrokes one frame will answer before it draws, so that a pasted wall of
/// text cannot hold up the turn running beside it.
pub const KEYS: usize = 32;

/// Rows a page key keeps: the furniture, and one line of the reader's place.
pub const KEPT: usize = 5;

/// The left of the footer, in its longest wording and its shortest. The short
/// one keeps the card that says the rest, and the way out.
pub fn hints(charset: Charset) -> (r: (String, String))
    ensures
        r.0@ == paint::glyph_of(charset, "↑↓"@, "up/dn"@) + " scroll "@ + paint::glyph_of(
            charset,
            "·"@,
            "-"@,
        ) + " ? keys "@ + paint::glyph_of(charset, "·"@, "-"@) + " q quit"@,
        r.1@ == "? keys "@ + paint::glyph_of(charset, "·"@, "-"@) + " q quit"@,
{
    let dot = charset.glyph("·", "-");
    let mut full = text::cat(charset.glyph("↑↓", "up/dn"), " scroll ");
    full.append(dot);
    full.append(" ? keys ");
    full.append(dot);
    full.append(" q quit");
    let mut short = text::cat("? keys ", dot);
    short.append(" q quit");
    (full, short)
}

/// Every key this view answers, in the order a reader meets them.
pub open spec fn map_of(charset: Charset) -> Seq<(Seq<char>, Seq<char>)> {
    seq![
        (paint::glyph_of(charset, "↑ ↓"@, "up dn"@), "one line back, one line on"@),
        ("pgup pgdn"@, "a screenful either way"@),
        ("home"@, "the first line of the turn"@),
        ("end"@, "follow the turn again, as it arrives"@),
        ("ctrl-c"@, "stop the turn, and the view with it"@),
        ("q"@, "close the view; a turn still running is dropped"@),
        ("?"@, "this card; any key goes back"@),
    ]
}

/// Every key this view answers, in the order a reader meets them.
pub fn map(charset: Charset) -> (r: Vec<keys::Row>)
    ensures
        chat::spelled(r@) == map_of(charset),
{
    let mut r: Vec<keys::Row> = Vec::new();
    r.push((charset.glyph("↑ ↓", "up dn"), "one line back, one line on"));
    r.push(("pgup pgdn", "a screenful either way"));
    r.push(("home", "the first line of the turn"));
    r.push(("end", "follow the turn again, as it arrives"));
    r.push(("ctrl-c", "stop the turn, and the view with it"));
    r.push(("q", "close the view; a turn still running is dropped"));
    r.push(("?", "this card; any key goes back"));
    proof {
        assert(chat::spelled(r@) =~= map_of(charset));
    }
    r
}

/// A turn being watched.
#[derive(Clone, Copy, Debug, PartialEq, Eq, Structural)]
pub struct Watch {
    /// Columns and rows, as of the last resize the terminal reported.
    pub cols: usize,
    pub height: usize,
    /// Whether the key card is up in place of the turn.
    pub help: bool,
    /// Whether the turn is over.
    pub over: bool,
}

/// How a watched turn was left.
#[derive(Clone, Copy, Debug, PartialEq, Eq, Structural)]
pub enum Left {
    /// The view is still up.
    No,
    /// The view was closed over a turn still running: it is dropped where it
    /// stands, and there is no result.
    Dropped,
    /// The view was closed over a turn that had finished.
    Finished,
}

impl Watch {
    /// How far a page key goes, and never nowhere.
    pub open spec fn screenful(self) -> nat {
        let left = rows::left_of(self.height as nat, KEPT as nat);
        if left < 1 {
            1
        } else {
            left
        }
    }

    /// A key the view answers.
    pub open spec fn pressed(self, key: Key) -> (Watch, Flow, Move) {
        if self.help {
            (Watch { help: false, ..self }, Flow::Go, Move::Stay)
        } else {
            match key {
                Key::Char(c) => if c == 'q' {
                    (self, Flow::Stop, Move::Stay)
                } else if c == '?' {
                    (Watch { help: true, ..self }, Flow::Go, Move::Stay)
                } else {
                    (self, Flow::Go, Move::Stay)
                },
                Key::Esc => (self, Flow::Stop, Move::Stay),
                Key::Up => (self, Flow::Go, Move::Back(1)),
                Key::Down => (self, Flow::Go, Move::On(1)),
                Key::PageUp => (self, Flow::Go, Move::Back(self.screenful() as usize)),
                Key::PageDown => (self, Flow::Go, Move::On(self.screenful() as usize)),
                Key::Home => (self, Flow::Go, Move::Top),
                Key::End => (self, Flow::Go, Move::Follow),
                _ => (self, Flow::Go, Move::Stay),
            }
        }
    }

    /// A keystroke as it arrives. Ctrl-C and a resize are answered before the
    /// view sees a key, so the card cannot hold up a turn the reader wants
    /// stopped.
    pub open spec fn struck(self, key: Key) -> (Watch, Flow, Move) {
        match key {
            Key::Ctrl(c) => if c == 'c' {
                (self, Flow::Stop, Move::Stay)
            } else {
                self.pressed(key)
            },
            Key::Resize(cols, height) => (
                Watch { cols: cols as usize, height: height as usize, ..self },
                Flow::Go,
                Move::Stay,
            ),
            _ => self.pressed(key),
        }
    }

    /// The view once a run of keystrokes has been answered, up to one that
    /// stops it: the moves they made, and whether one did.
    pub open spec fn beaten(self, keys: Seq<Key>) -> (Watch, Flow, Seq<Move>)
        decreases keys.len(),
    {
        if keys.len() == 0 {
            (self, Flow::Go, Seq::empty())
        } else {
            let (before, flow, moves) = self.beaten(keys.drop_last());
            if flow is Stop {
                (before, flow, moves)
            } else {
                let (next, flow, go) = before.struck(keys.last());
                (next, flow, moves.push(go))
            }
        }
    }

    /// How the view was left, once a beat came to this.
    pub open spec fn left(self, flow: Flow) -> Left {
        if flow is Go {
            Left::No
        } else if self.over {
            Left::Finished
        } else {
            Left::Dropped
        }
    }

    /// A turn about to run, on a screen of this size.
    pub fn new(cols: usize, height: usize) -> (w: Watch)
        ensures
            w == (Watch { cols, height, help: false, over: false }),
    {
        Watch { cols, height, help: false, over: false }
    }

    /// Answer one key.
    pub fn key(&mut self, key: Key) -> (r: (Flow, Move))
        ensures
            (*final(self), r.0, r.1) == old(self).pressed(key),
    {
        if self.help {
            self.help = false;
            return (Flow::Go, Move::Stay);
        }
        let left: usize = self.height.saturating_sub(KEPT);
        let screenful: usize = if left < 1 {
            1
        } else {
            left
        };
        match key {
            Key::Char(c) => {
                if c == 'q' {
                    (Flow::Stop, Move::Stay)
                } else if c == '?' {
                    self.help = true;
                    (Flow::Go, Move::Stay)
                } else {
                    (Flow::Go, Move::Stay)
                }
            },
            Key::Esc => (Flow::Stop, Move::Stay),
            Key::Up => (Flow::Go, Move::Back(1)),
            Key::Down => (Flow::Go, Move::On(1)),
            Key::PageUp => (Flow::Go, Move::Back(screenful)),
            Key::PageDown => (Flow::Go, Move::On(screenful)),
            Key::Home => (Flow::Go, Move::Top),
            Key::End => (Flow::Go, Move::Follow),
            _ => (Flow::Go, Move::Stay),
        }
    }

    fn strike(&mut self, key: Key) -> (r: (Flow, Move))
        ensures
            (*final(self), r.0, r.1) == old(self).struck(key),
    {
        match key {
            Key::Ctrl(c) => if c == 'c' {
                (Flow::Stop, Move::Stay)
            } else {
                self.key(key)
            },
            Key::Resize(cols, height) => {
                self.cols = cols as usize;
                self.height = height as usize;
                (Flow::Go, Move::Stay)
            },
            _ => self.key(key),
        }
    }

    /// Answer every keystroke waiting, and no more than [`KEYS`] of them: the
    /// moves they made in order, whether the view goes on, and whether the
    /// spinner turns. It does when fewer keys were waiting than a frame
    /// answers, which is the wait it stands for.
    pub fn beat(&mut self, keys: &Vec<Key>) -> (r: (Flow, Vec<Move>, bool))
        ensures
            ({
                let answered = keys@.take(
                    if keys@.len() < KEYS {
                        keys@.len() as int
                    } else {
                        KEYS as int
                    },
                );
                &&& (*final(self), r.0, r.1@) == old(self).beaten(answered)
                &&& r.2 == (r.0 is Go && keys@.len() < KEYS)
            }),
    {
        let count: usize = if keys.len() < KEYS {
            keys.len()
        } else {
            KEYS
        };
        let mut moves: Vec<Move> = Vec::new();
        let mut i: usize = 0;
        proof {
            assert(keys@.take(0) =~= Seq::<Key>::empty());
            assert(moves@ =~= Seq::<Move>::empty());
        }
        while i < count
            invariant
                i <= count <= keys@.len(),
                count == (if keys@.len() < KEYS {
                    keys@.len()
                } else {
                    KEYS as nat
                }),
                (*self, Flow::Go, moves@) == old(self).beaten(keys@.take(i as int)),
            decreases count - i,
        {
            proof {
                assert(keys@.take(i + 1).drop_last() =~= keys@.take(i as int));
                assert(keys@.take(i + 1).last() == keys@[i as int]);
            }
            let (flow, go) = self.strike(keys[i]);
            moves.push(go);
            i = i + 1;
            match flow {
                Flow::Stop => {
                    proof {
                        lemma_stopped_stays_stopped(*old(self), keys@, i as int, count as int);
                    }
                    return (Flow::Stop, moves, false);
                },
                Flow::Go => {},
            }
        }
        (Flow::Go, moves, keys.len() < KEYS)
    }

    /// The turn is over, however it ended.
    pub fn finish(&mut self)
        ensures
            *final(self) == (Watch { over: true, ..*old(self) }),
    {
        self.over = true;
    }

    /// How the view was left, once a beat came to this.
    pub fn leave(&self, flow: Flow) -> (l: Left)
        ensures
            l == self.left(flow),
    {
        match flow {
            Flow::Go => Left::No,
            Flow::Stop => if self.over {
                Left::Finished
            } else {
                Left::Dropped
            },
        }
    }
}

proof fn lemma_stopped_stays_stopped(watch: Watch, keys: Seq<Key>, n: int, m: int)
    requires
        0 <= n <= m <= keys.len(),
        watch.beaten(keys.take(n)).1 is Stop,
    ensures
        watch.beaten(keys.take(m)) == watch.beaten(keys.take(n)),
    decreases m - n,
{
    if n < m {
        lemma_stopped_stays_stopped(watch, keys, n, m - 1);
        assert(keys.take(m).drop_last() =~= keys.take(m - 1));
    }
}

// ---- laws ----

/// Any key takes the card down, and that is all it does; but Ctrl-C stops the
/// view whatever is up.
pub proof fn lemma_the_card_is_read_and_not_worked_in(watch: Watch, key: Key)
    requires
        watch.help,
        !(key is Resize),
    ensures
        key == Key::Ctrl('c') ==> watch.struck(key).1 is Stop,
        key != Key::Ctrl('c') ==> watch.struck(key) == (
            Watch { help: false, ..watch },
            Flow::Go,
            Move::Stay,
        ),
{
}

/// A result is there exactly when the turn finished before the view was
/// closed: closing the view over a finished turn interrupts nothing.
pub proof fn lemma_closing_a_finished_turn_is_no_interruption(watch: Watch)
    ensures
        watch.over ==> watch.left(Flow::Stop) is Finished,
        !watch.over ==> watch.left(Flow::Stop) is Dropped,
{
}

/// Each key of a watched turn has its own answer: two close the view, one turns
/// the card up, and the rest move by a row, by a screenful or to an end.
pub proof fn lemma_each_key_has_its_answer(watch: Watch, key: Key)
    requires
        !watch.help,
    ensures
        ({
            let (next, flow, go) = watch.struck(key);
            let page: nat = if watch.height > 6 {
                (watch.height - 5) as nat
            } else {
                1
            };
            &&& flow is Stop <==> key == Key::Char('q') || key is Esc || key == Key::Ctrl('c')
            &&& key == Key::Char('?') ==> next == (Watch { help: true, ..watch }) && go is Stay
            &&& key is Up ==> go == Move::Back(1) && next == watch
            &&& key is Down ==> go == Move::On(1) && next == watch
            &&& key is PageUp ==> go == Move::Back(page as usize) && next == watch
            &&& key is PageDown ==> go == Move::On(page as usize) && next == watch
            &&& key is Home ==> go is Top && next == watch
            &&& key is End ==> go is Follow && next == watch
            &&& key matches Key::Resize(cols, height) ==> next == (Watch {
                cols: cols as usize,
                height: height as usize,
                ..watch
            }) && flow is Go
        }),
{
}

/// Keys are answered one by one and in order, up to the one that stops the view:
/// what comes behind it is not answered.
pub proof fn lemma_keys_are_answered_in_order(watch: Watch, keys: Seq<Key>, key: Key)
    ensures
        watch.beaten(Seq::empty()) == (watch, Flow::Go, Seq::<Move>::empty()),
        watch.beaten(keys).1 is Stop ==> watch.beaten(keys.push(key)) == watch.beaten(keys),
        watch.beaten(keys).1 is Go ==> ({
            let before = watch.beaten(keys);
            let one = before.0.struck(key);
            watch.beaten(keys.push(key)) == (one.0, one.1, before.2.push(one.2))
        }),
{
    assert(keys.push(key).drop_last() =~= keys);
}

/// A view that goes on was not left.
pub proof fn lemma_going_on_is_not_leaving(watch: Watch)
    ensures
        watch.left(Flow::Go) is No,
        !(watch.left(Flow::Stop) is No),
{
}

} // verus!
