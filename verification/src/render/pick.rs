//! The session list on a screen of its own, with a cursor on one of its rows.
//!
//! The rows are the ones the session list prints. The window follows the
//! cursor, and moves only when the cursor would otherwise leave it, so that a
//! held key reads as a list sliding past. The cursor is a mark and not only a
//! colour, because a row that can only be found by its colour cannot be found
//! on a terminal that has none. Enter reads the journal of the row it is on.
//!
//! `/` takes rows off the list, because here a row is the whole answer: what
//! is left at every keystroke is the rows that hold what was typed.
use vstd::prelude::*;
use vstd::string::*;

use crate::input::{Flow, Key};
use crate::paint;
use crate::paint::{Charset, Framed, Line, Role};
use crate::render::browse;
use crate::render::chat;
use crate::render::keys;
use crate::render::keys::NAME;
use crate::render::rows;
use crate::render::sessions::SessionInfo;
use crate::text;
use crate::text::decimal;

verus! {

broadcast use {crate::paint::group_rows, crate::text::group_views};

/// Rows a frame spends on furniture: the heading, a blank under it, a blank
/// over the footer, and the footer. Everything left is the list.
pub const CHROME: usize = 4;

/// Columns the cursor mark takes, on the row it is on and on every other.
pub const MARK: usize = 2;

/// A list and a cursor on it, by what they say.
pub struct Chosen {
    pub rows: Seq<paint::Row>,
    /// What the rows shown have to hold, where the list is narrowed.
    pub seek: Option<Seq<char>>,
    /// Whether the keys are spelling that.
    pub typing: bool,
    /// Which of the rows shown the cursor is on.
    pub at: nat,
    /// The first row shown.
    pub top: nat,
    /// Rows the last frame had room for. None until the first frame, so that
    /// no key moves further than one row before the view has been drawn.
    pub room: nat,
    /// Whether the key card is up in place of the list.
    pub help: bool,
    /// The row whose journal is to be read, once one is chosen.
    pub open: Option<nat>,
    /// Why the last one chosen could not be, until the next key.
    pub note: Option<Seq<char>>,
}

/// The first row shown, once the window has followed the cursor.
pub open spec fn followed(at: nat, top: nat, room: nat, len: nat) -> nat {
    if room == 0 {
        top
    } else {
        let moved = if at < top {
            at
        } else if at >= top + room {
            (at + 1 - room) as nat
        } else {
            top
        };
        let last = rows::left_of(len, room);
        if moved < last {
            moved
        } else {
            last
        }
    }
}

/// Where the cursor goes.
pub open spec fn moved(key: Key, at: nat, room: nat, len: nat) -> nat {
    let last = rows::left_of(len, 1);
    let fewer = rows::left_of(room, 1);
    let screenful = if fewer < 1 {
        1
    } else {
        fewer
    };
    match key {
        Key::Up => rows::left_of(at, 1),
        Key::Down => if at + 1 < last {
            at + 1
        } else {
            last
        },
        Key::PageUp => rows::left_of(at, screenful),
        Key::PageDown => if at + screenful < last {
            at + screenful
        } else {
            last
        },
        Key::Home => 0,
        Key::End => last,
        _ => at,
    }
}

/// The place of a row in a narrowed list, or its first place where the row is
/// not on it.
pub open spec fn place_in(kept: Seq<nat>, row: nat) -> nat
    decreases kept.len(),
{
    if kept.len() == 0 {
        0
    } else if kept.last() == row {
        (kept.len() - 1) as nat
    } else {
        place_in(kept.drop_last(), row)
    }
}

proof fn lemma_place_in(kept: Seq<nat>, row: nat)
    ensures
        place_in(kept, row) <= rows::left_of(kept.len(), 1),
        kept.contains(row) ==> kept[place_in(kept, row) as int] == row,
    decreases kept.len(),
{
    if kept.len() > 0 {
        lemma_place_in(kept.drop_last(), row);
        if kept.contains(row) && kept.last() != row {
            let i = choose|i: int| 0 <= i < kept.len() && kept[i] == row;
            assert(kept.drop_last()[i] == row);
        }
    }
}

impl Chosen {
    /// The rows shown, by number: all of them, or those that hold what the
    /// list is narrowed to.
    pub open spec fn kept(self) -> Seq<nat> {
        match self.seek {
            Some(word) => browse::hits_of(browse::texts_of(self.rows), word),
            None => Seq::new(self.rows.len(), |i: int| i as nat),
        }
    }

    /// The row the cursor is on, where there is one.
    pub open spec fn row(self) -> Option<nat> {
        if self.at < self.kept().len() {
            Some(self.kept()[self.at as int])
        } else {
            None
        }
    }

    /// The cursor put on a row, where it is shown, and on the first one
    /// otherwise.
    pub open spec fn onto(self, row: Option<nat>) -> Chosen {
        Chosen {
            at: match row {
                Some(row) => place_in(self.kept(), row),
                None => 0,
            },
            top: if self.top < self.kept().len() {
                self.top
            } else {
                self.kept().len()
            },
            ..self
        }
    }

    /// The list narrowed to the rows that hold something, or widened again.
    /// The cursor stays on its row, where that is still shown.
    pub open spec fn narrowed(self, seek: Option<Seq<char>>, typing: bool) -> Chosen {
        (Chosen { seek, typing, ..self }).onto(self.row())
    }

    /// The same rows, composed again for another width.
    pub open spec fn filled(self, rows: Seq<paint::Row>) -> Chosen {
        (Chosen { rows, ..self }).onto(self.row())
    }

    /// Whether the cursor is on a row, and the window starts on the list.
    pub open spec fn wf(self) -> bool {
        &&& self.at <= rows::left_of(self.kept().len(), 1)
        &&& self.top <= self.kept().len()
        &&& self.typing ==> self.seek is Some
        &&& self.open matches Some(row) ==> row < self.rows.len()
    }

    /// The list again, after a journal chosen off it was read or could not be.
    pub open spec fn resumed(self, note: Option<Seq<char>>) -> Chosen {
        Chosen { open: None, note, ..self }
    }

    /// A key that moves the cursor, or does nothing.
    pub open spec fn steered(self, key: Key) -> Chosen {
        Chosen { at: moved(key, self.at, self.room, self.kept().len()), ..self }
    }

    /// A key while what the rows have to hold is being spelled.
    pub open spec fn spelled(self, typed: Seq<char>, key: Key) -> Chosen {
        match key {
            Key::Char(c) => self.narrowed(Some(typed.push(c)), true),
            Key::Backspace => if typed.len() == 0 {
                self
            } else {
                self.narrowed(Some(typed.drop_last()), true)
            },
            Key::Enter => if typed.len() > 0 {
                Chosen { typing: false, ..self }
            } else {
                self.narrowed(None, false)
            },
            Key::Esc => self.narrowed(None, false),
            _ => self.steered(key),
        }
    }

    /// A key. The card is read and not worked in: the next key takes it down,
    /// and that is all it does.
    pub open spec fn pressed(self, key: Key) -> (Chosen, Flow) {
        let quiet = Chosen { note: None, ..self };
        if self.help {
            (Chosen { help: false, ..quiet }, Flow::Go)
        } else {
            match self.seek {
                Some(typed) if self.typing => (quiet.spelled(typed, key), Flow::Go),
                _ => quiet.worked(key),
            }
        }
    }

    /// A key the list answers.
    pub open spec fn worked(self, key: Key) -> (Chosen, Flow) {
        if key == Key::Char('q') {
            (self, Flow::Stop)
        } else if key == Key::Char('?') {
            (Chosen { help: true, ..self }, Flow::Go)
        } else if key == Key::Char('/') {
            (self.narrowed(Some(Seq::empty()), true), Flow::Go)
        } else if key is Esc {
            if self.seek is Some {
                (self.narrowed(None, false), Flow::Go)
            } else {
                (self, Flow::Stop)
            }
        } else if key is Enter && self.row() is Some {
            (Chosen { open: self.row(), ..self }, Flow::Stop)
        } else {
            (self.steered(key), Flow::Go)
        }
    }

    /// The left of the footer: why the last journal chosen could not be read,
    /// or what the list is narrowed to, or the keys a reader needs while they
    /// are choosing. The card says the rest.
    pub open spec fn hint(self, charset: Charset) -> paint::Row {
        let dot = paint::glyph_of(charset, "·"@, "-"@);
        match self.note {
            Some(why) => seq![(Role::Warn, why)],
            None => match self.seek {
                Some(word) => if self.typing {
                    seq![(Role::Accent, "/"@ + word)]
                } else if self.kept().len() == 0 {
                    seq![(Role::Warn, "no row holds "@ + word)]
                } else {
                    seq![
                        (Role::Accent, "/"@ + word),
                        (Role::Muted, " "@ + dot + " esc all"@),
                    ]
                },
                None => seq![
                    (
                        Role::Muted,
                        paint::glyph_of(charset, "↑↓"@, "up/dn"@) + " move "@ + dot + " ? keys "@
                            + dot + " q quit"@,
                    ),
                ],
            },
        }
    }

    /// The right of the footer: the cursor, counted against the whole list, or
    /// against what it is narrowed to.
    pub open spec fn here(self) -> paint::Row {
        seq![
            (
                Role::Accent,
                if self.seek is Some && self.kept().len() == 0 {
                    "none"@
                } else {
                    text::dec(self.at + 1) + " of "@ + text::dec(self.kept().len())
                },
            ),
        ]
    }

    /// The view once it has been measured for a screen this tall.
    pub open spec fn measured(self, height: nat) -> Chosen {
        let room = rows::left_of(height, CHROME as nat);
        Chosen { room, top: followed(self.at, self.top, room, self.kept().len()), ..self }
    }

    /// How many rows the window shows.
    pub open spec fn shown(self) -> nat {
        let room = if self.room < 1 {
            1
        } else {
            self.room
        };
        let left = rows::left_of(self.kept().len(), self.top);
        if room < left {
            room
        } else {
            left
        }
    }

    /// The rows of the window, each behind the mark or the room for it.
    pub open spec fn window(self, charset: Charset) -> Seq<paint::Row> {
        Seq::new(
            self.shown(),
            |i: int|
                seq![
                    rows::plain(
                        if self.top + i == self.at {
                            paint::glyph_of(charset, "› "@, "> "@)
                        } else {
                            "  "@
                        },
                    ),
                ] + self.rows[self.kept()[self.top + i] as int],
        )
    }
}

/// Every key the list answers, in the order a reader meets them.
pub open spec fn map_of(charset: Charset) -> Seq<(Seq<char>, Seq<char>)> {
    seq![
        (paint::glyph_of(charset, "↑ ↓"@, "up dn"@), "one row back, one row on"@),
        ("pgup pgdn"@, "a screenful either way"@),
        ("home end"@, "the newest session, and the oldest"@),
        ("/"@, "narrow the list to the rows that hold a word; esc shows all"@),
        ("enter"@, "read the journal under the cursor"@),
        ("q"@, "close the list"@),
        ("?"@, "this card; any key goes back"@),
    ]
}

/// Every key the list answers, in the order a reader meets them.
pub fn map(charset: Charset) -> (r: Vec<keys::Row>)
    ensures
        chat::spelled(r@) == map_of(charset),
{
    let mut r: Vec<keys::Row> = Vec::new();
    r.push((charset.glyph("↑ ↓", "up dn"), "one row back, one row on"));
    r.push(("pgup pgdn", "a screenful either way"));
    r.push(("home end", "the newest session, and the oldest"));
    r.push(("/", "narrow the list to the rows that hold a word; esc shows all"));
    r.push(("enter", "read the journal under the cursor"));
    r.push(("q", "close the list"));
    r.push(("?", "this card; any key goes back"));
    proof {
        assert(chat::spelled(r@) =~= map_of(charset));
    }
    r
}

/// A list, and a cursor on one of its rows.
pub struct Picker {
    rows: Vec<Line>,
    seek: Option<String>,
    typing: bool,
    at: usize,
    top: usize,
    room: usize,
    help: bool,
    open: Option<usize>,
    note: Option<String>,
}

impl View for Picker {
    type V = Chosen;

    closed spec fn view(&self) -> Chosen {
        Chosen {
            rows: paint::rows_of(self.rows@),
            seek: crate::json::held(self.seek),
            typing: self.typing,
            at: self.at as nat,
            top: self.top as nat,
            room: self.room as nat,
            help: self.help,
            open: match self.open {
                Some(row) => Some(row as nat),
                None => None,
            },
            note: crate::json::held(self.note),
        }
    }
}

impl Picker {
    /// A picker over rows composed [`MARK`] columns narrower than the
    /// terminal.
    pub fn new(rows: Vec<Line>) -> (p: Picker)
        ensures
            p@.wf(),
            p@ == (Chosen {
                rows: paint::rows_of(rows@),
                seek: None,
                typing: false,
                at: 0,
                top: 0,
                room: 0,
                help: false,
                open: None,
                note: None,
            }),
    {
        Picker {
            rows,
            seek: None,
            typing: false,
            at: 0,
            top: 0,
            room: 0,
            help: false,
            open: None,
            note: None,
        }
    }

    fn kept(&self) -> (r: Vec<usize>)
        ensures
            browse::numbers(r@) == self@.kept(),
            r@.len() == self@.kept().len(),
            forall|i: int|
                0 <= i < r@.len() ==> #[trigger] r@[i] < self@.rows.len() && r@[i]
                    == self@.kept()[i],
    {
        let r = match &self.seek {
            Some(word) => {
                let texts = browse::texts(&self.rows);
                proof {
                    assert(crate::text::views(texts@).len() == self@.rows.len());
                }
                browse::hits(&texts, word.as_str())
            },
            None => {
                let mut r: Vec<usize> = Vec::new();
                let mut i: usize = 0;
                while i < self.rows.len()
                    invariant
                        i <= self.rows.len(),
                        r@.len() == i,
                        forall|j: int| 0 <= j < i ==> #[trigger] r@[j] == j,
                    decreases self.rows.len() - i,
                {
                    r.push(i);
                    i = i + 1;
                }
                proof {
                    assert(browse::numbers(r@) =~= self@.kept());
                }
                r
            },
        };
        proof {
            assert forall|i: int| 0 <= i < r@.len() implies #[trigger] r@[i] < self@.rows.len()
                && r@[i] == self@.kept()[i] by {
                assert(browse::numbers(r@)[i] == r@[i]);
            }
        }
        r
    }

    fn row(&self) -> (r: Option<usize>)
        ensures
            match r {
                Some(row) => self@.row() == Some(row as nat) && row < self@.rows.len(),
                None => self@.row() is None,
            },
    {
        let kept = self.kept();
        if self.at < kept.len() {
            Some(kept[self.at])
        } else {
            None
        }
    }

    /// Put the cursor on a row, where it is shown.
    fn put(&mut self, row: Option<usize>)
        requires
            old(self)@.typing ==> old(self)@.seek is Some,
            old(self)@.open matches Some(open) ==> open < old(self)@.rows.len(),
        ensures
            final(self)@.wf(),
            final(self)@ == old(self)@.onto(
                match row {
                    Some(row) => Some(row as nat),
                    None => None,
                },
            ),
    {
        let kept = self.kept();
        let ghost all = self@.kept();
        let mut at: usize = 0;
        if let Some(row) = row {
            let mut i: usize = 0;
            while i < kept.len()
                invariant
                    i <= kept.len(),
                    all.len() == kept.len(),
                    forall|j: int| 0 <= j < kept@.len() ==> #[trigger] kept@[j] == all[j],
                    at == place_in(all.take(i as int), row as nat),
                decreases kept.len() - i,
            {
                proof {
                    assert(all.take(i + 1).drop_last() =~= all.take(i as int));
                    assert(all.take(i + 1).last() == kept@[i as int]);
                }
                if kept[i] == row {
                    at = i;
                }
                i = i + 1;
            }
            proof {
                assert(all.take(i as int) =~= all);
                lemma_place_in(all, row as nat);
            }
        }
        self.at = at;
        if self.top > kept.len() {
            self.top = kept.len();
        }
    }

    fn narrow(&mut self, seek: Option<String>, typing: bool)
        requires
            typing ==> seek is Some,
            old(self)@.open matches Some(open) ==> open < old(self)@.rows.len(),
        ensures
            final(self)@.wf(),
            final(self)@ == old(self)@.narrowed(crate::json::held(seek), typing),
    {
        let row = self.row();
        self.seek = seek;
        self.typing = typing;
        self.put(row);
    }

    /// The same rows, composed again for another width.
    pub fn fill(&mut self, rows: Vec<Line>)
        requires
            old(self)@.wf(),
            rows@.len() == old(self)@.rows.len(),
        ensures
            final(self)@.wf(),
            final(self)@ == old(self)@.filled(paint::rows_of(rows@)),
    {
        let row = self.row();
        self.rows = rows;
        self.put(row);
    }

    /// Which of the rows shown the cursor is on.
    pub fn at(&self) -> (n: usize)
        ensures
            n == self@.at,
    {
        self.at
    }

    /// Whether the key card is up in place of the list.
    pub fn help(&self) -> (r: bool)
        ensures
            r == self@.help,
    {
        self.help
    }

    /// The file of the session whose journal is to be read, once one is
    /// chosen. `listed` are the sessions in the order of the rows.
    pub fn chosen(&self, listed: &Vec<&SessionInfo>) -> (r: Option<String>)
        requires
            self@.wf(),
            listed@.len() == self@.rows.len(),
        ensures
            match self@.open {
                Some(row) => r matches Some(path) && path@ == listed@[row as int].path@,
                None => r is None,
            },
    {
        match self.open {
            Some(row) => Some(listed[row].path.clone()),
            None => None,
        }
    }

    /// The list again, after a journal chosen off it was read; or was not, and
    /// why.
    pub fn resume(&mut self, note: Option<String>)
        requires
            old(self)@.wf(),
        ensures
            final(self)@.wf(),
            final(self)@ == old(self)@.resumed(crate::json::held(note)),
    {
        self.open = None;
        self.note = note;
    }

    fn follow(&mut self)
        requires
            old(self)@.wf(),
        ensures
            final(self)@.wf(),
            final(self)@ == (Chosen {
                top: followed(
                    old(self)@.at,
                    old(self)@.top,
                    old(self)@.room,
                    old(self)@.kept().len(),
                ),
                ..old(self)@
            }),
    {
        if self.room == 0 {
            return;
        }
        if self.at < self.top {
            self.top = self.at;
        } else if self.at - self.top >= self.room {
            self.top = self.at - (self.room - 1);
        }
        let last: usize = self.kept().len().saturating_sub(self.room);
        if self.top > last {
            self.top = last;
        }
    }

    fn footer(&self, charset: Charset) -> (f: (Line, Line))
        requires
            self@.wf(),
        ensures
            f.0@ == self@.hint(charset),
            f.1@ == self@.here(),
    {
        let kept = self.kept();
        let count: usize = kept.len();
        let left = match &self.note {
            Some(why) => Line::of(Role::Warn, why.as_str()),
            None => {
                let dot = charset.glyph("·", "-");
                match &self.seek {
                    Some(word) => if self.typing {
                        Line::of(Role::Accent, text::cat("/", word.as_str()).as_str())
                    } else if count == 0 {
                        Line::of(Role::Warn, text::cat("no row holds ", word.as_str()).as_str())
                    } else {
                        let mut l = Line::of(Role::Accent, text::cat("/", word.as_str()).as_str());
                        let mut all = text::cat(" ", dot);
                        all.append(" esc all");
                        l.put(Role::Muted, all.as_str());
                        proof {
                            assert(l@ =~= self@.hint(charset));
                        }
                        l
                    },
                    None => {
                        let mut keys = text::cat(charset.glyph("↑↓", "up/dn"), " move ");
                        keys.append(dot);
                        keys.append(" ? keys ");
                        keys.append(dot);
                        keys.append(" q quit");
                        Line::of(Role::Muted, keys.as_str())
                    },
                }
            },
        };
        let narrowed = self.seek.is_some();
        let here = if narrowed && count == 0 {
            "none".to_owned()
        } else {
            let mut here = decimal(self.at as u64 + 1);
            here.append(" of ");
            here.append(decimal(count as u64).as_str());
            here
        };
        (left, Line::of(Role::Accent, here.as_str()))
    }

    /// The whole screen: the heading, the window on the list, and a footer
    /// that counts the cursor against the whole list rather than against the
    /// part of it on screen.
    pub fn frame(&mut self, height: usize, charset: Charset) -> (f: Framed)
        requires
            old(self)@.wf(),
        ensures
            final(self)@.wf(),
            final(self)@ == old(self)@.measured(height as nat),
            f.head.0@ == seq![(Role::Heading, NAME@)],
            f.head.1@ == seq![(Role::Muted, "sessions"@)],
            paint::rows_of(f.rows@) == paint::filled(
                final(self)@.window(charset),
                height as nat,
            ),
            f.foot.0@ == final(self)@.hint(charset),
            f.foot.1@ == final(self)@.here(),
    {
        self.room = height.saturating_sub(CHROME);
        self.follow();
        let room: usize = if self.room < 1 {
            1
        } else {
            self.room
        };
        let kept = self.kept();
        let left: usize = kept.len() - self.top;
        let shown: usize = if room < left {
            room
        } else {
            left
        };
        let ghost all = self@.window(charset);
        let mut body: Vec<Line> = Vec::new();
        let mut i: usize = 0;
        proof {
            assert(all.take(0) =~= Seq::<paint::Row>::empty());
        }
        while i < shown
            invariant
                i <= shown <= kept@.len() - self.top,
                kept@.len() <= usize::MAX,
                kept@.len() == self@.kept().len(),
                forall|j: int|
                    0 <= j < kept@.len() ==> #[trigger] kept@[j] < self@.rows.len() && kept@[j]
                        == self@.kept()[j],
                shown == self@.shown(),
                self@.wf(),
                all == self@.window(charset),
                paint::rows_of(body@) == all.take(i as int),
            decreases shown - i,
        {
            let index: usize = self.top + i;
            let mut l = Line::of(
                Role::Plain,
                if index == self.at {
                    charset.glyph("› ", "> ")
                } else {
                    "  "
                },
            );
            let row: usize = kept[index];
            l.join(&self.rows[row]);
            proof {
                assert(self@.rows[row as int] == self.rows@[row as int]@);
                assert(l@ =~= all[i as int]);
                assert(all.take(i + 1) =~= all.take(i as int).push(all[i as int]));
            }
            body.push(l);
            i = i + 1;
        }
        proof {
            assert(all.take(i as int) =~= all);
        }
        Framed {
            head: (Line::of(Role::Heading, NAME), Line::of(Role::Muted, "sessions")),
            rows: paint::fill(body, height),
            foot: self.footer(charset),
        }
    }

    /// Answer one key: whether the view goes on. It stops with a row chosen
    /// where Enter stopped it.
    pub fn key(&mut self, key: Key) -> (f: Flow)
        requires
            old(self)@.wf(),
        ensures
            final(self)@.wf(),
            (final(self)@, f) == old(self)@.pressed(key),
    {
        self.note = None;
        if self.help {
            self.help = false;
            return Flow::Go;
        }
        if self.typing {
            if let Some(typed) = &self.seek {
                let typed = typed.clone();
                self.spell(typed, key);
                return Flow::Go;
            }
        }
        match key {
            Key::Char(typed) => {
                if typed == 'q' {
                    return Flow::Stop;
                }
                if typed == '?' {
                    self.help = true;
                } else if typed == '/' {
                    let empty = String::new();
                    proof {
                        assert(empty@ =~= Seq::<char>::empty());
                    }
                    self.narrow(Some(empty), true);
                }
            },
            Key::Esc => {
                if self.seek.is_some() {
                    // The narrowing first: a reader who is done with it is not
                    // done with the list.
                    self.narrow(None, false);
                    return Flow::Go;
                }
                return Flow::Stop;
            },
            Key::Enter => {
                let row = self.row();
                if row.is_some() {
                    self.open = row;
                    return Flow::Stop;
                }
            },
            _ => {
                self.steer(key);
            },
        }
        Flow::Go
    }

    fn spell(&mut self, typed: String, key: Key)
        requires
            old(self)@.wf(),
            old(self)@.seek == Some(typed@),
            old(self)@.typing,
        ensures
            final(self)@.wf(),
            final(self)@ == old(self)@.spelled(typed@, key),
    {
        match key {
            Key::Char(c) => {
                let mut typed = typed;
                typed.push(c);
                self.narrow(Some(typed), true);
            },
            Key::Backspace => {
                let letters = text::chars(typed.as_str());
                if letters.len() > 0 {
                    let fewer = text::slice(typed.as_str(), 0, letters.len() - 1);
                    proof {
                        assert(fewer@ =~= typed@.drop_last());
                    }
                    self.narrow(Some(fewer), true);
                }
            },
            Key::Enter => {
                if !typed.as_str().is_empty() {
                    self.typing = false;
                } else {
                    self.narrow(None, false);
                }
            },
            Key::Esc => {
                self.narrow(None, false);
            },
            _ => {
                self.steer(key);
            },
        }
    }

    fn steer(&mut self, key: Key)
        requires
            old(self)@.wf(),
        ensures
            final(self)@.wf(),
            final(self)@ == old(self)@.steered(key),
    {
        // One row less than a screenful, so the row the reader was looking at
        // is still on the screen they land on.
        let fewer: usize = self.room.saturating_sub(1);
        let screenful: usize = if fewer < 1 {
            1
        } else {
            fewer
        };
        let last: usize = self.kept().len().saturating_sub(1);
        match key {
            Key::Up => {
                self.at = self.at.saturating_sub(1);
            },
            Key::Down => {
                self.at = if self.at < last {
                    self.at + 1
                } else {
                    last
                };
            },
            Key::PageUp => {
                self.at = self.at.saturating_sub(screenful);
            },
            Key::PageDown => {
                self.at = if last - self.at > screenful {
                    self.at + screenful
                } else {
                    last
                };
            },
            Key::Home => {
                self.at = 0;
            },
            Key::End => {
                self.at = last;
            },
            _ => {},
        }
    }
}

// ---- laws ----

/// The cursor is on the screen: once a frame has been measured, the row it is
/// on is one of the rows shown.
pub proof fn lemma_the_cursor_is_on_the_screen(view: Chosen, height: nat)
    requires
        view.wf(),
        view.kept().len() > 0,
        height > CHROME,
    ensures
        ({
            let next = view.measured(height);
            next.top <= next.at < next.top + next.shown()
        }),
{
    assert(view.measured(height).kept() == view.kept());
}

/// The window moves only when the cursor would leave it: one that holds the
/// cursor, and ends on the list, stays where it is.
pub proof fn lemma_the_window_stays(view: Chosen, height: nat)
    requires
        view.wf(),
        height > CHROME,
        view.top <= view.at < view.top + (height - CHROME),
        view.top + (height - CHROME) <= view.kept().len(),
    ensures
        view.measured(height).top == view.top,
{
}

proof fn lemma_onto_is_on_the_list(view: Chosen, row: Option<nat>)
    requires
        view.typing ==> view.seek is Some,
        view.open matches Some(open) ==> open < view.rows.len(),
    ensures
        view.onto(row).wf(),
{
    assert(view.onto(row).kept() == view.kept());
    if let Some(row) = row {
        lemma_place_in(view.kept(), row);
    }
}

proof fn lemma_hits_hold(lines: Seq<Seq<char>>, word: Seq<char>, i: nat)
    ensures
        browse::hits_of(lines, word).contains(i) <==> i < lines.len() && browse::holds(
            lines[i as int],
            word,
        ),
    decreases lines.len(),
{
    let hits = browse::hits_of(lines, word);
    if lines.len() > 0 {
        let before = browse::hits_of(lines.drop_last(), word);
        lemma_hits_hold(lines.drop_last(), word, i);
        if before.contains(i) {
            let j = choose|j: int| 0 <= j < before.len() && before[j] == i;
            assert(hits[j] == i);
        }
        if hits.contains(i) {
            let j = choose|j: int| 0 <= j < hits.len() && hits[j] == i;
            if j < before.len() {
                assert(before[j] == i);
            }
        }
        if i == lines.len() - 1 && browse::holds(lines.last(), word) {
            assert(hits[hits.len() - 1] == i);
        }
    }
}

/// No key takes the cursor off the list.
pub proof fn lemma_the_cursor_stays_on_the_list(view: Chosen, key: Key)
    requires
        view.wf(),
    ensures
        view.pressed(key).0.wf(),
{
    let quiet = Chosen { note: None, ..view };
    assert(quiet.kept() == view.kept());
    assert forall|seek: Option<Seq<char>>, typing: bool| typing ==> seek is Some implies (
    #[trigger] quiet.narrowed(seek, typing)).wf() by {
        lemma_onto_is_on_the_list(Chosen { seek, typing, ..quiet }, quiet.row());
    }
    assert(quiet.steered(key).kept() == quiet.kept());
    if let Some(row) = quiet.row() {
        lemma_shown_rows_are_rows(quiet, quiet.at as int);
    }
    assert((Chosen { open: quiet.row(), ..quiet }).kept() == quiet.kept());
    assert((Chosen { help: true, ..quiet }).kept() == quiet.kept());
    assert((Chosen { help: false, ..quiet }).kept() == quiet.kept());
    assert((Chosen { typing: false, ..quiet }).kept() == quiet.kept());
}

proof fn lemma_shown_rows_are_rows(view: Chosen, i: int)
    requires
        0 <= i < view.kept().len(),
    ensures
        view.kept()[i] < view.rows.len(),
{
    if let Some(word) = view.seek {
        let texts = browse::texts_of(view.rows);
        assert(browse::hits_of(texts, word).contains(view.kept()[i]));
        lemma_hits_hold(texts, word, view.kept()[i]);
    }
}

/// A narrowed list shows the rows that hold what was typed, all of them and no
/// others, and a list that is not narrowed shows every row.
pub proof fn lemma_what_a_narrowed_list_shows(view: Chosen, i: nat)
    ensures
        view.kept().contains(i) <==> i < view.rows.len() && (view.seek matches Some(word)
            ==> browse::holds(paint::read(view.rows[i as int]), word)),
{
    match view.seek {
        Some(word) => {
            lemma_hits_hold(browse::texts_of(view.rows), word, i);
        },
        None => {
            if i < view.rows.len() {
                assert(view.kept()[i as int] == i);
            }
        },
    }
}

/// The cursor stays on its row as long as that is shown, and to narrow the
/// list and undo it leaves the same row under the cursor.
pub proof fn lemma_narrowing_keeps_the_row(view: Chosen, seek: Option<Seq<char>>, typing: bool)
    requires
        view.row() matches Some(row) && (Chosen { seek, typing, ..view }).kept().contains(row),
    ensures
        view.narrowed(seek, typing).row() == view.row(),
        view.narrowed(seek, typing).narrowed(view.seek, view.typing).row() == view.row(),
{
    let row = view.row()->0;
    let there = Chosen { seek, typing, ..view };
    let next = view.narrowed(seek, typing);
    assert(next.kept() == there.kept());
    lemma_place_in(there.kept(), row);
    assert(next.row() == view.row());
    let back = next.narrowed(view.seek, view.typing);
    assert(back.kept() == view.kept());
    assert(view.kept()[view.at as int] == row);
    lemma_place_in(view.kept(), row);
}

/// Enter reads the journal of the row the cursor is on, and no other key reads
/// one; while a word is being spelled, none does.
pub proof fn lemma_enter_reads_the_row_under_the_cursor(view: Chosen, key: Key)
    requires
        view.wf(),
        view.kept().len() > 0,
        !view.help,
        view.open is None,
    ensures
        view.pressed(key).0.open == if key is Enter && !view.typing {
            view.row()
        } else {
            None
        },
        view.row() is Some,
{
    assert((Chosen { note: None, ..view }).kept() == view.kept());
}

/// Any key takes the card down, and that is all it does.
pub proof fn lemma_the_card_is_read_and_not_worked_in(view: Chosen, key: Key)
    requires
        view.help,
    ensures
        view.pressed(key) == (Chosen { help: false, note: None, ..view }, Flow::Go),
{
}

/// The keys move the cursor by a row, by a screenful less one or to an end, never
/// off the list; and a key that is none of them leaves it.
pub proof fn lemma_each_key_moves_the_cursor_so_far(key: Key, at: nat, room: nat, len: nat)
    requires
        at < len,
    ensures
        ({
            let page: int = if room > 2 {
                room - 1
            } else {
                1
            };
            let to = moved(key, at, room, len);
            &&& to < len
            &&& key is Up ==> to == if at == 0 {
                0
            } else {
                at - 1
            }
            &&& key is Down ==> to == if at + 1 == len {
                at
            } else {
                at + 1
            }
            &&& key is PageUp ==> to == if at < page {
                0
            } else {
                at - page
            }
            &&& key is PageDown ==> to == if at + page >= len {
                len - 1
            } else {
                at + page
            }
            &&& key is Home ==> to == 0
            &&& key is End ==> to == len - 1
            &&& !(key is Up) && !(key is Down) && !(key is PageUp) && !(key is PageDown) && !(
            key is Home) && !(key is End) ==> to == at
        }),
{
}

/// A list is narrowed as its word is spelled: a letter goes behind those before
/// it, backspace takes the last one off, enter keeps the word and is done with
/// spelling, and escape shows every row again.
pub proof fn lemma_a_list_is_narrowed_letter_by_letter(view: Chosen, typed: Seq<char>, c: char)
    requires
        !view.help,
        view.typing,
        view.seek == Some(typed),
    ensures
        view.pressed(Key::Char(c)).0.seek == Some(typed.push(c)),
        view.pressed(Key::Char(c)).0.typing,
        typed.len() > 0 ==> view.pressed(Key::Backspace).0.seek == Some(typed.drop_last()),
        typed.len() == 0 ==> view.pressed(Key::Backspace).0.seek == Some(typed),
        typed.len() > 0 ==> view.pressed(Key::Enter).0.seek == Some(typed) && !view.pressed(
            Key::Enter,
        ).0.typing,
        typed.len() == 0 ==> view.pressed(Key::Enter).0.seek is None,
        view.pressed(Key::Esc).0.seek is None,
        !view.pressed(Key::Esc).0.typing,
        view.pressed(Key::Char(c)).1 is Go,
        view.pressed(Key::Enter).1 is Go,
        view.pressed(Key::Esc).1 is Go,
{
}

/// Out of spelling, two keys close the list, one turns the card up, one starts
/// narrowing, and escape gives a narrowed list back whole before it closes it.
pub proof fn lemma_each_key_has_its_answer(view: Chosen, key: Key)
    requires
        !view.help,
        !view.typing,
    ensures
        ({
            let (next, flow) = view.pressed(key);
            &&& flow is Stop <==> key == Key::Char('q') || (key is Esc && view.seek is None) || (
            key is Enter && view.row() is Some)
            &&& key == Key::Char('?') ==> next.help
            &&& key == Key::Char('/') ==> next.seek == Some(Seq::<char>::empty()) && next.typing
            &&& key is Esc && view.seek is Some ==> next.seek is None && !next.typing
            &&& key is Up || key is Down || key is PageUp || key is PageDown || key is Home
                || key is End ==> next.at == moved(key, view.at, view.room, view.kept().len())
                && next.seek == view.seek
            &&& next.note is None
            &&& next.rows == view.rows
        }),
{
}

/// Each row of the window is the row of the list it stands for, behind a mark
/// that tells the one under the cursor from the others.
pub proof fn lemma_the_mark_is_on_the_cursors_row(view: Chosen, charset: Charset, i: int)
    requires
        0 <= i < view.shown(),
    ensures
        view.window(charset).len() == view.shown(),
        ({
            let row = view.window(charset)[i];
            &&& row.len() > 0
            &&& row.skip(1) == view.rows[view.kept()[view.top + i] as int]
            &&& view.top + i != view.at ==> row[0] == rows::plain("  "@)
            &&& view.top + i == view.at && charset is Unicode ==> row[0] == rows::plain("› "@)
            &&& view.top + i == view.at && charset is Ascii ==> row[0] == rows::plain("> "@)
        }),
{
    let row = view.window(charset)[i];
    assert(row.skip(1) =~= view.rows[view.kept()[view.top + i] as int]);
}

/// The foot of the list tells where the cursor is among the rows shown, and above
/// all why the last journal chosen could not be read.
pub proof fn lemma_the_foot_tells_the_place(view: Chosen, charset: Charset)
    ensures
        view.seek is None || view.kept().len() > 0 ==> view.here() == seq![
            (Role::Accent, text::dec(view.at + 1) + " of "@ + text::dec(view.kept().len())),
        ],
        view.seek is Some && view.kept().len() == 0 ==> view.here() == seq![
            (Role::Accent, "none"@),
        ],
        view.note matches Some(why) ==> view.hint(charset) == seq![(Role::Warn, why)],
        view.note is None ==> (view.seek matches Some(word) ==> {
            &&& view.typing ==> view.hint(charset) == seq![(Role::Accent, "/"@ + word)]
            &&& !view.typing && view.kept().len() == 0 ==> view.hint(charset) == seq![
                (Role::Warn, "no row holds "@ + word),
            ]
            &&& !view.typing && view.kept().len() > 0 ==> view.hint(charset)[0] == (
                Role::Accent,
                "/"@ + word,
            )
        }),
{
}

/// A list come back to is as it was left, but for the row that was chosen, which
/// is chosen no longer, and for why it could not be read.
pub proof fn lemma_a_list_is_resumed_as_it_was_left(view: Chosen, note: Option<Seq<char>>)
    ensures
        view.resumed(note) == (Chosen { open: None, note, ..view }),
        view.resumed(note).row() == view.row(),
{
}

/// A frame gives the list the rows it has between its furniture.
pub proof fn lemma_a_frame_gives_the_list_its_room(view: Chosen, height: nat)
    ensures
        view.measured(height).room == if height > 4 {
            (height - 4) as nat
        } else {
            0
        },
        view.measured(height).at == view.at,
        view.measured(height).rows == view.rows,
        view.measured(height).seek == view.seek,
{
}

/// A list shows as many rows as it has room for, one at the least, and no more than
/// there are from its first row shown.
pub proof fn lemma_a_list_shows_what_it_has_room_for(view: Chosen)
    requires
        view.top <= view.kept().len(),
    ensures
        ({
            let left = view.kept().len() - view.top;
            let room: int = if view.room == 0 {
                1
            } else {
                view.room as int
            };
            view.shown() == if left < room {
                left
            } else {
                room
            }
        }),
{
}

/// The keys are told at the foot of a list that is not narrowed, and how to show it
/// all at the foot of one that is.
pub proof fn lemma_the_foot_tells_the_keys(view: Chosen, charset: Charset)
    requires
        view.note is None,
    ensures
        ({
            let dot = paint::glyph_of(charset, "·"@, "-"@);
            &&& view.seek is None ==> view.hint(charset) == seq![
                (
                    Role::Muted,
                    paint::glyph_of(charset, "↑↓"@, "up/dn"@) + " move "@ + dot + " ? keys "@ + dot
                        + " q quit"@,
                ),
            ]
            &&& view.seek is Some && !view.typing && view.kept().len() > 0 ==> view.hint(charset)[1]
                == (Role::Muted, " "@ + dot + " esc all"@)
        }),
{
}

} // verus!
