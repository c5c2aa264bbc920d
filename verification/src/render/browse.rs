//! A finished journal, read back on a screen of its own.
//!
//! The lines are the timeline's, composed again whenever the width changes.
//! `/` moves the window to the first line that holds what was typed and leaves
//! the turn around it intact: a line of a turn is not the whole answer, the
//! way a row of a list is. Nothing moves until Enter, because a page that
//! jumped on every keystroke would take the reader off the line they were
//! reading.
use vstd::prelude::*;
use vstd::string::*;

use crate::input::{Flow, Key, Move};
use crate::paint;
use crate::paint::{Charset, Line, Role};
use crate::render::chat;
use crate::render::keys;
use crate::render::rows;
use crate::text;
use crate::text::{decimal, lowercase};

verus! {

broadcast use {crate::paint::group_rows, crate::text::group_views};

/// Rows a PageUp keeps: the four the page spends on furniture, and one line of
/// what was on screen, so the reader does not lose their place.
pub const KEPT: usize = 5;

/// Whether the keys are moving the window or spelling a search, by what it
/// says.
pub enum Seeking {
    /// No search: the keys move the window.
    Off,
    /// Being typed, and nothing has moved yet.
    Typing(Seq<char>),
    /// Done: what was looked for, the lines that hold it, oldest first, and
    /// which of them the window was put on.
    On { text: Seq<char>, hits: Seq<nat>, at: nat },
}

/// Whether a line holds a word, whatever the case of either.
pub open spec fn holds(line: Seq<char>, word: Seq<char>) -> bool {
    text::holds(text::lowercase_of(line), text::lowercase_of(word))
}

/// The lines that hold a word, by number, oldest first.
pub open spec fn hits_of(lines: Seq<Seq<char>>, word: Seq<char>) -> Seq<nat>
    decreases lines.len(),
{
    if lines.len() == 0 {
        Seq::empty()
    } else {
        let before = hits_of(lines.drop_last(), word);
        if holds(lines.last(), word) {
            before.push((lines.len() - 1) as nat)
        } else {
            before
        }
    }
}

/// A number kept inside a list: its last place where it is past the end.
pub open spec fn kept_within(at: nat, len: nat) -> nat {
    let last = rows::left_of(len, 1);
    if at < last {
        at
    } else {
        last
    }
}

/// The next place round a list, or the one before.
pub open spec fn walked(at: nat, len: nat, forward: bool) -> nat {
    if forward {
        if at + 1 >= len {
            0
        } else {
            at + 1
        }
    } else if at == 0 {
        (len - 1) as nat
    } else {
        (at - 1) as nat
    }
}

/// A journal being read, by what it says.
pub struct Reading {
    pub lines: Seq<Seq<char>>,
    pub seeking: Seeking,
    /// The height of the last frame.
    pub height: nat,
    pub keys: Seq<char>,
    /// Whether the key card is up in place of the page.
    pub help: bool,
}

impl Reading {
    /// Whether the reader is on one of the matches, where there are any.
    pub open spec fn wf(self) -> bool {
        match self.seeking {
            Seeking::On { hits, at, .. } => {
                &&& at <= rows::left_of(hits.len(), 1)
                &&& forall|i: int| 0 <= i < hits.len() ==> #[trigger] hits[i] < self.lines.len()
            },
            _ => true,
        }
    }

    /// The rows the body of a frame has, and never none.
    pub open spec fn room(self) -> nat {
        let left = rows::left_of(self.height, (KEPT - 1) as nat);
        if left < 1 {
            1
        } else {
            left
        }
    }

    /// How far a PageUp goes, and never nowhere.
    pub open spec fn screenful(self) -> nat {
        let left = rows::left_of(self.height, KEPT as nat);
        if left < 1 {
            1
        } else {
            left
        }
    }

    /// Where the window goes for the match the reader is on: that line at its
    /// top, so that what follows the match is what the reader gets.
    pub open spec fn landing(self) -> Move {
        match self.seeking {
            Seeking::On { hits, at, .. } => if at < hits.len() {
                Move::Land(
                    rows::left_of(self.lines.len(), self.room() + hits[at as int]) as usize,
                )
            } else {
                Move::Stay
            },
            _ => Move::Stay,
        }
    }

    /// The search made again, on the match of the same number where there
    /// still is one.
    pub open spec fn sought(self) -> Reading {
        match self.seeking {
            Seeking::On { text, at, .. } => {
                let hits = hits_of(self.lines, text);
                Reading {
                    seeking: Seeking::On { text, hits, at: kept_within(at, hits.len()) },
                    ..self
                }
            },
            _ => self,
        }
    }

    /// A search begun.
    pub open spec fn accepted(self, text: Seq<char>) -> Reading {
        (Reading { seeking: Seeking::On { text, hits: Seq::empty(), at: 0 }, ..self }).sought()
    }

    /// The next match, or the one before, going round at either end.
    pub open spec fn walks(self, forward: bool) -> Reading {
        match self.seeking {
            Seeking::On { text, hits, at } => if hits.len() == 0 {
                self
            } else {
                Reading {
                    seeking: Seeking::On { text, hits, at: walked(at, hits.len(), forward) },
                    ..self
                }
            },
            _ => self,
        }
    }

    /// A key while the search prompt is open.
    pub open spec fn spelled(self, typed: Seq<char>, key: Key) -> (Reading, Move) {
        match key {
            Key::Char(c) => (Reading { seeking: Seeking::Typing(typed.push(c)), ..self }, Move::Stay),
            Key::Backspace => (
                Reading {
                    seeking: Seeking::Typing(
                        if typed.len() == 0 {
                            typed
                        } else {
                            typed.drop_last()
                        },
                    ),
                    ..self
                },
                Move::Stay,
            ),
            Key::Enter => if typed.len() > 0 {
                let next = self.accepted(typed);
                (next, next.landing())
            } else {
                (Reading { seeking: Seeking::Off, ..self }, Move::Stay)
            },
            Key::Esc => (Reading { seeking: Seeking::Off, ..self }, Move::Stay),
            _ => (self, Move::Stay),
        }
    }

    /// A key. The card is read and not worked in: the next key takes it down,
    /// and that is all it does.
    pub open spec fn pressed(self, key: Key) -> (Reading, Flow, Move) {
        if self.help {
            (Reading { help: false, ..self }, Flow::Go, Move::Stay)
        } else {
            self.worked(key)
        }
    }

    /// A key the page answers.
    pub open spec fn worked(self, key: Key) -> (Reading, Flow, Move) {
        match self.seeking {
            Seeking::Typing(typed) => {
                let (next, go) = self.spelled(typed, key);
                (next, Flow::Go, go)
            },
            _ => {
                let found = self.seeking is On;
                match key {
                    Key::Char(c) => if c == 'q' {
                        (self, Flow::Stop, Move::Stay)
                    } else if c == '?' {
                        (Reading { help: true, ..self }, Flow::Go, Move::Stay)
                    } else if c == '/' {
                        (
                            Reading { seeking: Seeking::Typing(Seq::empty()), ..self },
                            Flow::Go,
                            Move::Stay,
                        )
                    } else if c == 'n' && found {
                        let next = self.walks(true);
                        (next, Flow::Go, next.landing())
                    } else if c == 'N' && found {
                        let next = self.walks(false);
                        (next, Flow::Go, next.landing())
                    } else {
                        (self, Flow::Go, Move::Stay)
                    },
                    Key::Esc => (self, Flow::Stop, Move::Stay),
                    Key::Up => (self, Flow::Go, Move::Back(1)),
                    Key::Down => (self, Flow::Go, Move::On(1)),
                    Key::PageUp => (self, Flow::Go, Move::Back(self.screenful() as usize)),
                    Key::PageDown => (self, Flow::Go, Move::On(self.screenful() as usize)),
                    Key::Home => (self, Flow::Go, Move::Top),
                    Key::End => (self, Flow::Go, Move::Follow),
                    _ => (self, Flow::Go, Move::Stay),
                }
            },
        }
    }

    /// The left of the footer: the keys, or the search over them.
    pub open spec fn hint(self, charset: Charset) -> paint::Row {
        let dot = paint::glyph_of(charset, "·"@, "-"@);
        match self.seeking {
            Seeking::Off => seq![rows::plain(self.keys)],
            Seeking::Typing(typed) => seq![(Role::Accent, "/"@ + typed)],
            Seeking::On { text, hits, at } => if hits.len() == 0 {
                seq![(Role::Warn, "no line holds "@ + text)]
            } else {
                seq![
                    (Role::Accent, "/"@ + text),
                    rows::plain(" "@ + dot + " "@),
                    (
                        Role::Muted,
                        "match "@ + text::dec(at + 1) + " of "@ + text::dec(hits.len()) + " "@ + dot
                            + " n next"@,
                    ),
                ]
            },
        }
    }
}

/// The keys a reader needs while they are reading, as the footer of a journal
/// says them. The card says the rest.
pub fn keys(charset: Charset) -> (s: String)
    ensures
        s@ == paint::glyph_of(charset, "↑↓"@, "up/dn"@) + " scroll "@ + paint::glyph_of(
            charset,
            "·"@,
            "-"@,
        ) + " / find "@ + paint::glyph_of(charset, "·"@, "-"@) + " ? keys "@ + paint::glyph_of(
            charset,
            "·"@,
            "-"@,
        ) + " q quit"@,
{
    let dot = charset.glyph("·", "-");
    let mut s = text::cat(charset.glyph("↑↓", "up/dn"), " scroll ");
    s.append(dot);
    s.append(" / find ");
    s.append(dot);
    s.append(" ? keys ");
    s.append(dot);
    s.append(" q quit");
    s
}

/// Every key a journal answers, in the order a reader meets them.
pub open spec fn map_of(charset: Charset) -> Seq<(Seq<char>, Seq<char>)> {
    seq![
        (paint::glyph_of(charset, "↑ ↓"@, "up dn"@), "one line back, one line on"@),
        ("pgup pgdn"@, "a screenful either way"@),
        ("home end"@, "the first line, and the last"@),
        ("/"@, "find a word; enter goes to the first line that holds it"@),
        ("n N"@, "the next line that holds it, and the one before"@),
        ("q"@, "close the journal"@),
        ("?"@, "this card; any key goes back"@),
    ]
}

/// Every key a journal answers, in the order a reader meets them.
pub fn map(charset: Charset) -> (r: Vec<keys::Row>)
    ensures
        chat::spelled(r@) == map_of(charset),
{
    let mut r: Vec<keys::Row> = Vec::new();
    r.push((charset.glyph("↑ ↓", "up dn"), "one line back, one line on"));
    r.push(("pgup pgdn", "a screenful either way"));
    r.push(("home end", "the first line, and the last"));
    r.push(("/", "find a word; enter goes to the first line that holds it"));
    r.push(("n N", "the next line that holds it, and the one before"));
    r.push(("q", "close the journal"));
    r.push(("?", "this card; any key goes back"));
    proof {
        assert(chat::spelled(r@) =~= map_of(charset));
    }
    r
}

/// Whether the keys are moving the window or spelling a search.
#[derive(Debug)]
enum Find {
    Off,
    Typing(String),
    On { text: String, hits: Vec<usize>, at: usize },
}

/// Line numbers, as numbers.
pub open spec fn numbers(lines: Seq<usize>) -> Seq<nat> {
    lines.map_values(|n: usize| n as nat)
}

impl View for Find {
    type V = Seeking;

    closed spec fn view(&self) -> Seeking {
        match self {
            Find::Off => Seeking::Off,
            Find::Typing(typed) => Seeking::Typing(typed@),
            Find::On { text, hits, at } => Seeking::On {
                text: text@,
                hits: numbers(hits@),
                at: *at as nat,
            },
        }
    }
}

/// A journal on a page, and the keys that move through it.
pub struct Journal {
    /// The visible text of every line, which is what a search is made against:
    /// a painted line holds codes between its words.
    plain: Vec<String>,
    find: Find,
    height: usize,
    keys: String,
    help: bool,
}

impl View for Journal {
    type V = Reading;

    closed spec fn view(&self) -> Reading {
        Reading {
            lines: text::views(self.plain@),
            seeking: self.find@,
            height: self.height as nat,
            keys: self.keys@,
            help: self.help,
        }
    }
}

/// The visible texts of a page.
pub open spec fn texts_of(lines: Seq<paint::Row>) -> Seq<Seq<char>> {
    lines.map_values(|l: paint::Row| paint::read(l))
}

/// The visible texts of a page.
pub fn texts(lines: &Vec<Line>) -> (r: Vec<String>)
    ensures
        text::views(r@) == texts_of(paint::rows_of(lines@)),
{
    let ghost all = texts_of(paint::rows_of(lines@));
    let mut r: Vec<String> = Vec::new();
    let mut i: usize = 0;
    proof {
        assert(all.take(0) =~= Seq::<Seq<char>>::empty());
    }
    while i < lines.len()
        invariant
            i <= lines.len(),
            all == texts_of(paint::rows_of(lines@)),
            text::views(r@) == all.take(i as int),
        decreases lines.len() - i,
    {
        r.push(lines[i].text());
        proof {
            assert(all[i as int] == paint::read(lines@[i as int]@));
            assert(all.take(i + 1) =~= all.take(i as int).push(all[i as int]));
        }
        i = i + 1;
    }
    proof {
        assert(all.take(i as int) =~= all);
    }
    r
}

/// The lines that hold a word, by number, oldest first.
pub fn hits(lines: &Vec<String>, word: &str) -> (r: Vec<usize>)
    ensures
        numbers(r@) == hits_of(text::views(lines@), word@),
        forall|i: int| 0 <= i < r@.len() ==> #[trigger] r@[i] < lines@.len(),
{
    let wanted = lowercase(word);
    let ghost all = text::views(lines@);
    let mut r: Vec<usize> = Vec::new();
    let mut i: usize = 0;
    proof {
        assert(all.take(0) =~= Seq::<Seq<char>>::empty());
        assert(numbers(r@) =~= Seq::<nat>::empty());
    }
    while i < lines.len()
        invariant
            i <= lines.len(),
            all == text::views(lines@),
            wanted@ == text::lowercase_of(word@),
            numbers(r@) == hits_of(all.take(i as int), word@),
            forall|j: int| 0 <= j < r@.len() ==> #[trigger] r@[j] < i,
        decreases lines.len() - i,
    {
        let ghost before = r@;
        proof {
            assert(all.take(i + 1).drop_last() =~= all.take(i as int));
            assert(all.take(i + 1).last() == lines@[i as int]@);
        }
        if text::contains(lowercase(lines[i].as_str()).as_str(), wanted.as_str()) {
            r.push(i);
            proof {
                assert(numbers(r@) =~= numbers(before).push(i as nat));
            }
        }
        i = i + 1;
    }
    proof {
        assert(all.take(i as int) =~= all);
    }
    r
}

impl Journal {
    /// A journal with nothing on its page yet. `keys` is what its footer says
    /// while no search is open.
    pub fn new(keys: &str, height: usize) -> (j: Journal)
        ensures
            j@.wf(),
            j@ == (Reading {
                lines: Seq::empty(),
                seeking: Seeking::Off,
                height: height as nat,
                keys: keys@,
                help: false,
            }),
    {
        let j = Journal {
            plain: Vec::new(),
            find: Find::Off,
            height,
            keys: keys.to_owned(),
            help: false,
        };
        proof {
            assert(text::views(j.plain@) =~= Seq::<Seq<char>>::empty());
        }
        j
    }

    /// Every line composed again. A rewrap moves every line, so an open search
    /// is made again and landed on again: the match is what the reader was
    /// looking at.
    pub fn fill(&mut self, lines: &Vec<Line>) -> (go: Move)
        ensures
            final(self)@.wf(),
            final(self)@ == (Reading {
                lines: texts_of(paint::rows_of(lines@)),
                ..old(self)@
            }).sought(),
            go == final(self)@.landing(),
    {
        self.plain = texts(lines);
        self.seek();
        self.land()
    }

    /// The height of the frame about to be drawn.
    pub fn measure(&mut self, height: usize)
        requires
            old(self)@.wf(),
        ensures
            final(self)@.wf(),
            final(self)@ == (Reading { height: height as nat, ..old(self)@ }),
    {
        self.height = height;
    }

    fn seek(&mut self)
        ensures
            final(self)@.wf(),
            final(self)@ == old(self)@.sought(),
    {
        let ghost before = self@;
        if let Find::On { text, hits: _, at } = &self.find {
            let text = text.clone();
            let at: usize = *at;
            let hits = hits(&self.plain, text.as_str());
            let last: usize = hits.len().saturating_sub(1);
            let at: usize = if at < last {
                at
            } else {
                last
            };
            self.find = Find::On { text, hits, at };
            proof {
                assert forall|i: int| 0 <= i < hits@.len() implies #[trigger] numbers(hits@)[i]
                    < self@.lines.len() by {
                    assert(numbers(hits@)[i] == hits@[i]);
                }
            }
        }
    }

    fn land(&self) -> (go: Move)
        requires
            self@.wf(),
        ensures
            go == self@.landing(),
    {
        if let Find::On { text: _, hits, at } = &self.find {
            if *at < hits.len() {
                let line: usize = hits[*at];
                let left: usize = self.height.saturating_sub(KEPT - 1);
                let room: usize = if left < 1 {
                    1
                } else {
                    left
                };
                proof {
                    assert(numbers(hits@)[*at as int] == line);
                }
                return Move::Land(self.plain.len().saturating_sub(room).saturating_sub(line));
            }
        }
        Move::Stay
    }

    /// Whether the key card is up in place of the page.
    pub fn help(&self) -> (r: bool)
        ensures
            r == self@.help,
    {
        self.help
    }

    /// Whether a word is being spelled into the search prompt. While it is,
    /// the keys that would close a journal are letters.
    pub fn typing(&self) -> (r: bool)
        ensures
            r == (self@.seeking is Typing),
    {
        match &self.find {
            Find::Typing(_) => true,
            _ => false,
        }
    }

    fn accept(&mut self, text: String) -> (go: Move)
        ensures
            final(self)@.wf(),
            final(self)@ == old(self)@.accepted(text@),
            go == final(self)@.landing(),
    {
        self.find = Find::On { text, hits: Vec::new(), at: 0 };
        proof {
            assert(numbers(Seq::<usize>::empty()) =~= Seq::<nat>::empty());
        }
        self.seek();
        self.land()
    }

    fn walk(&mut self, forward: bool) -> (go: Move)
        requires
            old(self)@.wf(),
        ensures
            final(self)@.wf(),
            final(self)@ == old(self)@.walks(forward),
            go == final(self)@.landing(),
    {
        if let Find::On { text, hits, at } = &self.find {
            let len: usize = hits.len();
            if len > 0 {
                // Round rather than stopping: a reader who reaches the last
                // match and asks for another is asking to go round.
                let at: usize = if forward {
                    if *at >= len - 1 {
                        0
                    } else {
                        *at + 1
                    }
                } else if *at == 0 {
                    len - 1
                } else {
                    *at - 1
                };
                let text = text.clone();
                let hits = hits.clone();
                self.find = Find::On { text, hits, at };
                proof {
                    assert(numbers(hits@) =~= old(self)@.seeking->hits);
                }
            }
        }
        self.land()
    }

    fn spell(&mut self, typed: String, key: Key) -> (go: Move)
        requires
            old(self)@.seeking == Seeking::Typing(typed@),
        ensures
            final(self)@.wf(),
            (final(self)@, go) == old(self)@.spelled(typed@, key),
    {
        match key {
            Key::Char(c) => {
                let mut typed = typed;
                typed.push(c);
                self.find = Find::Typing(typed);
            },
            Key::Backspace => {
                let letters = text::chars(typed.as_str());
                if letters.len() > 0 {
                    let fewer = text::slice(typed.as_str(), 0, letters.len() - 1);
                    proof {
                        assert(fewer@ =~= typed@.drop_last());
                    }
                    self.find = Find::Typing(fewer);
                }
            },
            Key::Enter => {
                if !typed.as_str().is_empty() {
                    return self.accept(typed);
                }
                self.find = Find::Off;
            },
            Key::Esc => {
                self.find = Find::Off;
            },
            _ => {},
        }
        Move::Stay
    }

    /// Answer one key: whether the view goes on, and how its window moves.
    pub fn key(&mut self, key: Key) -> (r: (Flow, Move))
        requires
            old(self)@.wf(),
        ensures
            final(self)@.wf(),
            (final(self)@, r.0, r.1) == old(self)@.pressed(key),
    {
        if self.help {
            self.help = false;
            return (Flow::Go, Move::Stay);
        }
        if let Find::Typing(typed) = &self.find {
            let typed = typed.clone();
            let go = self.spell(typed, key);
            return (Flow::Go, go);
        }
        let found = match &self.find {
            Find::On { .. } => true,
            _ => false,
        };
        let left: usize = self.height.saturating_sub(KEPT);
        let screenful: usize = if left < 1 {
            1
        } else {
            left
        };
        match key {
            Key::Char(c) => {
                if c == 'q' {
                    (Flow::Stop, Move::Stay)
                } else if c == '?' {
                    self.help = true;
                    (Flow::Go, Move::Stay)
                } else if c == '/' {
                    self.find = Find::Typing(String::new());
                    proof {
                        assert(String::view(&self.find->Typing_0) =~= Seq::<char>::empty());
                    }
                    (Flow::Go, Move::Stay)
                } else if c == 'n' && found {
                    // `n` and `N` mean nothing until a search has been made: a
                    // letter that moved the page before then would be a trap.
                    let go = self.walk(true);
                    (Flow::Go, go)
                } else if c == 'N' && found {
                    let go = self.walk(false);
                    (Flow::Go, go)
                } else {
                    (Flow::Go, Move::Stay)
                }
            },
            Key::Esc => (Flow::Stop, Move::Stay),
            Key::Up => (Flow::Go, Move::Back(1)),
            Key::Down => (Flow::Go, Move::On(1)),
            Key::PageUp => (Flow::Go, Move::Back(screenful)),
            Key::PageDown => (Flow::Go, Move::On(screenful)),
            Key::Home => (Flow::Go, Move::Top),
            Key::End => (Flow::Go, Move::Follow),
            _ => (Flow::Go, Move::Stay),
        }
    }

    /// The left of the footer: the keys, or the search over them.
    pub fn hint(&self, charset: Charset) -> (l: Line)
        requires
            self@.wf(),
        ensures
            l@ == self@.hint(charset),
    {
        let dot = charset.glyph("·", "-");
        let l = match &self.find {
            Find::Off => Line::of(Role::Plain, self.keys.as_str()),
            Find::Typing(typed) => Line::of(Role::Accent, text::cat("/", typed.as_str()).as_str()),
            Find::On { text, hits, at } => {
                let count: usize = hits.len();
                if count == 0 {
                    Line::of(Role::Warn, text::cat("no line holds ", text.as_str()).as_str())
                } else {
                    let mut l = Line::of(Role::Accent, text::cat("/", text.as_str()).as_str());
                    let mut gap = text::cat(" ", dot);
                    gap.append(" ");
                    l.put(Role::Plain, gap.as_str());
                    let mut said = text::cat("match ", decimal(*at as u64 + 1).as_str());
                    said.append(" of ");
                    said.append(decimal(count as u64).as_str());
                    said.append(" ");
                    said.append(dot);
                    said.append(" n next");
                    l.put(Role::Muted, said.as_str());
                    l
                }
            },
        };
        proof {
            assert(l@ =~= self@.hint(charset));
        }
        l
    }
}

// ---- laws ----

/// The lines a search finds are exactly those that hold the word, each once
/// and oldest first.
pub proof fn lemma_a_search_finds_every_line(lines: Seq<Seq<char>>, word: Seq<char>)
    ensures
        forall|i: int|
            0 <= i < hits_of(lines, word).len() ==> {
                let line = #[trigger] hits_of(lines, word)[i];
                line < lines.len() && holds(lines[line as int], word)
            },
        forall|i: int|
            0 <= i < lines.len() && #[trigger] holds(lines[i], word) ==> hits_of(
                lines,
                word,
            ).contains(i as nat),
        forall|i: int, j: int|
            0 <= i < j < hits_of(lines, word).len() ==> #[trigger] hits_of(lines, word)[i]
                < #[trigger] hits_of(lines, word)[j],
    decreases lines.len(),
{
    if lines.len() > 0 {
        let rest = lines.drop_last();
        lemma_a_search_finds_every_line(rest, word);
        let before = hits_of(rest, word);
        let all = hits_of(lines, word);
        assert forall|i: int| 0 <= i < lines.len() && #[trigger] holds(
            lines[i],
            word,
        ) implies all.contains(i as nat) by {
            if i < rest.len() {
                assert(holds(rest[i], word));
                assert(before.contains(i as nat));
                let k = choose|k: int| 0 <= k < before.len() && before[k] == i as nat;
                assert(all[k] == i as nat);
            } else {
                assert(all[before.len() as int] == i as nat);
            }
        }
    }
}

/// The walk goes round: a step forward and a step back undo each other.
pub proof fn lemma_a_step_can_be_undone(at: nat, len: nat)
    requires
        at < len,
    ensures
        walked(walked(at, len, true), len, false) == at,
        walked(walked(at, len, false), len, true) == at,
        walked(at, len, true) < len,
        walked(at, len, false) < len,
{
}

/// The place after a number of steps forward.
pub open spec fn walked_on(at: nat, len: nat, steps: nat) -> nat
    decreases steps,
{
    if steps == 0 {
        at
    } else {
        walked(walked_on(at, len, (steps - 1) as nat), len, true)
    }
}

/// The walk reaches every match: as many steps forward as there are matches
/// come back to the one it started on, and every match lies on the way.
pub proof fn lemma_the_walk_goes_round(at: nat, len: nat, to: nat)
    requires
        at < len,
        to < len,
    ensures
        walked_on(at, len, len) == at,
        exists|steps: nat| steps < len && #[trigger] walked_on(at, len, steps) == to,
{
    lemma_walked_on(at, len, len);
    let steps = if to >= at {
        (to - at) as nat
    } else {
        (to + len - at) as nat
    };
    lemma_walked_on(at, len, steps);
}

proof fn lemma_walked_on(at: nat, len: nat, steps: nat)
    requires
        at < len,
        steps <= len,
    ensures
        walked_on(at, len, steps) == if at + steps < len {
            at + steps
        } else {
            (at + steps - len) as nat
        },
    decreases steps,
{
    if steps > 0 {
        lemma_walked_on(at, len, (steps - 1) as nat);
    }
}

/// Any key takes the card down, and that is all it does.
pub proof fn lemma_the_card_is_read_and_not_worked_in(view: Reading, key: Key)
    requires
        view.help,
    ensures
        view.pressed(key) == (Reading { help: false, ..view }, Flow::Go, Move::Stay),
{
}

/// Nothing moves while a word is being spelled, and no key closes the view
/// then: only Enter ends the prompt with somewhere to go.
pub proof fn lemma_nothing_moves_until_enter(view: Reading, key: Key)
    requires
        view.seeking is Typing,
        !view.help,
        !(key is Enter),
    ensures
        view.pressed(key).1 is Go,
        view.pressed(key).2 is Stay,
        view.pressed(key).0.lines == view.lines,
{
}

/// A word no line holds is said rather than acted on: the page stays where it
/// is, and the view stays open.
pub proof fn lemma_no_match_moves_nothing(view: Reading)
    requires
        !view.help,
        view.seeking matches Seeking::Typing(typed) && typed.len() > 0 && hits_of(
            view.lines,
            typed,
        ).len() == 0,
    ensures
        view.pressed(Key::Enter).1 is Go,
        view.pressed(Key::Enter).2 is Stay,
{
}

/// The match stands at the top of the window, where the page is long enough
/// below it to fill one.
pub proof fn lemma_the_match_is_at_the_top(view: Reading)
    requires
        view.lines.len() <= usize::MAX,
        view.seeking matches Seeking::On { hits, at, .. } && at < hits.len() && view.room()
            + hits[at as int] <= view.lines.len(),
    ensures
        view.landing() matches Move::Land(back) && view.lines.len() - back - view.room()
            == view.seeking->hits[view.seeking->at as int],
{
}

/// A word is spelled key by key: a letter goes behind those before it, and
/// backspace takes the last one off, and neither moves the page.
pub proof fn lemma_a_word_is_spelled_key_by_key(view: Reading, typed: Seq<char>, c: char)
    requires
        !view.help,
        view.seeking == Seeking::Typing(typed),
    ensures
        view.pressed(Key::Char(c)) == (
            Reading { seeking: Seeking::Typing(typed.push(c)), ..view },
            Flow::Go,
            Move::Stay,
        ),
        view.pressed(Key::Char(c)).0.pressed(Key::Backspace) == (view, Flow::Go, Move::Stay),
        view.pressed(Key::Esc) == (
            Reading { seeking: Seeking::Off, ..view },
            Flow::Go,
            Move::Stay,
        ),
{
    assert(typed.push(c).drop_last() =~= typed);
}

/// Enter looks for the word that was spelled, whole, in every line there is, and
/// goes to the first line that holds it. An empty word ends the search.
pub proof fn lemma_enter_looks_for_what_was_spelled(view: Reading, typed: Seq<char>)
    requires
        !view.help,
        view.seeking == Seeking::Typing(typed),
    ensures
        typed.len() > 0 ==> view.pressed(Key::Enter).0.seeking == (Seeking::On {
            text: typed,
            hits: hits_of(view.lines, typed),
            at: 0,
        }),
        typed.len() == 0 ==> view.pressed(Key::Enter).0.seeking is Off,
        view.pressed(Key::Enter).0.lines == view.lines,
        view.pressed(Key::Enter).1 is Go,
{
}

/// Each key of a page has its own answer: two close it, one turns the card up,
/// one starts a search, and the rest move by a row, by a screenful or to an end.
pub proof fn lemma_each_key_has_its_answer(view: Reading, key: Key)
    requires
        !view.help,
        !(view.seeking is Typing),
        view.height <= usize::MAX,
    ensures
        ({
            let (next, flow, go) = view.pressed(key);
            let page: nat = if view.height > 6 {
                (view.height - 5) as nat
            } else {
                1
            };
            &&& flow is Stop <==> key == Key::Char('q') || key is Esc
            &&& key == Key::Char('?') ==> next == (Reading { help: true, ..view }) && go is Stay
            &&& key == Key::Char('/') ==> next == (Reading {
                seeking: Seeking::Typing(Seq::empty()),
                ..view
            }) && go is Stay
            &&& key is Up ==> go == Move::Back(1) && next == view
            &&& key is Down ==> go == Move::On(1) && next == view
            &&& key is PageUp ==> go == Move::Back(page as usize) && next == view
            &&& key is PageDown ==> go == Move::On(page as usize) && next == view
            &&& key is Home ==> go is Top && next == view
            &&& key is End ==> go is Follow && next == view
            &&& key == Key::Char('n') && view.seeking is On ==> next == view.walks(true) && go
                == next.landing()
            &&& key == Key::Char('N') && view.seeking is On ==> next == view.walks(false) && go
                == next.landing()
        }),
{
}

/// Walking a search keeps the word and its lines, and goes to the next of them or
/// the one before.
pub proof fn lemma_a_walk_keeps_the_search(view: Reading, forward: bool)
    requires
        view.seeking is On,
        view.seeking->hits.len() > 0,
    ensures
        view.walks(forward).seeking == (Seeking::On {
            text: view.seeking->text,
            hits: view.seeking->hits,
            at: walked(view.seeking->at, view.seeking->hits.len(), forward),
        }),
        view.walks(forward).lines == view.lines,
{
}

/// The foot of a page tells the search: the word being spelled, which match of
/// how many it is on, or that no line holds it; and the keys where there is none.
pub proof fn lemma_the_foot_tells_the_search(view: Reading, charset: Charset)
    ensures
        match view.seeking {
            Seeking::Off => view.hint(charset) == seq![rows::plain(view.keys)],
            Seeking::Typing(typed) => view.hint(charset) == seq![(Role::Accent, "/"@ + typed)],
            Seeking::On { text, hits, at } => {
                &&& hits.len() == 0 ==> view.hint(charset) == seq![
                    (Role::Warn, "no line holds "@ + text),
                ]
                &&& hits.len() > 0 ==> {
                    let row = view.hint(charset);
                    &&& row.len() == 3
                    &&& row[0] == (Role::Accent, "/"@ + text)
                    &&& row[2].1 == "match "@ + text::dec(at + 1) + " of "@ + text::dec(hits.len())
                        + " "@ + paint::glyph_of(charset, "·"@, "-"@) + " n next"@
                }
            },
        },
{
}

/// A page that is filled anew is searched anew for the same word, and the place
/// among the matches is kept as far as there are so many.
pub proof fn lemma_a_search_outlives_the_page(view: Reading)
    requires
        view.seeking is On,
    ensures
        ({
            let next = view.sought();
            let hits = hits_of(view.lines, view.seeking->text);
            &&& next.seeking matches Seeking::On { text, hits: found, at }
            &&& text == view.seeking->text
            &&& found == hits
            &&& view.seeking->at < hits.len() ==> at == view.seeking->at
            &&& view.seeking->at >= hits.len() && hits.len() > 0 ==> at == hits.len() - 1
            &&& hits.len() == 0 ==> at == 0
        }),
{
}

/// A line holds a word whatever the case of either.
pub proof fn lemma_case_is_no_matter(line: Seq<char>, word: Seq<char>, same: Seq<char>)
    requires
        text::lowercase_of(word) == text::lowercase_of(same),
    ensures
        holds(line, word) == holds(line, same),
        holds(line, word) <==> text::holds(text::lowercase_of(line), text::lowercase_of(word)),
{
}

/// What a line is searched by is what it reads as.
pub proof fn lemma_a_line_is_searched_as_it_reads(lines: Seq<paint::Row>, i: int)
    requires
        0 <= i < lines.len(),
    ensures
        texts_of(lines).len() == lines.len(),
        texts_of(lines)[i] == paint::read(lines[i]),
{
}

} // verus!
