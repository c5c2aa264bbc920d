//! The conversation on a screen of its own: a transcript, and a line to type
//! into at the foot of it.
//!
//! What was said is kept, and the rows it makes are composed again whenever
//! the width changes: a line folded for one width is stored wrong for any
//! other. A search composes them again too, because the marks it makes are
//! written into the rows. A search is a command and not a key, because every printable key
//! belongs to the line being typed. So a key goes to the editor first, and
//! only the ones it does not answer are the view's own.
use vstd::prelude::*;
use vstd::string::*;

use crate::event::SessionEvent;
use crate::input::Key;
use crate::paint;
use crate::paint::{Charset, Line, Role};
use crate::render::browse;
use crate::render::draft;
use crate::render::draft::Draft;
use crate::render::keys::NAME;
use crate::render::live;
use crate::render::live::Live;
use crate::render::rows;
use crate::render::timeline;
use crate::rpc::RpcError;
use crate::text;
use crate::text::{decimal, lowercase, trim};

verus! {

broadcast use {
    crate::paint::group_rows,
    crate::text::group_views,
    crate::render::draft::group_sketched,
};

/// Rows the arrangement spends on furniture: the heading, the blank under it,
/// the blank over the prompt, the prompt itself, and the footer.
pub const CHROME: usize = 5;

/// The marker the prompt row opens with.
pub const MARKER: &'static str = "> ";

/// The columns the marker takes.
pub const LABEL: usize = 2;

/// What the reader asked for with the key they just pressed.
#[derive(PartialEq, Eq, Debug)]
pub enum Act {
    /// Nothing that leaves this view: keep going, and paint.
    Go,
    /// A line was finished.
    Asked(String),
    /// The reader is leaving, and the conversation ended as it was meant to.
    Leave,
    /// The reader is leaving now.
    Stopped,
}

/// What the reader asked for, by what it says.
pub enum Wanted {
    Go,
    Asked(Seq<char>),
    Leave,
    Stopped,
}

impl View for Act {
    type V = Wanted;

    open spec fn view(&self) -> Wanted {
        match self {
            Act::Go => Wanted::Go,
            Act::Asked(said) => Wanted::Asked(said@),
            Act::Leave => Wanted::Leave,
            Act::Stopped => Wanted::Stopped,
        }
    }
}

/// What the line editor made of a key.
#[derive(Debug)]
pub enum Typed {
    /// It changed the line, or moved in it.
    Editing,
    /// Ctrl-C.
    Interrupted,
    /// Ctrl-D on an empty line.
    Left,
    /// The line was finished.
    Asked(String),
    /// It is not a key the editor answers.
    Ignored,
}

/// One thing that was said, in the form it was said in.
#[derive(Debug)]
pub enum Said {
    /// An event off the journal: the model's, the reader's, or a tool's.
    Event(SessionEvent),
    /// The card of commands.
    Card,
    /// One line of this build's own words.
    Note(String),
    /// A turn that failed.
    Fault(RpcError),
}

/// What one thing said makes, before the terminal folds it.
#[derive(Debug)]
pub enum Composed {
    /// Drafts, to be folded to the width.
    Drafts(Vec<Draft>),
    /// The thing itself, which has no drafts.
    Kept,
}

/// What one thing said makes, by what it says.
pub enum Piece {
    Drafts(Seq<draft::Sketch>),
    Kept,
}

impl View for Composed {
    type V = Piece;

    open spec fn view(&self) -> Piece {
        match self {
            Composed::Drafts(drafts) => Piece::Drafts(draft::sketched(drafts@)),
            Composed::Kept => Piece::Kept,
        }
    }
}

/// The composer, once a run of things has been said.
pub open spec fn heard(start: live::Watching, said: Seq<Said>) -> live::Watching
    decreases said.len(),
{
    if said.len() == 0 {
        start
    } else {
        let before = heard(start, said.drop_last());
        match said.last() {
            Said::Event(event) => before.pushed(event).0,
            _ => before,
        }
    }
}

/// What a run of things said makes, each in its place.
pub open spec fn composed(start: live::Watching, said: Seq<Said>) -> Seq<Piece>
    decreases said.len(),
{
    if said.len() == 0 {
        Seq::empty()
    } else {
        let before = heard(start, said.drop_last());
        composed(start, said.drop_last()).push(
            match said.last() {
                Said::Event(event) => Piece::Drafts(before.pushed(event).1),
                _ => Piece::Kept,
            },
        )
    }
}

/// Whether a run of things said can be composed with every counter in range.
pub open spec fn composable(start: live::Watching, said: Seq<Said>) -> bool
    decreases said.len(),
{
    said.len() == 0 || {
        &&& composable(start, said.drop_last())
        &&& said.last() matches Said::Event(event) ==> heard(
            start,
            said.drop_last(),
        ).reading.reads(event)
    }
}

/// A composer that has seen nothing yet.
pub open spec fn opening(phase: Seq<char>, think: bool) -> live::Watching {
    live::Watching {
        reading: timeline::fresh(think),
        answer: Seq::empty(),
        reasoning: Seq::empty(),
        phase,
        tick: 0,
        over: false,
    }
}

/// The lines that hold a word, by number, oldest first. The word is in lower
/// case already.
pub open spec fn marks(lines: Seq<paint::Row>, word: Seq<char>) -> Seq<nat>
    decreases lines.len(),
{
    if lines.len() == 0 {
        Seq::empty()
    } else {
        let before = marks(lines.drop_last(), word);
        if text::holds(text::lowercase_of(paint::read(lines.last())), word) {
            before.push((lines.len() - 1) as nat)
        } else {
            before
        }
    }
}

/// The larger of a number and one.
pub open spec fn one_at_least(n: nat) -> nat {
    if n < 1 {
        1
    } else {
        n
    }
}

/// A conversation on its screen, by what it says.
pub struct Stage {
    pub title: Seq<char>,
    pub said: Seq<Said>,
    /// The rows what was said makes at the width of the last frame.
    pub lines: Seq<paint::Row>,
    /// How far back through them the reader has scrolled. None is the foot.
    pub back: nat,
    pub watching: live::Watching,
    pub working: bool,
    /// The rows the last frame had between its furniture.
    pub body: nat,
    pub width: nat,
    pub think: bool,
    pub phase: Seq<char>,
    /// The word the reader is looking for, in lower case.
    pub wanted: Option<Seq<char>>,
    /// Which match the reader is on.
    pub at: nat,
}

impl Stage {
    /// The lines that hold the word being looked for.
    pub open spec fn hits(self) -> Seq<nat> {
        match self.wanted {
            Some(word) => marks(self.lines, word),
            None => Seq::empty(),
        }
    }

    /// A conversation that has not started yet.
    pub open spec fn fresh(width: nat, model: Seq<char>, think: bool) -> Stage {
        Stage {
            title: "chat on "@ + model,
            said: Seq::empty(),
            lines: Seq::empty(),
            back: 0,
            watching: live::Watching { over: true, ..opening(Seq::empty(), think) },
            working: false,
            body: 0,
            width,
            think,
            phase: Seq::empty(),
            wanted: None,
            at: 0,
        }
    }

    /// Rows settled at the foot of the transcript. The window does not move
    /// for them: a reader who has scrolled back keeps what is under their eye.
    pub open spec fn settled(self, rows: Seq<paint::Row>) -> Stage {
        Stage {
            lines: self.lines + rows,
            back: if self.back > 0 {
                clipped(self.back + rows.len())
            } else {
                0
            },
            ..self
        }
    }

    /// Whether the whole conversation can be composed again with every counter
    /// in range.
    pub open spec fn recomposes(self) -> bool {
        composable(opening(self.phase, self.think), self.said)
    }

    /// The composer, built again over the whole conversation. It opens on the
    /// phase the turn was begun with, and its spinner starts again. A view
    /// with no turn running has no block, and one with a turn running has one
    /// until that turn ends, however many ended before it.
    pub open spec fn rebuilt(self) -> live::Watching {
        live::Watching {
            over: !self.working || self.watching.over,
            ..heard(opening(self.phase, self.think), self.said)
        }
    }

    /// The whole conversation composed again: the rows it makes at a width,
    /// and the composer built again with them. How far back the reader had
    /// scrolled is kept, in rows.
    pub open spec fn refilled(self, cols: nat, rows: Seq<paint::Row>) -> Stage {
        Stage { lines: rows, width: cols, watching: self.rebuilt(), ..self }
    }

    /// The window put where the match the reader is on can be read: at the
    /// foot of it, because what was said before a match is the context a
    /// reader wants with it.
    pub open spec fn landed(self) -> Stage {
        if self.at < self.hits().len() {
            let line = self.hits()[self.at as int];
            let room = one_at_least(self.body);
            let back = rows::left_of(self.lines.len(), line + 1);
            let most = rows::left_of(self.lines.len(), room);
            Stage {
                back: if back < most {
                    back
                } else {
                    most
                },
                ..self
            }
        } else {
            self
        }
    }

    /// A search for a word begun, on its newest match; or, given nothing, the
    /// search ended. `rows` is the whole conversation composed again.
    pub open spec fn found(self, word: Seq<char>, rows: Seq<paint::Row>) -> Stage {
        let trimmed = text::trimmed(word);
        let seeking = Stage {
            wanted: if trimmed.len() == 0 {
                None
            } else {
                Some(text::lowercase_of(trimmed))
            },
            ..self.refilled(self.width, rows)
        };
        (Stage { at: rows::left_of(seeking.hits().len(), 1), ..seeking }).landed()
    }

    /// The next match, or the one before it, going round at either end.
    pub open spec fn walks(self, forward: bool) -> Stage {
        let len = self.hits().len();
        if len == 0 {
            self
        } else {
            (Stage { at: browse::walked((self.at % len) as nat, len, forward), ..self }).landed()
        }
    }

    /// How far a page key goes: a row less than the body, and never nowhere.
    pub open spec fn screenful(self) -> nat {
        one_at_least(rows::left_of(self.body, 1))
    }

    /// A key the editor does not answer. `rows` is the whole conversation
    /// composed again, for the key that ends a search.
    pub open spec fn moved(self, key: Key, rows: Seq<paint::Row>) -> Stage {
        match key {
            Key::Up => Stage { back: clipped(self.back + 1), ..self },
            Key::Down => Stage { back: rows::left_of(self.back, 1), ..self },
            Key::PageUp => Stage { back: clipped(self.back + self.screenful()), ..self },
            Key::PageDown => Stage { back: rows::left_of(self.back, self.screenful()), ..self },
            Key::Ctrl(c) => if c == 'n' {
                self.walks(true)
            } else if c == 'p' {
                self.walks(false)
            } else {
                self
            },
            Key::Esc => Stage { back: 0, ..self.found(Seq::empty(), rows) },
            _ => self,
        }
    }

    /// A key, and what the editor made of it.
    pub open spec fn pressed(self, key: Key, typed: Typed, rows: Seq<paint::Row>) -> (
        Stage,
        Wanted,
    ) {
        match typed {
            Typed::Editing => (self, Wanted::Go),
            Typed::Interrupted => (self, Wanted::Stopped),
            Typed::Left => (self, Wanted::Leave),
            Typed::Asked(said) => if text::trimmed(said@).len() == 0 {
                (self, Wanted::Go)
            } else {
                (self, Wanted::Asked(said@))
            },
            Typed::Ignored => (self.moved(key, rows), Wanted::Go),
        }
    }

    /// The rows of the block a screen has room for: its last ones.
    pub open spec fn kept(self, block: Seq<paint::Row>, height: nat) -> Seq<paint::Row> {
        let body = rows::left_of(height, CHROME as nat);
        block.skip(rows::left_of(block.len(), body) as int)
    }

    /// The view once it has been measured for a screen this tall, with this
    /// much of the block on it: the window ends on the transcript.
    pub open spec fn measured(self, height: nat, block: Seq<paint::Row>) -> Stage {
        let body = rows::left_of(height, CHROME as nat);
        let room = (body - self.kept(block, height).len()) as nat;
        let most = rows::left_of(self.lines.len(), room);
        Stage {
            body,
            back: if self.back < most {
                self.back
            } else {
                most
            },
            ..self
        }
    }

    /// The rows of the transcript a window this tall shows.
    pub open spec fn window(self, room: nat) -> Seq<paint::Row> {
        let end = rows::left_of(self.lines.len(), self.back);
        self.lines.subrange(rows::left_of(end, room) as int, end as int)
    }

    /// Where the reader is, in a few words.
    pub open spec fn here(self, drawn: Seq<char>) -> Seq<char> {
        if self.wanted is Some {
            if self.hits().len() == 0 {
                "no line holds "@ + drawn
            } else {
                text::dec(self.at + 1) + " of "@ + text::dec(self.hits().len())
            }
        } else if self.back > 0 {
            text::dec(self.back) + " back"@
        } else if self.working {
            "working"@
        } else {
            "end"@
        }
    }

    /// The part those words play.
    pub open spec fn part(self) -> Role {
        if self.wanted is Some && self.hits().len() == 0 {
            Role::Warn
        } else if self.working {
            Role::Accent
        } else {
            Role::Muted
        }
    }

    /// The keys, in the longest wording.
    pub open spec fn hint(self, charset: Charset) -> Seq<char> {
        let dot = paint::glyph_of(charset, "·"@, "-"@);
        if self.wanted is Some {
            "ctrl-n next "@ + dot + " ctrl-p back "@ + dot + " esc done "@ + dot
                + " ctrl-c leave"@
        } else {
            "enter ask "@ + dot + " "@ + paint::glyph_of(charset, "↑↓"@, "up/dn"@) + " scroll "@
                + dot + " /help "@ + dot + " /find "@ + dot + " ctrl-c leave"@
        }
    }
}

/// Whether a key composes the whole conversation again: the one that ends a
/// search.
pub open spec fn ends_search(key: Key, typed: Typed) -> bool {
    typed is Ignored && key is Esc
}

/// Whether a key composes the whole conversation again.
pub fn composes(key: Key, typed: &Typed) -> (r: bool)
    ensures
        r == ends_search(key, *typed),
{
    match (typed, key) {
        (Typed::Ignored, Key::Esc) => true,
        _ => false,
    }
}

/// A count, as far as a machine counts.
pub open spec fn clipped(n: nat) -> nat {
    if n > usize::MAX {
        usize::MAX as nat
    } else {
        n
    }
}

/// A text without a prefix, however often it starts with it.
pub open spec fn stripped(said: Seq<char>, prefix: Seq<char>) -> Seq<char>
    decreases said.len(),
{
    if prefix.len() > 0 && prefix.is_prefix_of(said) {
        stripped(said.skip(prefix.len() as int), prefix)
    } else {
        said
    }
}

/// A whole screen with a prompt on it: a bar over it, the rows, the prompt,
/// and a footer whose left is the longest of two wordings that fits.
#[derive(Debug)]
pub struct Scene {
    pub head: (Line, Line),
    pub rows: Vec<Line>,
    pub prompt: Line,
    pub hint: String,
    pub short: String,
    pub here: Line,
    /// The row and the column the terminal's cursor belongs on.
    pub cursor: (usize, usize),
}

/// The conversation, as one screen.
pub struct Fire {
    title: String,
    said: Vec<Said>,
    lines: Vec<Line>,
    back: usize,
    live: Live,
    working: bool,
    body: usize,
    width: usize,
    think: bool,
    phase: String,
    wanted: Option<String>,
    /// The lines that hold the word, kept as they settle.
    hits: Vec<usize>,
    at: usize,
}

impl View for Fire {
    type V = Stage;

    closed spec fn view(&self) -> Stage {
        Stage {
            title: self.title@,
            said: self.said@,
            lines: paint::rows_of(self.lines@),
            back: self.back as nat,
            watching: self.live@,
            working: self.working,
            body: self.body as nat,
            width: self.width as nat,
            think: self.think,
            phase: self.phase@,
            wanted: match self.wanted {
                Some(word) => Some(word@),
                None => None,
            },
            at: self.at as nat,
        }
    }
}

proof fn lemma_marks_below(lines: Seq<paint::Row>, word: Seq<char>)
    ensures
        forall|i: int| 0 <= i < marks(lines, word).len() ==> #[trigger] marks(lines, word)[i]
            < lines.len(),
        marks(lines, word).len() <= lines.len(),
    decreases lines.len(),
{
    if lines.len() > 0 {
        lemma_marks_below(lines.drop_last(), word);
    }
}

impl Fire {
    /// Whether the matches kept are the lines that hold the word.
    pub closed spec fn wf(&self) -> bool {
        &&& browse::numbers(self.hits@) == self@.hits()
        &&& self.at < usize::MAX
    }

    /// A view over a conversation that has not started yet. The composer opens
    /// finished: a conversation nobody has asked anything in is waiting on no
    /// turn.
    pub fn new(width: usize, model: &str, think: bool) -> (f: Fire)
        ensures
            f.wf(),
            f@ == Stage::fresh(width as nat, model@, think),
    {
        let mut live = Live::new("", think);
        live.finish();
        let f = Fire {
            title: text::cat("chat on ", model),
            said: Vec::new(),
            lines: Vec::new(),
            back: 0,
            live,
            working: false,
            body: 0,
            width,
            think,
            phase: String::new(),
            wanted: None,
            hits: Vec::new(),
            at: 0,
        };
        proof {
            reveal_strlit("");
            assert(""@ =~= Seq::<char>::empty());
            assert(browse::numbers(f.hits@) =~= Seq::<nat>::empty());
            assert(f.said@ =~= Seq::<Said>::empty());
        }
        f
    }

    fn mark(&mut self, from: usize)
        requires
            from <= old(self)@.lines.len(),
            old(self)@.wanted matches Some(word) ==> browse::numbers(old(self).hits@) == marks(
                old(self)@.lines.take(from as int),
                word,
            ),
            old(self)@.wanted is None ==> old(self).hits@.len() == 0,
            old(self).at < usize::MAX,
        ensures
            final(self).wf(),
            final(self)@ == old(self)@,
    {
        let word = match &self.wanted {
            Some(word) => word.clone(),
            None => {
                proof {
                    assert(browse::numbers(self.hits@) =~= Seq::<nat>::empty());
                }
                return;
            },
        };
        let ghost all = self@.lines;
        let mut i: usize = from;
        while i < self.lines.len()
            invariant
                from <= i <= self.lines@.len(),
                all == self@.lines,
                self@ == old(self)@,
                self.at == old(self).at,
                old(self).at < usize::MAX,
                self@.wanted == Some(word@),
                browse::numbers(self.hits@) == marks(all.take(i as int), word@),
            decreases self.lines@.len() - i,
        {
            proof {
                assert(all.take(i + 1).drop_last() =~= all.take(i as int));
                assert(all.take(i + 1).last() == self.lines@[i as int]@);
            }
            let plain = self.lines[i].text();
            if text::contains(lowercase(plain.as_str()).as_str(), word.as_str()) {
                let ghost before = self.hits@;
                self.hits.push(i);
                proof {
                    assert(browse::numbers(self.hits@) =~= browse::numbers(before).push(i as nat));
                }
            }
            i = i + 1;
        }
        proof {
            assert(all.take(i as int) =~= all);
        }
    }

    /// Rows settled at the foot of the transcript: what the thing said last
    /// makes at the width of the screen.
    pub fn settle(&mut self, rows: Vec<Line>)
        requires
            old(self).wf(),
        ensures
            final(self).wf(),
            final(self)@ == old(self)@.settled(paint::rows_of(rows@)),
    {
        let mut rows = rows;
        let count: usize = rows.len();
        proof {
            assert(browse::numbers(self.hits@).len() == self.hits@.len());
        }
        if self.back > 0 {
            self.back = self.back.saturating_add(count);
        }
        let from: usize = self.lines.len();
        let ghost before = self.lines@;
        let ghost added = rows@;
        self.lines.append(&mut rows);
        proof {
            assert(self.lines@ =~= before + added);
            assert(self@.lines.take(from as int) =~= paint::rows_of(before));
        }
        self.mark(from);
    }

    /// One line of this build's own words.
    pub fn note(&mut self, said: &str)
        requires
            old(self).wf(),
        ensures
            final(self).wf(),
            final(self)@.said.len() > 0,
            final(self)@.said.drop_last() == old(self)@.said,
            final(self)@.said.last() matches Said::Note(kept) && kept@ == said@,
            final(self)@ == (Stage { said: final(self)@.said, ..old(self)@ }).settled(
                seq![seq![(Role::Warn, said@)]],
            ),
    {
        self.said.push(Said::Note(said.to_owned()));
        self.settle(paint::only(Line::of(Role::Warn, said)));
        proof {
            assert(self@.said.drop_last() =~= old(self)@.said);
        }
    }

    /// The card of commands, on the conversation. `rows` is what it makes at
    /// the width of the screen.
    pub fn card(&mut self, rows: Vec<Line>)
        requires
            old(self).wf(),
        ensures
            final(self).wf(),
            final(self)@ == (Stage {
                said: old(self)@.said.push(Said::Card),
                ..old(self)@
            }).settled(paint::rows_of(rows@)),
    {
        self.said.push(Said::Card);
        self.settle(rows);
    }

    /// A turn that failed. `rows` is what its words make at the width of the
    /// screen.
    pub fn fault(&mut self, error: RpcError, rows: Vec<Line>)
        requires
            old(self).wf(),
        ensures
            final(self).wf(),
            final(self)@ == (Stage {
                said: old(self)@.said.push(Said::Fault(error)),
                ..old(self)@
            }).settled(paint::rows_of(rows@)),
    {
        self.said.push(Said::Fault(error));
        self.settle(rows);
    }

    /// Whether an event can be read with every counter in range.
    pub fn can_push(&self, event: &SessionEvent) -> (r: bool)
        ensures
            r == self@.watching.reading.reads(*event),
    {
        self.live.can_read(event)
    }

    /// One event off the journal, where every counter of it stays in range.
    /// Where one does not, nothing is read.
    pub fn checked_push(&mut self, event: SessionEvent) -> (r: Option<Vec<Draft>>)
        requires
            old(self).wf(),
        ensures
            final(self).wf(),
            r is Some <==> old(self)@.watching.reading.reads(event),
            match r {
                Some(drafts) => {
                    &&& final(self)@ == (Stage {
                        said: old(self)@.said.push(Said::Event(event)),
                        watching: old(self)@.watching.pushed(event).0,
                        ..old(self)@
                    })
                    &&& draft::sketched(drafts@) == old(self)@.watching.pushed(event).1
                },
                None => final(self)@ == old(self)@,
            },
    {
        if self.can_push(&event) {
            Some(self.push(event))
        } else {
            None
        }
    }

    /// One event off the journal. What it makes is folded by the caller and
    /// settled.
    pub fn push(&mut self, event: SessionEvent) -> (drafts: Vec<Draft>)
        requires
            old(self).wf(),
            old(self)@.watching.reading.reads(event),
        ensures
            final(self).wf(),
            final(self)@ == (Stage {
                said: old(self)@.said.push(Said::Event(event)),
                watching: old(self)@.watching.pushed(event).0,
                ..old(self)@
            }),
            draft::sketched(drafts@) == old(self)@.watching.pushed(event).1,
    {
        let drafts = self.live.push(&event);
        self.said.push(Said::Event(event));
        drafts
    }

    /// A turn has begun: what arrives from here is drawn as it arrives, and
    /// the reader, who asked for it, is shown it.
    pub fn started(&mut self, phase: &str)
        requires
            old(self).wf(),
        ensures
            final(self).wf(),
            final(self)@ == (Stage {
                phase: phase@,
                watching: opening(phase@, old(self)@.think),
                working: true,
                back: 0,
                ..old(self)@
            }),
    {
        self.phase = phase.to_owned();
        self.live = Live::new(phase, self.think);
        self.working = true;
        self.back = 0;
    }

    /// The turn is over, however it ended.
    pub fn finished(&mut self)
        requires
            old(self).wf(),
        ensures
            final(self).wf(),
            final(self)@ == (Stage {
                watching: (live::Watching { over: true, ..old(self)@.watching }),
                working: false,
                ..old(self)@
            }),
    {
        self.live.finish();
        self.working = false;
    }

    /// Advance the spinner.
    pub fn tick(&mut self)
        requires
            old(self).wf(),
        ensures
            final(self).wf(),
            final(self)@ == (Stage {
                watching: (live::Watching {
                    tick: old(self)@.watching.tick.wrapping_add(1),
                    ..old(self)@.watching
                }),
                ..old(self)@
            }),
    {
        self.live.tick();
    }

    /// The composer, for the block it draws.
    pub fn live(&self) -> (l: &Live)
        ensures
            l@ == self@.watching,
    {
        &self.live
    }

    /// The model this conversation is on, as the heading says it.
    pub fn model(&self) -> (s: String)
        ensures
            s@ == stripped(self@.title, "chat on "@),
    {
        proof {
            reveal_strlit("chat on ");
        }
        let mut said = self.title.clone();
        loop
            invariant
                stripped(said@, "chat on "@) == stripped(self@.title, "chat on "@),
                "chat on "@.len() > 0,
            ensures
                said@ == stripped(self@.title, "chat on "@),
            decreases said@.len(),
        {
            match text::strip_prefix(said.as_str(), "chat on ") {
                Some(rest) => {
                    said = rest;
                },
                None => {
                    break ;
                },
            }
        }
        said
    }

    fn land(&mut self)
        requires
            old(self).wf(),
        ensures
            final(self).wf(),
            final(self)@ == old(self)@.landed(),
    {
        if self.at < self.hits.len() {
            let line: usize = self.hits[self.at];
            proof {
                assert(self@.hits()[self.at as int] == line);
                if let Some(word) = self@.wanted {
                    lemma_marks_below(self@.lines, word);
                }
            }
            let count: usize = self.lines.len();
            let room: usize = if self.body < 1 {
                1
            } else {
                self.body
            };
            let back: usize = count - line - 1;
            let most: usize = count.saturating_sub(room);
            self.back = if back < most {
                back
            } else {
                most
            };
        }
    }

    /// Build the composer again over the whole conversation.
    fn rebuild(&mut self)
        requires
            old(self)@.recomposes(),
        ensures
            final(self)@ == (Stage { watching: old(self)@.rebuilt(), ..old(self)@ }),
            final(self).hits == old(self).hits,
            final(self).at == old(self).at,
    {
        let ghost start = opening(self@.phase, self@.think);
        let mut live = Live::new(self.phase.as_str(), self.think);
        let mut i: usize = 0;
        proof {
            assert(self.said@.take(0) =~= Seq::<Said>::empty());
        }
        while i < self.said.len()
            invariant
                i <= self.said.len(),
                composable(start, self.said@),
                live@ == heard(start, self.said@.take(i as int)),
            decreases self.said.len() - i,
        {
            proof {
                assert(self.said@.take(i + 1).drop_last() =~= self.said@.take(i as int));
                assert(self.said@.take(i + 1).last() == self.said@[i as int]);
                if !composable(start, self.said@.take(i + 1)) {
                    lemma_composable_stops(start, self.said@, i + 1);
                }
            }
            if let Said::Event(event) = &self.said[i] {
                let _ = live.push(event);
            }
            i = i + 1;
        }
        proof {
            assert(self.said@.take(i as int) =~= self.said@);
        }
        live.mark_over(!self.working || self.live.over());
        self.live = live;
    }

    /// Look for `word` in what has been said, where the whole conversation can
    /// be composed again with every counter in range. Where it cannot, nothing
    /// changes, and the answer is `false`.
    pub fn checked_find(&mut self, word: &str, rows: Vec<Line>) -> (r: bool)
        requires
            old(self).wf(),
        ensures
            final(self).wf(),
            r == old(self)@.recomposes(),
            final(self)@ == if r {
                old(self)@.found(word@, paint::rows_of(rows@))
            } else {
                old(self)@
            },
    {
        if self.can_compose() {
            self.find(word, rows);
            true
        } else {
            false
        }
    }

    /// Look for `word` in what has been said, or - given nothing - stop
    /// looking. The window goes to the newest match: a conversation is read
    /// from its foot. `rows` is what [`Fire::again`] makes at the width of the
    /// screen.
    pub fn find(&mut self, word: &str, rows: Vec<Line>)
        requires
            old(self).wf(),
            old(self)@.recomposes(),
        ensures
            final(self).wf(),
            final(self)@ == old(self)@.found(word@, paint::rows_of(rows@)),
    {
        self.rebuild();
        self.lines = rows;
        let trimmed = trim(word);
        self.wanted = if trimmed.as_str().is_empty() {
            None
        } else {
            Some(lowercase(trimmed.as_str()))
        };
        self.hits = Vec::new();
        proof {
            assert(self@.lines.take(0) =~= Seq::<paint::Row>::empty());
            assert(browse::numbers(self.hits@) =~= Seq::<nat>::empty());
        }
        self.mark(0);
        let count: usize = self.hits.len();
        self.at = count.saturating_sub(1);
        self.land();
    }

    fn walk(&mut self, forward: bool)
        requires
            old(self).wf(),
        ensures
            final(self).wf(),
            final(self)@ == old(self)@.walks(forward),
    {
        let len: usize = self.hits.len();
        proof {
            assert(self@.hits().len() == len);
        }
        if len == 0 {
            return;
        }
        let at: usize = self.at % len;
        self.at = if forward {
            if at >= len - 1 {
                0
            } else {
                at + 1
            }
        } else if at == 0 {
            len - 1
        } else {
            at - 1
        };
        self.land();
    }

    fn moved(&mut self, key: Key, rows: Vec<Line>)
        requires
            old(self).wf(),
            key is Esc ==> old(self)@.recomposes(),
        ensures
            final(self).wf(),
            final(self)@ == old(self)@.moved(key, paint::rows_of(rows@)),
    {
        let fewer: usize = self.body.saturating_sub(1);
        let screenful: usize = if fewer < 1 {
            1
        } else {
            fewer
        };
        match key {
            Key::Up => {
                self.back = self.back.saturating_add(1);
            },
            Key::Down => {
                self.back = self.back.saturating_sub(1);
            },
            Key::PageUp => {
                self.back = self.back.saturating_add(screenful);
            },
            Key::PageDown => {
                self.back = self.back.saturating_sub(screenful);
            },
            Key::Ctrl(c) => {
                if c == 'n' {
                    self.walk(true);
                } else if c == 'p' {
                    self.walk(false);
                }
            },
            Key::Esc => {
                // Back to the foot, and out of a search: both are the reader
                // saying they are done with what they were looking at.
                proof {
                    reveal_strlit("");
                    assert(""@ =~= Seq::<char>::empty());
                }
                self.find("", rows);
                self.back = 0;
            },
            _ => {},
        }
    }

    /// Whether a key is offered to the editor. While a turn runs the reader
    /// may keep typing, but a finished line would be a second prompt against a
    /// busy session, so Enter is held back and the line stays where it is.
    pub fn offers(&self, key: Key) -> (r: bool)
        ensures
            r == !(self@.working && key is Enter),
    {
        match key {
            Key::Enter => !self.working,
            _ => true,
        }
    }

    /// Read one keystroke, where the whole conversation can be composed again
    /// with every counter in range, or the key does not compose it. Where
    /// neither holds, nothing changes.
    pub fn checked_key(&mut self, key: Key, typed: Typed, rows: Vec<Line>) -> (r: Option<Act>)
        requires
            old(self).wf(),
        ensures
            final(self).wf(),
            r is Some <==> (ends_search(key, typed) ==> old(self)@.recomposes()),
            match r {
                Some(act) => (final(self)@, act@) == old(self)@.pressed(
                    key,
                    typed,
                    paint::rows_of(rows@),
                ),
                None => final(self)@ == old(self)@,
            },
    {
        if composes(key, &typed) && !self.can_compose() {
            return None;
        }
        Some(self.key(key, typed, rows))
    }

    /// Read one keystroke the editor was offered, with what it made of it.
    /// `rows` is what [`Fire::again`] makes at the width of the screen, for a
    /// key that [`composes`] the conversation again; no other key looks at it.
    pub fn key(&mut self, key: Key, typed: Typed, rows: Vec<Line>) -> (act: Act)
        requires
            old(self).wf(),
            ends_search(key, typed) ==> old(self)@.recomposes(),
        ensures
            final(self).wf(),
            (final(self)@, act@) == old(self)@.pressed(key, typed, paint::rows_of(rows@)),
    {
        match typed {
            Typed::Editing => Act::Go,
            Typed::Interrupted => Act::Stopped,
            Typed::Left => Act::Leave,
            Typed::Asked(said) => if trim(said.as_str()).as_str().is_empty() {
                Act::Go
            } else {
                Act::Asked(said)
            },
            Typed::Ignored => {
                self.moved(key, rows);
                Act::Go
            },
        }
    }

    /// Whether the whole conversation can be composed again with every counter
    /// in range.
    pub fn can_compose(&self) -> (r: bool)
        ensures
            r == self@.recomposes(),
    {
        let ghost start = opening(self@.phase, self@.think);
        let mut live = Live::new(self.phase.as_str(), self.think);
        let mut i: usize = 0;
        proof {
            assert(self.said@.take(0) =~= Seq::<Said>::empty());
        }
        while i < self.said.len()
            invariant
                i <= self.said.len(),
                start == opening(self@.phase, self@.think),
                live@ == heard(start, self.said@.take(i as int)),
                composable(start, self.said@.take(i as int)),
            decreases self.said.len() - i,
        {
            proof {
                assert(self.said@.take(i + 1).drop_last() =~= self.said@.take(i as int));
                assert(self.said@.take(i + 1).last() == self.said@[i as int]);
            }
            if let Said::Event(event) = &self.said[i] {
                if !live.can_read(event) {
                    proof {
                        lemma_composable_stops(start, self.said@, i + 1);
                    }
                    return false;
                }
                let _ = live.push(event);
            }
            i = i + 1;
        }
        proof {
            assert(self.said@.take(i as int) =~= self.said@);
        }
        true
    }

    /// Compose the whole conversation again, where every counter of it stays in
    /// range. Where one does not, nothing is composed.
    pub fn checked_again(&self) -> (r: Option<Vec<Composed>>)
        ensures
            r is Some <==> self@.recomposes(),
            r matches Some(pieces) ==> pieces@.map_values(|c: Composed| c@) == composed(
                opening(self@.phase, self@.think),
                self@.said,
            ),
    {
        if self.can_compose() {
            Some(self.again())
        } else {
            None
        }
    }

    /// Compose the whole conversation again: what each thing said makes, in
    /// order, to be folded for a terminal that changed size or for a search
    /// that changed.
    pub fn again(&self) -> (pieces: Vec<Composed>)
        requires
            self@.recomposes(),
        ensures
            pieces@.map_values(|c: Composed| c@) == composed(
                opening(self@.phase, self@.think),
                self@.said,
            ),
    {
        let ghost start = opening(self@.phase, self@.think);
        let mut live = Live::new(self.phase.as_str(), self.think);
        let mut pieces: Vec<Composed> = Vec::new();
        let mut i: usize = 0;
        proof {
            assert(self.said@.take(0) =~= Seq::<Said>::empty());
            assert(pieces@.map_values(|c: Composed| c@) =~= Seq::<Piece>::empty());
        }
        while i < self.said.len()
            invariant
                i <= self.said.len(),
                start == opening(self@.phase, self@.think),
                composable(start, self.said@),
                live@ == heard(start, self.said@.take(i as int)),
                pieces@.map_values(|c: Composed| c@) == composed(start, self.said@.take(i as int)),
            decreases self.said.len() - i,
        {
            let ghost before = pieces@.map_values(|c: Composed| c@);
            proof {
                assert(self.said@.take(i + 1).drop_last() =~= self.said@.take(i as int));
                assert(self.said@.take(i + 1).last() == self.said@[i as int]);
                if !composable(start, self.said@.take(i + 1)) {
                    lemma_composable_stops(start, self.said@, i + 1);
                }
            }
            let piece = match &self.said[i] {
                Said::Event(event) => Composed::Drafts(live.push(event)),
                _ => Composed::Kept,
            };
            pieces.push(piece);
            proof {
                assert(pieces@.map_values(|c: Composed| c@) =~= before.push(piece@));
            }
            i = i + 1;
        }
        proof {
            assert(self.said@.take(i as int) =~= self.said@);
        }
        pieces
    }

    /// One thing that was said, by its place.
    pub fn said(&self, i: usize) -> (r: &Said)
        requires
            i < self@.said.len(),
        ensures
            *r == self@.said[i as int],
    {
        &self.said[i]
    }

    /// How many things were said.
    pub fn count(&self) -> (n: usize)
        ensures
            n == self@.said.len(),
    {
        self.said.len()
    }

    /// The width the rows were composed for.
    pub fn width(&self) -> (n: usize)
        ensures
            n == self@.width,
    {
        self.width
    }

    /// The rows of the whole conversation at another width, where it can be
    /// composed again with every counter in range. Where it cannot, nothing
    /// changes, and the answer is `false`.
    pub fn checked_refill(&mut self, cols: usize, rows: Vec<Line>) -> (r: bool)
        requires
            old(self).wf(),
        ensures
            final(self).wf(),
            r == old(self)@.recomposes(),
            final(self)@ == if r {
                old(self)@.refilled(cols as nat, paint::rows_of(rows@))
            } else {
                old(self)@
            },
    {
        if self.can_compose() {
            self.refill(cols, rows);
            true
        } else {
            false
        }
    }

    /// The rows of the whole conversation at another width: what
    /// [`Fire::again`] makes there. The composer is built again with them,
    /// because a block folded for the old width is as wrong as a row folded
    /// for it. How far back the reader had scrolled is kept, in rows; an open
    /// search is made again.
    pub fn refill(&mut self, cols: usize, rows: Vec<Line>)
        requires
            old(self).wf(),
            old(self)@.recomposes(),
        ensures
            final(self).wf(),
            final(self)@ == old(self)@.refilled(cols as nat, paint::rows_of(rows@)),
    {
        self.rebuild();
        self.lines = rows;
        self.width = cols;
        self.hits = Vec::new();
        proof {
            assert(self@.lines.take(0) =~= Seq::<paint::Row>::empty());
            assert(browse::numbers(self.hits@) =~= Seq::<nat>::empty());
        }
        self.mark(0);
    }

    /// The word being looked for, to be drawn where no line holds it.
    pub fn wanted(&self) -> (r: Option<&str>)
        ensures
            (match r {
                Some(word) => Some(word@),
                None => None,
            }) == self@.wanted,
    {
        match &self.wanted {
            Some(word) => Some(word.as_str()),
            None => None,
        }
    }

    fn hint(&self, charset: Charset) -> (s: String)
        ensures
            s@ == self@.hint(charset),
    {
        let dot = charset.glyph("·", "-");
        match &self.wanted {
            Some(_) => {
                let mut s = text::cat("ctrl-n next ", dot);
                s.append(" ctrl-p back ");
                s.append(dot);
                s.append(" esc done ");
                s.append(dot);
                s.append(" ctrl-c leave");
                s
            },
            None => {
                let mut s = text::cat("enter ask ", dot);
                s.append(" ");
                s.append(charset.glyph("↑↓", "up/dn"));
                s.append(" scroll ");
                s.append(dot);
                s.append(" /help ");
                s.append(dot);
                s.append(" /find ");
                s.append(dot);
                s.append(" ctrl-c leave");
                s
            },
        }
    }

    fn here(&self, drawn: &str) -> (l: Line)
        requires
            self.wf(),
        ensures
            l@ == seq![(self@.part(), self@.here(drawn@))],
    {
        proof {
            assert(self@.hits().len() == self.hits@.len());
        }
        let searching = match &self.wanted {
            Some(_) => true,
            None => false,
        };
        let count: usize = self.hits.len();
        let role = if searching && count == 0 {
            Role::Warn
        } else if self.working {
            Role::Accent
        } else {
            Role::Muted
        };
        let said = if searching {
            if count == 0 {
                text::cat("no line holds ", drawn)
            } else {
                let mut s = decimal(self.at as u64 + 1);
                s.append(" of ");
                s.append(decimal(count as u64).as_str());
                s
            }
        } else if self.back > 0 {
            let mut s = decimal(self.back as u64);
            s.append(" back");
            s
        } else if self.working {
            "working".to_owned()
        } else {
            "end".to_owned()
        };
        Line::of(role, said.as_str())
    }

    /// The whole screen as of now. `block` is the composer's, `typed` and
    /// `cursor` the line being typed and the place in it as the editor shows
    /// them, and `drawn` the word being looked for as the terminal draws it.
    pub fn frame(
        &mut self,
        height: usize,
        charset: Charset,
        block: &Vec<Line>,
        typed: &str,
        cursor: usize,
        drawn: &str,
    ) -> (s: Scene)
        requires
            old(self).wf(),
            cursor + LABEL <= usize::MAX,
        ensures
            final(self).wf(),
            final(self)@ == old(self)@.measured(height as nat, paint::rows_of(block@)),
            s.head.0@ == seq![(Role::Heading, NAME@)],
            s.head.1@ == seq![(Role::Muted, old(self)@.title)],
            ({
                let kept = old(self)@.kept(paint::rows_of(block@), height as nat);
                let room = (final(self)@.body - kept.len()) as nat;
                paint::rows_of(s.rows@) == paint::filled(
                    final(self)@.window(room) + kept,
                    rows::left_of(height as nat, 1),
                )
            }),
            s.prompt@ == seq![(Role::Accent, MARKER@), rows::plain(typed@)],
            s.hint@ == final(self)@.hint(charset),
            s.short@ == "enter ask "@ + paint::glyph_of(charset, "·"@, "-"@) + " ctrl-c leave"@,
            s.here@ == seq![(final(self)@.part(), final(self)@.here(drawn@))],
            s.cursor == (rows::left_of(height as nat, 2) as usize, (LABEL + cursor) as usize),
    {
        let body: usize = height.saturating_sub(CHROME);
        self.body = body;
        let ghost whole = paint::rows_of(block@);
        let cut: usize = block.len().saturating_sub(body);
        let shown: usize = block.len() - cut;
        let ghost kept = old(self)@.kept(whole, height as nat);
        let room: usize = body - shown;
        let count: usize = self.lines.len();
        let most: usize = count.saturating_sub(room);
        if self.back > most {
            self.back = most;
        }
        let end: usize = count - self.back;
        let start: usize = end.saturating_sub(room);
        let ghost window = self@.window(room as nat);
        let mut between: Vec<Line> = Vec::new();
        let mut i: usize = start;
        proof {
            assert(window.take(0) =~= Seq::<paint::Row>::empty());
        }
        while i < end
            invariant
                start <= i <= end <= self.lines@.len(),
                window == self@.lines.subrange(start as int, end as int),
                paint::rows_of(between@) == window.take(i - start),
            decreases end - i,
        {
            let mut l = Line::blank();
            l.join(&self.lines[i]);
            proof {
                assert(self@.lines[i as int] == self.lines@[i as int]@);
                assert(l@ =~= window[i - start]);
                assert(window.take(i - start + 1) =~= window.take(i - start).push(
                    window[i - start],
                ));
            }
            between.push(l);
            i = i + 1;
        }
        proof {
            assert(window.take(end - start) =~= window);
            assert(window + kept.take(0) =~= window);
        }
        let mut i: usize = 0;
        while i < shown
            invariant
                i <= shown,
                cut + shown == block@.len(),
                block@.len() <= usize::MAX,
                whole == paint::rows_of(block@),
                kept == whole.skip(cut as int),
                paint::rows_of(between@) == window + kept.take(i as int),
            decreases shown - i,
        {
            let mut l = Line::blank();
            l.join(&block[cut + i]);
            proof {
                assert(kept[i as int] == block@[cut + i]@);
                assert(l@ =~= kept[i as int]);
                assert((window + kept.take(i as int)).push(kept[i as int]) =~= window + kept.take(
                    i + 1,
                ));
            }
            between.push(l);
            i = i + 1;
        }
        proof {
            assert(kept.take(shown as int) =~= kept);
        }
        let mut prompt = Line::of(Role::Accent, MARKER);
        prompt.put(Role::Plain, typed);
        proof {
            assert(prompt@ =~= seq![(Role::Accent, MARKER@), rows::plain(typed@)]);
        }
        let mut short = text::cat("enter ask ", charset.glyph("·", "-"));
        short.append(" ctrl-c leave");
        Scene {
            head: (Line::of(Role::Heading, NAME), Line::of(Role::Muted, self.title.as_str())),
            rows: paint::fill(between, height.saturating_sub(1)),
            prompt,
            hint: self.hint(charset),
            short,
            here: self.here(drawn),
            cursor: (height.saturating_sub(2), LABEL + cursor),
        }
    }
}

proof fn lemma_composable_stops(start: live::Watching, said: Seq<Said>, n: int)
    requires
        0 <= n <= said.len(),
        !composable(start, said.take(n)),
    ensures
        !composable(start, said),
    decreases said.len() - n,
{
    if n == said.len() {
        assert(said.take(n) =~= said);
    } else {
        assert(said.take(n + 1).drop_last() =~= said.take(n));
        lemma_composable_stops(start, said, n + 1);
    }
}

// ---- laws ----

/// A window a reader has scrolled back does not move for what settles under
/// it: the rows it shows are the rows it showed.
pub proof fn lemma_arriving_rows_move_nothing(
    view: Stage,
    settling: Seq<paint::Row>,
    room: nat,
)
    requires
        0 < view.back <= view.lines.len(),
        view.back + settling.len() <= usize::MAX,
    ensures
        view.settled(settling).window(room) == view.window(room),
{
    assert(view.settled(settling).window(room) =~= view.window(room));
}

/// A window at the foot follows: what settles is what it ends in.
pub proof fn lemma_the_foot_follows(view: Stage, settling: Seq<paint::Row>, room: nat)
    requires
        view.back == 0,
        settling.len() <= room,
    ensures
        ({
            let shown = view.settled(settling).window(room);
            shown.skip(shown.len() - settling.len()) == settling
        }),
{
    let shown = view.settled(settling).window(room);
    assert(shown.skip(shown.len() - settling.len()) =~= settling);
}

/// A turn that is running keeps its block: the composer it is begun with is
/// not over while no end of it has arrived, and neither a resize nor a search
/// makes it so, whatever ended before it. Where no turn runs, there is none.
pub proof fn lemma_a_running_turn_keeps_its_block(
    view: Stage,
    phase: Seq<char>,
    events: Seq<SessionEvent>,
    cols: nat,
    word: Seq<char>,
    rows: Seq<paint::Row>,
)
    requires
        forall|i: int| 0 <= i < events.len() ==> !live::ends(#[trigger] events[i]),
    ensures
        !opening(phase, view.think).after(events).over,
        view.refilled(cols, rows).watching.over == (!view.working || view.watching.over),
        view.found(word, rows).watching == view.refilled(view.width, rows).watching,
{
    live::lemma_over_is_over(opening(phase, view.think), events);
}

/// A composer built again starts its spinner again, and has read everything
/// that was said.
pub proof fn lemma_a_composer_is_built_again(view: Stage, cols: nat, rows: Seq<paint::Row>)
    ensures
        view.refilled(cols, rows).watching.tick == 0,
        view.refilled(cols, rows).watching.reading == heard(
            opening(view.phase, view.think),
            view.said,
        ).reading,
{
    lemma_hearing_turns_no_spinner(opening(view.phase, view.think), view.said);
}

proof fn lemma_hearing_turns_no_spinner(start: live::Watching, said: Seq<Said>)
    ensures
        heard(start, said).tick == start.tick,
    decreases said.len(),
{
    if said.len() > 0 {
        lemma_hearing_turns_no_spinner(start, said.drop_last());
    }
}

/// Only a line with words on it is asked, and as it was typed.
pub proof fn lemma_only_a_line_with_words_is_asked(
    view: Stage,
    key: Key,
    typed: Typed,
    rows: Seq<paint::Row>,
)
    ensures
        view.pressed(key, typed, rows).1 matches Wanted::Asked(said) ==> typed matches Typed::Asked(line)
            && said == line@ && text::trimmed(said).len() > 0,
{
}

/// The two ways out are told apart, and no key the view answers itself is one.
pub proof fn lemma_the_two_ways_out(view: Stage, key: Key, typed: Typed, rows: Seq<paint::Row>)
    ensures
        (view.pressed(key, typed, rows).1 is Leave) <==> (typed is Left),
        (view.pressed(key, typed, rows).1 is Stopped) <==> (typed is Interrupted),
{
}

/// A search lands on its newest match: the last line that holds the word is
/// in the window.
pub proof fn lemma_a_search_lands_on_the_newest(
    view: Stage,
    word: Seq<char>,
    rows: Seq<paint::Row>,
)
    requires
        view.found(word, rows).hits().len() > 0,
        rows.len() <= usize::MAX,
        view.body > 0,
    ensures
        ({
            let next = view.found(word, rows);
            let line = next.hits().last();
            let end = rows::left_of(next.lines.len(), next.back);
            &&& next.at + 1 == next.hits().len()
            &&& rows::left_of(end, view.body) <= line < end
        }),
{
    let next = view.found(word, rows);
    if let Some(wanted) = next.wanted {
        lemma_marks_below(next.lines, wanted);
    }
}

/// Escape ends the search and goes back to the foot.
pub proof fn lemma_escape_is_done_looking(view: Stage, rows: Seq<paint::Row>)
    ensures
        view.moved(Key::Esc, rows).wanted is None,
        view.moved(Key::Esc, rows).back == 0,
        view.moved(Key::Esc, rows).lines == rows,
{
    assert(text::trimmed(Seq::<char>::empty()).len() == 0);
}

/// What is composed again is one piece for each thing that was said, in order: an
/// event as it is drawn after those before it, and everything else as it was
/// kept. Only an event is heard.
pub proof fn lemma_everything_said_is_composed_again(
    start: live::Watching,
    said: Seq<Said>,
    next: Said,
)
    ensures
        composed(start, Seq::empty()).len() == 0,
        heard(start, Seq::empty()) == start,
        composed(start, said.push(next)) == composed(start, said).push(
            match next {
                Said::Event(event) => Piece::Drafts(heard(start, said).pushed(event).1),
                _ => Piece::Kept,
            },
        ),
        heard(start, said.push(next)) == match next {
            Said::Event(event) => heard(start, said).pushed(event).0,
            _ => heard(start, said),
        },
        composed(start, said).len() == said.len(),
    decreases said.len(),
{
    assert(said.push(next).drop_last() =~= said);
    if said.len() > 0 {
        assert(said.drop_last().push(said.last()) =~= said);
        lemma_everything_said_is_composed_again(start, said.drop_last(), said.last());
    }
}

/// The marks of a word are the lines that hold it, all of them and no others, in
/// order; a line holds it however it is cased.
pub proof fn lemma_marks_are_the_lines_that_hold_it(lines: Seq<paint::Row>, word: Seq<char>)
    ensures
        forall|i: nat|
            #[trigger] marks(lines, word).contains(i) <==> i < lines.len() && text::holds(
                text::lowercase_of(paint::read(lines[i as int])),
                word,
            ),
        forall|i: int, j: int|
            0 <= i < j < marks(lines, word).len() ==> #[trigger] marks(lines, word)[i]
                < #[trigger] marks(lines, word)[j],
    decreases lines.len(),
{
    if lines.len() > 0 {
        let rest = lines.drop_last();
        let last = (lines.len() - 1) as nat;
        lemma_marks_are_the_lines_that_hold_it(rest, word);
        lemma_marks_below(rest, word);
        let before = marks(rest, word);
        assert forall|i: nat| #[trigger] marks(lines, word).contains(i) <==> i < lines.len()
            && text::holds(text::lowercase_of(paint::read(lines[i as int])), word) by {
            if i < last {
                assert(rest[i as int] == lines[i as int]);
                assert(before.contains(i) <==> text::holds(
                    text::lowercase_of(paint::read(rest[i as int])),
                    word,
                ));
            }
            if before.contains(i) {
                let k = before.index_of(i);
                assert(marks(lines, word)[k] == i);
            }
            if i == last && text::holds(text::lowercase_of(paint::read(lines.last())), word) {
                assert(marks(lines, word).last() == i);
            }
            if marks(lines, word).contains(i) && !before.contains(i) {
                let k = marks(lines, word).index_of(i);
                assert(k >= before.len());
            }
        }
    }
}

/// A search is for the word without the blanks around it and without regard to
/// case, over the lines as they are composed again, and starts at the last line
/// that holds it. A blank word ends it.
pub proof fn lemma_a_search_is_for_the_trimmed_word(
    view: Stage,
    word: Seq<char>,
    rows: Seq<paint::Row>,
)
    ensures
        ({
            let next = view.found(word, rows);
            &&& text::trimmed(word).len() == 0 ==> next.wanted is None && next.hits().len() == 0
            &&& text::trimmed(word).len() > 0 ==> next.wanted == Some(
                text::lowercase_of(text::trimmed(word)),
            )
            &&& next.lines == rows
            &&& next.hits().len() > 0 ==> next.at == next.hits().len() - 1
            &&& next.said == view.said && next.working == view.working && next.title == view.title
        }),
{
}

/// Walking the marks goes to the next one or the one before, and round at either
/// end; and where there is none it goes nowhere.
pub proof fn lemma_a_walk_goes_round_the_marks(view: Stage)
    requires
        view.at < view.hits().len(),
    ensures
        ({
            let len = view.hits().len();
            let on = view.walks(true).at;
            let back = view.walks(false).at;
            &&& view.at + 1 < len ==> on == view.at + 1
            &&& view.at + 1 == len ==> on == 0
            &&& view.at > 0 ==> back == view.at - 1
            &&& view.at == 0 ==> back == len - 1
            &&& view.walks(true).wanted == view.wanted && view.walks(true).lines == view.lines
        }),
{
    let len = view.hits().len();
    assert(view.at % len == view.at) by (nonlinear_arith)
        requires
            view.at < len,
    ;
}

/// A key that the editor leaves moves the window and nothing else: a row or a
/// screenful either way, never past the foot.
pub proof fn lemma_a_key_moves_the_window(view: Stage, rows: Seq<paint::Row>)
    requires
        view.back + view.screenful() <= usize::MAX,
    ensures
        ({
            let page: nat = if view.body > 2 {
                (view.body - 1) as nat
            } else {
                1
            };
            &&& view.moved(Key::Up, rows) == (Stage { back: view.back + 1, ..view })
            &&& view.moved(Key::PageUp, rows) == (Stage { back: view.back + page, ..view })
            &&& view.moved(Key::Down, rows) == (Stage {
                back: if view.back > 0 {
                    (view.back - 1) as nat
                } else {
                    0
                },
                ..view
            })
            &&& view.moved(Key::PageDown, rows) == (Stage {
                back: if view.back > page {
                    (view.back - page) as nat
                } else {
                    0
                },
                ..view
            })
            &&& view.moved(Key::Ctrl('n'), rows) == view.walks(true)
            &&& view.moved(Key::Ctrl('p'), rows) == view.walks(false)
        }),
{
}

/// What was typed decides what comes of a key, before the key does: an edit stays
/// in the line, an interrupt stops, an end leaves, a finished line is asked as it
/// was typed unless it is blank, and only a key the editor leaves moves anything.
pub proof fn lemma_what_was_typed_decides(
    view: Stage,
    key: Key,
    line: String,
    rows: Seq<paint::Row>,
)
    ensures
        view.pressed(key, Typed::Editing, rows) == (view, Wanted::Go),
        view.pressed(key, Typed::Interrupted, rows) == (view, Wanted::Stopped),
        view.pressed(key, Typed::Left, rows) == (view, Wanted::Leave),
        text::trimmed(line@).len() > 0 ==> view.pressed(key, Typed::Asked(line), rows) == (
            view,
            Wanted::Asked(line@),
        ),
        text::trimmed(line@).len() == 0 ==> view.pressed(key, Typed::Asked(line), rows) == (
            view,
            Wanted::Go,
        ),
        view.pressed(key, Typed::Ignored, rows) == (view.moved(key, rows), Wanted::Go),
        ends_search(key, Typed::Ignored) <==> key is Esc,
        !ends_search(key, Typed::Editing),
{
}

/// The window is so many lines up to as many back as the reader has scrolled, one
/// after the other, and no more than there is room for.
pub proof fn lemma_the_window_is_a_run_of_lines(view: Stage, room: nat, i: int)
    requires
        view.back <= view.lines.len(),
    ensures
        ({
            let shown = view.window(room);
            let end = view.lines.len() - view.back;
            &&& shown.len() == if end < room {
                end
            } else {
                room as int
            }
            &&& 0 <= i < shown.len() ==> shown[i] == view.lines[end - shown.len() + i]
        }),
{
}

/// A frame measures what it has room for: the rows between its furniture, of
/// which the end of the block over a turn takes what it needs, and the window is
/// brought back to where there are lines for it.
pub proof fn lemma_a_frame_measures_its_room(view: Stage, height: nat, block: Seq<paint::Row>)
    ensures
        ({
            let next = view.measured(height, block);
            let kept = view.kept(block, height);
            let room = (next.body - kept.len()) as nat;
            &&& next.body == if height > 5 {
                (height - 5) as nat
            } else {
                0
            }
            &&& kept.len() <= next.body
            &&& block.len() <= next.body ==> kept == block
            &&& block.len() > next.body ==> kept.len() == next.body && forall|i: int|
                0 <= i < kept.len() ==> #[trigger] kept[i] == block[block.len() - kept.len() + i]
            &&& next.back <= view.back
            &&& next.back + room <= view.lines.len() || next.back == 0
            &&& view.back + room <= view.lines.len() ==> next.back == view.back
            &&& next == (Stage { body: next.body, back: next.back, ..view })
        }),
{
}

/// Where the reader is, is told: which mark of how many while there is a search,
/// how far back where the window is, and whether a turn is at work at the foot.
pub proof fn lemma_the_reader_is_told_where_they_are(view: Stage, drawn: Seq<char>)
    ensures
        view.wanted is Some && view.hits().len() > 0 ==> view.here(drawn) == text::dec(view.at + 1)
            + " of "@ + text::dec(view.hits().len()),
        view.wanted is Some && view.hits().len() == 0 ==> view.here(drawn) == "no line holds "@
            + drawn && view.part() == Role::Warn,
        view.wanted is None && view.back > 0 ==> view.here(drawn) == text::dec(view.back)
            + " back"@,
        view.wanted is None && view.back == 0 && view.working ==> view.here(drawn) == "working"@,
        view.wanted is None && view.back == 0 && !view.working ==> view.here(drawn) == "end"@,
        view.wanted is None ==> view.part() == if view.working {
            Role::Accent
        } else {
            Role::Muted
        },
{
}

/// A chat is titled with its model, and the model is read back from the title.
pub proof fn lemma_the_title_names_the_model(width: nat, model: Seq<char>, think: bool)
    requires
        !"chat on "@.is_prefix_of(model),
    ensures
        Stage::fresh(width, model, think).title == "chat on "@ + model,
        stripped(Stage::fresh(width, model, think).title, "chat on "@) == model,
{
    reveal_strlit("chat on ");
    let title = "chat on "@ + model;
    assert("chat on "@.is_prefix_of(title)) by {
        assert("chat on "@ =~= title.subrange(0, "chat on "@.len() as int));
    }
    assert(title.skip("chat on "@.len() as int) =~= model);
    assert(stripped(model, "chat on "@) == model);
}

/// A new chat has said nothing, works at nothing and looks for nothing.
pub proof fn lemma_a_new_chat_is_at_rest(width: nat, model: Seq<char>, think: bool)
    ensures
        ({
            let view = Stage::fresh(width, model, think);
            &&& view.said.len() == 0 && view.lines.len() == 0
            &&& view.back == 0 && view.at == 0 && view.body == 0
            &&& !view.working && view.watching.over
            &&& view.wanted is None
            &&& view.width == width && view.think == think
        }),
{
}

/// Rows that settle are added under those that did. A reader at the foot stays at
/// the foot, and one that is further back is as many rows further.
pub proof fn lemma_rows_settle_under_the_others(view: Stage, rows: Seq<paint::Row>)
    requires
        view.back + rows.len() <= usize::MAX,
    ensures
        view.settled(rows).lines == view.lines + rows,
        view.back == 0 ==> view.settled(rows).back == 0,
        view.back > 0 ==> view.settled(rows).back == view.back + rows.len(),
        view.settled(rows) == (Stage {
            lines: view.settled(rows).lines,
            back: view.settled(rows).back,
            ..view
        }),
{
}

/// The keys of a chat are told at its foot: those of the search while there is one,
/// and otherwise those of the line.
pub proof fn lemma_the_foot_tells_the_keys(view: Stage, charset: Charset)
    ensures
        ({
            let dot = paint::glyph_of(charset, "·"@, "-"@);
            &&& view.wanted is Some ==> view.hint(charset) == "ctrl-n next "@ + dot
                + " ctrl-p back "@ + dot + " esc done "@ + dot + " ctrl-c leave"@
            &&& view.wanted is None ==> view.hint(charset) == "enter ask "@ + dot + " "@
                + paint::glyph_of(charset, "↑↓"@, "up/dn"@) + " scroll "@ + dot + " /help "@ + dot
                + " /find "@ + dot + " ctrl-c leave"@
        }),
{
}

} // verus!
