//! A turn's events as something a person reads.
//!
//! Composing a row and writing it are separate on purpose. A [`Reader`] turns
//! one event into the drafts of the rows it makes and writes nothing. A draft
//! is what this crate can say of a row before the terminal has folded, cut and
//! measured the text in it; the functions at the end of this module finish one
//! with what came back.
//!
//! A chunk of an answer is not drawn: the message that follows carries the
//! same text assembled, and a reader of a finished turn wants the sentence. A
//! tool's result is paired to its call by id and never by arrival order, and
//! says which call it answers when that is not the one just made. Thinking is
//! folded to one line unless it was asked for. What a call was given is cut to
//! the line; what it produced is folded to the width and capped in height.
use vstd::prelude::*;
use vstd::string::*;

use crate::event;
use crate::event::{KnownEvent, SessionEvent, StopReason, Usage};
use crate::json;
use crate::paint;
use crate::paint::{Charset, Line, Role};
use crate::render::draft;
use crate::render::draft::{Closing, Draft, Speaker};
use crate::render::figures;
use crate::render::figures::{rate, FLOOR};
use crate::render::rows;
use crate::text;
use crate::text::{decimal, join, same};

verus! {

broadcast use {crate::text::group_views, crate::paint::group_rows, crate::render::draft::group_sketched};

/// Columns a label takes, and the indent before it.
pub const LABEL: usize = 5;

/// Where a content row starts: two of indent, the label, one more.
pub const MARGIN: usize = 8;

/// Lines of a tool's result drawn before the middle of it is folded away.
///
/// Lines the tool wrote, not rows the terminal draws: counted in rows, the
/// same result would fold differently at every width and the cut would land
/// inside a line.
pub const CAP: usize = 16;

/// Lines kept at each end of a result that is folded.
pub const KEEP: usize = 8;

/// How long after one moment another came, and nothing when it came before.
pub open spec fn late(from: u64, to: u64) -> u64 {
    if to >= from {
        (to - from) as u64
    } else {
        0
    }
}

/// What the journal says about the speed of a turn: the wait for the first
/// token, and the rate the rest of it decoded at.
#[derive(Clone, Copy, PartialEq, Eq, Structural, Debug)]
pub struct Pace {
    /// When the step in progress started, and when its first chunk arrived.
    pub step: Option<u64>,
    pub first: Option<u64>,
    /// The wait for the first token of the turn's first step, which is the one
    /// a reader is waiting through. Later steps are waiting on a tool.
    pub waited: Option<u64>,
    /// Milliseconds spent decoding, and the tokens decoded in them, over every
    /// step that recorded both.
    pub decoding: u64,
    pub decoded: u64,
}

impl Pace {
    /// A turn nothing has been heard of.
    pub open spec fn none() -> Pace {
        Pace { step: None, first: None, waited: None, decoding: 0, decoded: 0 }
    }

    /// A turn nothing has been heard of.
    pub fn new() -> (p: Pace)
        ensures
            p == Pace::none(),
    {
        Pace { step: None, first: None, waited: None, decoding: 0, decoded: 0 }
    }

    /// The pace once a step began.
    pub open spec fn stepped(self, time: u64) -> Pace {
        Pace { step: Some(time), first: None, ..self }
    }

    /// The pace once a chunk arrived. Only the first of a step says anything,
    /// and only the first step's wait is kept.
    pub open spec fn chunked(self, time: u64) -> Pace {
        if self.first is Some {
            self
        } else {
            Pace {
                first: Some(time),
                waited: match (self.waited, self.step) {
                    (None, Some(step)) => Some(late(step, time)),
                    (waited, _) => waited,
                },
                ..self
            }
        }
    }

    /// Whether a message that settles now leaves both counters in range.
    pub open spec fn settles(self, time: u64, usage: Option<Usage>) -> bool {
        match (self.first, usage) {
            (Some(first), Some(usage)) => {
                &&& self.decoding + late(first, time) <= u64::MAX
                &&& self.decoded + usage.completion_tokens <= u64::MAX
            },
            _ => true,
        }
    }

    /// The pace once a message settled, carrying what it cost. A step missing
    /// either half is left out rather than counted as instant.
    pub open spec fn done(self, time: u64, usage: Option<Usage>) -> Pace {
        match (self.first, usage) {
            (Some(first), Some(usage)) => Pace {
                step: None,
                first: None,
                decoding: (self.decoding + late(first, time)) as u64,
                decoded: (self.decoded + usage.completion_tokens) as u64,
                ..self
            },
            _ => Pace { step: None, first: None, ..self },
        }
    }

    /// The wait for the first token, when it was long enough to report.
    pub open spec fn wait(self) -> Option<u64> {
        match self.waited {
            Some(waited) => if waited >= FLOOR {
                Some(waited)
            } else {
                None
            },
            None => None,
        }
    }

    /// A step began.
    pub fn step(&mut self, time: u64)
        ensures
            *final(self) == old(self).stepped(time),
    {
        self.step = Some(time);
        self.first = None;
    }

    /// A chunk arrived.
    pub fn chunk(&mut self, time: u64)
        ensures
            *final(self) == old(self).chunked(time),
    {
        if self.first.is_some() {
            return ;
        }
        self.first = Some(time);
        if let Some(step) = self.step {
            if self.waited.is_none() {
                self.waited = Some(time.saturating_sub(step));
            }
        }
    }

    /// A message settled, carrying what it cost.
    pub fn settled(&mut self, time: u64, usage: Option<Usage>)
        requires
            old(self).settles(time, usage),
        ensures
            *final(self) == old(self).done(time, usage),
    {
        if let Some(usage) = usage {
            if let Some(first) = self.first {
                self.decoding = self.decoding + time.saturating_sub(first);
                self.decoded = self.decoded + usage.completion_tokens;
            }
        }
        self.step = None;
        self.first = None;
    }

    /// Tokens a second, over the steps that recorded both halves of it.
    pub fn rate(&self) -> (r: Option<u64>)
        requires
            figures::ratable(self.decoded, self.decoding),
        ensures
            match r {
                Some(rate) => figures::rate_of(self.decoded as nat, self.decoding as nat) == Some(
                    rate as nat,
                ),
                None => figures::rate_of(self.decoded as nat, self.decoding as nat) is None,
            },
    {
        rate(self.decoded, self.decoding)
    }

    /// The wait for the first token, when there was one worth reporting.
    pub fn waited(&self) -> (r: Option<u64>)
        ensures
            r == self.wait(),
    {
        match self.waited {
            Some(waited) => if waited >= FLOOR {
                Some(waited)
            } else {
                None
            },
            None => None,
        }
    }
}

/// The lines of a text that say something, without the blanks around them.
pub open spec fn spoken(lines: Seq<Seq<char>>) -> Seq<Seq<char>>
    decreases lines.len(),
{
    if lines.len() == 0 {
        Seq::empty()
    } else {
        let before = spoken(lines.drop_last());
        let last = text::trimmed(lines.last());
        if last.len() == 0 {
            before
        } else {
            before.push(last)
        }
    }
}

/// Thinking folded to one row: nothing when it says nothing.
pub open spec fn folding(reasoning: Seq<char>) -> Seq<draft::Sketch> {
    let said = spoken(text::lines_of(reasoning));
    if said.len() == 0 {
        Seq::empty()
    } else {
        seq![draft::Sketch::Folded(said[0], (said.len() - 1) as nat)]
    }
}

/// A value on one line: its words, with one blank between each two.
pub open spec fn flat(value: Seq<char>) -> Seq<char> {
    text::joined(text::words_of(value), " "@)
}

/// What a reader has to remember between events, by what it says.
pub struct Reading {
    pub think: bool,
    pub whole: bool,
    pub open_call: Option<Seq<char>>,
    pub spent: Option<Usage>,
    pub started: Option<u64>,
    pub pace: Pace,
}

/// The tokens of one more step, added to what was spent before it.
pub open spec fn billed(spent: Option<Usage>, usage: Usage) -> Usage {
    match spent {
        Some(before) => Usage {
            prompt_tokens: (before.prompt_tokens + usage.prompt_tokens) as u64,
            completion_tokens: (before.completion_tokens + usage.completion_tokens) as u64,
        },
        None => usage,
    }
}

impl Reading {
    /// Whether drawing an event keeps every counter in range.
    pub open spec fn affords(self, time: u64, fact: event::Fact) -> bool {
        match fact {
            event::Fact::AssistantMessage { usage, .. } => {
                &&& self.pace.settles(time, usage)
                &&& match (self.spent, usage) {
                    (Some(before), Some(usage)) => {
                        &&& before.prompt_tokens + usage.prompt_tokens <= u64::MAX
                        &&& before.completion_tokens + usage.completion_tokens <= u64::MAX
                    },
                    _ => true,
                }
            },
            event::Fact::TurnEnd { .. } => {
                &&& self.spent matches Some(spent) ==> spent.prompt_tokens
                    + spent.completion_tokens <= u64::MAX
                &&& self.took(time) is Some ==> figures::ratable(
                    self.pace.decoded,
                    self.pace.decoding,
                )
            },
            _ => true,
        }
    }

    /// How long the turn that ends now took, when somebody waited for it.
    pub open spec fn took(self, time: u64) -> Option<u64> {
        match self.started {
            Some(start) => if late(start, time) >= 1_000 {
                Some(late(start, time))
            } else {
                None
            },
            None => None,
        }
    }

    /// How a turn that ends now is closed.
    pub open spec fn closing(
        self,
        time: u64,
        turn: u64,
        steps: u32,
        reason: event::Stop,
        veto: Option<Seq<char>>,
    ) -> draft::Close {
        let took = self.took(time);
        let rate = figures::rate_of(self.pace.decoded as nat, self.pace.decoding as nat);
        draft::Close {
            turn,
            steps,
            reason,
            took,
            total: match self.spent {
                Some(spent) => Some((spent.prompt_tokens + spent.completion_tokens) as u64),
                None => None,
            },
            waited: if took is Some {
                self.pace.wait()
            } else {
                None
            },
            rate: if took is Some && rate is Some {
                Some(rate->0 as u64)
            } else {
                None
            },
            veto,
        }
    }

    /// What one event makes, and what the reader remembers after it.
    pub open spec fn drawn(self, time: u64, fact: event::Fact) -> (Reading, Seq<draft::Sketch>) {
        match fact {
            event::Fact::SessionStart { model } => (self, seq![draft::Sketch::Session(model)]),
            event::Fact::TurnStart { turn } => (
                Reading { spent: None, started: Some(time), pace: Pace::none(), ..self },
                seq![
                    draft::Sketch::Row(Seq::empty()),
                    draft::Sketch::Row(seq![(Role::Heading, "turn "@ + text::dec(turn as nat))]),
                ],
            ),
            event::Fact::StepStart { step, .. } => (
                Reading { pace: self.pace.stepped(time), ..self },
                seq![draft::Sketch::Row(seq![(Role::Muted, "  step "@ + text::dec(step as nat))])],
            ),
            event::Fact::UserMessage { content } => (
                self,
                seq![draft::Sketch::Said(Speaker::You, content)],
            ),
            event::Fact::AssistantMessage { content, reasoning, usage, .. } => (
                Reading {
                    pace: self.pace.done(time, usage),
                    spent: match usage {
                        Some(usage) => Some(billed(self.spent, usage)),
                        None => self.spent,
                    },
                    ..self
                },
                if self.think {
                    seq![draft::Sketch::Said(Speaker::Think, reasoning)]
                } else {
                    folding(reasoning)
                }.push(draft::Sketch::Said(Speaker::Ai, content)),
            ),
            event::Fact::ToolCall { id, name, arguments } => (
                Reading { open_call: Some(id), ..self },
                seq![draft::Sketch::Call(name, flat(arguments))],
            ),
            event::Fact::ToolResult { call_id, name, ok, content } => (
                self,
                seq![
                    draft::Sketch::Result {
                        ok,
                        name,
                        content,
                        answers: if self.open_call == Some(call_id) {
                            None
                        } else {
                            Some(call_id)
                        },
                        whole: self.whole,
                    },
                ],
            ),
            event::Fact::TurnEnd { turn, steps, stop_reason, stop_veto } => {
                let close = self.closing(time, turn, steps, stop_reason, stop_veto);
                (
                    Reading {
                        spent: None,
                        started: None,
                        pace: if close.took is Some {
                            Pace::none()
                        } else {
                            self.pace
                        },
                        ..self
                    },
                    seq![draft::Sketch::Closing(close)],
                )
            },
            event::Fact::AssistantChunk { .. } => (
                Reading { pace: self.pace.chunked(time), ..self },
                Seq::empty(),
            ),
            event::Fact::StepEnd { .. } => (self, Seq::empty()),
        }
    }

    /// What one event of a journal makes, and what is remembered after it. An
    /// event of a type this crate does not know is shown as it arrived.
    pub open spec fn read(self, event: SessionEvent) -> (Reading, Seq<draft::Sketch>) {
        match event.fact() {
            Some(fact) => self.drawn(event.time, fact),
            None => (self, seq![draft::Sketch::Raw(event.ty@, event.data@)]),
        }
    }

    /// Whether reading an event keeps every counter in range.
    pub open spec fn reads(self, event: SessionEvent) -> bool {
        match event.fact() {
            Some(fact) => self.affords(event.time, fact),
            None => true,
        }
    }

    /// What is remembered after a run of events.
    pub open spec fn after(self, events: Seq<SessionEvent>) -> Reading
        decreases events.len(),
    {
        if events.len() == 0 {
            self
        } else {
            self.after(events.drop_last()).read(events.last()).0
        }
    }

    /// The page a run of events makes.
    pub open spec fn page(self, events: Seq<SessionEvent>) -> Seq<draft::Sketch>
        decreases events.len(),
    {
        if events.len() == 0 {
            Seq::empty()
        } else {
            let before = events.drop_last();
            self.page(before) + self.after(before).read(events.last()).1
        }
    }

    /// Whether a run of events can be read with every counter in range.
    pub open spec fn reads_all(self, events: Seq<SessionEvent>) -> bool {
        forall|i: int|
            0 <= i < events.len() ==> self.after(#[trigger] events.take(i)).reads(events[i])
    }
}

/// What a reader has to remember between events: the tool call still waiting
/// for its result, and what the turn has spent so far.
#[derive(Clone, Debug)]
pub struct Reader {
    /// Whether the reasoning of a message is drawn in full. Folded to its
    /// first line otherwise, which is what a reader of the answer wants.
    think: bool,
    /// Whether a tool's result is drawn whole. Capped at [`CAP`] otherwise, so
    /// one long result cannot push the answer it led to off the screen.
    whole: bool,
    open_call: Option<String>,
    /// Tokens billed by every step of the turn in progress. `None` until a
    /// message carries usage: a build that does not measure tokens must not be
    /// reported as a turn that spent none.
    spent: Option<Usage>,
    /// When the turn in progress started, on the journal's own clock.
    started: Option<u64>,
    /// How fast the model answered, folded over the steps that recorded it.
    pace: Pace,
}

impl View for Reader {
    type V = Reading;

    closed spec fn view(&self) -> Reading {
        Reading {
            think: self.think,
            whole: self.whole,
            open_call: json::held(self.open_call),
            spent: self.spent,
            started: self.started,
            pace: self.pace,
        }
    }
}

/// A reader that has read nothing.
pub open spec fn fresh(think: bool) -> Reading {
    Reading {
        think,
        whole: false,
        open_call: None,
        spent: None,
        started: None,
        pace: Pace::none(),
    }
}

impl Default for Reader {
    fn default() -> (r: Reader)
        ensures
            r@ == fresh(false),
    {
        Reader::new(false)
    }
}

impl Reader {
    /// A reader of a stream, told how much of the thinking to draw.
    pub fn new(think: bool) -> (r: Reader)
        ensures
            r@ == fresh(think),
    {
        Reader {
            think,
            whole: false,
            open_call: None,
            spent: None,
            started: None,
            pace: Pace::new(),
        }
    }

    /// Draw a tool's result whole, or capped. Told after the reader was built,
    /// because this is a reader changing their mind about what is already on
    /// the page.
    pub fn whole(&mut self, whole: bool)
        ensures
            final(self)@ == (Reading { whole, ..old(self)@ }),
    {
        self.whole = whole;
    }

    /// Whether reading an event keeps every counter in range.
    pub fn can_read(&self, event: &SessionEvent) -> (r: bool)
        ensures
            r == self@.reads(*event),
    {
        match event.parse() {
            Some(KnownEvent::AssistantMessage { usage, .. }) => match usage {
                Some(usage) => {
                    let paced = match self.pace.first {
                        Some(first) => self.pace.decoding.checked_add(
                            event.time.saturating_sub(first),
                        ).is_some() && self.pace.decoded.checked_add(
                            usage.completion_tokens,
                        ).is_some(),
                        None => true,
                    };
                    let billed = match self.spent {
                        Some(before) => before.prompt_tokens.checked_add(
                            usage.prompt_tokens,
                        ).is_some() && before.completion_tokens.checked_add(
                            usage.completion_tokens,
                        ).is_some(),
                        None => true,
                    };
                    paced && billed
                },
                None => true,
            },
            Some(KnownEvent::TurnEnd { .. }) => {
                let summed = match self.spent {
                    Some(spent) => spent.prompt_tokens.checked_add(
                        spent.completion_tokens,
                    ).is_some(),
                    None => true,
                };
                let rated = self.took(event.time).is_some() && self.pace.decoding >= FLOOR;
                summed && (!rated || self.pace.decoded.checked_mul(1_000).is_some())
            },
            _ => true,
        }
    }

    /// The drafts one event makes, where reading it keeps every counter in
    /// range. Where it does not, nothing is read.
    pub fn checked_lines(&mut self, event: &SessionEvent) -> (r: Option<Vec<Draft>>)
        ensures
            r is Some <==> old(self)@.reads(*event),
            match r {
                Some(drafts) => (final(self)@, draft::sketched(drafts@)) == old(self)@.read(*event),
                None => final(self)@ == old(self)@,
            },
    {
        if self.can_read(event) {
            Some(self.lines(event))
        } else {
            None
        }
    }

    /// The drafts one event makes, in order, and none for an event a finished
    /// turn does not show.
    pub fn lines(&mut self, event: &SessionEvent) -> (drafts: Vec<Draft>)
        requires
            old(self)@.reads(*event),
        ensures
            (final(self)@, draft::sketched(drafts@)) == old(self)@.read(*event),
    {
        match event.parse() {
            Some(known) => self.draw(event.time, known),
            None => {
                let mut drafts: Vec<Draft> = Vec::new();
                drafts.push(Draft::Raw { ty: event.ty.clone(), data: event.data.clone() });
                proof {
                    assert(draft::sketched(drafts@) =~= seq![draft::Sketch::Raw(event.ty@, event.data@)]);
                }
                drafts
            },
        }
    }

    /// How long the turn that ends now took, when somebody waited for it.
    fn took(&self, time: u64) -> (r: Option<u64>)
        ensures
            r == self@.took(time),
    {
        match self.started {
            Some(start) => {
                let late: u64 = time.saturating_sub(start);
                if late >= 1_000 {
                    Some(late)
                } else {
                    None
                }
            },
            None => None,
        }
    }

    /// How the turn that ends now is closed.
    fn close(
        &mut self,
        time: u64,
        turn: u64,
        steps: u32,
        reason: StopReason,
        veto: Option<String>,
    ) -> (closing: Closing)
        requires
            old(self)@.spent matches Some(spent) ==> spent.prompt_tokens + spent.completion_tokens
                <= u64::MAX,
            old(self)@.took(time) is Some ==> figures::ratable(
                old(self)@.pace.decoded,
                old(self)@.pace.decoding,
            ),
        ensures
            closing@ == old(self)@.closing(time, turn, steps, reason@, json::held(veto)),
            final(self)@ == (Reading {
                spent: None,
                started: None,
                pace: if closing@.took is Some {
                    Pace::none()
                } else {
                    old(self)@.pace
                },
                ..old(self)@
            }),
    {
        let took: Option<u64> = self.took(time);
        let total: Option<u64> = match self.spent {
            Some(spent) => Some(spent.prompt_tokens + spent.completion_tokens),
            None => None,
        };
        self.spent = None;
        self.started = None;
        let mut waited: Option<u64> = None;
        let mut rate: Option<u64> = None;
        if took.is_some() {
            waited = self.pace.waited();
            rate = self.pace.rate();
            self.pace = Pace::new();
        }
        Closing { turn, steps, reason, took, total, waited, rate, veto }
    }

    /// The drafts one payload makes, in order, at the time it was written.
    pub fn draw(&mut self, time: u64, known: KnownEvent) -> (drafts: Vec<Draft>)
        requires
            old(self)@.affords(time, known@),
        ensures
            (final(self)@, draft::sketched(drafts@)) == old(self)@.drawn(time, known@),
    {
        let ghost before = self@;
        let ghost fact = known@;
        let mut drafts: Vec<Draft> = Vec::new();
        match known {
            KnownEvent::SessionStart { model } => {
                drafts.push(Draft::Session { model });
            },
            KnownEvent::TurnStart { turn } => {
                self.spent = None;
                self.started = Some(time);
                self.pace = Pace::new();
                drafts.push(Draft::Row(Line::blank()));
                let named = text::cat("turn ", decimal(turn).as_str());
                drafts.push(Draft::Row(Line::of(Role::Heading, named.as_str())));
            },
            KnownEvent::StepStart { step, .. } => {
                self.pace.step(time);
                let named = text::cat("  step ", decimal(step as u64).as_str());
                drafts.push(Draft::Row(Line::of(Role::Muted, named.as_str())));
            },
            KnownEvent::UserMessage { content } => {
                drafts.push(Draft::Said { who: Speaker::You, said: content });
            },
            KnownEvent::AssistantMessage { content, reasoning, usage, .. } => {
                self.pace.settled(time, usage);
                if let Some(step) = usage {
                    // Each step is billed for the whole prompt it resent, so a
                    // turn costs the sum of its requests.
                    self.spent = match self.spent {
                        Some(spent) => Some(
                            Usage {
                                prompt_tokens: spent.prompt_tokens + step.prompt_tokens,
                                completion_tokens: spent.completion_tokens
                                    + step.completion_tokens,
                            },
                        ),
                        None => Some(step),
                    };
                }
                if self.think {
                    drafts.push(Draft::Said { who: Speaker::Think, said: reasoning });
                } else {
                    if let Some(row) = folded_row(reasoning.as_str()) {
                        drafts.push(row);
                    }
                    proof {
                        assert(draft::sketched(drafts@) =~= folding(reasoning@));
                    }
                }
                drafts.push(Draft::Said { who: Speaker::Ai, said: content });
            },
            KnownEvent::ToolCall { id, name, arguments } => {
                self.open_call = Some(id);
                let value = one_line(arguments.as_str());
                drafts.push(Draft::Call { name, value });
            },
            KnownEvent::ToolResult { call_id, name, ok, content } => {
                // Silent when the result answers the call just made; named
                // when it does not, which is the case a reader cannot infer.
                let just_made = match &self.open_call {
                    Some(open) => same(open.as_str(), call_id.as_str()),
                    None => false,
                };
                let answers = if just_made {
                    None
                } else {
                    Some(call_id)
                };
                drafts.push(Draft::Result { ok, name, content, answers, whole: self.whole });
            },
            KnownEvent::TurnEnd { turn, steps, stop_reason, stop_veto } => {
                let closing = self.close(time, turn, steps, stop_reason, stop_veto);
                drafts.push(Draft::Closing(closing));
            },
            KnownEvent::AssistantChunk { .. } => {
                self.pace.chunk(time);
            },
            KnownEvent::StepEnd { .. } => {},
        }
        proof {
            assert(draft::sketched(drafts@) =~= before.drawn(time, fact).1);
        }
        drafts
    }

    /// What the turn has spent so far, over every step of it. `None` until a
    /// message carries usage.
    pub fn spent(&self) -> (r: Option<u64>)
        requires
            self@.spent matches Some(spent) ==> spent.prompt_tokens + spent.completion_tokens
                <= u64::MAX,
        ensures
            match self@.spent {
                Some(spent) => r == Some((spent.prompt_tokens + spent.completion_tokens) as u64),
                None => r is None,
            },
    {
        match self.spent {
            Some(spent) => Some(spent.prompt_tokens + spent.completion_tokens),
            None => None,
        }
    }
}

fn one_line(value: &str) -> (s: String)
    ensures
        s@ == flat(value@),
{
    join(&text::words(value), " ")
}

fn folded_row(reasoning: &str) -> (r: Option<Draft>)
    ensures
        match r {
            Some(draft) => folding(reasoning@) == seq![draft@],
            None => folding(reasoning@) == Seq::<draft::Sketch>::empty(),
        },
{
    let lines = text::lines(reasoning);
    let ghost all = text::views(lines@);
    let mut first: Option<String> = None;
    let mut count: usize = 0;
    let mut i: usize = 0;
    proof {
        assert(all.take(0) =~= Seq::<Seq<char>>::empty());
    }
    while i < lines.len()
        invariant
            i <= lines.len(),
            all == text::views(lines@),
            count <= i,
            spoken(all.take(i as int)).len() == count,
            match first {
                Some(said) => count > 0 && spoken(all.take(i as int))[0] == said@,
                None => count == 0,
            },
        decreases lines.len() - i,
    {
        let said = text::trim(lines[i].as_str());
        proof {
            assert(all.take(i + 1).drop_last() =~= all.take(i as int));
            assert(all.take(i + 1).last() == lines@[i as int]@);
        }
        if !said.as_str().is_empty() {
            count = count + 1;
            if first.is_none() {
                first = Some(said);
            }
        }
        i = i + 1;
    }
    proof {
        assert(all.take(i as int) =~= all);
    }
    match first {
        Some(said) => Some(Draft::Folded { first: said, rest: count - 1 }),
        None => None,
    }
}

/// What a whole journal reads as: a journal with no events says so.
pub open spec fn journal_page(events: Seq<SessionEvent>, think: bool) -> Seq<draft::Sketch> {
    if events.len() == 0 {
        seq![draft::Sketch::Row(seq![(Role::Muted, "the journal is empty"@)])]
    } else {
        fresh(think).page(events)
    }
}

/// A whole event stream, as a reader of a finished turn sees it.
///
/// A page with nothing on it reads exactly like a command that did nothing at
/// all, so a journal that holds no events says which of the two happened.
pub fn render(events: &[SessionEvent], think: bool) -> (drafts: Vec<Draft>)
    requires
        fresh(think).reads_all(events@),
    ensures
        draft::sketched(drafts@) == journal_page(events@, think),
{
    let mut drafts: Vec<Draft> = Vec::new();
    if events.len() == 0 {
        drafts.push(Draft::Row(Line::of(Role::Muted, "the journal is empty")));
        proof {
            assert(draft::sketched(drafts@) =~= journal_page(events@, think));
        }
        return drafts;
    }
    let mut reader = Reader::new(think);
    let mut i: usize = 0;
    let ghost start = fresh(think);
    proof {
        assert(events@.take(0) =~= Seq::<SessionEvent>::empty());
    }
    while i < events.len()
        invariant
            i <= events.len(),
            start.reads_all(events@),
            reader@ == start.after(events@.take(i as int)),
            draft::sketched(drafts@) == start.page(events@.take(i as int)),
        decreases events.len() - i,
    {
        proof {
            assert(events@.take(i + 1).drop_last() =~= events@.take(i as int));
            assert(events@.take(i + 1).last() == events@[i as int]);
        }
        let mut made = reader.lines(&events[i]);
        drafts.append(&mut made);
        i = i + 1;
    }
    proof {
        assert(events@.take(i as int) =~= events@);
    }
    drafts
}

/// A whole event stream, where every counter of it stays in range.
pub fn checked_render(events: &[SessionEvent], think: bool) -> (r: Option<Vec<Draft>>)
    ensures
        r is Some <==> fresh(think).reads_all(events@),
        r matches Some(drafts) ==> draft::sketched(drafts@) == journal_page(events@, think),
{
    let ghost start = fresh(think);
    let mut reader = Reader::new(think);
    let mut i: usize = 0;
    proof {
        assert(events@.take(0) =~= Seq::<SessionEvent>::empty());
    }
    while i < events.len()
        invariant
            i <= events.len(),
            start == fresh(think),
            reader@ == start.after(events@.take(i as int)),
            forall|j: int| 0 <= j < i ==> start.after(#[trigger] events@.take(j)).reads(events@[j]),
        decreases events.len() - i,
    {
        proof {
            assert(events@.take(i + 1).drop_last() =~= events@.take(i as int));
            assert(events@.take(i + 1).last() == events@[i as int]);
        }
        if reader.checked_lines(&events[i]).is_none() {
            return None;
        }
        i = i + 1;
    }
    Some(render(events, think))
}

/// A result answers in silence when it answers the call just made, and says
/// which call it answers when it does not: pairing is by id, and never by the
/// order of arrival.
pub proof fn lemma_a_result_names_its_call(
    r: Reading,
    made: Seq<char>,
    made_name: Seq<char>,
    arguments: Seq<char>,
    made_at: u64,
    call_id: Seq<char>,
    name: Seq<char>,
    ok: bool,
    content: Seq<char>,
    time: u64,
)
    ensures
        ({
            let called = r.drawn(
                made_at,
                event::Fact::ToolCall { id: made, name: made_name, arguments },
            ).0;
            called.drawn(time, event::Fact::ToolResult { call_id, name, ok, content }).1 == seq![
                draft::Sketch::Result {
                    ok,
                    name,
                    content,
                    answers: if call_id == made {
                        None
                    } else {
                        Some(call_id)
                    },
                    whole: r.whole,
                },
            ]
        }),
{
}

/// The streaming surface and the frames of a turn draw nothing: an answer
/// that arrived in pieces reads as the one message it was assembled into.
pub proof fn lemma_pieces_are_not_drawn(r: Reading, time: u64, fact: event::Fact)
    requires
        fact is AssistantChunk || fact is StepEnd,
    ensures
        r.drawn(time, fact).1.len() == 0,
{
}

/// What a run of events spent: every token of every message that says what it
/// cost. Nothing where none does.
pub open spec fn spent_in(events: Seq<SessionEvent>) -> Option<nat>
    decreases events.len(),
{
    if events.len() == 0 {
        None
    } else {
        let before = spent_in(events.drop_last());
        match events.last().fact() {
            Some(event::Fact::AssistantMessage { usage: Some(usage), .. }) => Some(
                match before {
                    Some(spent) => spent,
                    None => 0,
                } + usage.prompt_tokens as nat + usage.completion_tokens as nat,
            ),
            _ => before,
        }
    }
}

/// Whether the words of a closing row bill so much: after the steps and how
/// long they took, and before the pace. Nothing billed is nothing said.
pub open spec fn bills(
    charset: Charset,
    tail: Seq<char>,
    close: draft::Close,
    spent: Option<nat>,
) -> bool {
    let dot = paint::glyph_of(charset, "·"@, "-"@);
    tail == rows::closing_lead(charset, close) + rows::figure(
        dot,
        match spent {
            Some(spent) => Some(
                figures::tokens_of(spent) + if spent == 1 {
                    " token"@
                } else {
                    " tokens"@
                },
            ),
            None => None,
        },
    ) + rows::figure(dot, rows::reading(close.waited, "first token in "@)) + rows::figure(
        dot,
        match close.rate {
            Some(rate) => Some(text::dec(rate as nat) + " tok/s"@),
            None => None,
        },
    )
}

/// Two turns of the same messages close with the same total, whatever was read
/// before either.
pub proof fn lemma_the_same_messages_cost_the_same(
    first: Reading,
    second: Reading,
    starts: (SessionEvent, SessionEvent),
    events: Seq<SessionEvent>,
    ends: (SessionEvent, SessionEvent),
)
    requires
        starts.0.fact() matches Some(event::Fact::TurnStart { .. }),
        starts.1.fact() matches Some(event::Fact::TurnStart { .. }),
        ends.0.fact() matches Some(event::Fact::TurnEnd { .. }),
        ends.1.fact() matches Some(event::Fact::TurnEnd { .. }),
        forall|i: int| 0 <= i < events.len() ==> !bounds_a_turn(#[trigger] events[i]),
        first.reads_all((seq![starts.0] + events).push(ends.0)),
        second.reads_all((seq![starts.1] + events).push(ends.1)),
    ensures
        ({
            let one = first.after(seq![starts.0] + events).read(ends.0).1[0];
            let other = second.after(seq![starts.1] + events).read(ends.1).1[0];
            one is Closing && other is Closing && one->Closing_0.total == other->Closing_0.total
        }),
{
    lemma_each_turn_is_billed_for_itself(first, starts.0, events, ends.0);
    lemma_each_turn_is_billed_for_itself(second, starts.1, events, ends.1);
}

/// Whether an event opens a turn or closes one.
pub open spec fn bounds_a_turn(event: SessionEvent) -> bool {
    event.fact() matches Some(fact) && (fact is TurnStart || fact is TurnEnd)
}

/// Each turn is billed for itself: whatever was read before its start, the
/// closing row says what the turn's own messages spent, between the steps and
/// the pace, and says nothing of it where none of them does.
pub proof fn lemma_each_turn_is_billed_for_itself(
    r: Reading,
    start: SessionEvent,
    events: Seq<SessionEvent>,
    end: SessionEvent,
)
    requires
        start.fact() matches Some(event::Fact::TurnStart { .. }),
        end.fact() matches Some(event::Fact::TurnEnd { .. }),
        forall|i: int| 0 <= i < events.len() ==> !bounds_a_turn(#[trigger] events[i]),
        r.reads_all((seq![start] + events).push(end)),
    ensures
        r.after(seq![start] + events).read(end).1.len() == 1,
        r.after(seq![start] + events).read(end).1[0] matches draft::Sketch::Closing(close) && (
        match spent_in(events) {
            Some(spent) => close.total matches Some(total) && total == spent,
            None => close.total is None,
        }),
        forall|charset: Charset|
            bills(
                charset,
                #[trigger] rows::closing_tail(
                    charset,
                    r.after(seq![start] + events).read(end).1[0]->Closing_0,
                ),
                r.after(seq![start] + events).read(end).1[0]->Closing_0,
                spent_in(events),
            ),
{
    let turn = seq![start] + events;
    let all = turn.push(end);
    assert(all.take(turn.len() as int) =~= turn);
    assert(r.after(all.take(turn.len() as int)).reads(all[turn.len() as int]));
    assert forall|i: int| 0 <= i < turn.len() implies r.after(#[trigger] turn.take(i)).reads(
        turn[i],
    ) by {
        assert(all.take(i) =~= turn.take(i));
        assert(r.after(all.take(i)).reads(all[i]));
    }
    lemma_spent_since_the_start(r, start, events);
}

proof fn lemma_spent_since_the_start(r: Reading, start: SessionEvent, events: Seq<SessionEvent>)
    requires
        start.fact() matches Some(event::Fact::TurnStart { .. }),
        forall|i: int| 0 <= i < events.len() ==> !bounds_a_turn(#[trigger] events[i]),
        r.reads_all(seq![start] + events),
    ensures
        match (r.after(seq![start] + events).spent, spent_in(events)) {
            (Some(usage), Some(spent)) => usage.prompt_tokens + usage.completion_tokens == spent,
            (None, None) => true,
            _ => false,
        },
    decreases events.len(),
{
    let turn = seq![start] + events;
    if events.len() == 0 {
        assert(turn =~= seq![start]);
        assert(turn.drop_last() =~= Seq::<SessionEvent>::empty());
        assert(turn.last() == start);
    } else {
        let before = seq![start] + events.drop_last();
        assert(turn.drop_last() =~= before);
        assert(turn.take(turn.len() - 1) =~= before);
        assert(turn.last() == events.last());
        assert forall|i: int| 0 <= i < before.len() implies r.after(#[trigger] before.take(i)).reads(
            before[i],
        ) by {
            assert(turn.take(i) =~= before.take(i));
            assert(r.after(turn.take(i)).reads(turn[i]));
        }
        assert forall|i: int| 0 <= i < events.drop_last().len() implies !bounds_a_turn(
            #[trigger] events.drop_last()[i],
        ) by {
            assert(!bounds_a_turn(events[i]));
        }
        lemma_spent_since_the_start(r, start, events.drop_last());
        assert(r.after(turn.take(turn.len() - 1)).reads(turn[turn.len() - 1]));
        assert(!bounds_a_turn(events[events.len() - 1]));
    }
}

/// A journal reads as its events do, one after another: what the first of them
/// make, then what the rest make to a reader who has read those, and nothing
/// else. Only a journal with no events has a row of its own.
pub proof fn lemma_a_journal_reads_in_order(events: Seq<SessionEvent>, think: bool, n: int)
    requires
        0 < n <= events.len(),
    ensures
        journal_page(events, think) == journal_page(events.take(n), think) + fresh(think).after(
            events.take(n),
        ).page(events.skip(n)),
        journal_page(seq![events[0]], think) == fresh(think).read(events[0]).1,
        journal_page(Seq::empty(), think) == seq![
            draft::Sketch::Row(seq![(Role::Muted, "the journal is empty"@)]),
        ],
{
    assert(events =~= events.take(n) + events.skip(n));
    lemma_a_page_splits(fresh(think), events.take(n), events.skip(n));
    let one = seq![events[0]];
    let none = Seq::<SessionEvent>::empty();
    assert(one.drop_last() =~= none);
    assert(fresh(think).page(none) =~= Seq::<draft::Sketch>::empty());
    assert(fresh(think).after(none) == fresh(think));
    assert(fresh(think).page(one) =~= fresh(think).read(events[0]).1);
}

proof fn lemma_a_page_splits(r: Reading, first: Seq<SessionEvent>, rest: Seq<SessionEvent>)
    ensures
        r.page(first + rest) == r.page(first) + r.after(first).page(rest),
        r.after(first + rest) == r.after(first).after(rest),
    decreases rest.len(),
{
    if rest.len() == 0 {
        assert(first + rest =~= first);
        assert(r.page(first) + r.after(first).page(rest) =~= r.page(first));
    } else {
        lemma_a_page_splits(r, first, rest.drop_last());
        assert((first + rest).drop_last() =~= first + rest.drop_last());
        assert(r.page(first + rest) =~= r.page(first) + r.after(first).page(rest));
    }
}

/// A step is headed by its own number: the one row its start makes reads `step`
/// and the decimals of the step, for every reader, at every time, and whichever
/// turn the step belongs to.
pub proof fn lemma_a_step_is_headed_by_its_own_number(r: Reading, time: u64, turn: u64, step: u32)
    ensures
        ({
            let rows = r.drawn(time, event::Fact::StepStart { turn, step }).1;
            &&& rows.len() == 1
            &&& rows[0] matches draft::Sketch::Row(row)
            &&& row.len() == 1
            &&& row[0] == (Role::Muted, "  step "@ + text::dec(step as nat))
            &&& paint::read(row) == "  step "@ + text::dec(step as nat)
        }),
{
    let said = "  step "@ + text::dec(step as nat);
    lemma_one_span_reads_as_its_text(Role::Muted, said);
}

proof fn lemma_one_span_reads_as_its_text(role: Role, said: Seq<char>)
    ensures
        paint::read(seq![(role, said)]) == said,
{
    let row: paint::Row = seq![(role, said)];
    assert(row.drop_last() =~= Seq::empty());
    assert(paint::read(row.drop_last()) =~= Seq::<char>::empty());
    assert(paint::read(row) =~= said);
}

/// Steps are told apart by their headings, and turns by theirs: two numbers never
/// make the same one. The turn of a step is no part of the step's heading.
pub proof fn lemma_headings_differ(
    r: Reading,
    time: u64,
    turns: (u64, u64),
    steps: (u32, u32),
)
    ensures
        r.drawn(time, event::Fact::StepStart { turn: turns.0, step: steps.0 }).1 == r.drawn(
            time,
            event::Fact::StepStart { turn: turns.1, step: steps.1 },
        ).1 <==> steps.0 == steps.1,
        r.drawn(time, event::Fact::TurnStart { turn: turns.0 }).1 == r.drawn(
            time,
            event::Fact::TurnStart { turn: turns.1 },
        ).1 <==> turns.0 == turns.1,
{
    text::lemma_dec_injective(steps.0 as nat, steps.1 as nat);
    text::lemma_dec_injective(turns.0 as nat, turns.1 as nat);
    if steps.0 != steps.1 {
        lemma_opened_alike("  step "@, text::dec(steps.0 as nat), text::dec(steps.1 as nat));
        let one = r.drawn(time, event::Fact::StepStart { turn: turns.0, step: steps.0 }).1;
        let other = r.drawn(time, event::Fact::StepStart { turn: turns.1, step: steps.1 }).1;
        assert(one[0]->Row_0[0].1 != other[0]->Row_0[0].1);
    }
    if turns.0 != turns.1 {
        lemma_opened_alike("turn "@, text::dec(turns.0 as nat), text::dec(turns.1 as nat));
        let one = r.drawn(time, event::Fact::TurnStart { turn: turns.0 }).1;
        let other = r.drawn(time, event::Fact::TurnStart { turn: turns.1 }).1;
        assert(one[1]->Row_0[0].1 != other[1]->Row_0[0].1);
    }
}

proof fn lemma_opened_alike(shared: Seq<char>, a: Seq<char>, b: Seq<char>)
    ensures
        shared + a == shared + b ==> a == b,
{
    assert((shared + a).skip(shared.len() as int) =~= a);
    assert((shared + b).skip(shared.len() as int) =~= b);
}

/// A turn is headed by its own number, under a blank row, and starts its figures
/// afresh: nothing spent, its clock at its own start, its pace unmeasured.
pub proof fn lemma_a_turn_is_headed_by_its_own_number(r: Reading, time: u64, turn: u64)
    ensures
        ({
            let (after, rows) = r.drawn(time, event::Fact::TurnStart { turn });
            &&& rows.len() == 2
            &&& rows[0] == draft::Sketch::Row(Seq::empty())
            &&& rows[1] matches draft::Sketch::Row(row)
            &&& paint::read(row) == "turn "@ + text::dec(turn as nat)
            &&& row[0].0 == Role::Heading
            &&& after.spent is None
            &&& after.started == Some(time)
            &&& after.pace == Pace::none()
        }),
{
    lemma_one_span_reads_as_its_text(Role::Heading, "turn "@ + text::dec(turn as nat));
}

/// What was said is drawn as it was said and under who said it: a prompt as the
/// reader's, a message as the model's, a call by the name of its tool, a session
/// by its model.
pub proof fn lemma_what_was_said_is_drawn_as_said(r: Reading, time: u64, fact: event::Fact)
    ensures
        fact matches event::Fact::SessionStart { model } ==> r.drawn(time, fact).1 == seq![
            draft::Sketch::Session(model),
        ],
        fact matches event::Fact::UserMessage { content } ==> r.drawn(time, fact).1 == seq![
            draft::Sketch::Said(Speaker::You, content),
        ],
        fact matches event::Fact::AssistantMessage { content, .. } ==> r.drawn(
            time,
            fact,
        ).1.len() > 0 && r.drawn(time, fact).1.last() == draft::Sketch::Said(
            Speaker::Ai,
            content,
        ),
        fact matches event::Fact::ToolCall { name, arguments, .. } ==> r.drawn(time, fact).1
            == seq![draft::Sketch::Call(name, flat(arguments))],
        fact matches event::Fact::ToolResult { name, ok, content, .. } ==> (r.drawn(
            time,
            fact,
        ).1.len() == 1 && (r.drawn(time, fact).1[0] matches draft::Sketch::Result {
            ok: went,
            name: named,
            content: shown,
            ..
        } && went == ok && named == name && shown == content)),
{
}

/// Thinking comes before the message it led to. Unfolded it is drawn whole.
/// Folded it is one row at most: its first line that is not blank, without the
/// blanks around it, and how many more there are; and no row where every line of
/// it is blank.
pub proof fn lemma_thinking_is_folded_to_its_first_line(
    r: Reading,
    time: u64,
    fact: event::Fact,
)
    requires
        fact is AssistantMessage,
    ensures
        ({
            let rows = r.drawn(time, fact).1;
            let thought = fact->reasoning;
            let lines = spoken(text::lines_of(thought));
            &&& r.think ==> rows.len() == 2 && rows[0] == draft::Sketch::Said(
                Speaker::Think,
                thought,
            )
            &&& !r.think && lines.len() == 0 ==> rows.len() == 1
            &&& !r.think && lines.len() > 0 ==> rows.len() == 2 && rows[0]
                == draft::Sketch::Folded(lines[0], (lines.len() - 1) as nat)
        }),
{
}

/// The lines that say something are kept in their order and trimmed, and those
/// that are blank are not kept.
pub proof fn lemma_blank_lines_are_passed_over(
    first: Seq<Seq<char>>,
    rest: Seq<Seq<char>>,
    line: Seq<char>,
)
    ensures
        spoken(first + rest) == spoken(first) + spoken(rest),
        spoken(seq![line]) == if text::trimmed(line).len() == 0 {
            Seq::empty()
        } else {
            seq![text::trimmed(line)]
        },
        spoken(Seq::empty()) == Seq::<Seq<char>>::empty(),
    decreases rest.len(),
{
    assert(seq![line].drop_last() =~= Seq::<Seq<char>>::empty());
    assert(spoken(seq![line].drop_last()) =~= Seq::<Seq<char>>::empty());
    if text::trimmed(line).len() != 0 {
        assert(spoken(seq![line]) =~= seq![text::trimmed(line)]);
    }
    if rest.len() == 0 {
        assert(first + rest =~= first);
        assert(spoken(first + rest) =~= spoken(first) + spoken(rest));
    } else {
        lemma_blank_lines_are_passed_over(first, rest.drop_last(), line);
        assert((first + rest).drop_last() =~= first + rest.drop_last());
        assert((first + rest).last() == rest.last());
        assert(spoken(first + rest) =~= spoken(first) + spoken(rest));
    }
}

/// Arguments are drawn on one row: every run of blanks in them is one space, none
/// stands at either end, and the words are as they were and in their order.
pub proof fn lemma_arguments_are_drawn_on_one_row(
    word: Seq<char>,
    blank: char,
    a: Seq<char>,
    b: Seq<char>,
)
    requires
        forall|i: int| 0 <= i < word.len() ==> !text::is_space(#[trigger] word[i]),
        text::is_space(blank),
    ensures
        flat(word) == word,
        flat(a.push(blank) + b) == if text::words_of(a).len() == 0 {
            flat(b)
        } else if text::words_of(b).len() == 0 {
            flat(a)
        } else {
            flat(a) + " "@ + flat(b)
        },
{
    text::lemma_a_word_is_one_word(word);
    text::lemma_a_join_parts_with_the_separator(
        text::words_of(a),
        text::words_of(b),
        " "@,
        word,
    );
    text::lemma_a_blank_parts_words(a, blank, b);
    if text::words_of(a).len() == 0 {
        assert(text::words_of(a) + text::words_of(b) =~= text::words_of(b));
    }
    if text::words_of(b).len() == 0 {
        assert(text::words_of(a) + text::words_of(b) =~= text::words_of(a));
    }
    if word.len() == 0 {
        assert(flat(word) =~= word);
    }
}

/// A turn closes with its own number, its steps, why it stopped and who held it
/// open, as its end tells them; with how long it took since its own start where
/// that was a second or more; with every token spent in it, where any was
/// measured; and with the wait and the rate only where the time is told.
pub proof fn lemma_a_turn_closes_with_its_own_figures(
    r: Reading,
    time: u64,
    turn: u64,
    steps: u32,
    stop_reason: event::Stop,
    stop_veto: Option<Seq<char>>,
)
    requires
        r.affords(time, event::Fact::TurnEnd { turn, steps, stop_reason, stop_veto }),
    ensures
        ({
            let (after, rows) = r.drawn(
                time,
                event::Fact::TurnEnd { turn, steps, stop_reason, stop_veto },
            );
            &&& rows.len() == 1
            &&& rows[0] matches draft::Sketch::Closing(close)
            &&& close.turn == turn
            &&& close.steps == steps
            &&& close.reason == stop_reason
            &&& close.veto == stop_veto
            &&& close.took matches Some(took) ==> r.started matches Some(start) && took >= 1_000
                && start + took == time
            &&& close.took is None ==> r.started is None || time < r.started->0 + 1_000
            &&& close.total is Some <==> r.spent is Some
            &&& close.total matches Some(total) ==> total == r.spent->0.prompt_tokens
                + r.spent->0.completion_tokens
            &&& close.took is None ==> close.waited is None && close.rate is None
            &&& close.took is Some ==> (close.waited == if r.pace.waited is Some
                && r.pace.waited->0 >= 100 {
                r.pace.waited
            } else {
                None
            })
            &&& close.took is Some ==> match close.rate {
                Some(rate) => figures::rate_of(r.pace.decoded as nat, r.pace.decoding as nat)
                    == Some(rate as nat),
                None => figures::rate_of(r.pace.decoded as nat, r.pace.decoding as nat) is None,
            }
            &&& after.spent is None
            &&& after.started is None
        }),
{
    let decoded = r.pace.decoded as nat;
    let decoding = r.pace.decoding as nat;
    if r.took(time) is Some {
        figures::lemma_a_rate_fits(decoded, decoding);
    }
}

/// The wait of a turn is that for the first chunk of its first step: from the
/// start of the step to its first chunk. Later chunks of that step and the
/// chunks of later steps leave it as it is.
pub proof fn lemma_the_first_wait_stands(
    started: u64,
    first: u64,
    again: u64,
    settled: u64,
    usage: Option<Usage>,
    next: u64,
)
    requires
        started <= first,
    ensures
        ({
            let waited = Pace::none().stepped(started).chunked(first);
            &&& waited.waited == Some((first - started) as u64)
            &&& waited.first == Some(first)
            &&& waited.chunked(again) == waited
            &&& waited.done(settled, usage).waited == waited.waited
            &&& waited.done(settled, usage).stepped(next).chunked(again).waited == waited.waited
        }),
{
}

/// Decoding is timed from the first chunk of a step to its message, and counted
/// with the tokens the message completed: both or neither, and only where the
/// step had a chunk and the message measured its tokens. The next step is timed
/// afresh.
pub proof fn lemma_decoding_is_timed_from_the_first_chunk(
    pace: Pace,
    time: u64,
    usage: Option<Usage>,
)
    requires
        pace.settles(time, usage),
    ensures
        ({
            let after = pace.done(time, usage);
            &&& after.step is None && after.first is None && after.waited == pace.waited
            &&& pace.first is None || usage is None ==> after.decoding == pace.decoding
                && after.decoded == pace.decoded
            &&& pace.first is Some && usage is Some ==> {
                &&& after.decoded == pace.decoded + usage->0.completion_tokens
                &&& time >= pace.first->0 ==> after.decoding == pace.decoding + (time
                    - pace.first->0)
                &&& time < pace.first->0 ==> after.decoding == pace.decoding
            }
        }),
{
}

/// A wait is told from a tenth of a second on, and a shorter one is not.
pub proof fn lemma_a_short_wait_is_not_told(pace: Pace)
    ensures
        pace.wait() is Some <==> pace.waited is Some && pace.waited->0 >= 100,
        pace.wait() matches Some(wait) ==> pace.waited == Some(wait),
{
}

/// What a message bills is added to what the turn has spent, each kind of token
/// to its own, and a message that measured none adds nothing.
pub proof fn lemma_a_message_is_billed_to_its_turn(r: Reading, time: u64, fact: event::Fact)
    requires
        fact is AssistantMessage,
        r.affords(time, fact),
    ensures
        ({
            let after = r.drawn(time, fact).0.spent;
            match fact->AssistantMessage_usage {
                None => after == r.spent,
                Some(usage) => after matches Some(spent) && match r.spent {
                    None => spent == usage,
                    Some(before) => spent.prompt_tokens == before.prompt_tokens
                        + usage.prompt_tokens && spent.completion_tokens
                        == before.completion_tokens + usage.completion_tokens,
                },
            }
        }),
{
}

/// Reading changes no more than it has to: how a reader draws is never changed,
/// the call last made only by a call, what was spent only by a message or the
/// bounds of a turn, and when the turn started only by those bounds.
pub proof fn lemma_reading_changes_only_its_own(r: Reading, time: u64, fact: event::Fact)
    ensures
        ({
            let after = r.drawn(time, fact).0;
            &&& after.think == r.think
            &&& after.whole == r.whole
            &&& fact matches event::Fact::ToolCall { id, .. } ==> after.open_call == Some(id)
            &&& !(fact is ToolCall) ==> after.open_call == r.open_call
            &&& !(fact is AssistantMessage) && !(fact is TurnStart) && !(fact is TurnEnd)
                ==> after.spent == r.spent
            &&& !(fact is TurnStart) && !(fact is TurnEnd) ==> after.started == r.started
            &&& fact is StepStart ==> after.pace.step == Some(time) && after.pace.first is None
            &&& fact is AssistantChunk ==> after.pace == r.pace.chunked(time)
            &&& fact is UserMessage || fact is SessionStart || fact is ToolCall
                || fact is ToolResult || fact is StepEnd ==> after.pace == r.pace
        }),
{
}

/// An event of no known type is drawn by its type and its data as they are, and
/// leaves the reader as it was.
pub proof fn lemma_an_unknown_event_is_drawn_raw(r: Reading, event: SessionEvent)
    requires
        event.fact() is None,
    ensures
        r.read(event).0 == r,
        r.read(event).1 == seq![draft::Sketch::Raw(event.ty@, event.data@)],
        r.reads(event),
{
}

/// Time between two moments is never negative: where the clock went back it is
/// none.
pub proof fn lemma_time_does_not_run_back(from: u64, to: u64)
    ensures
        to >= from ==> from + late(from, to) == to,
        to < from ==> late(from, to) == 0,
{
}

/// Whatever drawing the start of a step hands back is one row, and it reads `step`
/// and the decimals of the step.
pub proof fn lemma_drawing_heads_a_step_by_its_number(
    reader: &mut Reader,
    time: u64,
    turn: u64,
    step: u32,
    drafts: Vec<Draft>,
)
    requires
        call_ensures(
            Reader::draw,
            (reader, time, KnownEvent::StepStart { turn, step }),
            drafts,
        ),
    ensures
        drafts@.len() == 1,
        drafts@[0] matches Draft::Row(line) && paint::read(line@) == "  step "@ + text::dec(
            step as nat,
        ),
{
    lemma_a_step_is_headed_by_its_own_number(old(reader)@, time, turn, step);
    let sketch = draft::sketched(drafts@);
    assert(sketch.len() == drafts@.len());
    assert(sketch[0] == drafts@[0]@);
}

/// A turn that ends leaves its pace behind where its figures were told, and keeps
/// it where they were not. A pace that has measured nothing has no step, no wait
/// and no tokens.
pub proof fn lemma_a_told_pace_is_left_behind(r: Reading, time: u64, fact: event::Fact)
    requires
        fact is TurnEnd,
    ensures
        ({
            let told = r.started is Some && late(r.started->0, time) >= 1_000;
            let after = r.drawn(time, fact).0;
            &&& told ==> after.pace == (Pace {
                step: None,
                first: None,
                waited: None,
                decoding: 0,
                decoded: 0,
            })
            &&& !told ==> after.pace == r.pace
        }),
        fresh(r.think) == (Reading {
            think: r.think,
            whole: false,
            open_call: None,
            spent: None,
            started: None,
            pace: Pace { step: None, first: None, waited: None, decoding: 0, decoded: 0 },
        }),
{
}

/// A journal can be read exactly where each of its events can be after those
/// before it.
pub proof fn lemma_a_journal_is_readable_event_by_event(
    r: Reading,
    events: Seq<SessionEvent>,
    event: SessionEvent,
)
    ensures
        r.reads_all(Seq::empty()),
        r.reads_all(events.push(event)) <==> r.reads_all(events) && r.after(events).reads(event),
{
    let all = events.push(event);
    assert(all.take(events.len() as int) =~= events);
    if r.reads_all(all) {
        assert forall|i: int| 0 <= i < events.len() implies r.after(
            #[trigger] events.take(i),
        ).reads(events[i]) by {
            assert(all.take(i) =~= events.take(i));
            assert(all[i] == events[i]);
        }
        assert(r.after(all.take(events.len() as int)).reads(all[events.len() as int]));
    }
    if r.reads_all(events) && r.after(events).reads(event) {
        assert forall|i: int| 0 <= i < all.len() implies r.after(#[trigger] all.take(i)).reads(
            all[i],
        ) by {
            if i < events.len() {
                assert(all.take(i) =~= events.take(i));
                assert(all[i] == events[i]);
            }
        }
    }
}

} // verus!
