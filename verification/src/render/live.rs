//! A turn while it is still happening.
//!
//! A live view has two kinds of row at once: the ones that are settled, and
//! the handful at the bottom that are still changing. The settled rows come
//! from the timeline's own reader, unchanged and in the same order, so that
//! the turn a person watches arrive reads like the same turn replayed. The
//! block holds what the settled rows cannot say yet: the answer as the chunks
//! assemble it, and a footer naming what the turn is waiting on.
use vstd::prelude::*;
use vstd::string::*;

use crate::event;
use crate::event::{Chunk, KnownEvent, SessionEvent};
use crate::paint;
use crate::paint::{Charset, Line, Role};
use crate::render::draft;
use crate::render::draft::{Draft, Speaker};
use crate::render::figures;
use crate::render::figures::{duration, Elapsed};
use crate::render::rows;
use crate::render::timeline;
use crate::render::timeline::Reader;
use crate::text;
use crate::text::decimal;

verus! {

broadcast use {
    crate::text::group_views,
    crate::paint::group_rows,
    crate::render::draft::group_sketched,
};

/// Rows the block may occupy. A block taller than the terminal scrolls its own
/// top away and the next frame lands on the wrong row, so the answer shows its
/// tail: the words that just arrived are the ones being read.
pub const BLOCK: usize = 6;

/// The state of a turn as its events arrive, by what it says.
pub struct Watching {
    pub reading: timeline::Reading,
    pub answer: Seq<char>,
    pub reasoning: Seq<char>,
    pub phase: Seq<char>,
    pub tick: usize,
    pub over: bool,
}

/// What the turn is waiting on, now that an event has happened. A step's end
/// and any type this crate does not know leave it alone: guessing at one would
/// be worse than the last true thing said.
pub open spec fn phase_after(phase: Seq<char>, fact: Option<event::Fact>) -> Seq<char> {
    match fact {
        Some(event::Fact::AssistantChunk { chunk }) => match chunk {
            event::Bit::Text(_) => "streaming the answer"@,
            event::Bit::Reasoning(_) => "thinking"@,
            event::Bit::ToolCall(name) => "asked for "@ + name,
        },
        Some(event::Fact::TurnStart { .. }) => "starting the turn"@,
        Some(event::Fact::StepStart { step, .. }) => "step "@ + text::dec(step as nat),
        Some(event::Fact::UserMessage { .. }) => "asking the model"@,
        Some(event::Fact::AssistantMessage { tool_calls, .. }) => if tool_calls == 0 {
            "closing the turn"@
        } else {
            "running tools"@
        },
        Some(event::Fact::ToolCall { name, .. }) => "running "@ + name,
        Some(event::Fact::ToolResult { .. }) => "asking the model"@,
        Some(event::Fact::TurnEnd { .. }) => "done"@,
        _ => phase,
    }
}

impl Watching {
    /// The view once an event arrived, and what it settles.
    pub open spec fn pushed(self, event: SessionEvent) -> (Watching, Seq<draft::Sketch>) {
        let fact = event.fact();
        let read = self.reading.read(event);
        (
            Watching {
                reading: read.0,
                answer: match fact {
                    Some(event::Fact::AssistantChunk {
                        chunk: event::Bit::Text(delta),
                    }) => self.answer + delta,
                    Some(event::Fact::AssistantMessage { .. }) => Seq::empty(),
                    _ => self.answer,
                },
                reasoning: match fact {
                    Some(event::Fact::AssistantChunk {
                        chunk: event::Bit::Reasoning(delta),
                    }) => self.reasoning + delta,
                    Some(event::Fact::AssistantMessage { .. }) => Seq::empty(),
                    _ => self.reasoning,
                },
                phase: phase_after(self.phase, fact),
                over: self.over || fact matches Some(event::Fact::TurnEnd { .. }),
                ..self
            },
            read.1,
        )
    }

    /// The view after a run of events.
    pub open spec fn after(self, events: Seq<SessionEvent>) -> Watching
        decreases events.len(),
    {
        if events.len() == 0 {
            self
        } else {
            self.after(events.drop_last()).pushed(events.last()).0
        }
    }

    /// Everything a run of events settles, in order.
    pub open spec fn settled(self, events: Seq<SessionEvent>) -> Seq<draft::Sketch>
        decreases events.len(),
    {
        if events.len() == 0 {
            Seq::empty()
        } else {
            let before = events.drop_last();
            self.settled(before) + self.after(before).pushed(events.last()).1
        }
    }

    /// The part of the answer no settled row carries yet, and who says it.
    pub open spec fn arriving(self) -> Option<(Speaker, Seq<char>)> {
        if self.answer.len() > 0 {
            Some((Speaker::Ai, self.answer))
        } else if self.reasoning.len() > 0 {
            Some((Speaker::Think, self.reasoning))
        } else {
            None
        }
    }

    /// The row that names what the turn is waiting on, and for how long.
    pub open spec fn footer(
        self,
        charset: Charset,
        spin: Seq<char>,
        secs: nat,
        nanos: nat,
    ) -> paint::Row {
        seq![
            rows::plain("  "@),
            (Role::Accent, spin),
            rows::plain(" "@),
            (
                Role::Muted,
                self.phase + " "@ + paint::glyph_of(charset, "·"@, "-"@) + " "@
                    + figures::duration_of(secs, nanos),
            ),
        ]
    }

    /// The block: the end of the answer so far, then the footer. Empty once
    /// the turn is over, so the last frame leaves nothing behind.
    pub open spec fn block(
        self,
        charset: Charset,
        spin: Seq<char>,
        secs: nat,
        nanos: nat,
        folded: Seq<Seq<char>>,
    ) -> Seq<paint::Row> {
        if self.over {
            Seq::empty()
        } else {
            let said = match self.arriving() {
                Some((who, _)) => rows::said_rows(who, folded),
                None => Seq::empty(),
            };
            let kept = if said.len() > BLOCK - 1 {
                said.skip(said.len() - (BLOCK - 1))
            } else {
                said
            };
            kept.push(self.footer(charset, spin, secs, nanos))
        }
    }
}

/// What settles is the timeline: a turn watched as it arrives commits exactly
/// the rows the same journal reads as when it is over, in the same order.
pub proof fn lemma_what_settles_is_the_timeline(live: Watching, events: Seq<SessionEvent>)
    ensures
        live.settled(events) == live.reading.page(events),
        live.after(events).reading == live.reading.after(events),
    decreases events.len(),
{
    if events.len() > 0 {
        lemma_what_settles_is_the_timeline(live, events.drop_last());
    }
}

/// The block never outgrows its height, and always ends in the footer while
/// the turn runs.
pub proof fn lemma_the_block_keeps_its_height(
    live: Watching,
    charset: Charset,
    spin: Seq<char>,
    secs: nat,
    nanos: nat,
    folded: Seq<Seq<char>>,
)
    ensures
        live.block(charset, spin, secs, nanos, folded).len() <= BLOCK,
        !live.over ==> live.block(charset, spin, secs, nanos, folded).len() > 0 && live.block(
            charset,
            spin,
            secs,
            nanos,
            folded,
        ).last() == live.footer(charset, spin, secs, nanos),
{
}

/// Whether an event is the end of a turn.
pub open spec fn ends(event: SessionEvent) -> bool {
    event.fact() matches Some(event::Fact::TurnEnd { .. })
}

/// A turn is over once its end has arrived, and not before: it stays over,
/// whatever arrives after it, and what is running keeps its block.
pub proof fn lemma_over_is_over(live: Watching, events: Seq<SessionEvent>)
    ensures
        live.after(events).over <==> live.over || exists|i: int|
            0 <= i < events.len() && ends(#[trigger] events[i]),
    decreases events.len(),
{
    if events.len() > 0 {
        let before = events.drop_last();
        lemma_over_is_over(live, before);
        if exists|i: int| 0 <= i < events.len() && ends(#[trigger] events[i]) {
            let i = choose|i: int| 0 <= i < events.len() && ends(#[trigger] events[i]);
            if i < before.len() {
                assert(ends(before[i]));
            }
        }
        if exists|i: int| 0 <= i < before.len() && ends(#[trigger] before[i]) {
            let i = choose|i: int| 0 <= i < before.len() && ends(#[trigger] before[i]);
            assert(ends(events[i]));
        }
    }
}

/// The state of a turn as its events arrive.
#[derive(Clone, Debug)]
pub struct Live {
    reader: Reader,
    /// Assistant text assembled from the chunks of the current step, dropped
    /// when the assembled message settles it.
    answer: String,
    /// Thinking-mode text of the current step, shown while it is the only
    /// thing arriving.
    reasoning: String,
    phase: String,
    tick: usize,
    over: bool,
}

impl View for Live {
    type V = Watching;

    closed spec fn view(&self) -> Watching {
        Watching {
            reading: self.reader@,
            answer: self.answer@,
            reasoning: self.reasoning@,
            phase: self.phase@,
            tick: self.tick,
            over: self.over,
        }
    }
}

impl Live {
    /// A view that has seen nothing yet. `phase` is what the turn is waiting
    /// on before its first event.
    pub fn new(phase: &str, think: bool) -> (l: Live)
        ensures
            l@ == (Watching {
                reading: timeline::fresh(think),
                answer: Seq::empty(),
                reasoning: Seq::empty(),
                phase: phase@,
                tick: 0,
                over: false,
            }),
    {
        Live {
            reader: Reader::new(think),
            answer: String::new(),
            reasoning: String::new(),
            phase: phase.to_owned(),
            tick: 0,
            over: false,
        }
    }

    /// Draw a tool's result whole from here on, or capped.
    pub fn whole(&mut self, whole: bool)
        ensures
            final(self)@ == (Watching {
                reading: (timeline::Reading { whole, ..old(self)@.reading }),
                ..old(self)@
            }),
    {
        self.reader.whole(whole);
    }

    /// Whether an event can be read with every counter in range.
    pub fn can_read(&self, event: &SessionEvent) -> (r: bool)
        ensures
            r == self@.reading.reads(*event),
    {
        self.reader.can_read(event)
    }

    /// Feed one event, where every counter of it stays in range. Where one
    /// does not, nothing is read.
    pub fn checked_push(&mut self, event: &SessionEvent) -> (r: Option<Vec<Draft>>)
        ensures
            r is Some <==> old(self)@.reading.reads(*event),
            match r {
                Some(drafts) => (final(self)@, draft::sketched(drafts@)) == old(self)@.pushed(
                    *event,
                ),
                None => final(self)@ == old(self)@,
            },
    {
        if self.can_read(event) {
            Some(self.push(event))
        } else {
            None
        }
    }

    /// Feed one event. The drafts it returns are settled: the caller commits
    /// them above the block and never rewrites them.
    pub fn push(&mut self, event: &SessionEvent) -> (drafts: Vec<Draft>)
        requires
            old(self)@.reading.reads(*event),
        ensures
            (final(self)@, draft::sketched(drafts@)) == old(self)@.pushed(*event),
    {
        let known = event.parse();
        match &known {
            Some(KnownEvent::AssistantChunk { chunk }) => match chunk {
                Chunk::Text { delta } => {
                    self.answer.append(delta.as_str());
                },
                Chunk::Reasoning { delta } => {
                    self.reasoning.append(delta.as_str());
                },
                Chunk::ToolCall { .. } => {},
            },
            Some(KnownEvent::AssistantMessage { .. }) => {
                // The assembled message settles what the chunks were showing.
                self.answer = String::new();
                self.reasoning = String::new();
            },
            Some(KnownEvent::TurnEnd { .. }) => {
                self.over = true;
            },
            _ => {},
        }
        if let Some(phase) = phase_for(&known) {
            self.phase = phase;
        }
        self.reader.lines(event)
    }

    /// Advance the spinner. Called on the caller's frame interval, not on an
    /// event, so a long silence still looks alive.
    pub fn tick(&mut self)
        ensures
            final(self)@ == (Watching { tick: old(self)@.tick.wrapping_add(1), ..old(self)@ }),
    {
        self.tick = self.tick.wrapping_add(1);
    }

    /// How far the spinner has turned.
    pub fn ticks(&self) -> (n: usize)
        ensures
            n == self@.tick,
    {
        self.tick
    }

    /// Nothing more is coming: the block has nothing left to say.
    pub fn finish(&mut self)
        ensures
            final(self)@ == (Watching { over: true, ..old(self)@ }),
    {
        self.over = true;
    }

    /// Whether the block has nothing left to say.
    pub fn over(&self) -> (r: bool)
        ensures
            r == self@.over,
    {
        self.over
    }

    /// Whether the turn is over, from one who knows which of the turns read is
    /// the one being watched.
    pub fn mark_over(&mut self, over: bool)
        ensures
            final(self)@ == (Watching { over, ..old(self)@ }),
    {
        self.over = over;
    }

    /// What the turn has spent so far.
    pub fn spent(&self) -> (r: Option<u64>)
        requires
            self@.reading.spent matches Some(spent) ==> spent.prompt_tokens
                + spent.completion_tokens <= u64::MAX,
        ensures
            match self@.reading.spent {
                Some(spent) => r == Some((spent.prompt_tokens + spent.completion_tokens) as u64),
                None => r is None,
            },
    {
        self.reader.spent()
    }

    /// The part of the answer no settled row carries yet, to be folded to the
    /// room a labelled block has.
    pub fn arriving(&self) -> (r: Option<(Speaker, String)>)
        ensures
            match r {
                Some((who, said)) => self@.arriving() == Some((who, said@)),
                None => self@.arriving() is None,
            },
    {
        if !self.answer.as_str().is_empty() {
            Some((Speaker::Ai, self.answer.clone()))
        } else if !self.reasoning.as_str().is_empty() {
            Some((Speaker::Think, self.reasoning.clone()))
        } else {
            None
        }
    }

    fn footer(&self, charset: Charset, spin: &str, elapsed: Elapsed) -> (l: Line)
        requires
            elapsed.wf(),
        ensures
            l@ == self@.footer(charset, spin@, elapsed.secs as nat, elapsed.nanos as nat),
    {
        let mut l = Line::of(Role::Plain, "  ");
        l.put(Role::Accent, spin);
        l.put(Role::Plain, " ");
        let mut said = text::cat(self.phase.as_str(), " ");
        said.append(charset.glyph("·", "-"));
        said.append(" ");
        said.append(duration(elapsed).as_str());
        l.put(Role::Muted, said.as_str());
        proof {
            assert(l@ =~= self@.footer(
                charset,
                spin@,
                elapsed.secs as nat,
                elapsed.nanos as nat,
            ));
        }
        l
    }

    /// The block as of now: the end of the answer so far, then the footer.
    /// `folded` is what the terminal made of [`Live::arriving`], and `spin` the
    /// frame of the spinner.
    pub fn block(
        &self,
        charset: Charset,
        spin: &str,
        elapsed: Elapsed,
        folded: &Vec<String>,
    ) -> (r: Vec<Line>)
        requires
            elapsed.wf(),
        ensures
            paint::rows_of(r@) == self@.block(
                charset,
                spin@,
                elapsed.secs as nat,
                elapsed.nanos as nat,
                text::views(folded@),
            ),
    {
        if self.over {
            return Vec::new();
        }
        let said: Vec<Line> = if !self.answer.as_str().is_empty() {
            rows::said(Speaker::Ai, folded)
        } else if !self.reasoning.as_str().is_empty() {
            rows::said(Speaker::Think, folded)
        } else {
            Vec::new()
        };
        let ghost all = paint::rows_of(said@);
        let mut r = said;
        if r.len() > BLOCK - 1 {
            // The footer is the row that has to be there, so the answer gives
            // up its oldest rows for it.
            let cut: usize = r.len() - (BLOCK - 1);
            let kept = r.split_off(cut);
            proof {
                assert(paint::rows_of(kept@) =~= all.skip(cut as int));
            }
            r = kept;
        }
        r.push(self.footer(charset, spin, elapsed));
        r
    }
}

fn phase_for(known: &Option<KnownEvent>) -> (r: Option<String>)
    ensures
        forall|phase: Seq<char>|
            (match r {
                Some(said) => said@,
                None => phase,
            }) == #[trigger] phase_after(phase, event::seen(*known)),
{
    match known {
        Some(KnownEvent::AssistantChunk { chunk }) => match chunk {
            Chunk::Text { .. } => Some("streaming the answer".to_owned()),
            Chunk::Reasoning { .. } => Some("thinking".to_owned()),
            Chunk::ToolCall { name } => Some(text::cat("asked for ", name.as_str())),
        },
        Some(KnownEvent::TurnStart { .. }) => Some("starting the turn".to_owned()),
        Some(KnownEvent::StepStart { step, .. }) => Some(
            text::cat("step ", decimal(*step as u64).as_str()),
        ),
        Some(KnownEvent::UserMessage { .. }) => Some("asking the model".to_owned()),
        Some(KnownEvent::AssistantMessage { tool_calls, .. }) => if *tool_calls == 0 {
            Some("closing the turn".to_owned())
        } else {
            Some("running tools".to_owned())
        },
        Some(KnownEvent::ToolCall { name, .. }) => Some(text::cat("running ", name.as_str())),
        Some(KnownEvent::ToolResult { .. }) => Some("asking the model".to_owned()),
        Some(KnownEvent::TurnEnd { .. }) => Some("done".to_owned()),
        _ => None,
    }
}

/// What a watched turn is doing is told by the last event that says so: a step by
/// its own number, a tool by its name, a message by whether tools are still owed.
pub proof fn lemma_the_phase_tells_the_last_thing(
    phase: Seq<char>,
    turn: u64,
    step: u32,
    fact: event::Fact,
)
    ensures
        phase_after(phase, Some(event::Fact::StepStart { turn, step })) == "step "@ + text::dec(
            step as nat,
        ),
        fact is TurnStart ==> phase_after(phase, Some(fact)) == "starting the turn"@,
        fact is UserMessage || fact is ToolResult ==> phase_after(phase, Some(fact))
            == "asking the model"@,
        fact matches event::Fact::ToolCall { name, .. } ==> phase_after(phase, Some(fact))
            == "running "@ + name,
        fact matches event::Fact::AssistantMessage { tool_calls, .. } ==> phase_after(
            phase,
            Some(fact),
        ) == if tool_calls == 0 {
            "closing the turn"@
        } else {
            "running tools"@
        },
        fact matches event::Fact::AssistantChunk { chunk: event::Bit::Text(_) } ==> phase_after(
            phase,
            Some(fact),
        ) == "streaming the answer"@,
        fact matches event::Fact::AssistantChunk { chunk: event::Bit::Reasoning(_) }
            ==> phase_after(phase, Some(fact)) == "thinking"@,
        fact matches event::Fact::AssistantChunk { chunk: event::Bit::ToolCall(name) }
            ==> phase_after(phase, Some(fact)) == "asked for "@ + name,
        fact is TurnEnd ==> phase_after(phase, Some(fact)) == "done"@,
        fact is SessionStart || fact is StepEnd ==> phase_after(phase, Some(fact)) == phase,
        phase_after(phase, None) == phase,
{
}

/// What arrives is put together piece by piece and in order, the answer apart
/// from the thinking, until the whole message settles both; and nothing else
/// touches them.
pub proof fn lemma_pieces_are_put_together_in_order(live: Watching, event: SessionEvent)
    ensures
        ({
            let next = live.pushed(event).0;
            match event.fact() {
                Some(event::Fact::AssistantChunk { chunk: event::Bit::Text(delta) }) => next.answer
                    == live.answer + delta && next.reasoning == live.reasoning,
                Some(event::Fact::AssistantChunk { chunk: event::Bit::Reasoning(delta) }) =>
                    next.reasoning == live.reasoning + delta && next.answer == live.answer,
                Some(event::Fact::AssistantMessage { .. }) => next.answer.len() == 0
                    && next.reasoning.len() == 0,
                _ => next.answer == live.answer && next.reasoning == live.reasoning,
            }
        }),
        live.pushed(event).0.tick == live.tick,
        live.pushed(event).0.reading == live.reading.read(event).0,
        live.pushed(event).1 == live.reading.read(event).1,
{
}

/// What is shown arriving is the answer as soon as there is any of it, the
/// thinking while there is only that, and nothing before either.
pub proof fn lemma_the_answer_is_shown_before_the_thinking(live: Watching)
    ensures
        live.answer.len() > 0 ==> live.arriving() == Some((Speaker::Ai, live.answer)),
        live.answer.len() == 0 && live.reasoning.len() > 0 ==> live.arriving() == Some(
            (Speaker::Think, live.reasoning),
        ),
        live.answer.len() == 0 && live.reasoning.len() == 0 ==> live.arriving() is None,
{
}

/// The block over a turn shows the end of what arrives and then the footer: the
/// last five rows of it, or all of them where there are no more, each as it would
/// be drawn among all. Over a turn that is over there is no block.
pub proof fn lemma_the_block_shows_the_end_of_what_arrives(
    live: Watching,
    charset: Charset,
    spin: Seq<char>,
    secs: nat,
    nanos: nat,
    folded: Seq<Seq<char>>,
)
    ensures
        ({
            let block = live.block(charset, spin, secs, nanos, folded);
            let shown: int = if live.arriving() is None {
                0
            } else if folded.len() > 5 {
                5
            } else {
                folded.len() as int
            };
            &&& live.over ==> block.len() == 0
            &&& !live.over ==> {
                &&& block.len() == shown + 1
                &&& block.last() == live.footer(charset, spin, secs, nanos)
                &&& live.arriving() matches Some((who, _)) ==> forall|i: int|
                    0 <= i < shown ==> #[trigger] block[i] == rows::said_row(
                        who,
                        folded[folded.len() - shown + i],
                        folded.len() - shown + i == 0,
                    )
            }
        }),
{
}

/// The footer names what the turn is doing and how long it has been at it.
pub proof fn lemma_the_footer_tells_what_and_how_long(
    live: Watching,
    charset: Charset,
    spin: Seq<char>,
    secs: nat,
    nanos: nat,
)
    ensures
        ({
            let row = live.footer(charset, spin, secs, nanos);
            &&& row.len() == 4
            &&& row[1] == (Role::Accent, spin)
            &&& charset is Unicode ==> row[3].1 == live.phase + " "@ + "·"@ + " "@
                + figures::duration_of(secs, nanos)
            &&& charset is Ascii ==> row[3].1 == live.phase + " "@ + "-"@ + " "@
                + figures::duration_of(secs, nanos)
        }),
{
}

} // verus!
