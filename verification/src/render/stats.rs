//! What a whole conversation has cost and how fast it has been.
//!
//! Every figure is derived rather than carried: a journal holds event times
//! and the usage a message reported, and a page that computed them from
//! anything else would be a second answer about one conversation.
use vstd::prelude::*;
use vstd::string::*;

use crate::event;
use crate::event::{KnownEvent, SessionEvent};
use crate::paint;
use crate::paint::{Charset, Line, Role};
use crate::render::figures;
use crate::render::figures::{millis, rate, tokens, FLOOR};
use crate::text;
use crate::text::{decimal, join, same};

verus! {

broadcast use {crate::text::group_views, crate::paint::group_rows};

/// What a journal says about the conversation on it.
#[derive(Clone, Copy, PartialEq, Eq, Structural, Debug)]
pub struct Stats {
    pub turns: u64,
    pub steps: u64,
    /// Milliseconds between a step starting and its message settling, summed.
    pub thinking: u64,
    /// Milliseconds between a tool being called and answering, summed.
    pub tooling: u64,
    /// Summed first-token waits, and how many steps recorded one.
    pub waited: u64,
    pub waits: u64,
    /// Decode time and the tokens decoded in it, over the steps recording both.
    pub decoding: u64,
    pub decoded: u64,
    pub prompt_tokens: u64,
    pub completion_tokens: u64,
}

impl Default for Stats {
    fn default() -> (s: Stats)
        ensures
            s == Stats::none(),
    {
        Stats {
            turns: 0,
            steps: 0,
            thinking: 0,
            tooling: 0,
            waited: 0,
            waits: 0,
            decoding: 0,
            decoded: 0,
            prompt_tokens: 0,
            completion_tokens: 0,
        }
    }
}

impl Stats {
    /// A journal that says nothing.
    pub open spec fn none() -> Stats {
        Stats {
            turns: 0,
            steps: 0,
            thinking: 0,
            tooling: 0,
            waited: 0,
            waits: 0,
            decoding: 0,
            decoded: 0,
            prompt_tokens: 0,
            completion_tokens: 0,
        }
    }

    /// The average wait for a first token, when any step recorded one.
    pub open spec fn wait_of(self) -> Option<u64> {
        if self.waits > 0 {
            Some(self.waited / self.waits)
        } else {
            None
        }
    }

    /// The average wait for a first token, when any step recorded one.
    pub fn wait(&self) -> (r: Option<u64>)
        ensures
            r == self.wait_of(),
    {
        if self.waits > 0 {
            Some(self.waited / self.waits)
        } else {
            None
        }
    }

    /// Tokens a second while decoding: nothing when too little time passed to
    /// divide by.
    pub fn rate(&self) -> (r: Option<u64>)
        requires
            figures::ratable(self.decoded, self.decoding),
        ensures
            match r {
                Some(rate) => figures::rate_of(self.decoded as nat, self.decoding as nat) == Some(
                    rate as nat,
                ),
                None => figures::rate_of(self.decoded as nat, self.decoding as nat) is None,
            },
    {
        rate(self.decoded, self.decoding)
    }
}

/// How long after one moment another came, and nothing when it came before.
pub open spec fn gap(from: u64, to: u64) -> nat {
    if to >= from {
        (to - from) as nat
    } else {
        0
    }
}

/// A fold over a journal: the figures so far, the step being waited on, and
/// the calls waiting on a result.
pub struct Tally {
    pub turns: nat,
    pub steps: nat,
    pub thinking: nat,
    pub tooling: nat,
    pub waited: nat,
    pub waits: nat,
    pub decoding: nat,
    pub decoded: nat,
    pub prompt_tokens: nat,
    pub completion_tokens: nat,
    pub step: Option<u64>,
    pub first: Option<u64>,
    pub calls: Seq<(Seq<char>, u64)>,
}

/// The first of the waiting calls with that id, or one past the last of them.
pub open spec fn pending(calls: Seq<(Seq<char>, u64)>, id: Seq<char>) -> nat
    decreases calls.len(),
{
    if calls.len() == 0 || calls[0].0 == id {
        0
    } else {
        1 + pending(calls.skip(1), id)
    }
}

impl Tally {
    /// Nothing heard yet.
    pub open spec fn none() -> Tally {
        Tally {
            turns: 0,
            steps: 0,
            thinking: 0,
            tooling: 0,
            waited: 0,
            waits: 0,
            decoding: 0,
            decoded: 0,
            prompt_tokens: 0,
            completion_tokens: 0,
            step: None,
            first: None,
            calls: Seq::empty(),
        }
    }

    /// The fold after one more event, at a moment of the journal's clock.
    pub open spec fn heard(self, time: u64, fact: Option<event::Fact>) -> Tally {
        match fact {
            Some(event::Fact::TurnStart { .. }) => Tally { turns: self.turns + 1, ..self },
            Some(event::Fact::StepStart { .. }) => Tally {
                steps: self.steps + 1,
                step: Some(time),
                first: None,
                ..self
            },
            Some(event::Fact::AssistantChunk { .. }) => if self.first is Some {
                self
            } else {
                match self.step {
                    Some(started) => Tally {
                        first: Some(time),
                        waited: self.waited + gap(started, time),
                        waits: self.waits + 1,
                        ..self
                    },
                    None => Tally { first: Some(time), ..self },
                }
            },
            Some(event::Fact::AssistantMessage { usage, .. }) => Tally {
                thinking: self.thinking + match self.step {
                    Some(started) => gap(started, time),
                    None => 0,
                },
                decoding: self.decoding + match (self.first, usage) {
                    (Some(first), Some(_)) => gap(first, time),
                    _ => 0,
                },
                decoded: self.decoded + match (self.first, usage) {
                    (Some(_), Some(usage)) => usage.completion_tokens as nat,
                    _ => 0,
                },
                prompt_tokens: self.prompt_tokens + match usage {
                    Some(usage) => usage.prompt_tokens as nat,
                    None => 0,
                },
                completion_tokens: self.completion_tokens + match usage {
                    Some(usage) => usage.completion_tokens as nat,
                    None => 0,
                },
                step: None,
                first: None,
                ..self
            },
            Some(event::Fact::ToolCall { id, .. }) => Tally {
                calls: self.calls.push((id, time)),
                ..self
            },
            Some(event::Fact::ToolResult { call_id, .. }) => {
                let at = pending(self.calls, call_id) as int;
                if at < self.calls.len() {
                    Tally {
                        tooling: self.tooling + gap(self.calls[at].1, time),
                        calls: self.calls.remove(at),
                        ..self
                    }
                } else {
                    self
                }
            },
            _ => self,
        }
    }

    /// Whether one fold's figures are no larger than another's.
    pub open spec fn within(self, other: Tally) -> bool {
        &&& self.turns <= other.turns
        &&& self.steps <= other.steps
        &&& self.thinking <= other.thinking
        &&& self.tooling <= other.tooling
        &&& self.waited <= other.waited
        &&& self.waits <= other.waits
        &&& self.decoding <= other.decoding
        &&& self.decoded <= other.decoded
        &&& self.prompt_tokens <= other.prompt_tokens
        &&& self.completion_tokens <= other.completion_tokens
    }

    /// Whether every figure fits the counter that holds it.
    pub open spec fn fits(self) -> bool {
        &&& self.turns <= u64::MAX
        &&& self.steps <= u64::MAX
        &&& self.thinking <= u64::MAX
        &&& self.tooling <= u64::MAX
        &&& self.waited <= u64::MAX
        &&& self.waits <= u64::MAX
        &&& self.decoding <= u64::MAX
        &&& self.decoded <= u64::MAX
        &&& self.prompt_tokens <= u64::MAX
        &&& self.completion_tokens <= u64::MAX
    }

    /// The figures of a fold.
    pub open spec fn stats(self) -> Stats {
        Stats {
            turns: self.turns as u64,
            steps: self.steps as u64,
            thinking: self.thinking as u64,
            tooling: self.tooling as u64,
            waited: self.waited as u64,
            waits: self.waits as u64,
            decoding: self.decoding as u64,
            decoded: self.decoded as u64,
            prompt_tokens: self.prompt_tokens as u64,
            completion_tokens: self.completion_tokens as u64,
        }
    }
}

/// A journal folded into what it says about the conversation on it.
pub open spec fn tally(events: Seq<SessionEvent>) -> Tally
    decreases events.len(),
{
    if events.len() == 0 {
        Tally::none()
    } else {
        tally(events.drop_last()).heard(events.last().time, events.last().fact())
    }
}

/// No event takes anything off a figure.
proof fn lemma_tally_grows(events: Seq<SessionEvent>, n: int)
    requires
        0 <= n <= events.len(),
    ensures
        tally(events.take(n)).within(tally(events)),
    decreases events.len() - n,
{
    if n == events.len() {
        assert(events.take(n) =~= events);
    } else {
        lemma_tally_grows(events, n + 1);
        assert(events.take(n + 1).drop_last() =~= events.take(n));
    }
}

/// The waiting call a result answers is the first with its id.
pub proof fn lemma_pending(calls: Seq<(Seq<char>, u64)>, id: Seq<char>)
    ensures
        pending(calls, id) <= calls.len(),
        forall|i: int| 0 <= i < pending(calls, id) ==> #[trigger] calls[i].0 != id,
        pending(calls, id) < calls.len() ==> calls[pending(calls, id) as int].0 == id,
    decreases calls.len(),
{
    if calls.len() > 0 && calls[0].0 != id {
        let rest = calls.skip(1);
        lemma_pending(rest, id);
        assert forall|i: int| 0 <= i < pending(calls, id) implies #[trigger] calls[i].0 != id by {
            if i > 0 {
                assert(rest[i - 1] == calls[i]);
            }
        }
        assert(pending(rest, id) < rest.len() ==> rest[pending(rest, id) as int]
            == calls[pending(calls, id) as int]);
    }
}

proof fn lemma_pending_is(calls: Seq<(Seq<char>, u64)>, id: Seq<char>, n: nat)
    requires
        n <= calls.len(),
        forall|i: int| 0 <= i < n ==> #[trigger] calls[i].0 != id,
        n == calls.len() || calls[n as int].0 == id,
    ensures
        pending(calls, id) == n,
{
    lemma_pending(calls, id);
    let m = pending(calls, id);
    if m < n {
        assert(calls[m as int].0 != id);
    }
    if n < m {
        assert(calls[n as int].0 != id);
    }
}

/// A result is paired to its call by the id it names and never by the order
/// it arrives in: two results of different calls count the same whichever of
/// them comes first.
pub proof fn lemma_results_in_any_order(
    t: Tally,
    first: event::Fact,
    first_time: u64,
    second: event::Fact,
    second_time: u64,
)
    requires
        first is ToolResult,
        second is ToolResult,
        first->ToolResult_call_id != second->ToolResult_call_id,
    ensures
        t.heard(first_time, Some(first)).heard(second_time, Some(second)) == t.heard(
            second_time,
            Some(second),
        ).heard(first_time, Some(first)),
{
    let a = first->ToolResult_call_id;
    let b = second->ToolResult_call_id;
    let i = pending(t.calls, a);
    let j = pending(t.calls, b);
    lemma_pending(t.calls, a);
    lemma_pending(t.calls, b);
    lemma_without(t.calls, a, b);
    lemma_without(t.calls, b, a);
    if i < t.calls.len() && j < t.calls.len() {
        if i < j {
            assert(t.calls.remove(i as int).remove(j - 1) =~= t.calls.remove(j as int).remove(
                i as int,
            ));
        } else {
            assert(t.calls.remove(j as int).remove(i - 1) =~= t.calls.remove(i as int).remove(
                j as int,
            ));
        }
    }
    let x = t.heard(first_time, Some(first)).heard(second_time, Some(second));
    let y = t.heard(second_time, Some(second)).heard(first_time, Some(first));
    assert(x.tooling == y.tooling);
    assert(x.calls =~= y.calls);
}

/// Taking the first call of one id out leaves the first of another where it
/// was, one place nearer when it came after.
proof fn lemma_without(calls: Seq<(Seq<char>, u64)>, a: Seq<char>, b: Seq<char>)
    requires
        a != b,
    ensures
        pending(calls, a) < calls.len() ==> {
            let rest = calls.remove(pending(calls, a) as int);
            let j = pending(calls, b);
            &&& pending(rest, b) == if j > pending(calls, a) {
                (j - 1) as nat
            } else {
                j
            }
            &&& j < calls.len() ==> rest[pending(rest, b) as int] == calls[j as int]
        },
{
    lemma_pending(calls, a);
    lemma_pending(calls, b);
    let i = pending(calls, a) as int;
    let j = pending(calls, b) as int;
    if i < calls.len() {
        let rest = calls.remove(i);
        assert(calls[i].0 == a);
        assert(i != j);
        let n = if j > i {
            j - 1
        } else {
            j
        };
        assert forall|k: int| 0 <= k < n implies #[trigger] rest[k].0 != b by {
            if k < i {
                assert(rest[k] == calls[k]);
            } else {
                assert(rest[k] == calls[k + 1]);
            }
        }
        if n < rest.len() {
            if n < i {
                assert(rest[n] == calls[n]);
            } else {
                assert(rest[n] == calls[n + 1]);
            }
        }
        lemma_pending_is(rest, b, n as nat);
    }
}

/// The waiting calls, by what they hold.
pub open spec fn waiting(calls: Seq<(String, u64)>) -> Seq<(Seq<char>, u64)> {
    calls.map_values(|c: (String, u64)| (c.0@, c.1))
}

fn first_pending(calls: &Vec<(String, u64)>, id: &str) -> (at: usize)
    ensures
        at == pending(waiting(calls@), id@),
        at <= calls.len(),
{
    let mut at: usize = 0;
    while at < calls.len() && !same(calls[at].0.as_str(), id)
        invariant
            at <= calls.len(),
            forall|i: int| 0 <= i < at ==> #[trigger] waiting(calls@)[i].0 != id@,
        decreases calls.len() - at,
    {
        at = at + 1;
    }
    proof {
        lemma_pending_is(waiting(calls@), id@, at as nat);
    }
    at
}

/// The fold over a journal, as it is counted.
struct Fold {
    stats: Stats,
    step: Option<u64>,
    first: Option<u64>,
    calls: Vec<(String, u64)>,
}

impl View for Fold {
    type V = Tally;

    closed spec fn view(&self) -> Tally {
        Tally {
            turns: self.stats.turns as nat,
            steps: self.stats.steps as nat,
            thinking: self.stats.thinking as nat,
            tooling: self.stats.tooling as nat,
            waited: self.stats.waited as nat,
            waits: self.stats.waits as nat,
            decoding: self.stats.decoding as nat,
            decoded: self.stats.decoded as nat,
            prompt_tokens: self.stats.prompt_tokens as nat,
            completion_tokens: self.stats.completion_tokens as nat,
            step: self.step,
            first: self.first,
            calls: waiting(self.calls@),
        }
    }
}

impl Fold {
    fn new() -> (f: Fold)
        ensures
            f@ == Tally::none(),
    {
        let f = Fold { stats: Stats::default(), step: None, first: None, calls: Vec::new() };
        proof {
            assert(waiting(f.calls@) =~= Seq::<(Seq<char>, u64)>::empty());
        }
        f
    }

    /// Count a message that settled, unless a figure would no longer fit.
    fn settle(&mut self, time: u64, usage: Option<event::Usage>) -> (r: bool)
        ensures
            ({
                let next = Tally {
                    thinking: old(self)@.thinking + match old(self)@.step {
                        Some(started) => gap(started, time),
                        None => 0,
                    },
                    decoding: old(self)@.decoding + match (old(self)@.first, usage) {
                        (Some(first), Some(_)) => gap(first, time),
                        _ => 0,
                    },
                    decoded: old(self)@.decoded + match (old(self)@.first, usage) {
                        (Some(_), Some(usage)) => usage.completion_tokens as nat,
                        _ => 0,
                    },
                    prompt_tokens: old(self)@.prompt_tokens + match usage {
                        Some(usage) => usage.prompt_tokens as nat,
                        None => 0,
                    },
                    completion_tokens: old(self)@.completion_tokens + match usage {
                        Some(usage) => usage.completion_tokens as nat,
                        None => 0,
                    },
                    step: None,
                    first: None,
                    ..old(self)@
                };
                &&& r == next.fits()
                &&& r ==> final(self)@ == next
            }),
    {
        let thought: u64 = match self.step {
            Some(started) => time.saturating_sub(started),
            None => 0,
        };
        let (took, made): (u64, u64) = match (self.first, usage) {
            (Some(first), Some(usage)) => (time.saturating_sub(first), usage.completion_tokens),
            _ => (0, 0),
        };
        let (asked, answered): (u64, u64) = match usage {
            Some(usage) => (usage.prompt_tokens, usage.completion_tokens),
            None => (0, 0),
        };
        match (
            self.stats.thinking.checked_add(thought),
            self.stats.decoding.checked_add(took),
            self.stats.decoded.checked_add(made),
            self.stats.prompt_tokens.checked_add(asked),
            self.stats.completion_tokens.checked_add(answered),
        ) {
            (Some(thinking), Some(decoding), Some(decoded), Some(prompt), Some(completion)) => {
                self.stats.thinking = thinking;
                self.stats.decoding = decoding;
                self.stats.decoded = decoded;
                self.stats.prompt_tokens = prompt;
                self.stats.completion_tokens = completion;
                self.step = None;
                self.first = None;
                true
            },
            _ => false,
        }
    }

    /// Count one more event, unless a figure would no longer fit.
    fn hear(&mut self, event: &SessionEvent) -> (r: bool)
        ensures
            r == old(self)@.heard(event.time, event.fact()).fits(),
            r ==> final(self)@ == old(self)@.heard(event.time, event.fact()),
    {
        let time: u64 = event.time;
        match event.parse() {
            Some(KnownEvent::TurnStart { .. }) => match self.stats.turns.checked_add(1) {
                Some(turns) => {
                    self.stats.turns = turns;
                },
                None => {
                    return false;
                },
            },
            Some(KnownEvent::StepStart { .. }) => match self.stats.steps.checked_add(1) {
                Some(steps) => {
                    self.stats.steps = steps;
                    self.step = Some(time);
                    self.first = None;
                },
                None => {
                    return false;
                },
            },
            Some(KnownEvent::AssistantChunk { .. }) => {
                if self.first.is_none() {
                    if let Some(started) = self.step {
                        match (
                            self.stats.waited.checked_add(time.saturating_sub(started)),
                            self.stats.waits.checked_add(1),
                        ) {
                            (Some(waited), Some(waits)) => {
                                self.stats.waited = waited;
                                self.stats.waits = waits;
                            },
                            _ => {
                                return false;
                            },
                        }
                    }
                    self.first = Some(time);
                }
            },
            Some(KnownEvent::AssistantMessage { usage, .. }) => {
                return self.settle(time, usage);
            },
            Some(KnownEvent::ToolCall { id, .. }) => {
                let ghost before = waiting(self.calls@);
                let ghost held = id@;
                self.calls.push((id, time));
                proof {
                    assert(waiting(self.calls@) =~= before.push((held, time)));
                }
            },
            Some(KnownEvent::ToolResult { call_id, .. }) => {
                let ghost before = waiting(self.calls@);
                let at: usize = first_pending(&self.calls, call_id.as_str());
                if at < self.calls.len() {
                    let called: u64 = self.calls[at].1;
                    match self.stats.tooling.checked_add(time.saturating_sub(called)) {
                        Some(tooling) => {
                            self.stats.tooling = tooling;
                        },
                        None => {
                            return false;
                        },
                    }
                    let _ = self.calls.remove(at);
                    proof {
                        assert(waiting(self.calls@) =~= before.remove(at as int));
                    }
                }
            },
            _ => {},
        }
        true
    }
}

/// Whether every figure of a journal fits the counter that holds it.
fn can_fold(events: &[SessionEvent]) -> (r: bool)
    ensures
        r == tally(events@).fits(),
{
    let mut fold = Fold::new();
    let mut i: usize = 0;
    proof {
        assert(events@.take(0) =~= Seq::<SessionEvent>::empty());
    }
    while i < events.len()
        invariant
            i <= events.len(),
            fold@ == tally(events@.take(i as int)),
        decreases events.len() - i,
    {
        proof {
            assert(events@.take(i + 1).drop_last() =~= events@.take(i as int));
            assert(events@.take(i + 1).last() == events@[i as int]);
            lemma_tally_grows(events@, i + 1);
        }
        if !fold.hear(&events[i]) {
            return false;
        }
        i = i + 1;
    }
    proof {
        assert(events@.take(i as int) =~= events@);
    }
    true
}

/// Fold a journal into what it says about the conversation on it.
pub fn stats(events: &[SessionEvent]) -> (r: Stats)
    requires
        tally(events@).fits(),
    ensures
        r == tally(events@).stats(),
{
    let mut fold = Fold::new();
    let mut i: usize = 0;
    proof {
        assert(events@.take(0) =~= Seq::<SessionEvent>::empty());
    }
    while i < events.len()
        invariant
            i <= events.len(),
            tally(events@).fits(),
            fold@ == tally(events@.take(i as int)),
        decreases events.len() - i,
    {
        proof {
            assert(events@.take(i + 1).drop_last() =~= events@.take(i as int));
            assert(events@.take(i + 1).last() == events@[i as int]);
            lemma_tally_grows(events@, i + 1);
        }
        let _ = fold.hear(&events[i]);
        i = i + 1;
    }
    proof {
        assert(events@.take(i as int) =~= events@);
    }
    fold.stats
}

/// Fold a journal into what it says, where every figure of it fits the counter
/// that holds it.
pub fn checked_stats(events: &[SessionEvent]) -> (r: Option<Stats>)
    ensures
        r is Some <==> tally(events@).fits(),
        r matches Some(s) ==> s == tally(events@).stats(),
{
    if can_fold(events) {
        Some(stats(events))
    } else {
        None
    }
}

/// How many of something, in words: one is singular.
pub open spec fn some_of(n: nat, one: Seq<char>, many: Seq<char>) -> Seq<char> {
    if n == 1 {
        text::dec(1) + one
    } else {
        text::dec(n) + many
    }
}

/// How many of something, in words.
pub fn some(n: u64, one: &str, many: &str) -> (s: String)
    ensures
        s@ == some_of(n as nat, one@, many@),
{
    let mut s = decimal(n);
    if n == 1 {
        s.append(one);
    } else {
        s.append(many);
    }
    s
}

/// The mark between two figures of a group.
pub open spec fn between(dot: Seq<char>) -> Seq<char> {
    " "@ + dot + " "@
}

fn between_dots(dot: &str) -> (s: String)
    ensures
        s@ == between(dot@),
{
    let mut s = text::cat(" ", dot);
    s.append(" ");
    s
}

/// One of two parts of a group, when it is there.
pub open spec fn part(there: bool, said: Seq<char>) -> Seq<Seq<char>> {
    if there {
        seq![said]
    } else {
        Seq::empty()
    }
}

/// A group, unless there is nothing in it.
pub open spec fn group(parts: Seq<Seq<char>>, dot: Seq<char>) -> Option<Seq<char>> {
    if parts.len() == 0 {
        None
    } else {
        Some(text::joined(parts, between(dot)))
    }
}

/// How much was asked.
pub open spec fn counted_of(stats: Stats, dot: Seq<char>) -> Seq<char> {
    text::joined(
        part(stats.turns > 0, some_of(stats.turns as nat, " turn"@, " turns"@)) + part(
            stats.steps > 0,
            some_of(stats.steps as nat, " step"@, " steps"@),
        ),
        between(dot),
    )
}

/// How long the model and the tools each took.
pub open spec fn took_of(stats: Stats, dot: Seq<char>) -> Option<Seq<char>> {
    group(
        part(stats.thinking > 0, "model "@ + figures::millis_of(stats.thinking)) + part(
            stats.tooling > 0,
            "tools "@ + figures::millis_of(stats.tooling),
        ),
        dot,
    )
}

/// How fast the answers came, on the readings worth reporting.
pub open spec fn fast_of(stats: Stats, dot: Seq<char>) -> Option<Seq<char>> {
    let rate = figures::rate_of(stats.decoded as nat, stats.decoding as nat);
    group(
        part(
            stats.wait_of() is Some && stats.wait_of()->0 >= FLOOR,
            "first token in "@ + figures::millis_of(stats.wait_of()->0) + " on average"@,
        ) + part(rate is Some, text::dec(rate->0) + " tok/s"@),
        dot,
    )
}

/// What was billed, when anything was.
pub open spec fn billed_of(stats: Stats, dot: Seq<char>) -> Option<Seq<char>> {
    if stats.prompt_tokens + stats.completion_tokens > 0 {
        Some(
            figures::tokens_of(stats.prompt_tokens as nat) + " in "@ + dot + " "@
                + figures::tokens_of(stats.completion_tokens as nat) + " out"@,
        )
    } else {
        None
    }
}

/// A group, when there is one.
pub open spec fn there(group: Option<Seq<char>>) -> Seq<Seq<char>> {
    match group {
        Some(said) => seq![said],
        None => Seq::empty(),
    }
}

/// The strip a reader asks for.
pub open spec fn told_of(charset: Charset, stats: Stats) -> Seq<paint::Row> {
    if stats.turns == 0 && stats.steps == 0 {
        seq![seq![(Role::Muted, "nothing has been asked yet"@)]]
    } else {
        let dot = paint::glyph_of(charset, "·"@, "-"@);
        let groups = seq![counted_of(stats, dot)] + there(took_of(stats, dot)) + there(
            fast_of(stats, dot),
        ) + there(billed_of(stats, dot));
        seq![
            seq![(Role::Heading, "stats"@)],
            seq![(Role::Plain, "  "@), (Role::Muted, text::joined(groups, "   "@))],
        ]
    }
}

/// How much was asked.
///
/// A turn that failed before its first step is still a turn, and each half is
/// counted where it is there rather than the pair being counted together.
pub fn counted(stats: &Stats, dot: &str) -> (s: String)
    ensures
        s@ == counted_of(*stats, dot@),
{
    let mut counts: Vec<String> = Vec::new();
    if stats.turns > 0 {
        counts.push(some(stats.turns, " turn", " turns"));
    }
    if stats.steps > 0 {
        counts.push(some(stats.steps, " step", " steps"));
    }
    proof {
        assert(text::views(counts@) =~= part(
            stats.turns > 0,
            some_of(stats.turns as nat, " turn"@, " turns"@),
        ) + part(stats.steps > 0, some_of(stats.steps as nat, " step"@, " steps"@)));
    }
    join(&counts, between_dots(dot).as_str())
}

fn grouped(parts: &Vec<String>, dot: &str) -> (r: Option<String>)
    ensures
        crate::json::held(r) == group(text::views(parts@), dot@),
{
    if parts.len() == 0 {
        None
    } else {
        Some(join(parts, between_dots(dot).as_str()))
    }
}

/// How long the model and the tools each took.
pub fn took(stats: &Stats, dot: &str) -> (r: Option<String>)
    ensures
        crate::json::held(r) == took_of(*stats, dot@),
{
    let mut parts: Vec<String> = Vec::new();
    if stats.thinking > 0 {
        parts.push(text::cat("model ", millis(stats.thinking).as_str()));
    }
    if stats.tooling > 0 {
        parts.push(text::cat("tools ", millis(stats.tooling).as_str()));
    }
    proof {
        assert(text::views(parts@) =~= part(
            stats.thinking > 0,
            "model "@ + figures::millis_of(stats.thinking),
        ) + part(stats.tooling > 0, "tools "@ + figures::millis_of(stats.tooling)));
    }
    grouped(&parts, dot)
}

/// How fast the answers came, on the readings worth reporting.
pub fn fast(stats: &Stats, dot: &str) -> (r: Option<String>)
    requires
        figures::ratable(stats.decoded, stats.decoding),
    ensures
        crate::json::held(r) == fast_of(*stats, dot@),
{
    let mut parts: Vec<String> = Vec::new();
    let ghost rate = figures::rate_of(stats.decoded as nat, stats.decoding as nat);
    let ghost slow = stats.wait_of() is Some && stats.wait_of()->0 >= FLOOR;
    let ghost waited = "first token in "@ + figures::millis_of(stats.wait_of()->0)
        + " on average"@;
    if let Some(wait) = stats.wait() {
        if wait >= FLOOR {
            let mut said = text::cat("first token in ", millis(wait).as_str());
            said.append(" on average");
            parts.push(said);
        }
    }
    proof {
        assert(text::views(parts@) =~= part(slow, waited));
    }
    if let Some(rate) = stats.rate() {
        parts.push(text::cat(decimal(rate).as_str(), " tok/s"));
    }
    proof {
        assert(text::views(parts@) =~= part(slow, waited) + part(
            rate is Some,
            text::dec(rate->0) + " tok/s"@,
        ));
    }
    grouped(&parts, dot)
}

/// What was billed, when anything was.
pub fn billed(stats: &Stats, dot: &str) -> (r: Option<String>)
    ensures
        crate::json::held(r) == billed_of(*stats, dot@),
{
    if stats.prompt_tokens == 0 && stats.completion_tokens == 0 {
        return None;
    }
    let mut s = tokens(stats.prompt_tokens);
    s.append(" in ");
    s.append(dot);
    s.append(" ");
    s.append(tokens(stats.completion_tokens).as_str());
    s.append(" out");
    Some(s)
}

/// The strip a reader asks for: what was asked, what it took, how fast it was,
/// and what it cost.
///
/// A group with nothing in it is left out whole rather than written as zeroes:
/// a conversation whose every request failed has counts and no billing, and
/// `0 tokens` would read as one that was free.
pub fn told(charset: Charset, stats: &Stats) -> (r: Vec<Line>)
    requires
        figures::ratable(stats.decoded, stats.decoding),
    ensures
        paint::rows_of(r@) == told_of(charset, *stats),
{
    if stats.turns == 0 && stats.steps == 0 {
        return paint::only(Line::of(Role::Muted, "nothing has been asked yet"));
    }
    let dot = charset.glyph("·", "-");
    let ghost d = dot@;
    let mut groups: Vec<String> = Vec::new();
    groups.push(counted(stats, dot));
    let ghost one = seq![counted_of(*stats, d)];
    proof {
        assert(text::views(groups@) =~= one);
    }
    if let Some(said) = took(stats, dot) {
        groups.push(said);
    }
    let ghost two = one + there(took_of(*stats, d));
    proof {
        assert(text::views(groups@) =~= two);
    }
    if let Some(said) = fast(stats, dot) {
        groups.push(said);
    }
    let ghost three = two + there(fast_of(*stats, d));
    proof {
        assert(text::views(groups@) =~= three);
    }
    if let Some(said) = billed(stats, dot) {
        groups.push(said);
    }
    proof {
        assert(text::views(groups@) =~= three + there(billed_of(*stats, d)));
    }
    let mut r = paint::only(Line::of(Role::Heading, "stats"));
    let mut strip = Line::of(Role::Plain, "  ");
    strip.put(Role::Muted, join(&groups, "   ").as_str());
    proof {
        assert(strip@ =~= told_of(charset, *stats)[1]);
    }
    r.push(strip);
    proof {
        assert(paint::rows_of(r@) =~= told_of(charset, *stats));
    }
    r
}

/// A journal is tallied event by event and in order, and one that is empty tallies
/// to nothing.
pub proof fn lemma_a_journal_is_tallied_in_order(events: Seq<SessionEvent>, event: SessionEvent)
    ensures
        tally(Seq::empty()) == Tally::none(),
        tally(events.push(event)) == tally(events).heard(event.time, event.fact()),
        Tally::none().stats() == Stats::none(),
{
    assert(events.push(event).drop_last() =~= events);
}

/// A turn is counted where it starts and a step where it starts, once each, and
/// nowhere else.
pub proof fn lemma_turns_and_steps_are_counted_at_their_start(
    t: Tally,
    time: u64,
    fact: Option<event::Fact>,
)
    ensures
        t.heard(time, fact).turns == t.turns + if fact is Some && fact->0 is TurnStart {
            1nat
        } else {
            0
        },
        t.heard(time, fact).steps == t.steps + if fact is Some && fact->0 is StepStart {
            1nat
        } else {
            0
        },
{
}

/// The model's time is that from the start of a step to its message, and the wait
/// that from its start to its first chunk: one wait for each step that has a
/// chunk, however many it has.
pub proof fn lemma_a_step_is_timed_from_its_start(
    t: Tally,
    turn: u64,
    step: u32,
    started: u64,
    first: u64,
    again: u64,
    done: u64,
    chunk: event::Fact,
    message: event::Fact,
)
    requires
        started <= first <= done,
        chunk is AssistantChunk,
        message is AssistantMessage,
    ensures
        ({
            let begun = t.heard(started, Some(event::Fact::StepStart { turn, step }));
            let heard = begun.heard(first, Some(chunk));
            let more = heard.heard(again, Some(chunk));
            let ended = more.heard(done, Some(message));
            &&& heard.waited == t.waited + (first - started)
            &&& heard.waits == t.waits + 1
            &&& more == heard
            &&& ended.thinking == t.thinking + (done - started)
            &&& ended.waited == heard.waited && ended.waits == heard.waits
            &&& ended.step is None && ended.first is None
        }),
{
}

/// Tokens are counted by their kind, from every message that measured them; and
/// decoding, with its tokens, from the first chunk of a step to its message.
pub proof fn lemma_tokens_are_counted_by_their_kind(t: Tally, time: u64, fact: event::Fact)
    requires
        fact is AssistantMessage,
    ensures
        ({
            let next = t.heard(time, Some(fact));
            match fact->AssistantMessage_usage {
                None => next.prompt_tokens == t.prompt_tokens && next.completion_tokens
                    == t.completion_tokens && next.decoding == t.decoding && next.decoded
                    == t.decoded,
                Some(usage) => {
                    &&& next.prompt_tokens == t.prompt_tokens + usage.prompt_tokens
                    &&& next.completion_tokens == t.completion_tokens + usage.completion_tokens
                    &&& t.first is None ==> next.decoding == t.decoding && next.decoded
                        == t.decoded
                    &&& t.first matches Some(first) ==> next.decoded == t.decoded
                        + usage.completion_tokens && (first <= time ==> next.decoding == t.decoding
                        + (time - first))
                },
            }
        }),
{
}

/// A tool's time is that from its call to its own result, whatever comes between
/// them, and a result that answers no call takes none.
pub proof fn lemma_a_tool_is_timed_to_its_own_result(
    t: Tally,
    id: Seq<char>,
    name: Seq<char>,
    arguments: Seq<char>,
    called: u64,
    time: u64,
    ok: bool,
    content: Seq<char>,
)
    requires
        called <= time,
        pending(t.calls, id) == t.calls.len(),
    ensures
        ({
            let asked = t.heard(called, Some(event::Fact::ToolCall { id, name, arguments }));
            let answered = asked.heard(
                time,
                Some(event::Fact::ToolResult { call_id: id, name, ok, content }),
            );
            &&& asked.tooling == t.tooling
            &&& answered.tooling == t.tooling + (time - called)
            &&& answered == (Tally { tooling: answered.tooling, ..t })
            &&& t.heard(
                time,
                Some(event::Fact::ToolResult { call_id: id, name, ok, content }),
            ) == t
        }),
{
    let asked = t.heard(called, Some(event::Fact::ToolCall { id, name, arguments }));
    lemma_pending(t.calls, id);
    assert forall|i: int| 0 <= i < t.calls.len() implies #[trigger] asked.calls[i].0 != id by {
        assert(asked.calls[i] == t.calls[i]);
    }
    lemma_pending_is(asked.calls, id, t.calls.len());
    assert(asked.calls.remove(t.calls.len() as int) =~= t.calls);
}

/// What an event does not measure it leaves as it was: prompts, the ends of steps
/// and turns, the start of a session and events of no known type change nothing.
pub proof fn lemma_other_events_measure_nothing(t: Tally, time: u64, fact: Option<event::Fact>)
    requires
        fact matches Some(fact) ==> fact is UserMessage || fact is StepEnd || fact is TurnEnd
            || fact is SessionStart,
    ensures
        t.heard(time, fact) == t,
{
}

/// The wait that is told is the mean of the waits there were, and none where there
/// was none.
pub proof fn lemma_the_wait_is_a_mean(stats: Stats)
    ensures
        stats.wait_of() is None <==> stats.waits == 0,
        stats.wait_of() matches Some(wait) ==> wait * stats.waits <= stats.waited < (wait + 1)
            * stats.waits,
{
    if stats.waits > 0 {
        let all = stats.waited as int;
        let n = stats.waits as int;
        let wait = all / n;
        assert(wait * n <= all < (wait + 1) * n) by (nonlinear_arith)
            requires
                n > 0,
                wait == all / n,
        ;
    }
}

/// Figures are told each where there is one and by its own name: the turns and
/// the steps, the model's time and the tools', the mean wait from a tenth of a
/// second on and the rate, the tokens in and out.
pub proof fn lemma_figures_are_told_by_their_names(stats: Stats, dot: Seq<char>)
    ensures
        stats.turns > 0 && stats.steps == 0 ==> counted_of(stats, dot) == some_of(
            stats.turns as nat,
            " turn"@,
            " turns"@,
        ),
        stats.turns == 0 && stats.steps > 0 ==> counted_of(stats, dot) == some_of(
            stats.steps as nat,
            " step"@,
            " steps"@,
        ),
        stats.turns > 0 && stats.steps > 0 ==> counted_of(stats, dot) == some_of(
            stats.turns as nat,
            " turn"@,
            " turns"@,
        ) + (" "@ + dot + " "@) + some_of(stats.steps as nat, " step"@, " steps"@),
        took_of(stats, dot) is None <==> stats.thinking == 0 && stats.tooling == 0,
        stats.thinking > 0 && stats.tooling == 0 ==> took_of(stats, dot) == Some(
            "model "@ + figures::millis_of(stats.thinking),
        ),
        stats.thinking == 0 && stats.tooling > 0 ==> took_of(stats, dot) == Some(
            "tools "@ + figures::millis_of(stats.tooling),
        ),
        stats.thinking > 0 && stats.tooling > 0 ==> took_of(stats, dot) == Some(
            "model "@ + figures::millis_of(stats.thinking) + (" "@ + dot + " "@) + ("tools "@
                + figures::millis_of(stats.tooling)),
        ),
        billed_of(stats, dot) is None <==> stats.prompt_tokens == 0 && stats.completion_tokens
            == 0,
        billed_of(stats, dot) matches Some(said) ==> said == figures::tokens_of(
            stats.prompt_tokens as nat,
        ) + " in "@ + dot + " "@ + figures::tokens_of(stats.completion_tokens as nat) + " out"@,
{
    let gap = between(dot);
    let turns = some_of(stats.turns as nat, " turn"@, " turns"@);
    let steps = some_of(stats.steps as nat, " step"@, " steps"@);
    let model = "model "@ + figures::millis_of(stats.thinking);
    let tools = "tools "@ + figures::millis_of(stats.tooling);
    lemma_two_parts(turns, steps, gap);
    lemma_two_parts(model, tools, gap);
}

proof fn lemma_two_parts(one: Seq<char>, other: Seq<char>, gap: Seq<char>)
    ensures
        text::joined(part(true, one) + part(false, other), gap) == one,
        text::joined(part(false, one) + part(true, other), gap) == other,
        text::joined(part(true, one) + part(true, other), gap) == one + gap + other,
{
    assert(part(true, one) + part(false, other) =~= seq![one]);
    assert(part(false, one) + part(true, other) =~= seq![other]);
    text::lemma_a_join_parts_with_the_separator(seq![one], seq![other], gap, one);
    text::lemma_a_join_parts_with_the_separator(seq![one], seq![other], gap, other);
}

/// How fast the model was is told by the mean wait, where that is a tenth of a
/// second or more, and by the rate, where there is one; and not at all without
/// either.
pub proof fn lemma_the_speed_is_told_where_it_is_a_fact(stats: Stats, dot: Seq<char>)
    ensures
        ({
            let rate = figures::rate_of(stats.decoded as nat, stats.decoding as nat);
            let waits = stats.waits > 0 && stats.waited / stats.waits >= 100;
            let wait = "first token in "@ + figures::millis_of(stats.waited / stats.waits)
                + " on average"@;
            let speed = text::dec(rate->0) + " tok/s"@;
            &&& fast_of(stats, dot) is None <==> !waits && rate is None
            &&& waits && rate is None ==> fast_of(stats, dot) == Some(wait)
            &&& !waits && rate is Some ==> fast_of(stats, dot) == Some(speed)
            &&& waits && rate is Some ==> fast_of(stats, dot) == Some(
                wait + (" "@ + dot + " "@) + speed,
            )
        }),
{
    let rate = figures::rate_of(stats.decoded as nat, stats.decoding as nat);
    let wait = "first token in "@ + figures::millis_of(stats.waited / stats.waits)
        + " on average"@;
    lemma_two_parts(wait, text::dec(rate->0) + " tok/s"@, between(dot));
}

/// Of one there is one, and of any other number that many.
pub proof fn lemma_one_is_told_as_one(n: nat, one: Seq<char>, many: Seq<char>)
    ensures
        some_of(1, one, many) == text::dec(1) + one,
        n != 1 ==> some_of(n, one, many) == text::dec(n) + many,
{
}

/// The figures stand in one row under their heading, the counts first, and before
/// anything has been asked there is one row that says so.
pub proof fn lemma_the_figures_stand_in_one_row(charset: Charset, stats: Stats)
    ensures
        stats.turns == 0 && stats.steps == 0 ==> told_of(charset, stats) == seq![
            seq![(Role::Muted, "nothing has been asked yet"@)],
        ],
        stats.turns > 0 || stats.steps > 0 ==> ({
            let rows = told_of(charset, stats);
            let dot = paint::glyph_of(charset, "·"@, "-"@);
            let groups = seq![counted_of(stats, dot)] + there(took_of(stats, dot)) + there(
                fast_of(stats, dot),
            ) + there(billed_of(stats, dot));
            &&& rows.len() == 2
            &&& rows[0] == seq![(Role::Heading, "stats"@)]
            &&& rows[1].last() == (Role::Muted, text::joined(groups, "   "@))
        }),
{
}

} // verus!
