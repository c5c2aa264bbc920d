//! The summary of a turn, read back off the journal the turn wrote.
use vstd::prelude::*;

use crate::event;
use crate::event::{KnownEvent, SessionEvent, StopReason, Usage};
use crate::render::timeline;

verus! {

/// What a turn came to.
#[derive(Clone, Debug)]
pub struct TurnSummary {
    pub turn: u64,
    pub steps: u32,
    pub stop_reason: StopReason,
    pub stop_veto: Option<String>,
    pub content: String,
    /// The wall clock from the first event to the last.
    pub duration_ms: Option<u64>,
    /// What every step spent, added up. `None` where no message says: a turn
    /// that was never metered is not one that spent nothing.
    pub usage: Option<Usage>,
}

/// What one event was billed.
pub open spec fn bill_of(event: SessionEvent) -> Option<Usage> {
    match event.fact() {
        Some(event::Fact::AssistantMessage { usage, .. }) => usage,
        _ => None,
    }
}

/// What a run of events spent. Each step is billed for the whole prompt it
/// resent, so a turn costs the sum of its requests and not the last one.
pub open spec fn spent_by(events: Seq<SessionEvent>) -> Option<Usage>
    decreases events.len(),
{
    if events.len() == 0 {
        None
    } else {
        let before = spent_by(events.drop_last());
        match bill_of(events.last()) {
            Some(step) => Some(timeline::billed(before, step)),
            None => before,
        }
    }
}

/// The prompt tokens of a run of events.
pub open spec fn prompted(events: Seq<SessionEvent>) -> nat
    decreases events.len(),
{
    if events.len() == 0 {
        0
    } else {
        prompted(events.drop_last()) + match bill_of(events.last()) {
            Some(step) => step.prompt_tokens as nat,
            None => 0,
        }
    }
}

/// The completion tokens of a run of events.
pub open spec fn completed(events: Seq<SessionEvent>) -> nat
    decreases events.len(),
{
    if events.len() == 0 {
        0
    } else {
        completed(events.drop_last()) + match bill_of(events.last()) {
            Some(step) => step.completion_tokens as nat,
            None => 0,
        }
    }
}

/// Whether what a run of events spent can be counted.
pub open spec fn countable(events: Seq<SessionEvent>) -> bool {
    prompted(events) <= u64::MAX && completed(events) <= u64::MAX
}

/// How long a run of events took, on the journal's own clock.
pub open spec fn took(events: Seq<SessionEvent>) -> Option<u64> {
    if events.len() == 0 {
        None
    } else {
        Some(timeline::late(events.first().time, events.last().time))
    }
}

proof fn lemma_grows(events: Seq<SessionEvent>, n: int)
    requires
        0 <= n <= events.len(),
    ensures
        prompted(events.take(n)) <= prompted(events),
        completed(events.take(n)) <= completed(events),
    decreases events.len() - n,
{
    if n == events.len() {
        assert(events.take(n) =~= events);
    } else {
        assert(events.take(n + 1).drop_last() =~= events.take(n));
        lemma_grows(events, n + 1);
    }
}

/// What was spent is the sum of what every step was billed, and nothing is
/// reported where nothing was metered.
pub proof fn lemma_spent_is_the_sum(events: Seq<SessionEvent>)
    requires
        countable(events),
    ensures
        match spent_by(events) {
            Some(spent) => spent.prompt_tokens == prompted(events) && spent.completion_tokens
                == completed(events),
            None => forall|i: int|
                0 <= i < events.len() ==> #[trigger] bill_of(events[i]) is None,
        },
        spent_by(events) is None ==> prompted(events) == 0 && completed(events) == 0,
    decreases events.len(),
{
    if events.len() > 0 {
        lemma_spent_is_the_sum(events.drop_last());
        if spent_by(events) is None {
            assert forall|i: int| 0 <= i < events.len() implies #[trigger] bill_of(
                events[i],
            ) is None by {
                if i < events.len() - 1 {
                    assert(events.drop_last()[i] == events[i]);
                }
            }
        }
    }
}

/// Whether what a run of events spent can be counted.
fn can_count(events: &[SessionEvent]) -> (r: bool)
    ensures
        r == countable(events@),
{
    let mut prompt_tokens: u64 = 0;
    let mut completion_tokens: u64 = 0;
    let mut i: usize = 0;
    proof {
        assert(events@.take(0) =~= Seq::<SessionEvent>::empty());
    }
    while i < events.len()
        invariant
            i <= events.len(),
            prompt_tokens == prompted(events@.take(i as int)),
            completion_tokens == completed(events@.take(i as int)),
        decreases events.len() - i,
    {
        proof {
            assert(events@.take(i + 1).drop_last() =~= events@.take(i as int));
            assert(events@.take(i + 1).last() == events@[i as int]);
            lemma_grows(events@, i + 1);
        }
        if let Some(KnownEvent::AssistantMessage { usage: Some(step), .. }) = events[i].parse() {
            match (
                prompt_tokens.checked_add(step.prompt_tokens),
                completion_tokens.checked_add(step.completion_tokens),
            ) {
                (Some(prompt), Some(completion)) => {
                    prompt_tokens = prompt;
                    completion_tokens = completion;
                },
                _ => {
                    return false;
                },
            }
        }
        i = i + 1;
    }
    proof {
        assert(events@.take(i as int) =~= events@);
    }
    true
}

/// The summary of a turn, where what it spent can be counted.
pub fn checked_summary(
    events: &[SessionEvent],
    turn: u64,
    steps: u32,
    stop_reason: StopReason,
    stop_veto: Option<String>,
    content: String,
) -> (r: Option<TurnSummary>)
    ensures
        r is Some <==> countable(events@),
        r matches Some(s) ==> {
            &&& s.turn == turn
            &&& s.steps == steps
            &&& s.stop_reason == stop_reason
            &&& s.stop_veto == stop_veto
            &&& s.content == content
            &&& s.duration_ms == took(events@)
            &&& s.usage == spent_by(events@)
        },
{
    if can_count(events) {
        Some(summary(events, turn, steps, stop_reason, stop_veto, content))
    } else {
        None
    }
}

/// The summary of a turn, read back off the journal the turn wrote.
pub fn summary(
    events: &[SessionEvent],
    turn: u64,
    steps: u32,
    stop_reason: StopReason,
    stop_veto: Option<String>,
    content: String,
) -> (s: TurnSummary)
    requires
        countable(events@),
    ensures
        s.turn == turn,
        s.steps == steps,
        s.stop_reason == stop_reason,
        s.stop_veto == stop_veto,
        s.content == content,
        s.duration_ms == took(events@),
        s.usage == spent_by(events@),
{
    let mut spent: Option<Usage> = None;
    let mut i: usize = 0;
    proof {
        assert(events@.take(0) =~= Seq::<SessionEvent>::empty());
    }
    while i < events.len()
        invariant
            i <= events.len(),
            countable(events@),
            spent == spent_by(events@.take(i as int)),
        decreases events.len() - i,
    {
        proof {
            assert(events@.take(i + 1).drop_last() =~= events@.take(i as int));
            assert(events@.take(i + 1).last() == events@[i as int]);
            lemma_grows(events@, i as int);
            lemma_grows(events@, i + 1);
            lemma_spent_is_the_sum(events@.take(i as int));
        }
        if let Some(KnownEvent::AssistantMessage { usage: Some(step), .. }) = events[i].parse() {
            spent = match spent {
                Some(before) => Some(
                    Usage {
                        prompt_tokens: before.prompt_tokens + step.prompt_tokens,
                        completion_tokens: before.completion_tokens + step.completion_tokens,
                    },
                ),
                None => Some(step),
            };
        }
        i = i + 1;
    }
    proof {
        assert(events@.take(i as int) =~= events@);
    }
    let duration_ms = if events.len() == 0 {
        None
    } else {
        let first: u64 = events[0].time;
        let last: u64 = events[events.len() - 1].time;
        Some(last.saturating_sub(first))
    };
    TurnSummary { turn, steps, stop_reason, stop_veto, content, duration_ms, usage: spent }
}

/// What a turn took is the time from its first event to its last, and nothing is
/// told where there is no event.
pub proof fn lemma_a_turn_takes_from_its_first_event_to_its_last(
    first: SessionEvent,
    between: Seq<SessionEvent>,
    last: SessionEvent,
)
    requires
        first.time <= last.time,
    ensures
        took((seq![first] + between).push(last)) == Some((last.time - first.time) as u64),
        took(seq![first]) == Some(0u64),
        took(Seq::empty()) is None,
{
    let all = (seq![first] + between).push(last);
    assert(all.first() == first && all.last() == last);
    assert(seq![first].first() == first && seq![first].last() == first);
}

/// Tokens are counted over all of a turn, each kind for itself: those of two
/// stretches add up, and an event counts exactly where it is a message that
/// measured them.
pub proof fn lemma_every_message_is_counted(
    first: Seq<SessionEvent>,
    rest: Seq<SessionEvent>,
    event: SessionEvent,
)
    ensures
        prompted(first + rest) == prompted(first) + prompted(rest),
        completed(first + rest) == completed(first) + completed(rest),
        prompted(Seq::empty()) == 0,
        completed(Seq::empty()) == 0,
        match event.fact() {
            Some(event::Fact::AssistantMessage { usage: Some(usage), .. }) => prompted(seq![event])
                == usage.prompt_tokens && completed(seq![event]) == usage.completion_tokens,
            _ => prompted(seq![event]) == 0 && completed(seq![event]) == 0,
        },
    decreases rest.len(),
{
    assert(seq![event].drop_last() =~= Seq::<SessionEvent>::empty());
    assert(prompted(seq![event].drop_last()) == 0 && completed(seq![event].drop_last()) == 0);
    if rest.len() == 0 {
        assert(first + rest =~= first);
    } else {
        lemma_every_message_is_counted(first, rest.drop_last(), event);
        assert((first + rest).drop_last() =~= first + rest.drop_last());
        assert((first + rest).last() == rest.last());
    }
}

/// Whatever summary is made keeps what it was given and adds what the events say:
/// the time from the first to the last, and every token spent.
pub proof fn lemma_a_summary_keeps_what_it_was_given(
    events: &[SessionEvent],
    turn: u64,
    steps: u32,
    stop_reason: StopReason,
    stop_veto: Option<String>,
    content: String,
    made: TurnSummary,
)
    requires
        call_ensures(summary, (events, turn, steps, stop_reason, stop_veto, content), made),
        countable(events@),
    ensures
        made.turn == turn,
        made.steps == steps,
        made.stop_reason == stop_reason,
        made.stop_veto == stop_veto,
        made.content == content,
        made.usage matches Some(usage) ==> usage.prompt_tokens == prompted(events@)
            && usage.completion_tokens == completed(events@),
        events@.len() == 0 ==> made.duration_ms is None,
        events@.len() > 0 && events@.first().time <= events@.last().time ==> made.duration_ms
            == Some((events@.last().time - events@.first().time) as u64),
{
    lemma_spent_is_the_sum(events@);
}

} // verus!
