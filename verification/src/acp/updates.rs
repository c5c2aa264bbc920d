//! What crosses to a client: the committed half of a journal.
use vstd::prelude::*;
use vstd::string::*;

use crate::acp::wire;
use crate::acp::wire::{ContentBlock, SessionUpdate, ToolCallContent, ToolCallStatus};
use crate::event;
use crate::event::{KnownEvent, SessionEvent};

verus! {

broadcast use crate::acp::wire::group_updates;

/// What one fact of a journal becomes on the wire, if anything.
pub open spec fn updates_for(fact: Option<event::Fact>) -> Seq<wire::Update> {
    match fact {
        Some(event::Fact::AssistantMessage { content, .. }) => if content.len() > 0 {
            seq![wire::Update::Message(wire::Block::Text(content))]
        } else {
            Seq::empty()
        },
        Some(event::Fact::ToolCall { id, name, arguments }) => seq![
            wire::Update::Call {
                id,
                title: name,
                status: ToolCallStatus::Pending,
                raw_input: Some(arguments),
            },
        ],
        Some(event::Fact::ToolResult { call_id, ok, content, .. }) => seq![
            wire::Update::Progress {
                id: call_id,
                status: if ok {
                    ToolCallStatus::Completed
                } else {
                    ToolCallStatus::Failed
                },
                content: seq![wire::Block::Text(content)],
            },
        ],
        _ => Seq::empty(),
    }
}

/// What a run of events becomes on the wire, in order.
pub open spec fn replayed(events: Seq<SessionEvent>) -> Seq<wire::Update>
    decreases events.len(),
{
    if events.len() == 0 {
        Seq::empty()
    } else {
        replayed(events.drop_last()) + updates_for(events.last().fact())
    }
}

/// Uncommitted pieces of a stream never reach a client: a chunk can be
/// superseded by a retry, and its text arrives again on the message that
/// closes the step.
pub proof fn lemma_only_committed_text_crosses(fact: event::Fact)
    requires
        fact is AssistantChunk,
    ensures
        updates_for(Some(fact)).len() == 0,
{
}

/// What one journal event becomes on the wire, if anything.
///
/// Committed messages cross, and so do tool calls and their results; a failed
/// call's output is still its output. Everything else - structural
/// boundaries, reasoning, the session header - produces nothing: the protocol
/// has no word for it, and a client cannot act on it.
pub fn updates_of(event: &SessionEvent) -> (r: Vec<SessionUpdate>)
    ensures
        wire::updates_view(r@) == updates_for(event.fact()),
{
    let mut r: Vec<SessionUpdate> = Vec::new();
    match event.parse() {
        Some(KnownEvent::AssistantMessage { content, .. }) => {
            if !content.as_str().is_empty() {
                r.push(
                    SessionUpdate::AgentMessageChunk {
                        content: ContentBlock::Text { text: content },
                    },
                );
            }
        },
        Some(KnownEvent::ToolCall { id, name, arguments }) => {
            r.push(
                SessionUpdate::ToolCall {
                    tool_call_id: id,
                    title: name,
                    // Asked for, and whether it has started running is not
                    // something the journal records separately.
                    status: ToolCallStatus::Pending,
                    raw_input: Some(arguments),
                },
            );
        },
        Some(KnownEvent::ToolResult { call_id, ok, content, .. }) => {
            let mut held: Vec<ToolCallContent> = Vec::new();
            let ghost said = content@;
            held.push(ToolCallContent::Content { content: ContentBlock::Text { text: content } });
            proof {
                assert(held@.map_values(|c: ToolCallContent| c@) =~= seq![
                    wire::Block::Text(said),
                ]);
            }
            r.push(
                SessionUpdate::ToolCallUpdate {
                    tool_call_id: call_id,
                    status: if ok {
                        ToolCallStatus::Completed
                    } else {
                        ToolCallStatus::Failed
                    },
                    content: held,
                },
            );
        },
        _ => {},
    }
    proof {
        assert(wire::updates_view(r@) =~= updates_for(event.fact()));
    }
    r
}

/// What a journal becomes on the wire, in order: the replay a client that
/// re-opens a session is given.
pub fn replay(events: &[SessionEvent]) -> (r: Vec<SessionUpdate>)
    ensures
        wire::updates_view(r@) == replayed(events@),
{
    let mut r: Vec<SessionUpdate> = Vec::new();
    let mut i: usize = 0;
    proof {
        assert(events@.take(0) =~= Seq::<SessionEvent>::empty());
    }
    while i < events.len()
        invariant
            i <= events.len(),
            wire::updates_view(r@) == replayed(events@.take(i as int)),
        decreases events.len() - i,
    {
        let ghost before = r@;
        let mut made = updates_of(&events[i]);
        let ghost added = made@;
        r.append(&mut made);
        proof {
            assert(events@.take(i + 1).drop_last() =~= events@.take(i as int));
            assert(events@.take(i + 1).last() == events@[i as int]);
            assert(wire::updates_view(before + added) =~= wire::updates_view(before)
                + wire::updates_view(added));
        }
        i = i + 1;
    }
    proof {
        assert(events@.take(i as int) =~= events@);
    }
    r
}

/// What a tool produced crosses whole, whatever became of the call: one update
/// for that call, with one piece of content in it, which is the text of the
/// result.
pub proof fn lemma_a_result_crosses_whole(
    call_id: Seq<char>,
    name: Seq<char>,
    ok: bool,
    content: Seq<char>,
)
    ensures
        ({
            let sent = updates_for(Some(event::Fact::ToolResult { call_id, name, ok, content }));
            &&& sent.len() == 1
            &&& sent[0] matches wire::Update::Progress { id, status, content: pieces }
            &&& id == call_id
            &&& pieces.len() == 1
            &&& pieces[0] == wire::Block::Text(content)
            &&& status == ToolCallStatus::Completed <==> ok
            &&& status == ToolCallStatus::Failed <==> !ok
        }),
{
}

/// Whether a call went well is told by the status and by nothing else: a result
/// that failed crosses as the one that did not, but for its status.
pub proof fn lemma_only_the_status_tells_a_failure(
    call_id: Seq<char>,
    name: Seq<char>,
    content: Seq<char>,
)
    ensures
        ({
            let good = updates_for(
                Some(event::Fact::ToolResult { call_id, name, ok: true, content }),
            );
            let bad = updates_for(
                Some(event::Fact::ToolResult { call_id, name, ok: false, content }),
            );
            &&& good.len() == bad.len() == 1
            &&& good[0] is Progress && bad[0] is Progress
            &&& good[0]->Progress_id == bad[0]->Progress_id
            &&& good[0]->Progress_content == bad[0]->Progress_content
            &&& good[0]->Progress_status != bad[0]->Progress_status
        }),
{
}

/// A tool call crosses under its own id, titled with the tool's name, not begun,
/// with the arguments it was given as its input.
pub proof fn lemma_a_call_crosses_as_asked(
    id: Seq<char>,
    name: Seq<char>,
    arguments: Seq<char>,
)
    ensures
        ({
            let sent = updates_for(Some(event::Fact::ToolCall { id, name, arguments }));
            &&& sent.len() == 1
            &&& sent[0] is Call
            &&& sent[0]->Call_id == id
            &&& sent[0]->title == name
            &&& sent[0]->Call_status == ToolCallStatus::Pending
            &&& sent[0]->raw_input == Some(arguments)
        }),
{
}

/// What the model said crosses as it stands, in one update, unless it said
/// nothing: then there is none.
pub proof fn lemma_a_message_crosses_as_it_stands(fact: event::Fact)
    requires
        fact is AssistantMessage,
    ensures
        fact->AssistantMessage_content.len() > 0 ==> updates_for(Some(fact)) == seq![
            wire::Update::Message(wire::Block::Text(fact->AssistantMessage_content)),
        ],
        fact->AssistantMessage_content.len() == 0 ==> updates_for(Some(fact)).len() == 0,
{
}

/// Only messages, calls and results cross: of anything else an event may be, and
/// of an event of no known type, a client hears nothing.
pub proof fn lemma_nothing_else_crosses(fact: Option<event::Fact>)
    requires
        fact matches Some(fact) ==> !(fact is AssistantMessage) && !(fact is ToolCall) && !(
        fact is ToolResult),
    ensures
        updates_for(fact).len() == 0,
{
}

/// A journal is replayed event by event and in order: what is sent for two
/// stretches of it is what is sent for the one and then for the other, and for
/// one event what that event alone makes.
pub proof fn lemma_a_journal_is_replayed_in_order(
    first: Seq<SessionEvent>,
    rest: Seq<SessionEvent>,
    event: SessionEvent,
)
    ensures
        replayed(first + rest) == replayed(first) + replayed(rest),
        replayed(seq![event]) == updates_for(event.fact()),
        replayed(Seq::empty()) == Seq::<wire::Update>::empty(),
    decreases rest.len(),
{
    assert(seq![event].drop_last() =~= Seq::<SessionEvent>::empty());
    assert(replayed(seq![event].drop_last()) =~= Seq::<wire::Update>::empty());
    assert(replayed(seq![event]) =~= updates_for(event.fact()));
    if rest.len() == 0 {
        assert(first + rest =~= first);
        assert(replayed(first + rest) =~= replayed(first) + replayed(rest));
    } else {
        lemma_a_journal_is_replayed_in_order(first, rest.drop_last(), event);
        assert((first + rest).drop_last() =~= first + rest.drop_last());
        assert((first + rest).last() == rest.last());
        assert(replayed(first + rest) =~= replayed(first) + replayed(rest));
    }
}

/// Whatever is sent for an event that is a tool's result is one update of that
/// call, with one piece of content, the text of the result; and its status alone
/// tells whether the call went well.
pub proof fn lemma_what_is_sent_of_a_result_is_whole(
    event: &SessionEvent,
    sent: Vec<SessionUpdate>,
    call: Seq<char>,
    tool: Seq<char>,
    went: bool,
    said: Seq<char>,
)
    requires
        call_ensures(updates_of, (event,), sent),
        event.fact() == Some(
            event::Fact::ToolResult { call_id: call, name: tool, ok: went, content: said },
        ),
    ensures
        sent@.len() == 1,
        sent@[0] matches SessionUpdate::ToolCallUpdate { tool_call_id, status, content } && {
            &&& tool_call_id@ == call
            &&& content@.len() == 1
            &&& content@[0] matches ToolCallContent::Content { content: ContentBlock::Text { text } }
            &&& text@ == said
            &&& status == if went {
                ToolCallStatus::Completed
            } else {
                ToolCallStatus::Failed
            }
        },
{
    let all = wire::updates_view(sent@);
    assert(all.len() == sent@.len());
    assert(all[0] == sent@[0]@);
    let pieces = sent@[0]@->Progress_content;
    assert(pieces.len() == 1 && pieces[0] == wire::Block::Text(said));
    assert(sent@[0] is ToolCallUpdate);
    let carried = sent@[0]->ToolCallUpdate_content@;
    assert(pieces =~= carried.map_values(|c: ToolCallContent| c@));
    assert(carried.len() == 1);
    assert(pieces[0] == carried[0]@);
}

/// Whatever is sent for a journal is what is sent for its events, one after the
/// other.
pub proof fn lemma_what_is_sent_of_a_journal_is_in_order(
    events: &[SessionEvent],
    sent: Vec<SessionUpdate>,
)
    requires
        call_ensures(replay, (events,), sent),
    ensures
        events@.len() == 0 ==> sent@.len() == 0,
        events@.len() > 0 ==> wire::updates_view(sent@) == replayed(events@.drop_last())
            + updates_for(events@.last().fact()),
{
    assert(wire::updates_view(sent@).len() == sent@.len());
}

} // verus!
