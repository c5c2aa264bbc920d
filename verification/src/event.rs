//! The durable facts of a session, as the journal spells them.
//!
//! An event's type stays a free string because the vocabulary grows. A type
//! this crate knows has a payload; any other is passed through as it arrived.
use vstd::prelude::*;
use vstd::string::*;

use crate::json;
use crate::json::{bare, boolean, field, items, number_field, tagged, text, text_field};
use crate::text::same;

verus! {

broadcast use crate::text::group_views;

/// What a request to a model was billed for.
#[derive(Clone, Copy, PartialEq, Eq, Structural, Debug)]
pub struct Usage {
    pub prompt_tokens: u64,
    pub completion_tokens: u64,
}

/// Why a turn closed. `Other` is what lets an engine add a reason without a
/// surface failing on it.
#[derive(Clone, PartialEq, Eq, Debug)]
pub enum StopReason {
    Natural,
    PreStepRejected,
    MaxSteps,
    Cancelled,
    Other(String),
}

/// Why a turn closed, by what it says.
pub enum Stop {
    Natural,
    PreStepRejected,
    MaxSteps,
    Cancelled,
    Other(Seq<char>),
}

impl View for StopReason {
    type V = Stop;

    open spec fn view(&self) -> Stop {
        match self {
            StopReason::Natural => Stop::Natural,
            StopReason::PreStepRejected => Stop::PreStepRejected,
            StopReason::MaxSteps => Stop::MaxSteps,
            StopReason::Cancelled => Stop::Cancelled,
            StopReason::Other(reason) => Stop::Other(reason@),
        }
    }
}

impl Stop {
    /// The reason in words.
    pub open spec fn words(self) -> Seq<char> {
        match self {
            Stop::Natural => "natural"@,
            Stop::PreStepRejected => "pre-step rejected"@,
            Stop::MaxSteps => "step budget spent"@,
            Stop::Cancelled => "cancelled"@,
            Stop::Other(reason) => reason,
        }
    }
}

/// The reason a journal's word for it names.
pub open spec fn stop_named(word: Seq<char>) -> Stop {
    if word == "natural"@ {
        Stop::Natural
    } else if word == "pre-step-rejected"@ {
        Stop::PreStepRejected
    } else if word == "max-steps"@ {
        Stop::MaxSteps
    } else if word == "cancelled"@ {
        Stop::Cancelled
    } else {
        Stop::Other(word)
    }
}

impl StopReason {
    /// The reason in words. A reason this crate does not know reads as the
    /// engine spelled it.
    pub fn as_str(&self) -> (s: &str)
        ensures
            s@ == self@.words(),
    {
        match self {
            StopReason::Natural => "natural",
            StopReason::PreStepRejected => "pre-step rejected",
            StopReason::MaxSteps => "step budget spent",
            StopReason::Cancelled => "cancelled",
            StopReason::Other(reason) => reason.as_str(),
        }
    }

    /// The reason a journal's word for it names.
    pub fn named(word: String) -> (r: StopReason)
        ensures
            r@ == stop_named(word@),
    {
        if same(word.as_str(), "natural") {
            StopReason::Natural
        } else if same(word.as_str(), "pre-step-rejected") {
            StopReason::PreStepRejected
        } else if same(word.as_str(), "max-steps") {
            StopReason::MaxSteps
        } else if same(word.as_str(), "cancelled") {
            StopReason::Cancelled
        } else {
            StopReason::Other(word)
        }
    }
}

/// One piece of a provider's stream.
#[derive(Clone, Debug)]
pub enum Chunk {
    Text { delta: String },
    Reasoning { delta: String },
    ToolCall { name: String },
}

/// One piece of a provider's stream, by what it says.
pub enum Bit {
    Text(Seq<char>),
    Reasoning(Seq<char>),
    ToolCall(Seq<char>),
}

impl View for Chunk {
    type V = Bit;

    open spec fn view(&self) -> Bit {
        match self {
            Chunk::Text { delta } => Bit::Text(delta@),
            Chunk::Reasoning { delta } => Bit::Reasoning(delta@),
            Chunk::ToolCall { name } => Bit::ToolCall(name@),
        }
    }
}

/// The payload of a type this crate knows.
#[derive(Clone, Debug)]
pub enum KnownEvent {
    SessionStart { model: String },
    TurnStart { turn: u64 },
    StepStart { turn: u64, step: u32 },
    UserMessage { content: String },
    AssistantChunk { chunk: Chunk },
    AssistantMessage {
        content: String,
        reasoning: String,
        usage: Option<Usage>,
        /// How many tools the message asked for.
        tool_calls: usize,
    },
    ToolCall {
        id: String,
        name: String,
        /// What the tool was given, as one compact JSON text.
        arguments: String,
    },
    ToolResult {
        /// The `id` of the call this answers. A result is paired to its call
        /// by this and never by arrival order.
        call_id: String,
        name: String,
        ok: bool,
        content: String,
    },
    StepEnd { turn: u64, step: u32 },
    TurnEnd { turn: u64, steps: u32, stop_reason: StopReason, stop_veto: Option<String> },
}

/// The payload of a type this crate knows, by what it says.
pub enum Fact {
    SessionStart { model: Seq<char> },
    TurnStart { turn: u64 },
    StepStart { turn: u64, step: u32 },
    UserMessage { content: Seq<char> },
    AssistantChunk { chunk: Bit },
    AssistantMessage {
        content: Seq<char>,
        reasoning: Seq<char>,
        usage: Option<Usage>,
        tool_calls: nat,
    },
    ToolCall { id: Seq<char>, name: Seq<char>, arguments: Seq<char> },
    ToolResult { call_id: Seq<char>, name: Seq<char>, ok: bool, content: Seq<char> },
    StepEnd { turn: u64, step: u32 },
    TurnEnd { turn: u64, steps: u32, stop_reason: Stop, stop_veto: Option<Seq<char>> },
}

impl View for KnownEvent {
    type V = Fact;

    open spec fn view(&self) -> Fact {
        match self {
            KnownEvent::SessionStart { model } => Fact::SessionStart { model: model@ },
            KnownEvent::TurnStart { turn } => Fact::TurnStart { turn: *turn },
            KnownEvent::StepStart { turn, step } => Fact::StepStart { turn: *turn, step: *step },
            KnownEvent::UserMessage { content } => Fact::UserMessage { content: content@ },
            KnownEvent::AssistantChunk { chunk } => Fact::AssistantChunk { chunk: chunk@ },
            KnownEvent::AssistantMessage { content, reasoning, usage, tool_calls } =>
                Fact::AssistantMessage {
                    content: content@,
                    reasoning: reasoning@,
                    usage: *usage,
                    tool_calls: *tool_calls as nat,
                },
            KnownEvent::ToolCall { id, name, arguments } => Fact::ToolCall {
                id: id@,
                name: name@,
                arguments: arguments@,
            },
            KnownEvent::ToolResult { call_id, name, ok, content } => Fact::ToolResult {
                call_id: call_id@,
                name: name@,
                ok: *ok,
                content: content@,
            },
            KnownEvent::StepEnd { turn, step } => Fact::StepEnd { turn: *turn, step: *step },
            KnownEvent::TurnEnd { turn, steps, stop_reason, stop_veto } => Fact::TurnEnd {
                turn: *turn,
                steps: *steps,
                stop_reason: stop_reason@,
                stop_veto: json::held(*stop_veto),
            },
        }
    }
}

/// One durable fact, as the journal stores it.
#[derive(Clone, Debug)]
pub struct SessionEvent {
    pub ty: String,
    pub seq: u64,
    /// Milliseconds on the journal's own clock.
    pub time: u64,
    /// The payload, as one compact JSON text.
    pub data: String,
    /// The places in the sequence it was derived from, as one compact JSON
    /// text, on the lines that state them.
    pub source_event_seqs: Option<String>,
}

/// A number out of an object that fits a step counter.
pub open spec fn small_of(json: Seq<char>, name: Seq<char>) -> Option<u32> {
    match json::number_of(json, name) {
        Some(n) => if n <= u32::MAX {
            Some(n as u32)
        } else {
            None
        },
        None => None,
    }
}

/// A string an object may leave out, as `""` when it does.
pub open spec fn defaulted_of(json: Seq<char>, name: Seq<char>) -> Option<Seq<char>> {
    match json::json_field(json, name) {
        Some(member) => json::json_text(member),
        None => Some(Seq::empty()),
    }
}

/// A string an object may leave out, or spell `null`.
pub open spec fn optional_of(json: Seq<char>, name: Seq<char>) -> Option<Option<Seq<char>>> {
    match json::json_field(json, name) {
        Some(member) => if member == "null"@ {
            Some(None)
        } else {
            match json::json_text(member) {
                Some(said) => Some(Some(said)),
                None => None,
            }
        },
        None => Some(None),
    }
}

/// What a message was billed for, when it says. A message may leave it out,
/// or spell it `null`.
pub open spec fn usage_of(json: Seq<char>) -> Option<Option<Usage>> {
    match json::json_field(json, "usage"@) {
        Some(member) => if member == "null"@ {
            Some(None)
        } else {
            match (json::number_of(member, "prompt_tokens"@), json::number_of(member, "completion_tokens"@)) {
                (Some(prompt_tokens), Some(completion_tokens)) => Some(
                    Some(Usage { prompt_tokens, completion_tokens }),
                ),
                _ => None,
            }
        },
        None => Some(None),
    }
}

/// How many tools a message asked for. A message may leave the list out.
pub open spec fn asked_of(json: Seq<char>) -> Option<nat> {
    match json::json_field(json, "tool_calls"@) {
        Some(member) => match json::json_items(member) {
            Some(items) => Some(items.len()),
            None => None,
        },
        None => Some(0),
    }
}

/// One piece of a stream, by the kind it names: by the kind's word, or by its
/// place among the kinds.
pub open spec fn chunk_of(json: Seq<char>) -> Option<Bit> {
    let kind = json::json_field(json, "chunk"@);
    if json::names_kind(kind, "text"@, 0) {
        match json::text_of(json, "delta"@) {
            Some(delta) => Some(Bit::Text(delta)),
            None => None,
        }
    } else if json::names_kind(kind, "reasoning"@, 1) {
        match json::text_of(json, "delta"@) {
            Some(delta) => Some(Bit::Reasoning(delta)),
            None => None,
        }
    } else if json::names_kind(kind, "tool_call"@, 2) {
        match json::json_field(json, "call"@) {
            Some(call) => match json::text_of(call, "name"@) {
                Some(name) => Some(Bit::ToolCall(name)),
                None => None,
            },
            None => None,
        }
    } else {
        None
    }
}

/// Why a turn ended, as a document spells it: a word, or an object whose one
/// member has a known reason's name and holds nothing.
pub open spec fn stop_of(json: Seq<char>) -> Option<Stop> {
    match json::bare_of(json, false) {
        Some(word) => if json::json_text(json) is None && stop_named(word) is Other {
            None
        } else {
            Some(stop_named(word))
        },
        None => None,
    }
}

/// Why a turn ended, as its end says.
pub open spec fn stop_in(json: Seq<char>) -> Option<Stop> {
    match json::json_field(json, "stop_reason"@) {
        Some(reason) => stop_of(reason),
        None => None,
    }
}

/// The frame of a step: which turn, and which step of it.
pub open spec fn step_of(json: Seq<char>) -> Option<(u64, u32)> {
    match (json::number_of(json, "turn"@), small_of(json, "step"@)) {
        (Some(turn), Some(step)) => Some((turn, step)),
        _ => None,
    }
}

/// A whole message of the model.
pub open spec fn message_of(json: Seq<char>) -> Option<Fact> {
    match (
        json::text_of(json, "content"@),
        defaulted_of(json, "reasoning"@),
        usage_of(json),
        asked_of(json),
    ) {
        (Some(content), Some(reasoning), Some(usage), Some(tool_calls)) => Some(
            Fact::AssistantMessage { content, reasoning, usage, tool_calls },
        ),
        _ => None,
    }
}

/// A tool asked for.
pub open spec fn call_of(json: Seq<char>) -> Option<Fact> {
    match (json::text_of(json, "id"@), json::text_of(json, "name"@), json::json_field(json, "arguments"@)) {
        (Some(id), Some(name), Some(arguments)) => Some(Fact::ToolCall { id, name, arguments }),
        _ => None,
    }
}

/// A tool's answer.
pub open spec fn result_of(json: Seq<char>) -> Option<Fact> {
    match (
        json::text_of(json, "call_id"@),
        json::text_of(json, "name"@),
        json::json_field(json, "ok"@),
        json::text_of(json, "content"@),
    ) {
        (Some(call_id), Some(name), Some(ok), Some(content)) => match json::json_bool(ok) {
            Some(ok) => Some(Fact::ToolResult { call_id, name, ok, content }),
            None => None,
        },
        _ => None,
    }
}

/// The end of a turn.
pub open spec fn end_of(json: Seq<char>) -> Option<Fact> {
    match (
        json::number_of(json, "turn"@),
        small_of(json, "steps"@),
        stop_in(json),
        optional_of(json, "stop_veto"@),
    ) {
        (Some(turn), Some(steps), Some(stop_reason), Some(stop_veto)) => Some(
            Fact::TurnEnd { turn, steps, stop_reason, stop_veto },
        ),
        _ => None,
    }
}

/// The payload of an event of type `ty`, when this crate knows the type and
/// the payload fits it.
pub open spec fn fact_of(ty: Seq<char>, json: Seq<char>) -> Option<Fact> {
    if ty == "session/start"@ {
        match json::text_of(json, "model"@) {
            Some(model) => Some(Fact::SessionStart { model }),
            None => None,
        }
    } else if ty == "turn/start"@ {
        match json::number_of(json, "turn"@) {
            Some(turn) => Some(Fact::TurnStart { turn }),
            None => None,
        }
    } else if ty == "step/start"@ {
        match step_of(json) {
            Some((turn, step)) => Some(Fact::StepStart { turn, step }),
            None => None,
        }
    } else if ty == "user/message"@ {
        match json::text_of(json, "content"@) {
            Some(content) => Some(Fact::UserMessage { content }),
            None => None,
        }
    } else if ty == "assistant/chunk"@ {
        match chunk_of(json) {
            Some(chunk) => Some(Fact::AssistantChunk { chunk }),
            None => None,
        }
    } else if ty == "assistant/message"@ {
        message_of(json)
    } else if ty == "tool/call"@ {
        call_of(json)
    } else if ty == "tool/result"@ {
        result_of(json)
    } else if ty == "step/end"@ {
        match step_of(json) {
            Some((turn, step)) => Some(Fact::StepEnd { turn, step }),
            None => None,
        }
    } else if ty == "turn/end"@ {
        end_of(json)
    } else {
        None
    }
}

/// A payload, or nothing, by what it says.
pub open spec fn seen(event: Option<KnownEvent>) -> Option<Fact> {
    match event {
        Some(event) => Some(event@),
        None => None,
    }
}

fn small_field(json: &str, name: &str) -> (r: Option<u32>)
    ensures
        r == small_of(json@, name@),
{
    match number_field(json, name) {
        Some(n) => if n <= u32::MAX as u64 {
            Some(n as u32)
        } else {
            None
        },
        None => None,
    }
}

fn defaulted_field(json: &str, name: &str) -> (r: Option<String>)
    ensures
        json::held(r) == defaulted_of(json@, name@),
{
    match field(json, name) {
        Some(member) => text(member.as_str()),
        None => Some(String::new()),
    }
}

fn optional_field(json: &str, name: &str) -> (r: Option<Option<String>>)
    ensures
        (match r {
            Some(inner) => Some(json::held(inner)),
            None => None,
        }) == optional_of(json@, name@),
{
    match field(json, name) {
        Some(member) => if same(member.as_str(), "null") {
            Some(None)
        } else {
            match text(member.as_str()) {
                Some(said) => Some(Some(said)),
                None => None,
            }
        },
        None => Some(None),
    }
}

fn usage_field(json: &str) -> (r: Option<Option<Usage>>)
    ensures
        r == usage_of(json@),
{
    match field(json, "usage") {
        Some(member) => if same(member.as_str(), "null") {
            Some(None)
        } else {
            let prompt = number_field(member.as_str(), "prompt_tokens");
            let completion = number_field(member.as_str(), "completion_tokens");
            match (prompt, completion) {
                (Some(prompt_tokens), Some(completion_tokens)) => Some(
                    Some(Usage { prompt_tokens, completion_tokens }),
                ),
                _ => None,
            }
        },
        None => Some(None),
    }
}

fn asked_field(json: &str) -> (r: Option<usize>)
    ensures
        (match r {
            Some(n) => Some(n as nat),
            None => None,
        }) == asked_of(json@),
{
    match field(json, "tool_calls") {
        Some(member) => match items(member.as_str()) {
            Some(list) => Some(list.len()),
            None => None,
        },
        None => Some(0),
    }
}

fn chunk(json: &str) -> (r: Option<Chunk>)
    ensures
        (match r {
            Some(c) => Some(c@),
            None => None,
        }) == chunk_of(json@),
{
    let kind = field(json, "chunk");
    if tagged(&kind, "text", 0) {
        match text_field(json, "delta") {
            Some(delta) => Some(Chunk::Text { delta }),
            None => None,
        }
    } else if tagged(&kind, "reasoning", 1) {
        match text_field(json, "delta") {
            Some(delta) => Some(Chunk::Reasoning { delta }),
            None => None,
        }
    } else if tagged(&kind, "tool_call", 2) {
        match field(json, "call") {
            Some(call) => match text_field(call.as_str(), "name") {
                Some(name) => Some(Chunk::ToolCall { name }),
                None => None,
            },
            None => None,
        }
    } else {
        None
    }
}

fn stop_field(json: &str) -> (r: Option<StopReason>)
    ensures
        (match r {
            Some(reason) => Some(reason@),
            None => None,
        }) == stop_in(json@),
{
    match field(json, "stop_reason") {
        Some(spelled) => {
            let said = text(spelled.as_str());
            match bare(spelled.as_str(), false) {
                Some(word) => {
                    let reason = StopReason::named(word);
                    match (&said, &reason) {
                        (None, StopReason::Other(_)) => None,
                        _ => Some(reason),
                    }
                },
                None => None,
            }
        },
        None => None,
    }
}

fn step_field(json: &str) -> (r: Option<(u64, u32)>)
    ensures
        r == step_of(json@),
{
    match (number_field(json, "turn"), small_field(json, "step")) {
        (Some(turn), Some(step)) => Some((turn, step)),
        _ => None,
    }
}

fn message(json: &str) -> (r: Option<KnownEvent>)
    ensures
        seen(r) == message_of(json@),
{
    let content = text_field(json, "content");
    let reasoning = defaulted_field(json, "reasoning");
    let usage = usage_field(json);
    let tool_calls = asked_field(json);
    match (content, reasoning, usage, tool_calls) {
        (Some(content), Some(reasoning), Some(usage), Some(tool_calls)) => Some(
            KnownEvent::AssistantMessage { content, reasoning, usage, tool_calls },
        ),
        _ => None,
    }
}

fn call(json: &str) -> (r: Option<KnownEvent>)
    ensures
        seen(r) == call_of(json@),
{
    let id = text_field(json, "id");
    let name = text_field(json, "name");
    let arguments = field(json, "arguments");
    match (id, name, arguments) {
        (Some(id), Some(name), Some(arguments)) => Some(
            KnownEvent::ToolCall { id, name, arguments },
        ),
        _ => None,
    }
}

fn result(json: &str) -> (r: Option<KnownEvent>)
    ensures
        seen(r) == result_of(json@),
{
    let call_id = text_field(json, "call_id");
    let name = text_field(json, "name");
    let ok = field(json, "ok");
    let content = text_field(json, "content");
    match (call_id, name, ok, content) {
        (Some(call_id), Some(name), Some(ok), Some(content)) => match boolean(ok.as_str()) {
            Some(ok) => Some(KnownEvent::ToolResult { call_id, name, ok, content }),
            None => None,
        },
        _ => None,
    }
}

fn end(json: &str) -> (r: Option<KnownEvent>)
    ensures
        seen(r) == end_of(json@),
{
    let turn = number_field(json, "turn");
    let steps = small_field(json, "steps");
    let reason = stop_field(json);
    let veto = optional_field(json, "stop_veto");
    match (turn, steps, reason, veto) {
        (Some(turn), Some(steps), Some(stop_reason), Some(stop_veto)) => Some(
            KnownEvent::TurnEnd { turn, steps, stop_reason, stop_veto },
        ),
        _ => None,
    }
}

impl SessionEvent {
    /// The payload this event carries, when it is of a type this crate knows.
    pub open spec fn fact(self) -> Option<Fact> {
        fact_of(self.ty@, self.data@)
    }

    /// The typed payload of a type this crate knows.
    ///
    /// `None` covers both a type this crate does not know and a known type
    /// whose payload does not fit it. A reader treats them the same way: it
    /// falls back to the raw event rather than dropping it.
    pub fn parse(&self) -> (r: Option<KnownEvent>)
        ensures
            seen(r) == self.fact(),
    {
        let ty = self.ty.as_str();
        let json = self.data.as_str();
        if same(ty, "session/start") {
            match text_field(json, "model") {
                Some(model) => Some(KnownEvent::SessionStart { model }),
                None => None,
            }
        } else if same(ty, "turn/start") {
            match number_field(json, "turn") {
                Some(turn) => Some(KnownEvent::TurnStart { turn }),
                None => None,
            }
        } else if same(ty, "step/start") {
            match step_field(json) {
                Some((turn, step)) => Some(KnownEvent::StepStart { turn, step }),
                None => None,
            }
        } else if same(ty, "user/message") {
            match text_field(json, "content") {
                Some(content) => Some(KnownEvent::UserMessage { content }),
                None => None,
            }
        } else if same(ty, "assistant/chunk") {
            match chunk(json) {
                Some(chunk) => Some(KnownEvent::AssistantChunk { chunk }),
                None => None,
            }
        } else if same(ty, "assistant/message") {
            message(json)
        } else if same(ty, "tool/call") {
            call(json)
        } else if same(ty, "tool/result") {
            result(json)
        } else if same(ty, "step/end") {
            match step_field(json) {
                Some((turn, step)) => Some(KnownEvent::StepEnd { turn, step }),
                None => None,
            }
        } else if same(ty, "turn/end") {
            end(json)
        } else {
            None
        }
    }

    /// One line of a journal, read as an event. `None` when the line is not
    /// one: a type, a place in the sequence, a time and a payload.
    pub fn decode(line: &str) -> (r: Option<SessionEvent>)
        ensures
            r is Some <==> decodes(line@),
            r matches Some(event) ==> {
                &&& Some(event.ty@) == json::text_of(line@, "type"@)
                &&& Some(event.seq) == json::number_of(line@, "seq"@)
                &&& Some(event.time) == json::number_of(line@, "time"@)
                &&& Some(event.data@) == json::json_field(line@, "data"@)
                &&& json::held(event.source_event_seqs) == stated(line@, "sourceEventSeqs"@)
            },
    {
        let ty = text_field(line, "type");
        let seq = number_field(line, "seq");
        let time = number_field(line, "time");
        let data = field(line, "data");
        let source_event_seqs = match field(line, "sourceEventSeqs") {
            Some(seqs) => if same(seqs.as_str(), "null") {
                None
            } else {
                Some(seqs)
            },
            None => None,
        };
        match (ty, seq, time, data) {
            (Some(ty), Some(seq), Some(time), Some(data)) => Some(
                SessionEvent { ty, seq, time, data, source_event_seqs },
            ),
            _ => None,
        }
    }
}

/// A member that may be left out. One that is `null` is left out too.
pub open spec fn stated(json: Seq<char>, name: Seq<char>) -> Option<Seq<char>> {
    match json::json_field(json, name) {
        Some(held) => if held == "null"@ {
            None
        } else {
            Some(held)
        },
        None => None,
    }
}

/// Whether a line of a journal reads as an event.
pub open spec fn decodes(line: Seq<char>) -> bool {
    &&& json::text_of(line, "type"@) is Some
    &&& json::number_of(line, "seq"@) is Some
    &&& json::number_of(line, "time"@) is Some
    &&& json::json_field(line, "data"@) is Some
}

proof fn lemma_types_differ()
    ensures
        "session/start"@.len() == 13,
        "turn/start"@.len() == 10,
        "step/start"@.len() == 10,
        "turn/start"@ != "step/start"@,
        "user/message"@.len() == 12,
        "assistant/chunk"@.len() == 15,
        "assistant/message"@.len() == 17,
        "tool/call"@.len() == 9,
        "tool/result"@.len() == 11,
        "step/end"@.len() == 8,
        "turn/end"@.len() == 8,
        "step/end"@ != "turn/end"@,
{
    reveal_strlit("session/start");
    reveal_strlit("turn/start");
    reveal_strlit("step/start");
    reveal_strlit("user/message");
    reveal_strlit("assistant/chunk");
    reveal_strlit("assistant/message");
    reveal_strlit("tool/call");
    reveal_strlit("tool/result");
    reveal_strlit("step/end");
    reveal_strlit("turn/end");
    assert("turn/start"@[0] != "step/start"@[0]);
    assert("step/end"@[0] != "turn/end"@[0]);
}

/// The type of an event decides what it is read as, each type its own kind, and
/// a type that is not among them is read as nothing.
pub proof fn lemma_the_type_decides_the_kind(ty: Seq<char>, json: Seq<char>)
    ensures
        fact_of(ty, json) matches Some(fact) ==> {
            &&& fact is SessionStart <==> ty == "session/start"@
            &&& fact is TurnStart <==> ty == "turn/start"@
            &&& fact is StepStart <==> ty == "step/start"@
            &&& fact is UserMessage <==> ty == "user/message"@
            &&& fact is AssistantChunk <==> ty == "assistant/chunk"@
            &&& fact is AssistantMessage <==> ty == "assistant/message"@
            &&& fact is ToolCall <==> ty == "tool/call"@
            &&& fact is ToolResult <==> ty == "tool/result"@
            &&& fact is StepEnd <==> ty == "step/end"@
            &&& fact is TurnEnd <==> ty == "turn/end"@
        },
{
    lemma_types_differ();
}

/// The start of a session is read with its model, that of a turn with its number,
/// and a prompt with what it says; and each is nothing without that.
pub proof fn lemma_starts_are_read_as_written(json: Seq<char>, said: Seq<char>, turn: u64)
    ensures
        json::spells(json, "model"@, said) ==> fact_of("session/start"@, json) == Some(
            Fact::SessionStart { model: said },
        ),
        json::counts(json, "turn"@, turn) ==> fact_of("turn/start"@, json) == Some(
            Fact::TurnStart { turn },
        ),
        json::spells(json, "content"@, said) ==> fact_of("user/message"@, json) == Some(
            Fact::UserMessage { content: said },
        ),
        json::json_field(json, "model"@) is None ==> fact_of("session/start"@, json) is None,
        json::json_field(json, "turn"@) is None ==> fact_of("turn/start"@, json) is None,
        json::json_field(json, "content"@) is None ==> fact_of("user/message"@, json) is None,
{
    lemma_types_differ();
}

/// A step is read with the turn and the step it is written with, each under its
/// own name, where it starts and where it ends alike.
pub proof fn lemma_a_step_is_read_as_written(json: Seq<char>, turn: u64, step: u32)
    ensures
        json::counts(json, "turn"@, turn) && json::counts(json, "step"@, step as u64) ==> fact_of(
            "step/start"@,
            json,
        ) == Some(Fact::StepStart { turn, step }) && fact_of("step/end"@, json) == Some(
            Fact::StepEnd { turn, step },
        ),
        json::json_field(json, "turn"@) is None || json::json_field(json, "step"@) is None
            ==> fact_of("step/start"@, json) is None && fact_of("step/end"@, json) is None,
{
    lemma_types_differ();
}

/// A call is read with its own id, the name of its tool and its arguments as they
/// stand, and is nothing where one of them is missing.
pub proof fn lemma_a_call_is_read_as_written(
    json: Seq<char>,
    id: Seq<char>,
    name: Seq<char>,
    arguments: Seq<char>,
)
    ensures
        json::spells(json, "id"@, id) && json::spells(json, "name"@, name) && json::json_field(
            json,
            "arguments"@,
        ) == Some(arguments) ==> fact_of("tool/call"@, json) == Some(
            Fact::ToolCall { id, name, arguments },
        ),
        json::json_field(json, "id"@) is None || json::json_field(json, "name"@) is None
            || json::json_field(json, "arguments"@) is None ==> fact_of("tool/call"@, json)
            is None,
{
    lemma_types_differ();
}

/// A result is read with the id of its call, the name of its tool, its content,
/// and whether it went well as that is written: true as well, false as not.
pub proof fn lemma_a_result_is_read_as_written(
    json: Seq<char>,
    call_id: Seq<char>,
    name: Seq<char>,
    content: Seq<char>,
)
    requires
        json::spells(json, "call_id"@, call_id),
        json::spells(json, "name"@, name),
        json::spells(json, "content"@, content),
    ensures
        json::json_field(json, "ok"@) == Some("true"@) ==> fact_of("tool/result"@, json) == Some(
            Fact::ToolResult { call_id, name, ok: true, content },
        ),
        json::json_field(json, "ok"@) == Some("false"@) ==> fact_of("tool/result"@, json) == Some(
            Fact::ToolResult { call_id, name, ok: false, content },
        ),
        json::json_field(json, "ok"@) is None ==> fact_of("tool/result"@, json) is None,
{
    lemma_types_differ();
    json::lemma_true_is_not_false("true"@);
    json::lemma_true_is_not_false("false"@);
}

/// A message is read with what it says, with what was thought, which is nothing
/// where none is written, with its tokens where they are written, each kind as its
/// own, and with how many tools it asks for.
pub proof fn lemma_a_message_is_read_as_written(
    json: Seq<char>,
    said: Seq<char>,
    thought: Seq<char>,
    usage: Usage,
    calls: Seq<Seq<char>>,
)
    requires
        json::spells(json, "content"@, said),
        json::spells(json, "reasoning"@, thought) || (json::json_field(json, "reasoning"@) is None
            && thought.len() == 0),
        json::json_field(json, "usage"@) matches Some(member) ==> member != "null"@
            && json::counts(member, "prompt_tokens"@, usage.prompt_tokens) && json::counts(
            member,
            "completion_tokens"@,
            usage.completion_tokens,
        ),
        json::json_field(json, "tool_calls"@) matches Some(list) ==> json::json_items(list)
            == Some(calls),
        json::json_field(json, "tool_calls"@) is None ==> calls.len() == 0,
    ensures
        fact_of("assistant/message"@, json) == Some(
            Fact::AssistantMessage {
                content: said,
                reasoning: thought,
                usage: if json::json_field(json, "usage"@) is Some {
                    Some(usage)
                } else {
                    None
                },
                tool_calls: calls.len(),
            },
        ),
{
    lemma_types_differ();
    if json::json_field(json, "reasoning"@) is None {
        assert(thought =~= Seq::empty());
    }
}

/// A piece of a message is read as what its word says: text and thought with
/// their piece, a call with the name of its tool.
pub proof fn lemma_a_chunk_is_read_as_written(
    json: Seq<char>,
    tag: Seq<char>,
    said: Seq<char>,
    call: Seq<char>,
)
    requires
        json::json_field(json, "chunk"@) == Some(tag),
        json::json_number(tag) is None,
    ensures
        json::json_text(tag) == Some("text"@) && json::spells(json, "delta"@, said) ==> fact_of(
            "assistant/chunk"@,
            json,
        ) == Some(Fact::AssistantChunk { chunk: Bit::Text(said) }),
        json::json_text(tag) == Some("reasoning"@) && json::spells(json, "delta"@, said)
            ==> fact_of("assistant/chunk"@, json) == Some(
            Fact::AssistantChunk { chunk: Bit::Reasoning(said) },
        ),
        json::json_text(tag) == Some("tool_call"@) && json::json_field(json, "call"@) == Some(call)
            && json::spells(call, "name"@, said) ==> fact_of("assistant/chunk"@, json) == Some(
            Fact::AssistantChunk { chunk: Bit::ToolCall(said) },
        ),
{
    lemma_types_differ();
    reveal_strlit("text");
    reveal_strlit("reasoning");
    reveal_strlit("tool_call");
    assert("reasoning"@[0] != "tool_call"@[0]);
    assert("text"@.len() != "reasoning"@.len());
    assert("text"@.len() != "tool_call"@.len());
}

/// The end of a turn is read with its number, its steps, why it stopped and who
/// held it open, each as it is written; and nobody held it where none is named.
pub proof fn lemma_an_end_is_read_as_written(
    json: Seq<char>,
    turn: u64,
    steps: u32,
    word: Seq<char>,
    veto: Seq<char>,
)
    requires
        json::counts(json, "turn"@, turn),
        json::counts(json, "steps"@, steps as u64),
        json::spells(json, "stop_reason"@, word),
    ensures
        json::json_field(json, "stop_veto"@) is None || json::json_field(json, "stop_veto"@)
            == Some("null"@) ==> fact_of("turn/end"@, json) == Some(
            Fact::TurnEnd { turn, steps, stop_reason: stop_named(word), stop_veto: None },
        ),
        json::spells(json, "stop_veto"@, veto) && json::json_field(json, "stop_veto"@) != Some(
            "null"@,
        ) ==> fact_of("turn/end"@, json) == Some(
            Fact::TurnEnd { turn, steps, stop_reason: stop_named(word), stop_veto: Some(veto) },
        ),
{
    lemma_types_differ();
}

/// Each reason to stop has a word of its own, and a word that is none of them is
/// kept as it is.
pub proof fn lemma_each_stop_has_its_word(word: Seq<char>)
    ensures
        stop_named(word) is Natural <==> word == "natural"@,
        stop_named(word) is PreStepRejected <==> word == "pre-step-rejected"@,
        stop_named(word) is MaxSteps <==> word == "max-steps"@,
        stop_named(word) is Cancelled <==> word == "cancelled"@,
        stop_named(word) matches Stop::Other(kept) ==> kept == word,
        word != "natural"@ && word != "pre-step-rejected"@ && word != "max-steps"@ && word
            != "cancelled"@ ==> stop_named(word) == Stop::Other(word),
{
    reveal_strlit("natural");
    reveal_strlit("pre-step-rejected");
    reveal_strlit("max-steps");
    reveal_strlit("cancelled");
    assert("natural"@.len() == 7 && "pre-step-rejected"@.len() == 17);
    assert("max-steps"@[0] != "cancelled"@[0]);
}

/// Why a turn stopped is told in words that tell the reasons apart.
pub proof fn lemma_stops_are_told_apart(stop: Stop)
    ensures
        stop is Natural ==> stop.words() == "natural"@,
        stop is PreStepRejected ==> stop.words() == "pre-step rejected"@,
        stop is MaxSteps ==> stop.words() == "step budget spent"@,
        stop is Cancelled ==> stop.words() == "cancelled"@,
        stop matches Stop::Other(word) ==> stop.words() == word,
{
}

/// A line is an event exactly where it states a type, its place, its time and its
/// data. What it was derived from is optional, and null states nothing.
pub proof fn lemma_a_line_states_four_things(
    line: Seq<char>,
    ty: Seq<char>,
    seq: u64,
    time: u64,
    name: Seq<char>,
)
    ensures
        json::spells(line, "type"@, ty) && json::counts(line, "seq"@, seq) && json::counts(
            line,
            "time"@,
            time,
        ) && json::json_field(line, "data"@) is Some ==> decodes(line),
        json::json_field(line, "type"@) is None || json::json_field(line, "seq"@) is None
            || json::json_field(line, "time"@) is None || json::json_field(line, "data"@) is None
            ==> !decodes(line),
        json::json_field(line, name) is None || json::json_field(line, name) == Some("null"@)
            ==> stated(line, name) is None,
        json::json_field(line, name) matches Some(member) ==> member != "null"@ ==> stated(
            line,
            name,
        ) == Some(member),
{
}

} // verus!
