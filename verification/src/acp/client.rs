//! The other half: a peer that drives an agent.
//!
//! Four things make it a client rather than a frame writer. It answers: a
//! permission question it left alone would hold the agent for ever. It tells
//! answers, notifications and requests apart on one stream. Every wait is
//! bounded. And it closes what it opened, once.
use vstd::prelude::*;
use vstd::string::*;

use crate::acp::bridge;
use crate::acp::frame;
use crate::acp::frame::{Message, WireError};
use crate::acp::wire;
use crate::acp::wire::{
    CancelNotification, ContentBlock, InitializeRequest, LoadSessionRequest, NewSessionRequest,
    PermissionOutcome, PromptRequest, PromptResponse, SessionNotification, SessionUpdate, StopReason,
    ToolCallContent, ToolCallStatus, ALLOW_ONCE, INITIALIZE, PROTOCOL_VERSION, REJECT_ONCE,
    REQUEST_PERMISSION, SESSION_CANCEL, SESSION_LOAD, SESSION_NEW, SESSION_PROMPT, SESSION_UPDATE,
};
use crate::json;
use crate::render::fault;
use crate::render::figures;
use crate::render::figures::Elapsed;
use crate::text;
use crate::text::{decimal, same};

verus! {

broadcast use crate::acp::wire::group_updates;

/// What this client answers a permission question with. Fail-closed by
/// default: an agent that is denied reports a denied tool call, where one that
/// is wrongly allowed has already run the command.
#[derive(Debug, Clone, Copy, PartialEq, Eq, Structural)]
pub enum PermissionPolicy {
    /// Answer every question `allow-once`, one call at a time.
    AllowOnce,
    /// Answer every question `reject-once`.
    Reject,
}

impl Default for PermissionPolicy {
    fn default() -> (p: PermissionPolicy)
        ensures
            p == PermissionPolicy::Reject,
    {
        PermissionPolicy::Reject
    }
}

impl PermissionPolicy {
    /// The option this policy chooses.
    pub open spec fn chooses(self) -> Seq<char> {
        match self {
            PermissionPolicy::AllowOnce => ALLOW_ONCE@,
            PermissionPolicy::Reject => REJECT_ONCE@,
        }
    }

    /// The option this policy chooses.
    pub fn option_id(self) -> (s: &'static str)
        ensures
            s@ == self.chooses(),
    {
        match self {
            PermissionPolicy::AllowOnce => ALLOW_ONCE,
            PermissionPolicy::Reject => REJECT_ONCE,
        }
    }
}

/// What to spawn, and how.
#[derive(Debug, Clone)]
pub struct Launch {
    pub program: String,
    pub args: Vec<String>,
    /// Working directory for the child. `None` inherits this process's.
    pub cwd: Option<String>,
    /// Environment entries to set on the child, on top of the inherited ones.
    pub env: Vec<(String, String)>,
}

/// What a list of settings holds.
pub open spec fn pairs_of(pairs: Seq<(String, String)>) -> Seq<(Seq<char>, Seq<char>)> {
    pairs.map_values(|p: (String, String)| (p.0@, p.1@))
}

impl Launch {
    pub fn new(program: &str) -> (l: Launch)
        ensures
            l.program@ == program@,
            l.args@.len() == 0,
            l.cwd is None,
            l.env@.len() == 0,
    {
        Launch { program: program.to_owned(), args: Vec::new(), cwd: None, env: Vec::new() }
    }

    /// The same launch, with one more argument.
    pub fn arg(self, arg: &str) -> (l: Launch)
        ensures
            l.program == self.program,
            text::views(l.args@) == text::views(self.args@).push(arg@),
            l.cwd == self.cwd,
            l.env == self.env,
    {
        let Launch { program, args, cwd, env } = self;
        let ghost before = args@;
        let mut args = args;
        args.push(arg.to_owned());
        proof {
            assert(text::views(args@) =~= text::views(before).push(arg@));
        }
        Launch { program, args, cwd, env }
    }

    /// The same launch, with one more environment entry.
    pub fn env(self, key: &str, value: &str) -> (l: Launch)
        ensures
            l.program == self.program,
            l.args == self.args,
            l.cwd == self.cwd,
            pairs_of(l.env@) == pairs_of(self.env@).push((key@, value@)),
    {
        let Launch { program, args, cwd, env } = self;
        let ghost before = env@;
        let mut env = env;
        env.push((key.to_owned(), value.to_owned()));
        proof {
            assert(pairs_of(env@) =~= pairs_of(before).push((key@, value@)));
        }
        Launch { program, args, cwd, env }
    }
}

/// Why a call did not produce an answer.
#[derive(Debug)]
pub enum ClientError {
    /// The agent answered, and the answer was a refusal, carried whole.
    Refused(WireError),
    /// A bound elapsed. Names the call.
    TimedOut { call: String, after: Elapsed },
    /// The child is gone, or was never there.
    Transport(String),
    /// The agent answered something the protocol does not describe.
    Protocol(String),
}

impl ClientError {
    /// The failure in words.
    pub open spec fn words(self) -> Seq<char> {
        match self {
            ClientError::Refused(error) => error.message@ + " (code "@ + fault::signed_dec(
                error.code as int,
            ) + ")"@,
            ClientError::TimedOut { call, after } => "`"@ + call@ + "` did not answer within "@
                + figures::spelled_of(after.secs, after.nanos),
            ClientError::Transport(why) => "the agent is gone: "@ + why@,
            ClientError::Protocol(why) => "the agent broke protocol: "@ + why@,
        }
    }

    /// The failure in words.
    pub fn describe(&self) -> (s: String)
        requires
            self matches ClientError::TimedOut { after, .. } ==> after.wf(),
        ensures
            s@ == self.words(),
    {
        match self {
            ClientError::Refused(error) => {
                let mut s = text::cat(error.message.as_str(), " (code ");
                s.append(fault::signed(error.code).as_str());
                s.append(")");
                s
            },
            ClientError::TimedOut { call, after } => {
                let mut s = text::cat("`", call.as_str());
                s.append("` did not answer within ");
                s.append(figures::spelled(*after).as_str());
                s
            },
            ClientError::Transport(why) => text::cat("the agent is gone: ", why.as_str()),
            ClientError::Protocol(why) => text::cat("the agent broke protocol: ", why.as_str()),
        }
    }
}

/// One prompt's outcome: why it stopped, and everything the agent said while
/// it ran.
#[derive(Debug, Clone)]
pub struct PromptOutcome {
    pub stop_reason: StopReason,
    /// The updates for this session, in arrival order.
    pub updates: Vec<SessionUpdate>,
}

/// The committed text of a run of updates, in order.
pub open spec fn said_in(updates: Seq<wire::Update>) -> Seq<Seq<char>>
    decreases updates.len(),
{
    if updates.len() == 0 {
        Seq::empty()
    } else {
        let before = said_in(updates.drop_last());
        match updates.last() {
            wire::Update::Message(wire::Block::Text(said)) => before.push(said),
            _ => before,
        }
    }
}

/// The tools called in a run of updates, in order.
pub open spec fn called_in(updates: Seq<wire::Update>) -> Seq<(Seq<char>, Seq<char>)>
    decreases updates.len(),
{
    if updates.len() == 0 {
        Seq::empty()
    } else {
        let before = called_in(updates.drop_last());
        match updates.last() {
            wire::Update::Call { id, title, .. } => before.push((id, title)),
            _ => before,
        }
    }
}

impl PromptOutcome {
    /// The agent's committed text, in order.
    pub fn messages(&self) -> (r: Vec<String>)
        ensures
            text::views(r@) == said_in(wire::updates_view(self.updates@)),
    {
        let ghost all = wire::updates_view(self.updates@);
        let mut r: Vec<String> = Vec::new();
        let mut i: usize = 0;
        proof {
            assert(all.take(0) =~= Seq::<wire::Update>::empty());
            assert(text::views(r@) =~= Seq::<Seq<char>>::empty());
        }
        while i < self.updates.len()
            invariant
                i <= self.updates.len(),
                all == wire::updates_view(self.updates@),
                text::views(r@) == said_in(all.take(i as int)),
            decreases self.updates.len() - i,
        {
            let ghost before = text::views(r@);
            proof {
                assert(all.take(i + 1).drop_last() =~= all.take(i as int));
                assert(all.take(i + 1).last() == self.updates@[i as int]@);
            }
            if let SessionUpdate::AgentMessageChunk { content } = &self.updates[i] {
                if let ContentBlock::Text { text } = content {
                    r.push(text.clone());
                    proof {
                        assert(text::views(r@) =~= before.push(text@));
                    }
                }
            }
            i = i + 1;
        }
        proof {
            assert(all.take(i as int) =~= all);
        }
        r
    }

    /// Every tool the agent called, in order: its id, and its title.
    pub fn tool_calls(&self) -> (r: Vec<(String, String)>)
        ensures
            pairs_of(r@) == called_in(wire::updates_view(self.updates@)),
    {
        let ghost all = wire::updates_view(self.updates@);
        let mut r: Vec<(String, String)> = Vec::new();
        let mut i: usize = 0;
        proof {
            assert(all.take(0) =~= Seq::<wire::Update>::empty());
            assert(pairs_of(r@) =~= Seq::<(Seq<char>, Seq<char>)>::empty());
        }
        while i < self.updates.len()
            invariant
                i <= self.updates.len(),
                all == wire::updates_view(self.updates@),
                pairs_of(r@) == called_in(all.take(i as int)),
            decreases self.updates.len() - i,
        {
            let ghost before = pairs_of(r@);
            proof {
                assert(all.take(i + 1).drop_last() =~= all.take(i as int));
                assert(all.take(i + 1).last() == self.updates@[i as int]@);
            }
            if let SessionUpdate::ToolCall { tool_call_id, title, .. } = &self.updates[i] {
                r.push((tool_call_id.clone(), title.clone()));
                proof {
                    assert(pairs_of(r@) =~= before.push((tool_call_id@, title@)));
                }
            }
            i = i + 1;
        }
        proof {
            assert(all.take(i as int) =~= all);
        }
        r
    }
}

// ---- reading what an agent sent ----

/// The status a word names.
pub open spec fn status_of(word: Seq<char>) -> Option<ToolCallStatus> {
    if word == "pending"@ {
        Some(ToolCallStatus::Pending)
    } else if word == "in_progress"@ {
        Some(ToolCallStatus::InProgress)
    } else if word == "completed"@ {
        Some(ToolCallStatus::Completed)
    } else if word == "failed"@ {
        Some(ToolCallStatus::Failed)
    } else {
        None
    }
}

fn status(word: &str) -> (r: Option<ToolCallStatus>)
    ensures
        r == status_of(word@),
{
    if same(word, "pending") {
        Some(ToolCallStatus::Pending)
    } else if same(word, "in_progress") {
        Some(ToolCallStatus::InProgress)
    } else if same(word, "completed") {
        Some(ToolCallStatus::Completed)
    } else if same(word, "failed") {
        Some(ToolCallStatus::Failed)
    } else {
        None
    }
}

/// The status a document carries, in this place of a list of so many members.
pub open spec fn status_in(value: Seq<char>, place: nat, count: nat) -> Option<ToolCallStatus> {
    match json::member_of(value, "status"@, place, count) {
        Some(status) => match json::bare_of(status, true) {
            Some(word) => status_of(word),
            None => None,
        },
        None => None,
    }
}

/// The pieces of a tool's output, when every item of the list is one.
pub open spec fn pieces_of(items: Seq<Seq<char>>) -> Option<Seq<wire::Block>>
    decreases items.len(),
{
    if items.len() == 0 {
        Some(Seq::empty())
    } else {
        match (pieces_of(items.drop_last()), piece_of(items.last())) {
            (Some(before), Some(piece)) => Some(before.push(piece)),
            _ => None,
        }
    }
}

/// One piece of a tool's output.
pub open spec fn piece_of(item: Seq<char>) -> Option<wire::Block> {
    if json::names_kind(json::tag_of(item, "type"@), "content"@, 0) {
        match json::member_of(item, "content"@, 1, 2) {
            Some(content) => Some(wire::block_of(content)),
            None => None,
        }
    } else {
        None
    }
}

/// The pieces of a tool's output an update carries. An update may leave them
/// out.
pub open spec fn output_of(value: Seq<char>) -> Option<Seq<wire::Block>> {
    match json::member_of(value, "content"@, 3, 4) {
        Some(list) => match json::json_items(list) {
            Some(items) => pieces_of(items),
            None => None,
        },
        None => Some(Seq::empty()),
    }
}

/// What a call was given, when the update says: spelled `null`, it does not,
/// nor where an object leaves it out. A list has a place for it, and one that
/// leaves the place out is no call.
pub open spec fn input_of(value: Seq<char>) -> Option<Option<Seq<char>>> {
    match json::member_of(value, "rawInput"@, 4, 5) {
        Some(input) => if input == "null"@ {
            Some(None)
        } else {
            Some(Some(input))
        },
        None => if json::json_items(value) is Some {
            None
        } else {
            Some(None)
        },
    }
}

/// The update a document is, when it is one. An update is tagged with its
/// kind, and is spelled as an object or as a list of the tag and the members
/// in their order.
pub open spec fn update_of(value: Seq<char>) -> Option<wire::Update> {
    match json::tag_word_of(value, "sessionUpdate"@) {
        Some(word) => if word == "agent_message_chunk"@ {
            match json::member_of(value, "content"@, 1, 2) {
                Some(content) => Some(wire::Update::Message(wire::block_of(content))),
                None => None,
            }
        } else if word == "tool_call"@ {
            match (
                json::word_of(value, "toolCallId"@, 1, 5),
                json::word_of(value, "title"@, 2, 5),
                status_in(value, 3, 5),
                input_of(value),
            ) {
                (Some(id), Some(title), Some(status), Some(raw_input)) => Some(
                    wire::Update::Call { id, title, status, raw_input },
                ),
                _ => None,
            }
        } else if word == "tool_call_update"@ {
            match (
                json::word_of(value, "toolCallId"@, 1, 4),
                status_in(value, 2, 4),
                output_of(value),
            ) {
                (Some(id), Some(status), Some(content)) => Some(
                    wire::Update::Progress { id, status, content },
                ),
                _ => None,
            }
        } else {
            None
        },
        None => None,
    }
}

fn status_field(value: &str, place: usize, count: usize) -> (r: Option<ToolCallStatus>)
    ensures
        r == status_in(value@, place as nat, count as nat),
{
    match json::member(value, "status", place, count) {
        Some(spelled) => match json::bare(spelled.as_str(), true) {
            Some(word) => status(word.as_str()),
            None => None,
        },
        None => None,
    }
}

fn input_field(value: &str) -> (r: Option<Option<String>>)
    ensures
        (match r {
            Some(input) => Some(json::held(input)),
            None => None,
        }) == input_of(value@),
{
    match json::member(value, "rawInput", 4, 5) {
        Some(input) => if same(input.as_str(), "null") {
            Some(None)
        } else {
            Some(Some(input))
        },
        None => match json::items(value) {
            Some(_) => None,
            None => Some(None),
        },
    }
}

fn piece(item: &str) -> (r: Option<ToolCallContent>)
    ensures
        (match r {
            Some(piece) => Some(piece@),
            None => None,
        }) == piece_of(item@),
{
    let tag = json::tag(item, "type");
    if !json::tagged(&tag, "content", 0) {
        return None;
    }
    match json::member(item, "content", 1, 2) {
        Some(content) => Some(
            ToolCallContent::Content { content: ContentBlock::decode(content.as_str()) },
        ),
        None => None,
    }
}

fn pieces(items: &Vec<String>) -> (r: Option<Vec<ToolCallContent>>)
    ensures
        (match r {
            Some(pieces) => Some(pieces@.map_values(|c: ToolCallContent| c@)),
            None => None,
        }) == pieces_of(text::views(items@)),
{
    let ghost all = text::views(items@);
    let mut r: Vec<ToolCallContent> = Vec::new();
    let mut i: usize = 0;
    proof {
        assert(all.take(0) =~= Seq::<Seq<char>>::empty());
        assert(r@.map_values(|c: ToolCallContent| c@) =~= Seq::<wire::Block>::empty());
    }
    while i < items.len()
        invariant
            i <= items.len(),
            all == text::views(items@),
            pieces_of(all.take(i as int)) == Some(r@.map_values(|c: ToolCallContent| c@)),
        decreases items.len() - i,
    {
        let ghost before = r@.map_values(|c: ToolCallContent| c@);
        proof {
            assert(all.take(i + 1).drop_last() =~= all.take(i as int));
            assert(all.take(i + 1).last() == items@[i as int]@);
        }
        match piece(items[i].as_str()) {
            Some(piece) => {
                r.push(piece);
                proof {
                    assert(r@.map_values(|c: ToolCallContent| c@) =~= before.push(piece@));
                }
            },
            None => {
                proof {
                    lemma_pieces_stop(all, i + 1);
                }
                return None;
            },
        }
        i = i + 1;
    }
    proof {
        assert(all.take(i as int) =~= all);
    }
    Some(r)
}

proof fn lemma_pieces_stop(items: Seq<Seq<char>>, n: int)
    requires
        0 <= n <= items.len(),
        pieces_of(items.take(n)) is None,
    ensures
        pieces_of(items) is None,
    decreases items.len() - n,
{
    if n == items.len() {
        assert(items.take(n) =~= items);
    } else {
        assert(items.take(n + 1).drop_last() =~= items.take(n));
        lemma_pieces_stop(items, n + 1);
    }
}

fn output_field(value: &str) -> (r: Option<Vec<ToolCallContent>>)
    ensures
        (match r {
            Some(pieces) => Some(pieces@.map_values(|c: ToolCallContent| c@)),
            None => None,
        }) == output_of(value@),
{
    match json::member(value, "content", 3, 4) {
        Some(list) => match json::items(list.as_str()) {
            Some(items) => pieces(&items),
            None => None,
        },
        None => {
            let none: Vec<ToolCallContent> = Vec::new();
            proof {
                assert(none@.map_values(|c: ToolCallContent| c@) =~= Seq::<wire::Block>::empty());
            }
            Some(none)
        },
    }
}

/// The update a document is, when it is one.
pub fn decode_update(value: &str) -> (r: Option<SessionUpdate>)
    ensures
        (match r {
            Some(update) => Some(update@),
            None => None,
        }) == update_of(value@),
{
    let word = match json::tag_word(value, "sessionUpdate") {
        Some(word) => word,
        None => {
            return None;
        },
    };
    if same(word.as_str(), "agent_message_chunk") {
        match json::member(value, "content", 1, 2) {
            Some(content) => Some(
                SessionUpdate::AgentMessageChunk {
                    content: ContentBlock::decode(content.as_str()),
                },
            ),
            None => None,
        }
    } else if same(word.as_str(), "tool_call") {
        let id = json::word(value, "toolCallId", 1, 5);
        let title = json::word(value, "title", 2, 5);
        let status = status_field(value, 3, 5);
        let input = input_field(value);
        match (id, title, status, input) {
            (Some(tool_call_id), Some(title), Some(status), Some(raw_input)) => Some(
                SessionUpdate::ToolCall { tool_call_id, title, status, raw_input },
            ),
            _ => None,
        }
    } else if same(word.as_str(), "tool_call_update") {
        let id = json::word(value, "toolCallId", 1, 4);
        let status = status_field(value, 2, 4);
        let content = output_field(value);
        match (id, status, content) {
            (Some(tool_call_id), Some(status), Some(content)) => Some(
                SessionUpdate::ToolCallUpdate { tool_call_id, status, content },
            ),
            _ => None,
        }
    } else {
        None
    }
}

/// The reason a settled prompt names.
pub open spec fn reason_of(word: Seq<char>) -> Option<StopReason> {
    if word == "end_turn"@ {
        Some(StopReason::EndTurn)
    } else if word == "max_tokens"@ {
        Some(StopReason::MaxTokens)
    } else if word == "max_turn_requests"@ {
        Some(StopReason::MaxTurnRequests)
    } else if word == "refusal"@ {
        Some(StopReason::Refusal)
    } else if word == "cancelled"@ {
        Some(StopReason::Cancelled)
    } else {
        None
    }
}

/// The reason an answer to a prompt carries.
pub open spec fn settled_of(result: Seq<char>) -> Option<PromptResponse> {
    match json::member_of(result, "stopReason"@, 0, 1) {
        Some(reason) => match json::bare_of(reason, false) {
            Some(word) => match reason_of(word) {
                Some(stop_reason) => Some(PromptResponse { stop_reason }),
                None => None,
            },
            None => None,
        },
        None => None,
    }
}

/// The reason an answer to a prompt carries, or the breach of protocol one
/// that carries none is.
pub fn decode_settled(result: &str) -> (r: Result<PromptResponse, ClientError>)
    ensures
        match settled_of(result@) {
            Some(settled) => r == Ok::<PromptResponse, ClientError>(settled),
            None => r matches Err(ClientError::Protocol(why)) && why@
                == "the answer to a prompt carries no stop reason"@,
        },
{
    let broken = ClientError::Protocol("the answer to a prompt carries no stop reason".to_owned());
    let word = match json::member(result, "stopReason", 0, 1) {
        Some(reason) => json::bare(reason.as_str(), false),
        None => None,
    };
    let word = match word {
        Some(word) => word,
        None => {
            return Err(broken);
        },
    };
    let word = word.as_str();
    if same(word, "end_turn") {
        Ok(PromptResponse { stop_reason: StopReason::EndTurn })
    } else if same(word, "max_tokens") {
        Ok(PromptResponse { stop_reason: StopReason::MaxTokens })
    } else if same(word, "max_turn_requests") {
        Ok(PromptResponse { stop_reason: StopReason::MaxTurnRequests })
    } else if same(word, "refusal") {
        Ok(PromptResponse { stop_reason: StopReason::Refusal })
    } else if same(word, "cancelled") {
        Ok(PromptResponse { stop_reason: StopReason::Cancelled })
    } else {
        Err(broken)
    }
}

/// The id an answer to a new session carries, or the breach of protocol one
/// that carries none is.
pub fn decode_session(result: &str) -> (r: Result<String, ClientError>)
    ensures
        match json::word_of(result@, "sessionId"@, 0, 1) {
            Some(id) => r matches Ok(session_id) && session_id@ == id,
            None => r matches Err(ClientError::Protocol(why)) && why@
                == "the answer to a new session carries no id"@,
        },
{
    match json::word(result, "sessionId", 0, 1) {
        Some(session_id) => Ok(session_id),
        None => Err(
            ClientError::Protocol("the answer to a new session carries no id".to_owned()),
        ),
    }
}

/// A directory has to be absolute, and the agent checks it too; checking here
/// as well means a caller learns of its own mistake without a round trip.
pub fn check_cwd(cwd: &str) -> (r: Result<(), ClientError>)
    ensures
        if bridge::absolute_of(cwd@) {
            r is Ok
        } else {
            r matches Err(ClientError::Protocol(why)) && why@
                == "`cwd` is an absolute path, and `"@ + cwd@ + "` is not"@
        },
{
    if bridge::absolute(cwd) {
        return Ok(());
    }
    let mut why = text::cat("`cwd` is an absolute path, and `", cwd);
    why.append("` is not");
    Err(ClientError::Protocol(why))
}

/// The updates of a run of notifications that are about one session, in order.
pub open spec fn about(notes: Seq<(Seq<char>, wire::Update)>, session: Seq<char>) -> Seq<
    wire::Update,
>
    decreases notes.len(),
{
    if notes.len() == 0 {
        Seq::empty()
    } else {
        let before = about(notes.drop_last(), session);
        if notes.last().0 == session {
            before.push(notes.last().1)
        } else {
            before
        }
    }
}

/// What a list of notifications says.
pub open spec fn noted(notes: Seq<SessionNotification>) -> Seq<(Seq<char>, wire::Update)> {
    notes.map_values(|n: SessionNotification| (n.session_id@, n.update@))
}

/// The updates of a run of notifications that are about one session, in
/// order: a turn's own, and no other session's.
pub fn collect(notes: Vec<SessionNotification>, session_id: &str) -> (r: Vec<SessionUpdate>)
    ensures
        wire::updates_view(r@) == about(noted(notes@), session_id@),
{
    let ghost all = noted(notes@);
    let mut r: Vec<SessionUpdate> = Vec::new();
    let mut i: usize = 0;
    proof {
        assert(all.take(0) =~= Seq::<(Seq<char>, wire::Update)>::empty());
    }
    for note in it: notes
        invariant
            it.seq() == notes@,
            all == noted(notes@),
            wire::updates_view(r@) == about(all.take(it.index() as int), session_id@),
    {
        proof {
            let n = it.index();
            assert(all.take(n + 1).drop_last() =~= all.take(n as int));
            assert(all.take(n + 1).last() == all[n as int]);
            assert(all[n as int] == (note.session_id@, note.update@));
        }
        if same(note.session_id.as_str(), session_id) {
            r.push(note.update);
        }
    }
    proof {
        assert(all.take(all.len() as int) =~= all);
    }
    r
}

// ---- one connection ----

/// The deadline of a call, until a caller sets another.
pub fn default_timeout() -> (t: Elapsed)
    ensures
        t == (Elapsed { secs: 120, nanos: 0 }),
{
    Elapsed { secs: 120, nanos: 0 }
}

/// A call's id, by the number it was made under.
pub open spec fn call_id(n: nat) -> Seq<char> {
    "tetanus-acp-client-"@ + text::dec(n)
}

/// No two calls share an id.
pub proof fn lemma_calls_differ(m: nat, n: nat)
    requires
        m != n,
    ensures
        call_id(m) != call_id(n),
{
    text::lemma_dec_injective(m, n);
    let p = "tetanus-acp-client-"@;
    assert(call_id(m).skip(p.len() as int) =~= text::dec(m));
    assert(call_id(n).skip(p.len() as int) =~= text::dec(n));
}

/// The parameters of a call.
#[derive(Debug, Clone)]
pub enum Params {
    Initialize(InitializeRequest),
    NewSession(NewSessionRequest),
    LoadSession(LoadSessionRequest),
    Prompt(PromptRequest),
}

/// A call to make: the id it goes out under, and what it asks.
#[derive(Debug, Clone)]
pub struct Calling {
    pub number: u64,
    pub id: String,
    pub method: &'static str,
    pub params: Params,
}

/// How a request the agent made of this client is answered.
#[derive(Debug, Clone)]
pub enum Answered {
    Outcome(PermissionOutcome),
    Error { code: i64, message: String },
}

/// How a request the agent made of this client is answered, by what it says.
pub enum Answers {
    Outcome(wire::Verdict),
    Error(int, Seq<char>),
}

impl View for Answered {
    type V = Answers;

    open spec fn view(&self) -> Answers {
        match self {
            Answered::Outcome(outcome) => Answers::Outcome(outcome@),
            Answered::Error { code, message } => Answers::Error(*code as int, message@),
        }
    }
}

/// What a line from the agent comes to.
#[derive(Debug)]
pub enum Route {
    /// Nothing this client has to do with.
    Ignore,
    /// A request of the agent's, to answer under its own id.
    Answer { id: String, answer: Answered },
    /// Something the agent said about a session.
    Update(SessionNotification),
    /// The answer to a call this client made.
    Settle { call: u64, answered: Result<String, WireError> },
}

/// What a line from the agent comes to, by what it says.
pub enum Routed {
    Ignore,
    Answer(Seq<char>, Answers),
    Update(Seq<char>, wire::Update),
    Settle(u64, Result<Seq<char>, frame::Spelled>),
}

impl View for Route {
    type V = Routed;

    open spec fn view(&self) -> Routed {
        match self {
            Route::Ignore => Routed::Ignore,
            Route::Answer { id, answer } => Routed::Answer(id@, answer@),
            Route::Update(note) => Routed::Update(note.session_id@, note.update@),
            Route::Settle { call, answered } => Routed::Settle(
                *call,
                frame::payload_view(*answered),
            ),
        }
    }
}

/// The ids of the options a permission question offers, when every item of
/// the list is an option.
pub open spec fn options_of(items: Seq<Seq<char>>) -> Option<Seq<Seq<char>>>
    decreases items.len(),
{
    if items.len() == 0 {
        Some(Seq::empty())
    } else {
        match (options_of(items.drop_last()), option_of(items.last())) {
            (Some(before), Some(option)) => Some(before.push(option)),
            _ => None,
        }
    }
}

/// The id of one option.
pub open spec fn option_of(item: Seq<char>) -> Option<Seq<char>> {
    match (
        json::word_of(item, "optionId"@, 0, 3),
        json::word_of(item, "name"@, 1, 3),
        json::word_of(item, "kind"@, 2, 3),
    ) {
        (Some(id), Some(_), Some(_)) => Some(id),
        _ => None,
    }
}

/// What a permission question asks: the call it is about, and the options it
/// offers.
pub open spec fn question_of(params: Seq<char>) -> Option<(Seq<char>, Seq<Seq<char>>)> {
    match (
        json::word_of(params, "sessionId"@, 0, 3),
        json::member_of(params, "toolCall"@, 1, 3),
        json::member_of(params, "options"@, 2, 3),
    ) {
        (Some(_), Some(call), Some(list)) => match (
            json::word_of(call, "toolCallId"@, 0, 1),
            json::json_items(list),
        ) {
            (Some(call), Some(items)) => match options_of(items) {
                Some(options) => Some((call, options)),
                None => None,
            },
            _ => None,
        },
        _ => None,
    }
}

/// What a connection remembers, by what it says.
pub struct Peer {
    pub policy: PermissionPolicy,
    pub timeout: Elapsed,
    /// How many calls were made.
    pub made: u64,
    /// The calls still unanswered.
    pub pending: Set<u64>,
    /// The tool calls this client was asked about, in order.
    pub answered: Seq<Seq<char>>,
    pub closed: bool,
}

impl Peer {
    /// A connection nothing has been said on.
    pub open spec fn fresh(policy: PermissionPolicy) -> Peer {
        Peer {
            policy,
            timeout: Elapsed { secs: 120, nanos: 0 },
            made: 0,
            pending: Set::empty(),
            answered: Seq::empty(),
            closed: false,
        }
    }

    /// The call an answer's id belongs to.
    pub open spec fn waiter(self, id: Seq<char>) -> Option<u64> {
        match json::json_text(id) {
            Some(id) => if exists|n: u64|
                #[trigger] self.pending.contains(n) && call_id(n as nat) == id {
                Some(choose|n: u64| #[trigger] self.pending.contains(n) && call_id(n as nat) == id)
            } else {
                None
            },
            None => None,
        }
    }

    /// A request of the agent's, answered. Only a permission question is
    /// understood; anything else is refused rather than ignored, because an
    /// agent waiting for an answer that never comes is a hang.
    pub open spec fn asked(self, method: Seq<char>, params: Seq<char>) -> (Peer, Answers) {
        if method == REQUEST_PERMISSION@ {
            match question_of(params) {
                Some((call, options)) => (
                    Peer { answered: self.answered.push(call), ..self },
                    Answers::Outcome(
                        if options.contains(self.policy.chooses()) {
                            wire::Verdict::Selected(self.policy.chooses())
                        } else {
                            wire::Verdict::Cancelled
                        },
                    ),
                ),
                None => (self, Answers::Error(-32602, "the question is not one"@)),
            }
        } else {
            (self, Answers::Error(-32601, "no method `"@ + method + "`"@))
        }
    }

    /// One line from the agent.
    pub open spec fn routes(self, line: Seq<char>) -> (Peer, Routed) {
        let method = json::json_field(line, "method"@);
        let id = json::json_field(line, "id"@);
        match (method, id) {
            (Some(method), Some(id)) => {
                let named = match json::json_text(method) {
                    Some(method) => method,
                    None => Seq::empty(),
                };
                let params = match json::json_field(line, "params"@) {
                    Some(params) => params,
                    None => "null"@,
                };
                let (next, answer) = self.asked(named, params);
                (next, Routed::Answer(id, answer))
            },
            (Some(method), None) => (
                self,
                if json::json_text(method) == Some(SESSION_UPDATE@) {
                    note_of(line)
                } else {
                    Routed::Ignore
                },
            ),
            (None, Some(_)) => match frame::message_of(line) {
                Some(frame::Heard::Response { id, payload }) => match self.waiter(id) {
                    Some(call) => (
                        Peer { pending: self.pending.remove(call), ..self },
                        Routed::Settle(call, payload),
                    ),
                    None => (self, Routed::Ignore),
                },
                _ => (self, Routed::Ignore),
            },
            (None, None) => (self, Routed::Ignore),
        }
    }

    /// The connection closed, and how: every waiter is released, and the agent
    /// is given no longer to leave than a call has to answer.
    pub open spec fn closes(self) -> (Peer, Closing) {
        (
            Peer { closed: true, pending: Set::empty(), ..self },
            if self.closed {
                Closing::Done
            } else if self.timeout.secs < 10 {
                Closing::Wait(self.timeout)
            } else {
                Closing::Wait(Elapsed { secs: 10, nanos: 0 })
            },
        )
    }

    /// One more call, waiting for its answer.
    pub open spec fn calls(self) -> Peer {
        Peer { made: (self.made + 1) as u64, pending: self.pending.insert(self.made), ..self }
    }
}

/// What a notification says about a session, when it says one thing.
pub open spec fn note_of(line: Seq<char>) -> Routed {
    match json::json_field(line, "params"@) {
        Some(params) => match (
            json::word_of(params, "sessionId"@, 0, 2),
            json::member_of(params, "update"@, 1, 2),
        ) {
            (Some(session), Some(update)) => match update_of(update) {
                Some(update) => Routed::Update(session, update),
                None => Routed::Ignore,
            },
            _ => Routed::Ignore,
        },
        None => Routed::Ignore,
    }
}

fn option_id_of(item: &str) -> (r: Option<String>)
    ensures
        json::held(r) == option_of(item@),
{
    let id = json::word(item, "optionId", 0, 3);
    let name = json::word(item, "name", 1, 3);
    let kind = json::word(item, "kind", 2, 3);
    match (id, name, kind) {
        (Some(id), Some(_), Some(_)) => Some(id),
        _ => None,
    }
}

proof fn lemma_options_stop(items: Seq<Seq<char>>, n: int)
    requires
        0 <= n <= items.len(),
        options_of(items.take(n)) is None,
    ensures
        options_of(items) is None,
    decreases items.len() - n,
{
    if n == items.len() {
        assert(items.take(n) =~= items);
    } else {
        assert(items.take(n + 1).drop_last() =~= items.take(n));
        lemma_options_stop(items, n + 1);
    }
}

fn options(items: &Vec<String>) -> (r: Option<Vec<String>>)
    ensures
        json::held_all(r) == options_of(text::views(items@)),
{
    let ghost all = text::views(items@);
    let mut r: Vec<String> = Vec::new();
    let mut i: usize = 0;
    proof {
        assert(all.take(0) =~= Seq::<Seq<char>>::empty());
        assert(text::views(r@) =~= Seq::<Seq<char>>::empty());
    }
    while i < items.len()
        invariant
            i <= items.len(),
            all == text::views(items@),
            options_of(all.take(i as int)) == Some(text::views(r@)),
        decreases items.len() - i,
    {
        let ghost before = text::views(r@);
        proof {
            assert(all.take(i + 1).drop_last() =~= all.take(i as int));
            assert(all.take(i + 1).last() == items@[i as int]@);
        }
        match option_id_of(items[i].as_str()) {
            Some(id) => {
                r.push(id);
                proof {
                    assert(text::views(r@) =~= before.push(id@));
                }
            },
            None => {
                proof {
                    lemma_options_stop(all, i + 1);
                }
                return None;
            },
        }
        i = i + 1;
    }
    proof {
        assert(all.take(i as int) =~= all);
    }
    Some(r)
}

/// What a permission question asks: the call it is about, and the ids of the
/// options it offers.
pub fn decode_question(params: &str) -> (r: Option<(String, Vec<String>)>)
    ensures
        (match r {
            Some((call, options)) => Some((call@, text::views(options@))),
            None => None,
        }) == question_of(params@),
{
    let session = json::word(params, "sessionId", 0, 3);
    let call = json::member(params, "toolCall", 1, 3);
    let list = json::member(params, "options", 2, 3);
    match (session, call, list) {
        (Some(_), Some(call), Some(list)) => {
            let call = json::word(call.as_str(), "toolCallId", 0, 1);
            let items = json::items(list.as_str());
            match (call, items) {
                (Some(call), Some(items)) => match options(&items) {
                    Some(options) => Some((call, options)),
                    None => None,
                },
                _ => None,
            }
        },
        _ => None,
    }
}

fn note(line: &str) -> (r: Route)
    ensures
        r@ == note_of(line@),
{
    let params = match json::field(line, "params") {
        Some(params) => params,
        None => {
            return Route::Ignore;
        },
    };
    let session = json::word(params.as_str(), "sessionId", 0, 2);
    let update = json::member(params.as_str(), "update", 1, 2);
    match (session, update) {
        (Some(session_id), Some(update)) => match decode_update(update.as_str()) {
            Some(update) => Route::Update(SessionNotification { session_id, update }),
            None => Route::Ignore,
        },
        _ => Route::Ignore,
    }
}

fn offers(options: &Vec<String>, chosen: &str) -> (r: bool)
    ensures
        r == text::views(options@).contains(chosen@),
{
    let ghost all = text::views(options@);
    let mut i: usize = 0;
    while i < options.len()
        invariant
            i <= options.len(),
            all == text::views(options@),
            forall|j: int| 0 <= j < i ==> #[trigger] all[j] != chosen@,
        decreases options.len() - i,
    {
        if same(options[i].as_str(), chosen) {
            proof {
                assert(all[i as int] == chosen@);
            }
            return true;
        }
        i = i + 1;
    }
    false
}

/// What became of a call that was written.
#[derive(Debug)]
pub enum Waited {
    Answered(Result<String, WireError>),
    /// The waiter was released: the agent is gone.
    Released,
    /// The deadline elapsed.
    Elapsed,
}

/// How a connection is closed: end of input, then a bounded wait, then a kill.
#[derive(Debug, Clone, Copy, PartialEq, Eq, Structural)]
pub enum Closing {
    /// It is closed already.
    Done,
    /// Close the agent's input and wait this long for it to leave; kill it if
    /// it has not.
    Wait(Elapsed),
}

/// A client's side of one connection.
pub struct AcpClient {
    policy: PermissionPolicy,
    timeout: Elapsed,
    requests: u64,
    pending: Vec<u64>,
    answered: Vec<String>,
    closed: bool,
}

impl View for AcpClient {
    type V = Peer;

    closed spec fn view(&self) -> Peer {
        Peer {
            policy: self.policy,
            timeout: self.timeout,
            made: self.requests,
            pending: self.pending@.to_set(),
            answered: text::views(self.answered@),
            closed: self.closed,
        }
    }
}

impl AcpClient {
    /// Whether no two calls share a number, and every one was given out here;
    /// and a closed connection waits for nothing.
    pub closed spec fn wf(&self) -> bool {
        &&& self.pending@.no_duplicates()
        &&& forall|i: int|
            0 <= i < self.pending@.len() ==> #[trigger] self.pending@[i] < self.requests
        &&& self.closed ==> self.pending@.len() == 0
        &&& self.timeout.wf()
    }

    /// A connection to an agent that was just started.
    pub fn new(policy: PermissionPolicy) -> (c: AcpClient)
        ensures
            c.wf(),
            c@ == Peer::fresh(policy),
    {
        let c = AcpClient {
            policy,
            timeout: default_timeout(),
            requests: 0,
            pending: Vec::new(),
            answered: Vec::new(),
            closed: false,
        };
        proof {
            assert(c.pending@.to_set() =~= Set::<u64>::empty());
            assert(text::views(c.answered@) =~= Seq::<Seq<char>>::empty());
        }
        c
    }

    /// Set the per-call deadline.
    pub fn with_timeout(self, timeout: Elapsed) -> (c: AcpClient)
        requires
            self.wf(),
            timeout.wf(),
        ensures
            c.wf(),
            c@ == (Peer { timeout, ..self@ }),
    {
        let AcpClient { policy, timeout: _, requests, pending, answered, closed } = self;
        AcpClient { policy, timeout, requests, pending, answered, closed }
    }

    /// The permission questions this client has answered, in order.
    pub fn answered(&self) -> (r: Vec<String>)
        ensures
            text::views(r@) == self@.answered,
    {
        let mut r: Vec<String> = Vec::new();
        let mut i: usize = 0;
        while i < self.answered.len()
            invariant
                i <= self.answered.len(),
                text::views(r@) == text::views(self.answered@).take(i as int),
            decreases self.answered.len() - i,
        {
            let ghost all = text::views(self.answered@);
            let ghost before = text::views(r@);
            r.push(self.answered[i].clone());
            proof {
                assert(text::views(r@) =~= before.push(all[i as int]));
                assert(all.take(i + 1) =~= all.take(i as int).push(all[i as int]));
            }
            i = i + 1;
        }
        proof {
            assert(text::views(self.answered@).take(i as int) =~= text::views(self.answered@));
        }
        r
    }

    /// Whether there is a number left to make a call under.
    pub fn can_call(&self) -> (r: bool)
        ensures
            r == (self@.made < u64::MAX),
    {
        self.requests < u64::MAX
    }

    fn call(&mut self, method: &'static str, params: Params) -> (r: Result<Calling, ClientError>)
        requires
            old(self).wf(),
            old(self)@.closed || old(self)@.made < u64::MAX,
        ensures
            final(self).wf(),
            calling(old(self)@, final(self)@, r, method@, params),
    {
        if self.closed {
            return Err(ClientError::Transport("this client is closed".to_owned()));
        }
        let number: u64 = self.requests;
        let ghost before = self.pending@;
        self.requests = self.requests + 1;
        self.pending.push(number);
        proof {
            assert forall|x: u64|
                self.pending@.to_set().contains(x) == before.to_set().insert(number).contains(
                    x,
                ) by {
                if before.contains(x) {
                    let i = choose|i: int| 0 <= i < before.len() && before[i] == x;
                    assert(self.pending@[i] == x);
                }
                assert(self.pending@[before.len() as int] == number);
            }
            assert(self.pending@.to_set() =~= before.to_set().insert(number));
        }
        let id = text::cat("tetanus-acp-client-", decimal(number).as_str());
        Ok(Calling { number, id, method, params })
    }

    /// Negotiate. The first call on a connection.
    pub fn initialize(&mut self) -> (r: Result<Calling, ClientError>)
        requires
            old(self).wf(),
            old(self)@.closed || old(self)@.made < u64::MAX,
        ensures
            final(self).wf(),
            calling(
                old(self)@,
                final(self)@,
                r,
                INITIALIZE@,
                Params::Initialize(InitializeRequest { protocol_version: PROTOCOL_VERSION, client_capabilities: None }),
            ),
    {
        self.call(
            INITIALIZE,
            Params::Initialize(InitializeRequest { protocol_version: PROTOCOL_VERSION, client_capabilities: None }),
        )
    }

    /// Open a session. A relative directory is refused here, with nothing sent.
    pub fn new_session(&mut self, cwd: &str) -> (r: Result<Calling, ClientError>)
        requires
            old(self).wf(),
            old(self)@.closed || old(self)@.made < u64::MAX,
        ensures
            final(self).wf(),
            !bridge::absolute_of(cwd@) ==> final(self)@ == old(self)@ && misplaced(r, cwd@),
            bridge::absolute_of(cwd@) ==> exists|params: NewSessionRequest|
                params.cwd@ == cwd@ && params.mcp_servers@.len() == 0 && #[trigger] calling(
                    old(self)@,
                    final(self)@,
                    r,
                    SESSION_NEW@,
                    Params::NewSession(params),
                ),
    {
        if let Err(error) = check_cwd(cwd) {
            return Err(error);
        }
        self.call(
            SESSION_NEW,
            Params::NewSession(
                NewSessionRequest { cwd: cwd.to_owned(), mcp_servers: Vec::new() },
            ),
        )
    }

    /// Re-open a session the agent already has. Its history arrives as updates
    /// before the answer: see [`collect`].
    pub fn load_session(&mut self, session_id: &str, cwd: &str) -> (r: Result<
        Calling,
        ClientError,
    >)
        requires
            old(self).wf(),
            old(self)@.closed || old(self)@.made < u64::MAX,
        ensures
            final(self).wf(),
            !bridge::absolute_of(cwd@) ==> final(self)@ == old(self)@ && misplaced(r, cwd@),
            bridge::absolute_of(cwd@) ==> exists|params: LoadSessionRequest|
                params.session_id@ == session_id@ && params.cwd@ == cwd@ && params.mcp_servers@.len()
                    == 0 && #[trigger] calling(
                    old(self)@,
                    final(self)@,
                    r,
                    SESSION_LOAD@,
                    Params::LoadSession(params),
                ),
    {
        if let Err(error) = check_cwd(cwd) {
            return Err(error);
        }
        self.call(
            SESSION_LOAD,
            Params::LoadSession(
                LoadSessionRequest {
                    session_id: session_id.to_owned(),
                    cwd: cwd.to_owned(),
                    mcp_servers: Vec::new(),
                },
            ),
        )
    }

    /// Send a prompt. What the agent says while it runs arrives as updates
    /// before the answer: see [`collect`].
    pub fn prompt(&mut self, session_id: &str, blocks: Vec<ContentBlock>) -> (r: Result<
        Calling,
        ClientError,
    >)
        requires
            old(self).wf(),
            old(self)@.closed || old(self)@.made < u64::MAX,
        ensures
            final(self).wf(),
            exists|params: PromptRequest|
                params.session_id@ == session_id@ && params.prompt == blocks && #[trigger] calling(
                    old(self)@,
                    final(self)@,
                    r,
                    SESSION_PROMPT@,
                    Params::Prompt(params),
                ),
    {
        self.call(
            SESSION_PROMPT,
            Params::Prompt(PromptRequest { session_id: session_id.to_owned(), prompt: blocks }),
        )
    }

    /// Ask the agent to stop. One-way: there is nothing to wait for.
    pub fn cancel(&self, session_id: &str) -> (r: Result<
        (&'static str, CancelNotification),
        ClientError,
    >)
        ensures
            if self@.closed {
                r matches Err(ClientError::Transport(why)) && why@ == "this client is closed"@
            } else {
                r matches Ok((method, note)) && method@ == SESSION_CANCEL@ && note.session_id@
                    == session_id@
            },
    {
        if self.closed {
            return Err(ClientError::Transport("this client is closed".to_owned()));
        }
        Ok((SESSION_CANCEL, CancelNotification { session_id: session_id.to_owned() }))
    }

    fn asked(&mut self, method: &str, params: &str) -> (r: Answered)
        requires
            old(self).wf(),
        ensures
            final(self).wf(),
            final(self)@ == old(self)@.asked(method@, params@).0,
            r@ == old(self)@.asked(method@, params@).1,
    {
        if !same(method, REQUEST_PERMISSION) {
            let mut message = text::cat("no method `", method);
            message.append("`");
            return Answered::Error { code: -32601, message };
        }
        match decode_question(params) {
            Some((call, options)) => {
                let ghost before = text::views(self.answered@);
                self.answered.push(call);
                proof {
                    assert(text::views(self.answered@) =~= before.push(call@));
                }
                let chosen = self.policy.option_id();
                if offers(&options, chosen) {
                    Answered::Outcome(PermissionOutcome::Selected { option_id: chosen.to_owned() })
                } else {
                    Answered::Outcome(PermissionOutcome::Cancelled)
                }
            },
            None => Answered::Error { code: -32602, message: "the question is not one".to_owned() },
        }
    }

    fn settle(&mut self, id: &str) -> (r: Option<u64>)
        requires
            old(self).wf(),
        ensures
            final(self).wf(),
            r == old(self)@.waiter(id@),
            match r {
                Some(call) => final(self)@ == (Peer {
                    pending: old(self)@.pending.remove(call),
                    ..old(self)@
                }),
                None => *final(self) == *old(self),
            },
    {
        let named = match json::text(id) {
            Some(named) => named,
            None => {
                return None;
            },
        };
        let ghost all = self.pending@;
        let mut at: usize = 0;
        while at < self.pending.len()
            invariant
                at <= self.pending@.len(),
                all == self.pending@,
                forall|i: int| 0 <= i < at ==> call_id(#[trigger] all[i] as nat) != named@,
                *self == *old(self),
                old(self).wf(),
                json::json_text(id@) == Some(named@),
            decreases self.pending@.len() - at,
        {
            let number: u64 = self.pending[at];
            let minted = text::cat("tetanus-acp-client-", decimal(number).as_str());
            if same(minted.as_str(), named.as_str()) {
                let _ = self.pending.remove(at);
                proof {
                    lemma_taken_out(all, at as int);
                    assert(self@.pending =~= old(self)@.pending.remove(number));
                    assert(old(self)@.pending.contains(number));
                    let found = choose|n: u64| #[trigger]
                        old(self)@.pending.contains(n) && call_id(n as nat) == named@;
                    if found != number {
                        lemma_calls_differ(found as nat, number as nat);
                    }
                    assert(text::views(self.answered@) == text::views(old(self).answered@));
                }
                return Some(number);
            }
            at = at + 1;
        }
        proof {
            assert forall|n: u64| #[trigger] self@.pending.contains(n) implies call_id(n as nat)
                != named@ by {
                let i = choose|i: int| 0 <= i < all.len() && all[i] == n;
            }
        }
        None
    }

    /// Route one line from the agent by its shape.
    pub fn line(&mut self, line: &str) -> (r: Route)
        requires
            old(self).wf(),
        ensures
            final(self).wf(),
            final(self)@ == old(self)@.routes(line@).0,
            r@ == old(self)@.routes(line@).1,
    {
        match (json::field(line, "method"), json::field(line, "id")) {
            (Some(method), Some(id)) => {
                let named = match json::text(method.as_str()) {
                    Some(named) => named,
                    None => String::new(),
                };
                let params = match json::field(line, "params") {
                    Some(params) => params,
                    None => "null".to_owned(),
                };
                proof {
                    assert(named@ =~= (match json::json_text(method@) {
                        Some(method) => method,
                        None => Seq::empty(),
                    }));
                }
                let answer = self.asked(named.as_str(), params.as_str());
                Route::Answer { id, answer }
            },
            (Some(method), None) => match json::text(method.as_str()) {
                Some(method) => if same(method.as_str(), SESSION_UPDATE) {
                    note(line)
                } else {
                    Route::Ignore
                },
                None => Route::Ignore,
            },
            (None, Some(_)) => match Message::decode(line) {
                Some(Message::Response { id, payload }) => match self.settle(id.as_str()) {
                    Some(call) => Route::Settle { call, answered: payload },
                    None => Route::Ignore,
                },
                _ => Route::Ignore,
            },
            (None, None) => Route::Ignore,
        }
    }

    /// The agent is gone: every waiter is released now rather than at its own
    /// deadline. What comes back are the calls nobody will answer any more.
    pub fn ended(&mut self) -> (released: Vec<u64>)
        requires
            old(self).wf(),
        ensures
            final(self).wf(),
            released@.to_set() == old(self)@.pending,
            final(self)@ == (Peer { pending: Set::empty(), ..old(self)@ }),
    {
        let mut released: Vec<u64> = Vec::new();
        released.append(&mut self.pending);
        proof {
            assert(self.pending@.to_set() =~= Set::<u64>::empty());
            assert(released@ =~= old(self).pending@);
        }
        released
    }

    /// What a call that was written came to. One whose deadline elapsed is
    /// waited for no longer.
    pub fn waited(&mut self, call: u64, method: &str, waited: Waited) -> (r: Result<
        String,
        ClientError,
    >)
        requires
            old(self).wf(),
        ensures
            final(self).wf(),
            final(self)@ == (Peer {
                pending: if waited is Elapsed {
                    old(self)@.pending.remove(call)
                } else {
                    old(self)@.pending
                },
                ..old(self)@
            }),
            match waited {
                Waited::Answered(Ok(result)) => r == Ok::<String, ClientError>(result),
                Waited::Answered(Err(error)) => r == Err::<String, ClientError>(
                    ClientError::Refused(error),
                ),
                Waited::Released => r matches Err(ClientError::Transport(why)) && why@
                    == "the agent closed the connection"@,
                Waited::Elapsed => r matches Err(ClientError::TimedOut { call, after }) && call@
                    == method@ && after == old(self)@.timeout,
            },
    {
        match waited {
            Waited::Answered(Ok(result)) => Ok(result),
            Waited::Answered(Err(error)) => Err(ClientError::Refused(error)),
            Waited::Released => Err(
                ClientError::Transport("the agent closed the connection".to_owned()),
            ),
            Waited::Elapsed => {
                self.give_up(call);
                Err(ClientError::TimedOut { call: method.to_owned(), after: self.timeout })
            },
        }
    }

    fn give_up(&mut self, call: u64)
        requires
            old(self).wf(),
        ensures
            final(self).wf(),
            final(self)@ == (Peer { pending: old(self)@.pending.remove(call), ..old(self)@ }),
    {
        let ghost all = self.pending@;
        let mut at: usize = 0;
        while at < self.pending.len()
            invariant
                at <= self.pending@.len(),
                all == self.pending@,
                forall|i: int| 0 <= i < at ==> #[trigger] all[i] != call,
                *self == *old(self),
                old(self).wf(),
            decreases self.pending@.len() - at,
        {
            if self.pending[at] == call {
                let _ = self.pending.remove(at);
                proof {
                    lemma_taken_out(all, at as int);
                    assert(self@.pending =~= old(self)@.pending.remove(call));
                }
                return;
            }
            at = at + 1;
        }
        proof {
            assert(!all.to_set().contains(call));
            assert(all.to_set().remove(call) =~= all.to_set());
        }
    }

    /// Close the connection. Idempotent.
    pub fn close(&mut self) -> (r: Closing)
        requires
            old(self).wf(),
        ensures
            final(self).wf(),
            (final(self)@, r) == old(self)@.closes(),
    {
        self.pending = Vec::new();
        proof {
            assert(self.pending@.to_set() =~= Set::<u64>::empty());
        }
        if self.closed {
            return Closing::Done;
        }
        self.closed = true;
        if self.timeout.secs < 10 {
            Closing::Wait(self.timeout)
        } else {
            Closing::Wait(Elapsed { secs: 10, nanos: 0 })
        }
    }
}

proof fn lemma_taken_out(all: Seq<u64>, at: int)
    requires
        0 <= at < all.len(),
        all.no_duplicates(),
    ensures
        all.remove(at).no_duplicates(),
        all.remove(at).to_set() == all.to_set().remove(all[at]),
        forall|i: int| 0 <= i < all.remove(at).len() ==> all.contains(#[trigger] all.remove(at)[i]),
{
    let rest = all.remove(at);
    assert forall|n: u64| rest.to_set().contains(n) == all.to_set().remove(all[at]).contains(
        n,
    ) by {
        if rest.contains(n) {
            let i = choose|i: int| 0 <= i < rest.len() && rest[i] == n;
            assert(rest[i] == all[if i < at {
                i
            } else {
                i + 1
            }]);
        }
        if all.contains(n) && n != all[at] {
            let i = choose|i: int| 0 <= i < all.len() && all[i] == n;
            assert(rest[if i < at {
                i
            } else {
                i - 1
            }] == n);
        }
    }
    assert(rest.to_set() =~= all.to_set().remove(all[at]));
}

/// A call made, or refused because the connection is closed.
pub open spec fn calling(
    before: Peer,
    after: Peer,
    r: Result<Calling, ClientError>,
    method: Seq<char>,
    params: Params,
) -> bool {
    if before.closed {
        &&& after == before
        &&& r matches Err(ClientError::Transport(why)) && why@ == "this client is closed"@
    } else {
        &&& after == before.calls()
        &&& r matches Ok(call) && call.number == before.made && call.id@ == call_id(
            before.made as nat,
        ) && call.method@ == method && call.params == params
    }
}

/// A call refused because its directory is relative.
pub open spec fn misplaced(r: Result<Calling, ClientError>, cwd: Seq<char>) -> bool {
    r matches Err(ClientError::Protocol(why)) && why@ == "`cwd` is an absolute path, and `"@ + cwd
        + "` is not"@
}

// ---- laws ----

/// Closing is for good, and closing again does nothing: it answers at once and
/// leaves the connection as it was. A call made after it is refused rather
/// than waited for, and changes nothing.
pub proof fn lemma_closed_is_closed(
    peer: Peer,
    after: Peer,
    r: Result<Calling, ClientError>,
    method: Seq<char>,
    params: Params,
)
    ensures
        peer.closes().0.closes() == (peer.closes().0, Closing::Done),
        calling(peer.closes().0, after, r, method, params) ==> after == peer.closes().0
            && r matches Err(ClientError::Transport(_)),
{
    let once = peer.closes().0;
    assert(once.closes().0.pending =~= once.pending);
}

/// Only an option the agent offered is chosen.
pub proof fn lemma_only_what_was_offered(peer: Peer, params: Seq<char>, option: Seq<char>)
    requires
        peer.asked(REQUEST_PERMISSION@, params).1 == Answers::Outcome(
            wire::Verdict::Selected(option),
        ),
    ensures
        question_of(params) matches Some((_, options)) && options.contains(option),
        option == peer.policy.chooses(),
{
}

/// Every request of the agent's is answered, and under its own id: none is
/// left for the agent to wait on.
pub proof fn lemma_every_request_is_answered(peer: Peer, line: Seq<char>)
    requires
        json::json_field(line, "method"@) is Some,
        json::json_field(line, "id"@) is Some,
    ensures
        peer.routes(line).1 matches Routed::Answer(id, _) && Some(id) == json::json_field(
            line,
            "id"@,
        ),
{
}

/// An answer settles the call it names and leaves every other waiting; the
/// same answer a second time settles nothing.
pub proof fn lemma_an_answer_settles_once(peer: Peer, line: Seq<char>, call: u64)
    requires
        peer.routes(line).1 matches Routed::Settle(settled, _) && settled == call,
    ensures
        peer.pending.contains(call),
        forall|other: u64|
            other != call ==> (#[trigger] peer.routes(line).0.pending.contains(other)
                == peer.pending.contains(other)),
        peer.routes(line).0.routes(line).1 is Ignore,
{
    let next = peer.routes(line).0;
    let id = frame::message_of(line)->0->Response_id;
    assert(peer.waiter(id) == Some(call));
    let word = json::json_text(id)->0;
    assert(call_id(call as nat) == word);
    assert forall|n: u64| #[trigger] next.pending.contains(n) implies call_id(n as nat) != word by {
        lemma_calls_differ(n as nat, call as nat);
    }
    assert(next.waiter(id) is None);
}

/// One session's updates hold nothing of another's: what is collected for a
/// session is what would be collected had only its own notifications come.
pub proof fn lemma_sessions_do_not_mix(
    notes: Seq<(Seq<char>, wire::Update)>,
    session: Seq<char>,
)
    ensures
        about(notes, session) == about(
            notes.filter(|n: (Seq<char>, wire::Update)| n.0 == session),
            session,
        ),
    decreases notes.len(),
{
    let own = |n: (Seq<char>, wire::Update)| n.0 == session;
    reveal(Seq::filter);
    if notes.len() > 0 {
        lemma_sessions_do_not_mix(notes.drop_last(), session);
        let before = notes.drop_last().filter(own);
        if notes.last().0 == session {
            assert(notes.filter(own) == before.push(notes.last()));
            assert(before.push(notes.last()).drop_last() =~= before);
        }
    }
}

/// The word a status is written with.
pub open spec fn written(status: ToolCallStatus) -> Seq<char> {
    match status {
        ToolCallStatus::Pending => "pending"@,
        ToolCallStatus::InProgress => "in_progress"@,
        ToolCallStatus::Completed => "completed"@,
        ToolCallStatus::Failed => "failed"@,
    }
}

/// No two statuses are written with the same word.
pub proof fn lemma_statuses_are_written_apart(a: ToolCallStatus, b: ToolCallStatus)
    ensures
        written(a) == written(b) ==> a == b,
{
    reveal_strlit("pending");
    reveal_strlit("in_progress");
    reveal_strlit("completed");
    reveal_strlit("failed");
    assert("pending"@.len() == 7 && "in_progress"@.len() == 11 && "completed"@.len() == 9
        && "failed"@.len() == 6);
}

/// Reading a status undoes writing it: each word is read as the very status it is
/// written for, two different words never as the same one, and any other word as
/// none.
pub proof fn lemma_a_status_reads_back(status: ToolCallStatus, word: Seq<char>)
    ensures
        status_of(written(status)) == Some(status),
        status_of(word) == Some(status) ==> word == written(status),
        status_of(word) is None <==> word != "pending"@ && word != "in_progress"@ && word
            != "completed"@ && word != "failed"@,
{
    lemma_statuses_are_written_apart(status, ToolCallStatus::Pending);
    lemma_statuses_are_written_apart(status, ToolCallStatus::InProgress);
    lemma_statuses_are_written_apart(status, ToolCallStatus::Completed);
}

proof fn lemma_updates_are_tagged_apart()
    ensures
        "agent_message_chunk"@ != "tool_call"@,
        "agent_message_chunk"@ != "tool_call_update"@,
        "tool_call"@ != "tool_call_update"@,
{
    reveal_strlit("agent_message_chunk");
    reveal_strlit("tool_call");
    reveal_strlit("tool_call_update");
    assert("agent_message_chunk"@.len() == 19 && "tool_call"@.len() == 9
        && "tool_call_update"@.len() == 16);
}

/// Reading the progress of a call undoes writing it: an update that carries the
/// word of a status decodes to that very status, under the id it names, with the
/// pieces of its content, and with none where it has none.
pub proof fn lemma_progress_reads_back(
    value: Seq<char>,
    named: Seq<char>,
    told: ToolCallStatus,
    items: Seq<Seq<char>>,
)
    requires
        json::says(value, "sessionUpdate"@, "tool_call_update"@),
        json::says(value, "toolCallId"@, named),
        json::says(value, "status"@, written(told)),
    ensures
        json::json_field(value, "content"@) is None ==> update_of(value) == Some(
            wire::Update::Progress { id: named, status: told, content: Seq::empty() },
        ),
        json::json_field(value, "content"@) matches Some(list) && json::json_items(list) == Some(
            items,
        ) && pieces_of(items) is Some ==> update_of(value) == Some(
            wire::Update::Progress { id: named, status: told, content: pieces_of(items)->0 },
        ),
        update_of(value) matches Some(update) ==> update is Progress && update->Progress_id
            == named && update->Progress_status == told,
{
    lemma_updates_are_tagged_apart();
    lemma_a_status_reads_back(told, written(told));
}

/// Reading a call undoes writing it: an update that carries the word of a status
/// decodes to that very status, under the id and the title it names, with the
/// input it was given, and with none where that is missing or null.
pub proof fn lemma_a_call_reads_back(
    value: Seq<char>,
    named: Seq<char>,
    titled: Seq<char>,
    told: ToolCallStatus,
)
    requires
        json::says(value, "sessionUpdate"@, "tool_call"@),
        json::says(value, "toolCallId"@, named),
        json::says(value, "title"@, titled),
        json::says(value, "status"@, written(told)),
    ensures
        update_of(value) == Some(
            wire::Update::Call {
                id: named,
                title: titled,
                status: told,
                raw_input: match json::json_field(value, "rawInput"@) {
                    Some(input) => if input == "null"@ {
                        None
                    } else {
                        Some(input)
                    },
                    None => None,
                },
            },
        ),
{
    lemma_updates_are_tagged_apart();
    lemma_a_status_reads_back(told, written(told));
}

/// Two updates that carry different status words never decode to one status,
/// whichever of the two kinds that carry one they are.
pub proof fn lemma_different_words_are_different_statuses(
    one: Seq<char>,
    other: Seq<char>,
    words: (Seq<char>, Seq<char>),
)
    requires
        json::says(one, "status"@, words.0),
        json::says(other, "status"@, words.1),
        words.0 != words.1,
    ensures
        ({
            let first = update_of(one);
            let second = update_of(other);
            &&& first is Some && second is Some && first->0 is Progress && second->0 is Progress
                ==> first->0->Progress_status != second->0->Progress_status
            &&& first is Some && second is Some && first->0 is Call && second->0 is Call
                ==> first->0->Call_status != second->0->Call_status
            &&& first is Some && second is Some && first->0 is Call && second->0 is Progress
                ==> first->0->Call_status != second->0->Progress_status
        }),
{
    let first = status_of(words.0);
    let second = status_of(words.1);
    if first is Some && second is Some {
        lemma_a_status_reads_back(first->0, words.0);
        lemma_a_status_reads_back(second->0, words.1);
    }
}

/// An update without a status is none of a call and none of its progress, and one
/// whose status is no word there is, neither.
pub proof fn lemma_a_status_is_owed(value: Seq<char>, word: Seq<char>)
    requires
        json::json_items(value) is None,
        json::json_field(value, "status"@) is None || (json::says(value, "status"@, word) && (
        forall|status: ToolCallStatus| #[trigger] written(status) != word)),
    ensures
        update_of(value) matches Some(update) ==> update is Message,
{
    if json::says(value, "status"@, word) {
        assert(written(ToolCallStatus::Pending) != word);
        assert(written(ToolCallStatus::InProgress) != word);
        assert(written(ToolCallStatus::Completed) != word);
        assert(written(ToolCallStatus::Failed) != word);
    }
}

/// A piece of a message reads as the block it carries, whatever that is.
pub proof fn lemma_a_message_reads_as_its_block(value: Seq<char>, content: Seq<char>)
    requires
        json::says(value, "sessionUpdate"@, "agent_message_chunk"@),
    ensures
        json::json_field(value, "content"@) == Some(content) ==> update_of(value) == Some(
            wire::Update::Message(wire::block_of(content)),
        ),
        json::json_field(value, "content"@) is None ==> update_of(value) is None,
{
}

/// An update of a kind that is not known is none, and the kind decides which it
/// is.
pub proof fn lemma_the_kind_decides_the_update(value: Seq<char>, kind: Seq<char>)
    requires
        json::tag_word_of(value, "sessionUpdate"@) == Some(kind),
    ensures
        update_of(value) matches Some(update) ==> {
            &&& kind == "agent_message_chunk"@ <==> update is Message
            &&& kind == "tool_call"@ <==> update is Call
            &&& kind == "tool_call_update"@ <==> update is Progress
        },
        kind != "agent_message_chunk"@ && kind != "tool_call"@ && kind != "tool_call_update"@
            ==> update_of(value) is None,
{
    lemma_updates_are_tagged_apart();
}

/// An update may be written as an array, its members in the order they are
/// declared in: the kind, the id, the title, the status and the input of a call;
/// the kind, the id, the status and the content of its progress; the kind and the
/// content of a message.
pub proof fn lemma_an_update_reads_back_from_an_array(
    value: Seq<char>,
    items: Seq<Seq<char>>,
    named: Seq<char>,
    titled: Seq<char>,
    told: ToolCallStatus,
    pieces: Seq<Seq<char>>,
)
    requires
        json::json_items(value) == Some(items),
        items.len() > 0,
    ensures
        items.len() == 5 && json::json_text(items[0]) == Some("tool_call"@) && json::json_text(
            items[1],
        ) == Some(named) && json::json_text(items[2]) == Some(titled) && json::json_text(items[3])
            == Some(written(told)) && items[4] != "null"@ ==> update_of(value) == Some(
            wire::Update::Call {
                id: named,
                title: titled,
                status: told,
                raw_input: Some(items[4]),
            },
        ),
        items.len() == 4 && json::json_text(items[0]) == Some("tool_call_update"@)
            && json::json_text(items[1]) == Some(named) && json::json_text(items[2]) == Some(
            written(told),
        ) && json::json_items(items[3]) == Some(pieces) && pieces_of(pieces) is Some ==> update_of(
            value,
        ) == Some(
            wire::Update::Progress { id: named, status: told, content: pieces_of(pieces)->0 },
        ),
        items.len() == 2 && json::json_text(items[0]) == Some("agent_message_chunk"@)
            ==> update_of(value) == Some(wire::Update::Message(wire::block_of(items[1]))),
{
    lemma_updates_are_tagged_apart();
    lemma_a_status_reads_back(told, written(told));
}

/// The content of a call is read piece by piece and in order: each piece is the
/// block it carries, and one that is no piece leaves nothing of the whole.
pub proof fn lemma_pieces_are_read_in_order(items: Seq<Seq<char>>, item: Seq<char>, content: Seq<char>)
    ensures
        pieces_of(Seq::empty()) == Some(Seq::<wire::Block>::empty()),
        pieces_of(items) is Some && json::says(item, "type"@, "content"@) && json::json_field(
            item,
            "content"@,
        ) == Some(content) ==> pieces_of(items.push(item)) == Some(
            pieces_of(items)->0.push(wire::block_of(content)),
        ),
        piece_of(item) is None ==> pieces_of(items.push(item)) is None,
        pieces_of(items) is None ==> pieces_of(items.push(item)) is None,
        pieces_of(items) matches Some(before) ==> before.len() == items.len(),
    decreases items.len(),
{
    assert(items.push(item).drop_last() =~= items);
    if items.len() > 0 {
        assert(items.drop_last().push(items.last()) =~= items);
        lemma_pieces_are_read_in_order(items.drop_last(), items.last(), content);
    }
}

/// The word a reason to stop is written with.
pub open spec fn told(reason: StopReason) -> Seq<char> {
    match reason {
        StopReason::EndTurn => "end_turn"@,
        StopReason::MaxTokens => "max_tokens"@,
        StopReason::MaxTurnRequests => "max_turn_requests"@,
        StopReason::Refusal => "refusal"@,
        StopReason::Cancelled => "cancelled"@,
    }
}

/// Reading why a turn stopped undoes writing it: an answer that carries the word
/// of a reason settles for that very reason, different words for different ones,
/// and any other word for none.
pub proof fn lemma_a_reason_reads_back(result: Seq<char>, reason: StopReason, word: Seq<char>)
    ensures
        reason_of(told(reason)) == Some(reason),
        reason_of(word) == Some(reason) ==> word == told(reason),
        json::says(result, "stopReason"@, told(reason)) ==> settled_of(result) == Some(
            PromptResponse { stop_reason: reason },
        ),
        json::says(result, "stopReason"@, word) && reason_of(word) is None ==> settled_of(result)
            is None,
        json::json_items(result) is None && json::json_field(result, "stopReason"@) is None
            ==> settled_of(result) is None,
{
    reveal_strlit("end_turn");
    reveal_strlit("max_tokens");
    reveal_strlit("max_turn_requests");
    reveal_strlit("refusal");
    reveal_strlit("cancelled");
    assert("end_turn"@.len() == 8 && "max_tokens"@.len() == 10 && "max_turn_requests"@.len() == 17
        && "refusal"@.len() == 7 && "cancelled"@.len() == 9);
}

/// What is collected for a session is what was said of it, in the order it came:
/// a note of that session is added at the end, and a note of another is not.
pub proof fn lemma_a_session_hears_its_own_in_order(
    notes: Seq<(Seq<char>, wire::Update)>,
    session: Seq<char>,
    update: wire::Update,
    other: Seq<char>,
)
    ensures
        about(Seq::empty(), session) == Seq::<wire::Update>::empty(),
        about(notes.push((session, update)), session) == about(notes, session).push(update),
        other != session ==> about(notes.push((other, update)), session) == about(notes, session),
{
    assert(notes.push((session, update)).drop_last() =~= notes);
    assert(notes.push((other, update)).drop_last() =~= notes);
}

/// The messages of a turn are the texts it said, and its calls the ids and titles
/// it named, each in order and all of them.
pub proof fn lemma_an_outcome_lists_what_came(updates: Seq<wire::Update>, update: wire::Update)
    ensures
        said_in(Seq::empty()) == Seq::<Seq<char>>::empty(),
        called_in(Seq::empty()) == Seq::<(Seq<char>, Seq<char>)>::empty(),
        said_in(updates.push(update)) == match update {
            wire::Update::Message(wire::Block::Text(said)) => said_in(updates).push(said),
            _ => said_in(updates),
        },
        called_in(updates.push(update)) == match update {
            wire::Update::Call { id, title, .. } => called_in(updates).push((id, title)),
            _ => called_in(updates),
        },
{
    assert(updates.push(update).drop_last() =~= updates);
}

/// A question names the call it is about and the options that answer it, in the
/// order they are offered.
pub proof fn lemma_a_question_is_read_as_asked(
    params: Seq<char>,
    session: Seq<char>,
    call: Seq<char>,
    list: Seq<char>,
    named: Seq<char>,
    items: Seq<Seq<char>>,
)
    requires
        json::says(params, "sessionId"@, session),
        json::json_field(params, "toolCall"@) == Some(call),
        json::json_field(params, "options"@) == Some(list),
        json::says(call, "toolCallId"@, named),
        json::json_items(list) == Some(items),
    ensures
        options_of(items) matches Some(options) ==> question_of(params) == Some((named, options)),
        options_of(items) is None ==> question_of(params) is None,
{
}

/// An option is known by its id. The ids are read in the order of the options,
/// and an option without an id, a name or a kind leaves no list at all.
pub proof fn lemma_options_are_read_in_order(
    items: Seq<Seq<char>>,
    item: Seq<char>,
    id: Seq<char>,
    name: Seq<char>,
    kind: Seq<char>,
)
    ensures
        options_of(Seq::empty()) == Some(Seq::<Seq<char>>::empty()),
        json::says(item, "optionId"@, id) && json::says(item, "name"@, name) && json::says(
            item,
            "kind"@,
            kind,
        ) ==> option_of(item) == Some(id),
        json::json_items(item) is None && (json::json_field(item, "optionId"@) is None
            || json::json_field(item, "name"@) is None || json::json_field(item, "kind"@) is None)
            ==> option_of(item) is None,
        options_of(items.push(item)) == match (options_of(items), option_of(item)) {
            (Some(before), Some(option)) => Some(before.push(option)),
            _ => None,
        },
{
    assert(items.push(item).drop_last() =~= items);
}

/// A policy answers with its own option: allowing with `allow-once`, and refusing
/// with `reject-once`. Where that was not offered the question is cancelled. The
/// call asked about is remembered, once for each question, and nothing else is
/// changed by one.
pub proof fn lemma_a_policy_answers_for_itself(
    peer: Peer,
    params: Seq<char>,
    call: Seq<char>,
    options: Seq<Seq<char>>,
)
    requires
        question_of(params) == Some((call, options)),
    ensures
        ({
            let (after, answer) = peer.asked("session/request_permission"@, params);
            let own = if peer.policy is AllowOnce {
                "allow-once"@
            } else {
                "reject-once"@
            };
            &&& after == (Peer { answered: peer.answered.push(call), ..peer })
            &&& options.contains(own) ==> answer == Answers::Outcome(wire::Verdict::Selected(own))
            &&& !options.contains(own) ==> answer == Answers::Outcome(wire::Verdict::Cancelled)
        }),
{
}

/// Any other request is refused by its method's name, and a question that is not
/// one is refused as that; neither changes anything.
pub proof fn lemma_an_unknown_request_is_refused(
    peer: Peer,
    method: Seq<char>,
    params: Seq<char>,
)
    ensures
        method != "session/request_permission"@ ==> peer.asked(method, params) == (
            peer,
            Answers::Error(-32601, "no method `"@ + method + "`"@),
        ),
        question_of(params) is None ==> peer.asked("session/request_permission"@, params) == (
            peer,
            Answers::Error(-32602, "the question is not one"@),
        ),
{
}

/// A line is routed by what it carries. With a method and an id it is a request,
/// answered under that id. With a method alone it is news, and only news of a
/// session is heard. With neither it is passed over. None of the last two
/// changes anything.
pub proof fn lemma_a_line_is_routed_by_what_it_carries(
    peer: Peer,
    line: Seq<char>,
    method: Seq<char>,
    id: Seq<char>,
)
    ensures
        json::json_field(line, "method"@) is None && json::json_field(line, "id"@) is None
            ==> peer.routes(line) == (peer, Routed::Ignore),
        json::json_field(line, "method"@) is Some && json::json_field(line, "id"@) is None
            ==> peer.routes(line).0 == peer && (json::text_of(line, "method"@) != Some(
            "session/update"@,
        ) ==> peer.routes(line).1 is Ignore),
        json::text_of(line, "method"@) == Some(method) && json::json_field(line, "id"@) == Some(id)
            ==> peer.routes(line).1 == Routed::Answer(
            id,
            peer.asked(
                method,
                match json::json_field(line, "params"@) {
                    Some(params) => params,
                    None => "null"@,
                },
            ).1,
        ),
{
}

/// News of a session is heard as it is told: the session it names, and the update
/// it carries.
pub proof fn lemma_news_is_of_the_session_it_names(
    peer: Peer,
    line: Seq<char>,
    params: Seq<char>,
    session: Seq<char>,
    update: Seq<char>,
)
    requires
        json::json_field(line, "id"@) is None,
        json::text_of(line, "method"@) == Some("session/update"@),
        json::json_field(line, "params"@) == Some(params),
        json::says(params, "sessionId"@, session),
        json::json_field(params, "update"@) == Some(update),
    ensures
        peer.routes(line).1 == match update_of(update) {
            Some(update) => Routed::Update(session, update),
            None => Routed::Ignore,
        },
{
}

/// An answer reaches the call it is to and no other: one that carries the id of a
/// call that waits settles that call, with the result or the error it brings, and
/// an id that no call waits under settles none.
pub proof fn lemma_an_answer_reaches_its_call(
    peer: Peer,
    line: Seq<char>,
    id: Seq<char>,
    call: u64,
    payload: Result<Seq<char>, frame::Spelled>,
)
    requires
        json::json_field(line, "method"@) is None,
        json::json_field(line, "id"@) == Some(id),
        frame::message_of(line) == Some(frame::Heard::Response { id, payload }),
        json::json_text(id) == Some(call_id(call as nat)),
    ensures
        peer.pending.contains(call) ==> peer.routes(line) == (
            Peer { pending: peer.pending.remove(call), ..peer },
            Routed::Settle(call, payload),
        ),
        !peer.pending.contains(call) ==> peer.routes(line) == (peer, Routed::Ignore),
{
    assert forall|n: u64| #[trigger] peer.pending.contains(n) && call_id(n as nat) == call_id(
        call as nat,
    ) implies n == call by {
        if n != call {
            lemma_calls_differ(n as nat, call as nat);
        }
    }
}

/// Every call has a number of its own and waits under it: a call made is waited
/// for, beside those that were, and the next has the next number.
pub proof fn lemma_a_call_is_waited_for(peer: Peer, other: u64)
    requires
        peer.made < u64::MAX,
    ensures
        peer.calls().pending.contains(peer.made),
        other != peer.made ==> (peer.calls().pending.contains(other) <==> peer.pending.contains(
            other,
        )),
        peer.calls().made == peer.made + 1,
        peer.calls() == (Peer { made: peer.calls().made, pending: peer.calls().pending, ..peer }),
{
}

/// A new client waits for nothing, has been asked nothing, and gives a call two
/// minutes.
pub proof fn lemma_a_new_client_starts_afresh(policy: PermissionPolicy)
    ensures
        ({
            let peer = Peer::fresh(policy);
            &&& peer.policy == policy
            &&& peer.made == 0
            &&& peer.pending == Set::<u64>::empty()
            &&& peer.answered.len() == 0
            &&& !peer.closed
            &&& peer.timeout.secs == 120 && peer.timeout.nanos == 0
        }),
{
}

/// Closing lets every waiter go, and waits for the agent to leave as long as a
/// call may take but no longer than ten seconds, the first time, and not again.
pub proof fn lemma_closing_waits_ten_seconds_at_most(peer: Peer)
    ensures
        ({
            let (after, closing) = peer.closes();
            &&& after == (Peer { closed: true, pending: Set::empty(), ..peer })
            &&& peer.closed <==> closing is Done
            &&& closing matches Closing::Wait(longest) ==> {
                &&& peer.timeout.secs < 10 ==> longest == peer.timeout
                &&& peer.timeout.secs >= 10 ==> longest == (Elapsed { secs: 10, nanos: 0 })
            }
        }),
{
}

/// What went wrong is told with what it was: a refusal in the agent's own words
/// with its code, a call by its name with how long it was given, and a lost or
/// broken connection with the reason.
pub proof fn lemma_an_error_tells_what_it_was(error: ClientError)
    ensures
        match error {
            ClientError::Refused(refused) => error.words() == refused.message@ + " (code "@
                + fault::signed_dec(refused.code as int) + ")"@,
            ClientError::TimedOut { call, after } => error.words() == "`"@ + call@
                + "` did not answer within "@ + figures::spelled_of(after.secs, after.nanos),
            ClientError::Transport(why) => error.words() == "the agent is gone: "@ + why@,
            ClientError::Protocol(why) => error.words() == "the agent broke protocol: "@ + why@,
        },
{
}

/// Whatever is decoded of an update that carries the word of a status has that
/// very status, the progress of a call as well as the call itself.
pub proof fn lemma_what_is_decoded_keeps_its_status(
    value: &str,
    read: Option<SessionUpdate>,
    named: Seq<char>,
    titled: Seq<char>,
    told: ToolCallStatus,
)
    requires
        call_ensures(decode_update, (value,), read),
        json::says(value@, "toolCallId"@, named),
        json::says(value@, "status"@, written(told)),
    ensures
        json::says(value@, "sessionUpdate"@, "tool_call_update"@) && json::json_field(
            value@,
            "content"@,
        ) is None ==> (read matches Some(SessionUpdate::ToolCallUpdate {
            tool_call_id,
            status,
            content,
        }) && tool_call_id@ == named && status == told && content@.len() == 0),
        json::says(value@, "sessionUpdate"@, "tool_call_update"@) ==> (read matches Some(update)
            ==> update is ToolCallUpdate && update->ToolCallUpdate_status == told),
        json::says(value@, "sessionUpdate"@, "tool_call"@) && json::says(
            value@,
            "title"@,
            titled,
        ) ==> (read matches Some(SessionUpdate::ToolCall { tool_call_id, title, status, .. })
            && tool_call_id@ == named && title@ == titled && status == told),
{
    if json::says(value@, "sessionUpdate"@, "tool_call_update"@) {
        lemma_progress_reads_back(value@, named, told, Seq::empty());
        if json::json_field(value@, "content"@) is None {
            let pieces = read->0->ToolCallUpdate_content@.map_values(|c: ToolCallContent| c@);
            assert(pieces.len() == read->0->ToolCallUpdate_content@.len());
        }
    }
    if json::says(value@, "sessionUpdate"@, "tool_call"@) && json::says(value@, "title"@, titled) {
        lemma_a_call_reads_back(value@, named, titled, told);
    }
}

/// Whatever is decoded of the answer to a prompt is why the turn stopped, and of
/// the answer to a new session its id; without it the agent broke protocol.
pub proof fn lemma_what_is_decoded_of_an_answer(
    result: &str,
    settled: Result<PromptResponse, ClientError>,
    opened: Result<String, ClientError>,
    reason: StopReason,
    session: Seq<char>,
)
    requires
        call_ensures(decode_settled, (result,), settled),
        call_ensures(decode_session, (result,), opened),
    ensures
        json::says(result@, "stopReason"@, told(reason)) ==> (settled matches Ok(response)
            && response.stop_reason == reason),
        json::says(result@, "sessionId"@, session) ==> (opened matches Ok(id) && id@ == session),
        json::json_items(result@) is None && json::json_field(result@, "stopReason"@) is None ==> (
        settled matches Err(ClientError::Protocol(_))),
        json::json_items(result@) is None && json::json_field(result@, "sessionId"@) is None ==> (
        opened matches Err(ClientError::Protocol(_))),
{
    lemma_a_reason_reads_back(result@, reason, told(reason));
}

/// Whatever checking a directory hands back, it is taken exactly where it opens
/// with a slash.
pub proof fn lemma_a_checked_directory_is_absolute(cwd: &str, checked: Result<(), ClientError>)
    requires
        call_ensures(check_cwd, (cwd,), checked),
    ensures
        checked is Ok <==> cwd@.len() > 0 && cwd@[0] == '/',
        checked matches Err(error) ==> (error matches ClientError::Protocol(why) && why@
            == "`cwd` is an absolute path, and `"@ + cwd@ + "` is not"@),
{
}

/// Whatever a wait ends with is what came of it: the result, the refusal whole,
/// that the agent is gone, or that it took too long. Only a wait that took too
/// long leaves the call unwaited for, and nothing else of the client changes.
pub proof fn lemma_a_wait_ends_with_what_came(
    client: &mut AcpClient,
    call: u64,
    method: &str,
    waited: Waited,
    r: Result<String, ClientError>,
)
    requires
        call_ensures(AcpClient::waited, (client, call, method, waited), r),
    ensures
        waited matches Waited::Answered(Ok(result)) ==> (r matches Ok(said) && said == result),
        waited matches Waited::Answered(Err(error)) ==> (r matches Err(ClientError::Refused(told))
            && told == error),
        waited is Released ==> r matches Err(ClientError::Transport(_)),
        waited is Elapsed ==> (r matches Err(ClientError::TimedOut { call: named, after }) && named@
            == method@ && after == old(client)@.timeout),
        waited is Elapsed ==> final(client)@ == (Peer {
            pending: old(client)@.pending.remove(call),
            ..old(client)@
        }),
        !(waited is Elapsed) ==> final(client)@ == old(client)@,
{
}

/// An array that is longer than what it spells has members is none of it.
pub proof fn lemma_an_array_too_long_is_no_update(value: Seq<char>, items: Seq<Seq<char>>)
    requires
        json::json_items(value) == Some(items),
        items.len() > 0,
    ensures
        items.len() > 5 ==> update_of(value) is None,
        items.len() > 4 && json::json_text(items[0]) == Some("tool_call_update"@) ==> update_of(
            value,
        ) is None,
        items.len() > 2 && json::json_text(items[0]) == Some("agent_message_chunk"@) ==> update_of(
            value,
        ) is None,
        items.len() < 5 && json::json_text(items[0]) == Some("tool_call"@) ==> update_of(value)
            is None,
{
    lemma_updates_are_tagged_apart();
}

/// A question, its call, an option and an answer may each be written as an array,
/// its members in the order they are declared in and no longer than they are many.
pub proof fn lemma_a_question_reads_back_from_an_array(
    params: Seq<char>,
    items: Seq<Seq<char>>,
    session: Seq<char>,
    call: Seq<Seq<char>>,
    named: Seq<char>,
    list: Seq<Seq<char>>,
)
    requires
        json::json_items(params) == Some(items),
    ensures
        items.len() == 3 && json::json_text(items[0]) == Some(session) && json::json_items(items[1])
            == Some(call) && call.len() == 1 && json::json_text(call[0]) == Some(named)
            && json::json_items(items[2]) == Some(list) && options_of(list) is Some ==> question_of(
            params,
        ) == Some((named, options_of(list)->0)),
        items.len() == 3 && json::json_text(items[0]) == Some(session) && json::json_text(items[1])
            == Some(named) && json::json_text(items[2]) is Some ==> option_of(params) == Some(
            session,
        ),
        items.len() != 3 ==> question_of(params) is None && option_of(params) is None,
        items.len() != 1 ==> settled_of(params) is None,
{
}

/// An option written as an array is one only where its id, its name and its kind
/// are all strings; and news written as an array is news only where it is a session
/// and an update and no more.
pub proof fn lemma_every_member_of_an_array_counts(
    item: Seq<char>,
    items: Seq<Seq<char>>,
    line: Seq<char>,
)
    requires
        json::json_items(item) == Some(items),
    ensures
        items.len() == 3 && (json::json_text(items[0]) is None || json::json_text(items[1]) is None
            || json::json_text(items[2]) is None) ==> option_of(item) is None,
        json::json_field(line, "params"@) == Some(item) && items.len() != 2 ==> note_of(line)
            is Ignore,
        json::json_field(line, "params"@) == Some(item) && items.len() == 2 && json::json_text(
            items[0],
        ) is Some ==> note_of(line) == match update_of(items[1]) {
            Some(update) => Routed::Update(json::json_text(items[0])->0, update),
            None => Routed::Ignore,
        },
{
}

} // verus!
