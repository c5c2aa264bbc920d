//! The words of the protocol, as plain values. A document a peer sent is held
//! as its JSON text.
use vstd::prelude::*;
use vstd::string::*;

use crate::event;
use crate::json;
use crate::text::same;

verus! {

/// The major version this agent speaks.
///
/// A single-version agent: "answer with the client's version if you support
/// it, otherwise the latest you do" comes to this number either way.
pub const PROTOCOL_VERSION: u32 = 1;

/// The name this agent introduces itself with.
pub const AGENT_NAME: &'static str = "tetanus-acp";

pub const INITIALIZE: &'static str = "initialize";

pub const AUTHENTICATE: &'static str = "authenticate";

pub const SESSION_NEW: &'static str = "session/new";

/// Re-open a session this agent already has a journal for, replaying its
/// history to the client before answering.
pub const SESSION_LOAD: &'static str = "session/load";

pub const SESSION_PROMPT: &'static str = "session/prompt";

/// A notification, not a call: cancelling is one-way.
pub const SESSION_CANCEL: &'static str = "session/cancel";

/// A one-way notification carrying one [`SessionUpdate`].
pub const SESSION_UPDATE: &'static str = "session/update";

/// A request the client answers with an outcome.
pub const REQUEST_PERMISSION: &'static str = "session/request_permission";

/// The two choices this agent offers, and nothing else. One-shot only: a client
/// answering "always" would be setting a durable policy through a channel that
/// has no way to audit or revoke one.
pub const ALLOW_ONCE: &'static str = "allow-once";

pub const REJECT_ONCE: &'static str = "reject-once";

#[derive(Debug, Clone)]
pub struct InitializeRequest {
    pub protocol_version: u32,
    pub client_capabilities: Option<String>,
}

#[derive(Debug, Clone)]
pub struct InitializeResponse {
    pub protocol_version: u32,
    pub agent_info: AgentInfo,
    pub agent_capabilities: AgentCapabilities,
    /// Empty: no authentication method is advertised, which is what makes
    /// `authenticate` a no-op rather than a refusal.
    pub auth_methods: Vec<String>,
}

#[derive(Debug, Clone)]
pub struct AgentInfo {
    pub name: String,
    pub version: String,
}

#[derive(Debug, Clone, Copy, PartialEq, Eq, Structural)]
pub struct AgentCapabilities {
    /// Whether `session/load` is served. True here: the journal is the whole
    /// truth of a session and is already replayable.
    pub load_session: bool,
    pub prompt_capabilities: PromptCapabilities,
}

/// What a prompt may contain. Advertising a capability this agent cannot
/// honour would move the failure from `initialize`, where a client can adapt,
/// to the middle of a prompt.
#[derive(Debug, Clone, Copy, PartialEq, Eq, Structural)]
pub struct PromptCapabilities {
    pub image: bool,
    pub audio: bool,
    pub embedded_context: bool,
}

#[derive(Debug, Clone)]
pub struct NewSessionRequest {
    /// The workspace root, which has to be absolute.
    pub cwd: String,
    pub mcp_servers: Vec<String>,
}

#[derive(Debug, Clone)]
pub struct NewSessionResponse {
    pub session_id: String,
}

/// Re-open an existing session. What the client is really buying is the replay
/// that precedes the answer.
#[derive(Debug, Clone)]
pub struct LoadSessionRequest {
    pub session_id: String,
    /// The workspace root, which has to be absolute here too.
    pub cwd: String,
    pub mcp_servers: Vec<String>,
}

#[derive(Debug, Clone)]
pub struct PromptRequest {
    pub session_id: String,
    pub prompt: Vec<ContentBlock>,
}

#[derive(Debug, Clone, Copy, PartialEq, Eq, Structural)]
pub struct PromptResponse {
    pub stop_reason: StopReason,
}

#[derive(Debug, Clone)]
pub struct CancelNotification {
    pub session_id: String,
}

/// One block of a prompt, or of an agent message.
///
/// `Other` is the growth path: an agent that failed to read an unknown block
/// could not tell a client which kind it was refusing.
#[derive(Debug, Clone)]
pub enum ContentBlock {
    Text { text: String },
    Image { data: String, mime_type: String },
    Audio { data: String, mime_type: String },
    ResourceLink { name: String, uri: String },
    Resource { resource: String },
    Other(String),
}

/// One block, by what it says.
pub enum Block {
    Text(Seq<char>),
    Image(Seq<char>, Seq<char>),
    Audio(Seq<char>, Seq<char>),
    ResourceLink(Seq<char>, Seq<char>),
    Resource(Seq<char>),
    Other(Seq<char>),
}

impl View for ContentBlock {
    type V = Block;

    open spec fn view(&self) -> Block {
        match self {
            ContentBlock::Text { text } => Block::Text(text@),
            ContentBlock::Image { data, mime_type } => Block::Image(data@, mime_type@),
            ContentBlock::Audio { data, mime_type } => Block::Audio(data@, mime_type@),
            ContentBlock::ResourceLink { name, uri } => Block::ResourceLink(name@, uri@),
            ContentBlock::Resource { resource } => Block::Resource(resource@),
            ContentBlock::Other(value) => Block::Other(value@),
        }
    }
}

/// What a list of blocks says.
pub open spec fn blocks_of(blocks: Seq<ContentBlock>) -> Seq<Block> {
    blocks.map_values(|b: ContentBlock| b@)
}

impl Block {
    /// The word for the block when refusing it, given the type a block of no
    /// known kind says it is.
    pub open spec fn kind_with(self, named: Option<Seq<char>>) -> Seq<char> {
        match self {
            Block::Text(_) => "text"@,
            Block::Image(_, _) => "image"@,
            Block::Audio(_, _) => "audio"@,
            Block::ResourceLink(_, _) => "resource_link"@,
            Block::Resource(_) => "resource"@,
            Block::Other(_) => match named {
                Some(named) => named,
                None => "unknown"@,
            },
        }
    }

    /// The type a block of no known kind says it is.
    pub open spec fn named(self) -> Option<Seq<char>> {
        match self {
            Block::Other(value) => json::text_of(value, "type"@),
            _ => None,
        }
    }

    /// The word for the block when refusing it.
    pub open spec fn kind(self) -> Seq<char> {
        self.kind_with(self.named())
    }
}

/// The block a document a peer sent is. A block is tagged with its kind, by
/// the kind's word or by its place among the kinds, and is spelled as an
/// object or as a list of the tag and the members in their order. One that
/// fits no known kind is kept as it arrived.
pub open spec fn block_of(value: Seq<char>) -> Block {
    let tag = json::tag_of(value, "type"@);
    if json::names_kind(tag, "text"@, 0) {
        match json::word_of(value, "text"@, 1, 2) {
            Some(said) => Block::Text(said),
            None => Block::Other(value),
        }
    } else if json::names_kind(tag, "image"@, 1) {
        match (json::word_of(value, "data"@, 1, 3), json::word_of(value, "mimeType"@, 2, 3)) {
            (Some(data), Some(mime_type)) => Block::Image(data, mime_type),
            _ => Block::Other(value),
        }
    } else if json::names_kind(tag, "audio"@, 2) {
        match (json::word_of(value, "data"@, 1, 3), json::word_of(value, "mimeType"@, 2, 3)) {
            (Some(data), Some(mime_type)) => Block::Audio(data, mime_type),
            _ => Block::Other(value),
        }
    } else if json::names_kind(tag, "resource_link"@, 3) {
        match (json::word_of(value, "name"@, 1, 3), json::word_of(value, "uri"@, 2, 3)) {
            (Some(name), Some(uri)) => Block::ResourceLink(name, uri),
            _ => Block::Other(value),
        }
    } else if json::names_kind(tag, "resource"@, 4) {
        match json::member_of(value, "resource"@, 1, 2) {
            Some(resource) => Block::Resource(resource),
            None => Block::Other(value),
        }
    } else {
        Block::Other(value)
    }
}

fn is(word: &Option<String>, kind: &str) -> (r: bool)
    ensures
        r == (json::held(*word) == Some(kind@)),
{
    match word {
        Some(word) => same(word.as_str(), kind),
        None => false,
    }
}

impl ContentBlock {
    pub fn text(text: &str) -> (b: ContentBlock)
        ensures
            b@ == Block::Text(text@),
    {
        ContentBlock::Text { text: text.to_owned() }
    }

    /// The word this agent uses for the block when refusing it.
    pub fn kind(&self) -> (s: String)
        ensures
            s@ == self@.kind(),
    {
        match self {
            ContentBlock::Text { .. } => "text".to_owned(),
            ContentBlock::Image { .. } => "image".to_owned(),
            ContentBlock::Audio { .. } => "audio".to_owned(),
            ContentBlock::ResourceLink { .. } => "resource_link".to_owned(),
            ContentBlock::Resource { .. } => "resource".to_owned(),
            ContentBlock::Other(value) => match json::text_field(value.as_str(), "type") {
                Some(named) => named,
                None => "unknown".to_owned(),
            },
        }
    }

    /// The block a document a peer sent is.
    pub fn decode(value: &str) -> (b: ContentBlock)
        ensures
            b@ == block_of(value@),
    {
        let tag = json::tag(value, "type");
        if json::tagged(&tag, "text", 0) {
            match json::word(value, "text", 1, 2) {
                Some(text) => ContentBlock::Text { text },
                None => ContentBlock::Other(value.to_owned()),
            }
        } else if json::tagged(&tag, "image", 1) {
            match (json::word(value, "data", 1, 3), json::word(value, "mimeType", 2, 3)) {
                (Some(data), Some(mime_type)) => ContentBlock::Image { data, mime_type },
                _ => ContentBlock::Other(value.to_owned()),
            }
        } else if json::tagged(&tag, "audio", 2) {
            match (json::word(value, "data", 1, 3), json::word(value, "mimeType", 2, 3)) {
                (Some(data), Some(mime_type)) => ContentBlock::Audio { data, mime_type },
                _ => ContentBlock::Other(value.to_owned()),
            }
        } else if json::tagged(&tag, "resource_link", 3) {
            match (json::word(value, "name", 1, 3), json::word(value, "uri", 2, 3)) {
                (Some(name), Some(uri)) => ContentBlock::ResourceLink { name, uri },
                _ => ContentBlock::Other(value.to_owned()),
            }
        } else if json::tagged(&tag, "resource", 4) {
            match json::member(value, "resource", 1, 2) {
                Some(resource) => ContentBlock::Resource { resource },
                None => ContentBlock::Other(value.to_owned()),
            }
        } else {
            ContentBlock::Other(value.to_owned())
        }
    }
}

/// Why a prompt stopped, in the protocol's closed vocabulary.
#[derive(Debug, Clone, Copy, PartialEq, Eq, Structural)]
pub enum StopReason {
    EndTurn,
    MaxTokens,
    MaxTurnRequests,
    Refusal,
    Cancelled,
}

impl StopReason {
    /// The closest legal reason for one of the harness's.
    pub open spec fn closest(reason: event::Stop) -> StopReason {
        match reason {
            event::Stop::Natural => StopReason::EndTurn,
            event::Stop::MaxSteps => StopReason::MaxTurnRequests,
            event::Stop::Cancelled => StopReason::Cancelled,
            event::Stop::PreStepRejected => StopReason::EndTurn,
            event::Stop::Other(_) => StopReason::EndTurn,
        }
    }

    /// The closest legal reason for one of the harness's.
    ///
    /// A spent step budget is `max_turn_requests` and not `max_tokens`: what
    /// ran out was the driver's budget of model requests. Everything else that
    /// is not a cancellation is `end_turn`, a rejected step included: a
    /// refusal is the *model* declining, and reporting the harness's decision
    /// as one would put words in the model's mouth.
    pub fn of(reason: &event::StopReason) -> (r: StopReason)
        ensures
            r == StopReason::closest(reason@),
    {
        match reason {
            event::StopReason::Natural => StopReason::EndTurn,
            event::StopReason::MaxSteps => StopReason::MaxTurnRequests,
            event::StopReason::Cancelled => StopReason::Cancelled,
            event::StopReason::PreStepRejected => StopReason::EndTurn,
            event::StopReason::Other(_) => StopReason::EndTurn,
        }
    }
}

/// The harness never reports a model's refusal or a token cap, and reports a
/// cancellation only where there was one.
pub proof fn lemma_no_words_in_the_models_mouth(reason: event::Stop)
    ensures
        StopReason::closest(reason) != StopReason::Refusal,
        StopReason::closest(reason) != StopReason::MaxTokens,
        StopReason::closest(reason) == StopReason::Cancelled <==> reason is Cancelled,
{
}

/// The payload of an update notification.
#[derive(Debug, Clone)]
pub struct SessionNotification {
    pub session_id: String,
    pub update: SessionUpdate,
}

/// One thing that happened, in the protocol's words.
#[derive(Debug, Clone)]
pub enum SessionUpdate {
    AgentMessageChunk { content: ContentBlock },
    ToolCall {
        tool_call_id: String,
        title: String,
        status: ToolCallStatus,
        raw_input: Option<String>,
    },
    ToolCallUpdate {
        tool_call_id: String,
        status: ToolCallStatus,
        content: Vec<ToolCallContent>,
    },
}

/// One thing that happened, by what it says.
pub enum Update {
    Message(Block),
    Call {
        id: Seq<char>,
        title: Seq<char>,
        status: ToolCallStatus,
        raw_input: Option<Seq<char>>,
    },
    Progress { id: Seq<char>, status: ToolCallStatus, content: Seq<Block> },
}

impl View for SessionUpdate {
    type V = Update;

    open spec fn view(&self) -> Update {
        match self {
            SessionUpdate::AgentMessageChunk { content } => Update::Message(content@),
            SessionUpdate::ToolCall { tool_call_id, title, status, raw_input } => Update::Call {
                id: tool_call_id@,
                title: title@,
                status: *status,
                raw_input: json::held(*raw_input),
            },
            SessionUpdate::ToolCallUpdate { tool_call_id, status, content } => Update::Progress {
                id: tool_call_id@,
                status: *status,
                content: content@.map_values(|c: ToolCallContent| c@),
            },
        }
    }
}

/// What a list of updates says.
pub open spec fn updates_view(updates: Seq<SessionUpdate>) -> Seq<Update> {
    updates.map_values(|u: SessionUpdate| u@)
}

/// An update added at the end is the last thing said.
pub broadcast proof fn updates_push(updates: Seq<SessionUpdate>, update: SessionUpdate)
    ensures
        #[trigger] updates_view(updates.push(update)) == updates_view(updates).push(update@),
{
    assert(updates_view(updates.push(update)) =~= updates_view(updates).push(update@));
}

/// No updates say nothing.
pub broadcast proof fn updates_empty()
    ensures
        #[trigger] updates_view(Seq::<SessionUpdate>::empty()) == Seq::<Update>::empty(),
{
    assert(updates_view(Seq::<SessionUpdate>::empty()) =~= Seq::<Update>::empty());
}

pub broadcast group group_updates {
    updates_push,
    updates_empty,
}

#[derive(Debug, Clone, Copy, PartialEq, Eq, Structural)]
pub enum ToolCallStatus {
    Pending,
    InProgress,
    Completed,
    Failed,
}

#[derive(Debug, Clone)]
pub enum ToolCallContent {
    Content { content: ContentBlock },
}

impl View for ToolCallContent {
    type V = Block;

    open spec fn view(&self) -> Block {
        match self {
            ToolCallContent::Content { content } => content@,
        }
    }
}

/// What the agent asks the client's permission for.
#[derive(Debug, Clone)]
pub struct RequestPermissionRequest {
    pub session_id: String,
    pub tool_call: PermissionToolCall,
    pub options: Vec<PermissionOption>,
}

#[derive(Debug, Clone)]
pub struct PermissionToolCall {
    pub tool_call_id: String,
}

#[derive(Debug, Clone)]
pub struct PermissionOption {
    pub option_id: String,
    pub name: String,
    pub kind: String,
}

impl View for PermissionOption {
    type V = (Seq<char>, Seq<char>, Seq<char>);

    open spec fn view(&self) -> (Seq<char>, Seq<char>, Seq<char>) {
        (self.option_id@, self.name@, self.kind@)
    }
}

#[derive(Debug, Clone)]
pub struct RequestPermissionResponse {
    pub outcome: PermissionOutcome,
}

/// How the client answered. `Selected` names one of the offered options;
/// `Cancelled` is the client withdrawing the question.
#[derive(Debug, Clone)]
pub enum PermissionOutcome {
    Cancelled,
    Selected { option_id: String },
}

/// How the client answered, by what it says.
pub enum Verdict {
    Cancelled,
    Selected(Seq<char>),
}

impl View for PermissionOutcome {
    type V = Verdict;

    open spec fn view(&self) -> Verdict {
        match self {
            PermissionOutcome::Cancelled => Verdict::Cancelled,
            PermissionOutcome::Selected { option_id } => Verdict::Selected(option_id@),
        }
    }
}

/// The outcome an answer to a permission question carries, when it carries
/// one. An outcome is tagged with its kind, and is spelled as an object or as
/// a list of the tag and the members.
pub open spec fn verdict_of(result: Seq<char>) -> Option<Verdict> {
    match json::member_of(result, "outcome"@, 0, 1) {
        Some(outcome) => {
            let word = json::tag_word_of(outcome, "outcome"@);
            if word == Some("cancelled"@) {
                if json::is_record(outcome, 1) {
                    Some(Verdict::Cancelled)
                } else {
                    None
                }
            } else if word == Some("selected"@) {
                match json::word_of(outcome, "optionId"@, 1, 2) {
                    Some(option) => Some(Verdict::Selected(option)),
                    None => None,
                }
            } else {
                None
            }
        },
        None => None,
    }
}

impl RequestPermissionResponse {
    /// The outcome an answer to a permission question carries, when it carries
    /// one.
    pub fn decode(result: &str) -> (r: Option<RequestPermissionResponse>)
        ensures
            (match r {
                Some(response) => Some(response.outcome@),
                None => None,
            }) == verdict_of(result@),
    {
        let outcome = match json::member(result, "outcome", 0, 1) {
            Some(outcome) => outcome,
            None => {
                return None;
            },
        };
        let word = json::tag_word(outcome.as_str(), "outcome");
        if is(&word, "cancelled") {
            if json::record(outcome.as_str(), 1) {
                Some(RequestPermissionResponse { outcome: PermissionOutcome::Cancelled })
            } else {
                None
            }
        } else if is(&word, "selected") {
            match json::word(outcome.as_str(), "optionId", 1, 2) {
                Some(option_id) => Some(
                    RequestPermissionResponse {
                        outcome: PermissionOutcome::Selected { option_id },
                    },
                ),
                None => None,
            }
        } else {
            None
        }
    }
}

/// A block is read back as what its type says it is, with what its own members
/// spell: text as text, an image and audio with their data and their type, a
/// link with its name and where it leads, an embedded resource as it stands.
pub proof fn lemma_a_block_is_read_by_its_type(
    value: Seq<char>,
    one: Seq<char>,
    other: Seq<char>,
    resource: Seq<char>,
)
    ensures
        json::says(value, "type"@, "text"@) && json::says(value, "text"@, one) && unnumbered(value)
            ==> block_of(value) == Block::Text(one),
        json::says(value, "type"@, "image"@) && json::says(value, "data"@, one) && json::says(
            value,
            "mimeType"@,
            other,
        ) && unnumbered(value) ==> block_of(value) == Block::Image(one, other),
        json::says(value, "type"@, "audio"@) && json::says(value, "data"@, one) && json::says(
            value,
            "mimeType"@,
            other,
        ) && unnumbered(value) ==> block_of(value) == Block::Audio(one, other),
        json::says(value, "type"@, "resource_link"@) && json::says(value, "name"@, one)
            && json::says(value, "uri"@, other) && unnumbered(value) ==> block_of(value)
            == Block::ResourceLink(one, other),
        json::says(value, "type"@, "resource"@) && json::json_field(value, "resource"@) == Some(
            resource,
        ) && unnumbered(value) ==> block_of(value) == Block::Resource(resource),
{
    lemma_kinds_differ();
}

/// Whether the type of a block is not spelled as a number.
pub open spec fn unnumbered(value: Seq<char>) -> bool {
    json::json_field(value, "type"@) matches Some(tag) && json::json_number(tag) is None
}

proof fn lemma_kinds_differ()
    ensures
        "text"@ != "image"@,
        "text"@ != "audio"@,
        "text"@ != "resource_link"@,
        "text"@ != "resource"@,
        "image"@ != "audio"@,
        "image"@ != "resource_link"@,
        "image"@ != "resource"@,
        "audio"@ != "resource_link"@,
        "audio"@ != "resource"@,
        "resource_link"@ != "resource"@,
{
    reveal_strlit("text");
    reveal_strlit("image");
    reveal_strlit("audio");
    reveal_strlit("resource_link");
    reveal_strlit("resource");
    assert("image"@[0] != "audio"@[0]);
    assert("text"@[0] != "audio"@[0]);
    assert("resource_link"@.len() != "resource"@.len());
}

/// A block that is not one of the known kinds, whole, is kept as it stands, and
/// none that is known is.
pub proof fn lemma_an_unknown_block_is_kept(value: Seq<char>, kept: Seq<char>)
    ensures
        block_of(value) == Block::Other(kept) ==> kept == value,
        json::tag_of(value, "type"@) is None ==> block_of(value) == Block::Other(value),
        json::tag_word_of(value, "type"@) matches Some(word) && word != "text"@ && word
            != "image"@ && word != "audio"@ && word != "resource_link"@ && word != "resource"@ && (
        json::tag_of(value, "type"@) matches Some(tag) && json::json_number(tag) is None)
            ==> block_of(value) == Block::Other(value),
{
}

/// The kind of a block is the word its type is written with, each kind its own.
pub proof fn lemma_each_kind_has_its_own_word(block: Block)
    ensures
        block is Text ==> block.kind() == "text"@,
        block is Image ==> block.kind() == "image"@,
        block is Audio ==> block.kind() == "audio"@,
        block is ResourceLink ==> block.kind() == "resource_link"@,
        block is Resource ==> block.kind() == "resource"@,
        block matches Block::Other(value) ==> block.kind() == match json::text_of(
            value,
            "type"@,
        ) {
            Some(named) => named,
            None => "unknown"@,
        },
{
}

/// The answer to a question of permission is read as it was given: the option it
/// names where one was selected, and a cancellation where it was cancelled.
pub proof fn lemma_a_verdict_is_read_as_given(
    result: Seq<char>,
    outcome: Seq<char>,
    option: Seq<char>,
)
    requires
        json::json_items(result) is None,
        json::json_field(result, "outcome"@) == Some(outcome),
    ensures
        json::says(outcome, "outcome"@, "selected"@) && json::says(outcome, "optionId"@, option)
            ==> verdict_of(result) == Some(Verdict::Selected(option)),
        json::says(outcome, "outcome"@, "cancelled"@) && json::json_names(outcome) is Some
            ==> verdict_of(result) == Some(Verdict::Cancelled),
        verdict_of(result) == Some(Verdict::Cancelled) ==> json::tag_word_of(outcome, "outcome"@)
            == Some("cancelled"@),
        verdict_of(result) matches Some(Verdict::Selected(chosen)) ==> json::tag_word_of(
            outcome,
            "outcome"@,
        ) == Some("selected"@) && json::word_of(outcome, "optionId"@, 1, 2) == Some(chosen),
{
    reveal_strlit("selected");
    reveal_strlit("cancelled");
    assert("selected"@[0] != "cancelled"@[0]);
}

/// Why a turn stopped crosses as the nearest reason there is: a spent step budget
/// as too many requests, a cancelled turn as cancelled, and everything else as
/// the turn's own end.
pub proof fn lemma_a_stop_crosses_as_the_nearest_reason(reason: event::Stop)
    ensures
        StopReason::closest(reason) == StopReason::MaxTurnRequests <==> reason is MaxSteps,
        StopReason::closest(reason) == StopReason::Cancelled <==> reason is Cancelled,
        StopReason::closest(reason) == StopReason::EndTurn <==> !(reason is MaxSteps) && !(
        reason is Cancelled),
{
}

/// A block may be written as an array, its type first and its members in the order
/// they are declared in; one that is longer than it has members is kept as it
/// stands.
pub proof fn lemma_a_block_is_read_from_an_array(
    value: Seq<char>,
    items: Seq<Seq<char>>,
    one: Seq<char>,
    other: Seq<char>,
)
    requires
        json::json_items(value) == Some(items),
        items.len() > 0,
        json::json_number(items[0]) is None,
    ensures
        items.len() == 2 && json::json_text(items[0]) == Some("text"@) && json::json_text(items[1])
            == Some(one) ==> block_of(value) == Block::Text(one),
        items.len() == 2 && json::json_text(items[0]) == Some("resource"@) ==> block_of(value)
            == Block::Resource(items[1]),
        items.len() == 3 && json::json_text(items[1]) == Some(one) && json::json_text(items[2])
            == Some(other) ==> {
            &&& json::json_text(items[0]) == Some("image"@) ==> block_of(value) == Block::Image(
                one,
                other,
            )
            &&& json::json_text(items[0]) == Some("audio"@) ==> block_of(value) == Block::Audio(
                one,
                other,
            )
            &&& json::json_text(items[0]) == Some("resource_link"@) ==> block_of(value)
                == Block::ResourceLink(one, other)
        },
        items.len() > 3 ==> block_of(value) == Block::Other(value),
        items.len() == 3 && (json::json_text(items[0]) == Some("text"@) || json::json_text(items[0])
            == Some("resource"@)) ==> block_of(value) == Block::Other(value),
{
    lemma_kinds_differ();
}

/// A kind may be written by its number, which is its place among the kinds.
pub proof fn lemma_a_kind_may_be_written_by_its_number(
    value: Seq<char>,
    one: Seq<char>,
    other: Seq<char>,
    tag: Seq<char>,
)
    requires
        json::json_items(value) is None,
        json::json_field(value, "type"@) == Some(tag),
        json::json_text(tag) is None,
    ensures
        json::json_number(tag) == Some(0u64) && json::says(value, "text"@, one) ==> block_of(value)
            == Block::Text(one),
        json::json_number(tag) == Some(1u64) && json::says(value, "data"@, one) && json::says(
            value,
            "mimeType"@,
            other,
        ) ==> block_of(value) == Block::Image(one, other),
        json::json_number(tag) == Some(2u64) && json::says(value, "data"@, one) && json::says(
            value,
            "mimeType"@,
            other,
        ) ==> block_of(value) == Block::Audio(one, other),
        json::json_number(tag) == Some(3u64) && json::says(value, "name"@, one) && json::says(
            value,
            "uri"@,
            other,
        ) ==> block_of(value) == Block::ResourceLink(one, other),
        json::json_number(tag) == Some(4u64) && json::json_field(value, "resource"@) == Some(one)
            ==> block_of(value) == Block::Resource(one),
{
}

/// A verdict may be written as an array, and then as one in an array of its own.
pub proof fn lemma_a_verdict_is_read_from_an_array(
    result: Seq<char>,
    outer: Seq<Seq<char>>,
    inner: Seq<Seq<char>>,
    option: Seq<char>,
)
    requires
        json::json_items(result) == Some(outer),
    ensures
        outer.len() == 1 && json::json_items(outer[0]) == Some(inner) && inner.len() == 2
            && json::json_text(inner[0]) == Some("selected"@) && json::json_text(inner[1]) == Some(
            option,
        ) ==> verdict_of(result) == Some(Verdict::Selected(option)),
        outer.len() == 1 && json::json_names(outer[0]) is None && json::json_items(outer[0])
            == Some(inner) && inner.len() == 1 && json::json_text(inner[0]) == Some("cancelled"@)
            ==> verdict_of(result) == Some(Verdict::Cancelled),
        outer.len() != 1 ==> verdict_of(result) is None,
{
    reveal_strlit("selected");
    reveal_strlit("cancelled");
    assert("selected"@[0] != "cancelled"@[0]);
}

} // verus!
