//! The agent half: one connection, and what it decides.
//!
//! A frame goes in and a [`Step`] comes out: an answer to write, or work for
//! the engine whose outcome is handed back to the method the step names. The
//! state between them is the connection's: whether it was initialized, which
//! sessions it opened and may therefore prompt, which of those has its one
//! prompt slot taken, and which questions of its own are still unanswered.
use vstd::prelude::*;
use vstd::string::*;

use crate::acp::content;
use crate::acp::content::accept;
use crate::acp::frame;
use crate::acp::frame::{Message, WireError};
use crate::acp::updates;
use crate::acp::wire;
use crate::acp::wire::{
    AgentCapabilities, AgentInfo, ContentBlock, InitializeResponse, NewSessionResponse,
    PermissionOption, PermissionOutcome, PermissionToolCall, PromptCapabilities, PromptResponse,
    RequestPermissionRequest, RequestPermissionResponse, SessionUpdate, StopReason, AGENT_NAME,
    ALLOW_ONCE, AUTHENTICATE, INITIALIZE, PROTOCOL_VERSION, REJECT_ONCE, SESSION_CANCEL,
    SESSION_LOAD, SESSION_NEW, SESSION_PROMPT,
};
use crate::event;
use crate::event::SessionEvent;
use crate::json;
use crate::rpc;
use crate::rpc::{ErrorCode, RpcError};
use crate::text;
use crate::text::{decimal, same};

verus! {

/// The version this agent introduces itself with.
pub const VERSION: &'static str = "0.1.0";

/// What a connection remembers of one session.
#[derive(Debug, Clone, Copy, PartialEq, Eq, Structural)]
pub struct Slot {
    /// True while a prompt is being served. One at a time per session: a
    /// second would race the first for the session's turn and lose with an
    /// error the client cannot interpret.
    pub inflight: bool,
    /// Set by a cancellation. Read when the prompt settles, because
    /// cancelling is asynchronous with the turn and the turn may finish first.
    pub cancelled: bool,
}

struct Record {
    id: String,
    slot: Slot,
}

/// The sessions a connection opened, by id.
spec fn table(records: Seq<Record>) -> Map<Seq<char>, Slot>
    decreases records.len(),
{
    if records.len() == 0 {
        Map::empty()
    } else {
        table(records.drop_last()).insert(records.last().id@, records.last().slot)
    }
}

/// Whether no two sessions share an id.
spec fn distinct(records: Seq<Record>) -> bool {
    forall|i: int, j: int|
        0 <= i < j < records.len() ==> (#[trigger] records[i]).id@ != (#[trigger] records[j]).id@
}

proof fn lemma_table(records: Seq<Record>)
    requires
        distinct(records),
    ensures
        forall|i: int|
            0 <= i < records.len() ==> table(records).contains_key((#[trigger] records[i]).id@)
                && table(records)[records[i].id@] == records[i].slot,
        forall|id: Seq<char>| #[trigger]
            table(records).contains_key(id) ==> exists|i: int|
                0 <= i < records.len() && (#[trigger] records[i]).id@ == id,
    decreases records.len(),
{
    if records.len() > 0 {
        let before = records.drop_last();
        assert(distinct(before));
        lemma_table(before);
        assert forall|i: int| 0 <= i < records.len() implies table(records).contains_key(
            (#[trigger] records[i]).id@,
        ) && table(records)[records[i].id@] == records[i].slot by {
            if i < records.len() - 1 {
                assert(before[i] == records[i]);
                assert(records[i].id@ != records[records.len() - 1].id@);
            }
        }
        assert forall|id: Seq<char>| #[trigger] table(records).contains_key(id) implies exists|
            i: int,
        | 0 <= i < records.len() && (#[trigger] records[i]).id@ == id by {
            if id != records.last().id@ {
                assert(table(before).contains_key(id));
                let i = choose|i: int| 0 <= i < before.len() && (#[trigger] before[i]).id@ == id;
                assert(records[i].id@ == id);
            } else {
                assert(records[records.len() - 1].id@ == id);
            }
        }
    }
}

proof fn lemma_table_update(records: Seq<Record>, at: int, record: Record)
    requires
        distinct(records),
        0 <= at < records.len(),
        records[at].id@ == record.id@,
    ensures
        distinct(records.update(at, record)),
        table(records.update(at, record)) == table(records).insert(record.id@, record.slot),
    decreases records.len(),
{
    let after = records.update(at, record);
    assert forall|i: int, j: int| 0 <= i < j < after.len() implies (#[trigger] after[i]).id@ != (
    #[trigger] after[j]).id@ by {
        assert(records[i].id@ != records[j].id@);
    }
    let last = records.len() - 1;
    if at == last {
        assert(after.drop_last() =~= records.drop_last());
        assert(table(after) =~= table(records).insert(record.id@, record.slot));
    } else {
        assert(distinct(records.drop_last()));
        lemma_table_update(records.drop_last(), at, record);
        assert(after.drop_last() =~= records.drop_last().update(at, record));
        assert(records[at].id@ != records[last].id@);
        assert(table(after) =~= table(records).insert(record.id@, record.slot));
    }
}

/// A question's id, by the number it was asked under. Prefixed, so that an id
/// this side mints can never collide with one the client is using.
pub open spec fn question(n: nat) -> Seq<char> {
    "tetanus-acp-"@ + text::dec(n)
}

/// No two questions share an id.
pub proof fn lemma_questions_differ(m: nat, n: nat)
    requires
        m != n,
    ensures
        question(m) != question(n),
{
    text::lemma_dec_injective(m, n);
    let p = "tetanus-acp-"@;
    assert(question(m).skip(p.len() as int) =~= text::dec(m));
    assert(question(n).skip(p.len() as int) =~= text::dec(n));
}

/// Whether every one of these ids was minted under a number below `asked`.
spec fn minted(ids: Seq<Seq<char>>, asked: u64) -> bool {
    forall|i: int|
        0 <= i < ids.len() ==> exists|n: nat| n < asked && #[trigger] ids[i] == #[trigger] question(
            n,
        )
}

/// What a connection remembers, by what it says.
pub struct Link {
    pub initialized: bool,
    pub closed: bool,
    pub sessions: Map<Seq<char>, Slot>,
    /// The questions of its own still unanswered.
    pub waiting: Set<Seq<char>>,
    /// How many questions it has asked.
    pub asked: u64,
}

/// An answer that needs no work of the engine.
#[derive(Debug)]
pub enum Answer {
    Initialized(InitializeResponse),
    Authenticated,
    Refused(RpcError),
}

/// What a connection does about a frame.
#[derive(Debug)]
pub enum Step {
    /// Nothing goes back.
    Silent,
    /// Write this answer.
    Answer { id: String, answer: Answer },
    /// Ask the engine to stop this session's turn. Nothing goes back.
    Interrupt { session_id: String },
    /// Release the question waiting on this id.
    Release { waiter: String, answered: Result<String, WireError> },
    /// Create a session, and answer with what [`AcpBridge::created`] says.
    Create { id: String },
    /// Read a session's journal, and answer with what [`AcpBridge::loaded`]
    /// says.
    Load { id: String, session_id: String },
    /// Run a turn, and answer with what [`AcpBridge::settled`] says. The
    /// session's slot is taken.
    Prompt { id: String, session_id: String, content: String },
}

/// An answer, by what it says.
pub enum Reply {
    Initialized,
    Authenticated,
    Refused(rpc::Failure),
}

/// What a connection does about a frame, by what it says.
pub enum Move {
    Silent,
    Answer(Seq<char>, Reply),
    Interrupt(Seq<char>),
    Release(Seq<char>, Result<Seq<char>, frame::Spelled>),
    Create(Seq<char>),
    Load(Seq<char>, Seq<char>),
    Prompt(Seq<char>, Seq<char>, Seq<char>),
}

/// The one way this agent introduces itself.
pub open spec fn introduces(r: InitializeResponse) -> bool {
    &&& r.protocol_version == PROTOCOL_VERSION
    &&& r.agent_info.name@ == AGENT_NAME@
    &&& r.agent_info.version@ == VERSION@
    &&& r.agent_capabilities.load_session
    &&& r.agent_capabilities.prompt_capabilities == (PromptCapabilities {
        image: false,
        audio: false,
        embedded_context: false,
    })
    &&& r.auth_methods@.len() == 0
}

impl Answer {
    /// Whether an answer says this.
    pub open spec fn says(self, reply: Reply) -> bool {
        match (self, reply) {
            (Answer::Initialized(response), Reply::Initialized) => introduces(response),
            (Answer::Authenticated, Reply::Authenticated) => true,
            (Answer::Refused(error), Reply::Refused(failure)) => error@ == failure,
            _ => false,
        }
    }
}

impl Step {
    /// Whether a step does this.
    pub open spec fn does(self, act: Move) -> bool {
        match (self, act) {
            (Step::Silent, Move::Silent) => true,
            (Step::Answer { id, answer }, Move::Answer(to, reply)) => id@ == to && answer.says(
                reply,
            ),
            (Step::Interrupt { session_id }, Move::Interrupt(session)) => session_id@ == session,
            (Step::Release { waiter, answered }, Move::Release(id, payload)) => waiter@ == id
                && frame::payload_view(answered) == payload,
            (Step::Create { id }, Move::Create(to)) => id@ == to,
            (Step::Load { id, session_id }, Move::Load(to, session)) => id@ == to && session_id@
                == session,
            (Step::Prompt { id, session_id, content }, Move::Prompt(to, session, said)) => id@
                == to && session_id@ == session && content@ == said,
            _ => false,
        }
    }
}

/// The refusal of a parameter that is not what the call takes.
pub open spec fn bad_param(said: Seq<char>, name: Seq<char>) -> rpc::Failure {
    rpc::Failure::about(ErrorCode::InvalidParams, said, "field"@, name)
}

/// Whether a path starts at the root.
pub open spec fn absolute_of(path: Seq<char>) -> bool {
    path.len() > 0 && path[0] == '/'
}

/// The refusal of parameters that do not spell what a call takes. It is about
/// the whole of them, so it names no field.
pub open spec fn unread(said: Seq<char>) -> rpc::Failure {
    rpc::Failure::of(ErrorCode::InvalidParams, said)
}

/// The directory a call names, at its place among so many parameters, and
/// nothing where it names none. `None` where what it names is no string.
pub open spec fn cwd_of(params: Seq<char>, place: nat, count: nat) -> Option<Seq<char>> {
    match json::member_of(params, "cwd"@, place, count) {
        Some(member) => json::json_text(member),
        None => Some(Seq::empty()),
    }
}

/// The servers a call names, at their place among so many parameters. `None`
/// where what it names is no list.
pub open spec fn servers_of(params: Seq<char>, place: nat, count: nat) -> Option<Seq<Seq<char>>> {
    match json::member_of(params, "mcpServers"@, place, count) {
        Some(list) => json::json_items(list),
        None => Some(Seq::empty()),
    }
}

/// What a client asked to be opened where, or the refusal of it. The directory
/// stands at `place` among `count` parameters, and the servers after it. A
/// relative directory resolves against this process's own, which is not the
/// one the client meant, and the mistake is invisible until a tool reads the
/// wrong file.
pub open spec fn place_of(params: Seq<char>, place: nat, count: nat) -> Result<(), rpc::Failure> {
    let cwd = cwd_of(params, place, count);
    let mounted = servers_of(params, place + 1, count);
    if !json::is_record(params, count) {
        Err(unread("the parameters are no object"@))
    } else if cwd is None {
        Err(unread("`cwd` is a string"@))
    } else if mounted is None {
        Err(unread("`mcpServers` is a list"@))
    } else if !absolute_of(cwd->0) {
        Err(bad_param("`cwd` is an absolute path"@, "cwd"@))
    } else if mounted->0.len() > 0 {
        Err(bad_param("this agent mounts no MCP servers"@, "mcpServers"@))
    } else {
        Ok(())
    }
}

/// Why what a client says of itself cannot be read. The version it speaks is a
/// number where it says one.
pub open spec fn unversioned(params: Seq<char>) -> Option<rpc::Failure> {
    if !json::is_record(params, 2) {
        Some(unread("the parameters are no object"@))
    } else {
        match json::member_of(params, "protocolVersion"@, 0, 2) {
            Some(member) => if json::json_number(member) matches Some(n) && n <= u32::MAX {
                None
            } else {
                Some(unread("`protocolVersion` is a number"@))
            },
            None => None,
        }
    }
}

/// The blocks of a prompt, when it is a list of them.
pub open spec fn prompt_of(params: Seq<char>) -> Option<Seq<wire::Block>> {
    match json::member_of(params, "prompt"@, 1, 2) {
        Some(list) => match json::json_items(list) {
            Some(items) => Some(items.map_values(|item: Seq<char>| wire::block_of(item))),
            None => None,
        },
        None => Some(Seq::empty()),
    }
}

/// The refusal of a method this agent does not have.
pub open spec fn no_method(method: Seq<char>) -> rpc::Failure {
    rpc::Failure::about(
        ErrorCode::MethodNotFound,
        "no method `"@ + method + "`"@,
        "method"@,
        method,
    )
}

impl Link {
    /// A connection nothing has been said on.
    pub open spec fn fresh() -> Link {
        Link {
            initialized: false,
            closed: false,
            sessions: Map::empty(),
            waiting: Set::empty(),
            asked: 0,
        }
    }

    /// Why a call other than the first cannot be served yet, or any more.
    pub open spec fn unready(self) -> Option<rpc::Failure> {
        if self.closed {
            Some(
                rpc::Failure::of(ErrorCode::Internal, "this ACP bridge has been shut down"@),
            )
        } else if !self.initialized {
            Some(
                rpc::Failure::of(
                    ErrorCode::InvalidRequest,
                    "`initialize` is the first call on a connection"@,
                ),
            )
        } else {
            None
        }
    }

    /// Why a session's prompt slot cannot be taken.
    pub open spec fn unclaimable(self, session: Seq<char>) -> Option<rpc::Failure> {
        if !self.sessions.contains_key(session) {
            Some(bad_param("unknown session: "@ + session, "sessionId"@))
        } else if self.sessions[session].inflight {
            Some(
                rpc::Failure::of(
                    ErrorCode::InvalidParams,
                    "a prompt is already in flight for this session"@,
                ),
            )
        } else {
            None
        }
    }

    /// The connection with a session in this state.
    pub open spec fn with(self, session: Seq<char>, slot: Slot) -> Link {
        Link { sessions: self.sessions.insert(session, slot), ..self }
    }

    /// What a call is answered with, and what the connection remembers.
    pub open spec fn called(
        self,
        id: Seq<char>,
        method: Seq<char>,
        params: Seq<char>,
    ) -> (Link, Move) {
        if method == INITIALIZE@ {
            match unversioned(params) {
                None => (
                    Link { initialized: true, ..self },
                    Move::Answer(id, Reply::Initialized),
                ),
                Some(failure) => (self, Move::Answer(id, Reply::Refused(failure))),
            }
        } else if self.unready() is Some {
            (self, Move::Answer(id, Reply::Refused(self.unready()->0)))
        } else if method == AUTHENTICATE@ {
            (self, Move::Answer(id, Reply::Authenticated))
        } else if method == SESSION_NEW@ {
            match place_of(params, 0, 2) {
                Ok(_) => (self, Move::Create(id)),
                Err(failure) => (self, Move::Answer(id, Reply::Refused(failure))),
            }
        } else if method == SESSION_LOAD@ && named_session(params) is Some {
            match place_of(params, 1, 3) {
                Ok(_) => (self, Move::Load(id, named_session(params)->0)),
                Err(failure) => (self, Move::Answer(id, Reply::Refused(failure))),
            }
        } else if method == SESSION_PROMPT@ {
            self.prompted(id, params)
        } else {
            (self, Move::Answer(id, Reply::Refused(no_method(method))))
        }
    }

    /// What a prompt is answered with, and what the connection remembers.
    pub open spec fn prompted(self, id: Seq<char>, params: Seq<char>) -> (Link, Move) {
        match (json::word_of(params, "sessionId"@, 0, 2), prompt_of(params)) {
            (None, _) => (
                self,
                Move::Answer(id, Reply::Refused(unread("`sessionId` is a string"@))),
            ),
            (Some(_), None) => (
                self,
                Move::Answer(id, Reply::Refused(unread("`prompt` is a list of blocks"@))),
            ),
            (Some(session), Some(blocks)) => match content::admission(blocks) {
                Err(fault) => (self, Move::Answer(id, Reply::Refused(fault.refused()))),
                Ok(said) => match self.unclaimable(session) {
                    Some(failure) => (self, Move::Answer(id, Reply::Refused(failure))),
                    None => (
                        self.with(session, Slot { inflight: true, cancelled: false }),
                        Move::Prompt(id, session, said),
                    ),
                },
            },
        }
    }

    /// What one message is answered with, and what the connection remembers.
    pub open spec fn heard(self, message: frame::Heard) -> (Link, Move) {
        match message {
            frame::Heard::Request { id, method, params } => self.called(id, method, params),
            frame::Heard::Notification { method, params } => {
                let session = json::word_of(params, "sessionId"@, 0, 1);
                if method == SESSION_CANCEL@ && session is Some && self.sessions.contains_key(
                    session->0,
                ) {
                    (
                        self.with(
                            session->0,
                            Slot { cancelled: true, ..self.sessions[session->0] },
                        ),
                        Move::Interrupt(session->0),
                    )
                } else {
                    (self, Move::Silent)
                }
            },
            frame::Heard::Response { id, payload } => match json::json_text(id) {
                Some(waiter) => if self.waiting.contains(waiter) {
                    (
                        Link { waiting: self.waiting.remove(waiter), ..self },
                        Move::Release(waiter, payload),
                    )
                } else {
                    (self, Move::Silent)
                },
                None => (self, Move::Silent),
            },
        }
    }

    /// What one frame is answered with, and what the connection remembers. A
    /// frame that is not one is answered all the same, under no id: a client
    /// that is waiting has to be released.
    pub open spec fn framed(self, raw: Seq<char>) -> (Link, Move) {
        match json::json_document(vstd::utf8::encode_utf8(raw)) {
            Err(why) => (
                self,
                Move::Answer(
                    "null"@,
                    Reply::Refused(rpc::Failure::of(ErrorCode::ParseError, why)),
                ),
            ),
            Ok(document) => match frame::message_of(document) {
                Some(message) => self.heard(message),
                None => (
                    self,
                    Move::Answer(
                        "null"@,
                        Reply::Refused(
                            rpc::Failure::of(
                                ErrorCode::InvalidRequest,
                                "the frame is not a JSON-RPC message"@,
                            ),
                        ),
                    ),
                ),
            },
        }
    }

    /// How a prompt settles, and what the connection remembers. Explicit
    /// cancellation outranks the turn's own reason, and is honoured once.
    pub open spec fn settles(
        self,
        session: Seq<char>,
        answered: Result<event::Stop, rpc::Failure>,
    ) -> (Link, Result<PromptResponse, rpc::Failure>) {
        let known = self.sessions.contains_key(session);
        let cancelled = known && self.sessions[session].cancelled;
        (
            if known {
                self.with(session, Slot { inflight: false, cancelled: false })
            } else {
                self
            },
            if cancelled {
                Ok(PromptResponse { stop_reason: StopReason::Cancelled })
            } else {
                match answered {
                    Ok(reason) => Ok(PromptResponse { stop_reason: StopReason::closest(reason) }),
                    Err(failure) => if failure.kind() == Some(ErrorCode::Cancelled) {
                        Ok(PromptResponse { stop_reason: StopReason::Cancelled })
                    } else {
                        Err(failure)
                    },
                }
            },
        )
    }

    /// The connection once it is shut down.
    pub open spec fn shut(self) -> Link {
        Link { closed: true, sessions: Map::empty(), waiting: Set::empty(), ..self }
    }
}

/// The session a client names, when it names one.
pub open spec fn named_session(params: Seq<char>) -> Option<Seq<char>> {
    match json::word_of(params, "sessionId"@, 0, 3) {
        Some(session) => if session.len() == 0 {
            None
        } else {
            Some(session)
        },
        None => None,
    }
}

/// An agent's side of one connection.
pub struct AcpBridge {
    initialized: bool,
    closed: bool,
    sessions: Vec<Record>,
    waiting: Vec<String>,
    requests: u64,
}

impl View for AcpBridge {
    type V = Link;

    closed spec fn view(&self) -> Link {
        Link {
            initialized: self.initialized,
            closed: self.closed,
            sessions: table(self.sessions@),
            waiting: text::views(self.waiting@).to_set(),
            asked: self.requests,
        }
    }
}

impl AcpBridge {
    /// Whether no two sessions share an id, and no two questions do: every one
    /// of them was minted here, under a number of its own.
    pub closed spec fn wf(&self) -> bool {
        &&& distinct(self.sessions@)
        &&& text::views(self.waiting@).no_duplicates()
        &&& minted(text::views(self.waiting@), self.requests)
    }

    /// A connection nothing has been said on.
    pub fn new() -> (b: AcpBridge)
        ensures
            b.wf(),
            b@ == Link::fresh(),
    {
        let b = AcpBridge {
            initialized: false,
            closed: false,
            sessions: Vec::new(),
            waiting: Vec::new(),
            requests: 0,
        };
        proof {
            assert(text::views(b.waiting@) =~= Seq::<Seq<char>>::empty());
            assert(text::views(b.waiting@).to_set() =~= Set::<Seq<char>>::empty());
        }
        b
    }

    fn find(&self, id: &str) -> (at: Option<usize>)
        requires
            self.wf(),
        ensures
            match at {
                Some(at) => at < self.sessions@.len() && self.sessions@[at as int].id@ == id@
                    && self@.sessions.contains_key(id@) && self@.sessions[id@]
                    == self.sessions@[at as int].slot,
                None => !self@.sessions.contains_key(id@),
            },
    {
        proof {
            lemma_table(self.sessions@);
        }
        let mut at: usize = 0;
        while at < self.sessions.len()
            invariant
                at <= self.sessions@.len(),
                forall|i: int| 0 <= i < at ==> (#[trigger] self.sessions@[i]).id@ != id@,
                forall|i: int|
                    0 <= i < self.sessions@.len() ==> self@.sessions.contains_key(
                        (#[trigger] self.sessions@[i]).id@,
                    ) && self@.sessions[self.sessions@[i].id@] == self.sessions@[i].slot,
                forall|id: Seq<char>| #[trigger]
                    self@.sessions.contains_key(id) ==> exists|i: int|
                        0 <= i < self.sessions@.len() && (#[trigger] self.sessions@[i]).id@ == id,
            decreases self.sessions@.len() - at,
        {
            if same(self.sessions[at].id.as_str(), id) {
                return Some(at);
            }
            at = at + 1;
        }
        None
    }

    fn set(&mut self, at: usize, slot: Slot)
        requires
            old(self).wf(),
            at < old(self).sessions@.len(),
        ensures
            final(self).wf(),
            final(self)@ == old(self)@.with(old(self).sessions@[at as int].id@, slot),
            final(self).sessions@.len() == old(self).sessions@.len(),
    {
        let ghost before = self.sessions@;
        let id = self.sessions[at].id.clone();
        let record = Record { id, slot };
        proof {
            lemma_table_update(before, at as int, record);
        }
        self.sessions.set(at, record);
    }

    /// Put a session in this state, whether or not it was there before.
    fn open(&mut self, session_id: &str, slot: Slot)
        requires
            old(self).wf(),
        ensures
            final(self).wf(),
            final(self)@ == old(self)@.with(session_id@, slot),
    {
        match self.find(session_id) {
            Some(at) => {
                self.set(at, slot);
            },
            None => {
                let ghost before = self.sessions@;
                let record = Record { id: session_id.to_owned(), slot };
                proof {
                    lemma_table(before);
                }
                self.sessions.push(record);
                proof {
                    assert(self.sessions@.drop_last() =~= before);
                    assert forall|i: int, j: int| 0 <= i < j < self.sessions@.len() implies (
                    #[trigger] self.sessions@[i]).id@ != (#[trigger] self.sessions@[j]).id@ by {
                        if j == before.len() {
                            assert(table(before).contains_key(before[i].id@));
                        }
                    }
                }
            },
        }
    }

    /// Answer one frame: one frame in, at most one frame out, and a malformed
    /// frame still answered because a client that is waiting has to be
    /// released.
    pub fn frame(&mut self, raw: &str) -> (step: Step)
        requires
            old(self).wf(),
        ensures
            final(self).wf(),
            final(self)@ == old(self)@.framed(raw@).0,
            step.does(old(self)@.framed(raw@).1),
    {
        match json::document(raw.as_bytes()) {
            Err(why) => Step::Answer {
                id: "null".to_owned(),
                answer: Answer::Refused(RpcError::new(ErrorCode::ParseError, why.as_str())),
            },
            Ok(document) => match Message::decode(document.as_str()) {
                Some(message) => self.heard(message),
                None => Step::Answer {
                    id: "null".to_owned(),
                    answer: Answer::Refused(
                        RpcError::new(
                            ErrorCode::InvalidRequest,
                            "the frame is not a JSON-RPC message",
                        ),
                    ),
                },
            },
        }
    }

    /// What one message is answered with.
    pub fn heard(&mut self, message: Message) -> (step: Step)
        requires
            old(self).wf(),
        ensures
            final(self).wf(),
            final(self)@ == old(self)@.heard(message@).0,
            step.does(old(self)@.heard(message@).1),
    {
        match message {
            Message::Request { id, method, params } => self.call(id, method, params),
            Message::Notification { method, params } => {
                // The protocol defines one client notification. An unknown one
                // is ignored rather than refused, so a client may speak a
                // later minor version.
                if !same(method.as_str(), SESSION_CANCEL) {
                    return Step::Silent;
                }
                match json::word(params.as_str(), "sessionId", 0, 1) {
                    Some(session_id) => self.cancel(session_id),
                    None => Step::Silent,
                }
            },
            Message::Response { id, payload } => self.settle(id, payload),
        }
    }

    /// Mark the prompt cancelled and ask the turn to stop. An unknown session
    /// is a no-op: a client racing its own teardown should not be answered
    /// with an error it cannot use.
    pub fn cancel(&mut self, session_id: String) -> (step: Step)
        requires
            old(self).wf(),
        ensures
            final(self).wf(),
            if old(self)@.sessions.contains_key(session_id@) {
                &&& final(self)@ == old(self)@.with(
                    session_id@,
                    Slot { cancelled: true, ..old(self)@.sessions[session_id@] },
                )
                &&& step.does(Move::Interrupt(session_id@))
            } else {
                &&& final(self)@ == old(self)@
                &&& step.does(Move::Silent)
            },
    {
        match self.find(session_id.as_str()) {
            Some(at) => {
                let before = self.sessions[at].slot;
                self.set(at, Slot { inflight: before.inflight, cancelled: true });
                Step::Interrupt { session_id }
            },
            None => Step::Silent,
        }
    }

    /// Route an answer to the question it answers. An answer under an id this
    /// side did not mint answers nothing of its own.
    pub fn settle(&mut self, id: String, payload: Result<String, WireError>) -> (step: Step)
        requires
            old(self).wf(),
        ensures
            final(self).wf(),
            final(self)@ == old(self)@.heard(
                frame::Heard::Response { id: id@, payload: frame::payload_view(payload) },
            ).0,
            step.does(
                old(self)@.heard(
                    frame::Heard::Response { id: id@, payload: frame::payload_view(payload) },
                ).1,
            ),
    {
        let waiter = match json::text(id.as_str()) {
            Some(waiter) => waiter,
            None => {
                return Step::Silent;
            },
        };
        let ghost all = text::views(self.waiting@);
        let mut at: usize = 0;
        while at < self.waiting.len()
            invariant
                at <= self.waiting@.len(),
                all == text::views(self.waiting@),
                forall|i: int| 0 <= i < at ==> #[trigger] all[i] != waiter@,
                *self == *old(self),
                old(self).wf(),
                json::json_text(id@) == Some(waiter@),
            decreases self.waiting@.len() - at,
        {
            if same(self.waiting[at].as_str(), waiter.as_str()) {
                let _ = self.waiting.remove(at);
                proof {
                    assert(text::views(self.waiting@) =~= all.remove(at as int));
                    lemma_taken_out(all, at as int, self.requests);
                }
                return Step::Release { waiter, answered: payload };
            }
            at = at + 1;
        }
        proof {
            assert(!all.contains(waiter@));
        }
        Step::Silent
    }

    fn ready(&self) -> (r: Option<RpcError>)
        ensures
            (match r {
                Some(error) => Some(error@),
                None => None,
            }) == self@.unready(),
    {
        if self.closed {
            Some(RpcError::new(ErrorCode::Internal, "this ACP bridge has been shut down"))
        } else if !self.initialized {
            Some(
                RpcError::new(
                    ErrorCode::InvalidRequest,
                    "`initialize` is the first call on a connection",
                ),
            )
        } else {
            None
        }
    }

    fn call(&mut self, id: String, method: String, params: String) -> (step: Step)
        requires
            old(self).wf(),
        ensures
            final(self).wf(),
            final(self)@ == old(self)@.called(id@, method@, params@).0,
            step.does(old(self)@.called(id@, method@, params@).1),
    {
        let name = method.as_str();
        if same(name, INITIALIZE) {
            if let Some(error) = unsaid(params.as_str()) {
                return refused(id, error);
            }
            return Step::Answer { id, answer: Answer::Initialized(self.initialize()) };
        }
        if let Some(error) = self.ready() {
            return refused(id, error);
        }
        if same(name, AUTHENTICATE) {
            // No authentication method is advertised, so there is nothing to
            // check. A refusal here would fail a client that is being polite.
            return Step::Answer { id, answer: Answer::Authenticated };
        }
        if same(name, SESSION_NEW) {
            return match place(params.as_str(), 0, 2) {
                Ok(_) => Step::Create { id },
                Err(error) => refused(id, error),
            };
        }
        if same(name, SESSION_LOAD) {
            if let Some(session_id) = loads(params.as_str()) {
                return match place(params.as_str(), 1, 3) {
                    Ok(_) => Step::Load { id, session_id },
                    Err(error) => refused(id, error),
                };
            }
        }
        if same(name, SESSION_PROMPT) {
            proof {
                reveal_strlit("session/prompt");
                reveal_strlit("session/load");
                assert(SESSION_PROMPT@.len() != SESSION_LOAD@.len());
            }
            return self.prompt(id, params.as_str());
        }
        let mut said = text::cat("no method `", name);
        said.append("`");
        refused(
            id,
            RpcError::about(ErrorCode::MethodNotFound, said.as_str(), "method", name),
        )
    }

    /// Introduce this agent. A single-version agent answers its own version
    /// whatever it was asked for.
    pub fn initialize(&mut self) -> (r: InitializeResponse)
        ensures
            old(self).wf() ==> final(self).wf(),
            final(self)@ == (Link { initialized: true, ..old(self)@ }),
            introduces(r),
    {
        self.initialized = true;
        InitializeResponse {
            protocol_version: PROTOCOL_VERSION,
            agent_info: AgentInfo {
                name: AGENT_NAME.to_owned(),
                version: VERSION.to_owned(),
            },
            agent_capabilities: AgentCapabilities {
                load_session: true,
                prompt_capabilities: PromptCapabilities {
                    image: false,
                    audio: false,
                    embedded_context: false,
                },
            },
            auth_methods: Vec::new(),
        }
    }

    fn prompt(&mut self, id: String, params: &str) -> (step: Step)
        requires
            old(self).wf(),
        ensures
            final(self).wf(),
            final(self)@ == old(self)@.prompted(id@, params@).0,
            step.does(old(self)@.prompted(id@, params@).1),
    {
        let session_id = match json::word(params, "sessionId", 0, 2) {
            Some(session_id) => session_id,
            None => {
                return refused(
                    id,
                    RpcError::new(ErrorCode::InvalidParams, "`sessionId` is a string"),
                );
            },
        };
        let blocks = match prompt_blocks(params) {
            Some(blocks) => blocks,
            None => {
                return refused(
                    id,
                    RpcError::new(ErrorCode::InvalidParams, "`prompt` is a list of blocks"),
                );
            },
        };
        let content = match accept(blocks.as_slice()) {
            Ok(content) => content,
            Err(fault) => {
                return refused(id, fault.refusal());
            },
        };
        match self.claim(session_id.as_str()) {
            Ok(_) => Step::Prompt { id, session_id, content },
            Err(error) => refused(id, error),
        }
    }

    /// Take the session's one prompt slot, or refuse.
    pub fn claim(&mut self, session_id: &str) -> (r: Result<(), RpcError>)
        requires
            old(self).wf(),
        ensures
            final(self).wf(),
            match old(self)@.unclaimable(session_id@) {
                Some(failure) => r matches Err(error) && error@ == failure && final(self)@ == old(
                    self,
                )@,
                None => r is Ok && final(self)@ == old(self)@.with(
                    session_id@,
                    Slot { inflight: true, cancelled: false },
                ),
            },
    {
        match self.find(session_id) {
            None => Err(
                RpcError::about(
                    ErrorCode::InvalidParams,
                    text::cat("unknown session: ", session_id).as_str(),
                    "field",
                    "sessionId",
                ),
            ),
            Some(at) => {
                if self.sessions[at].slot.inflight {
                    return Err(
                        RpcError::new(
                            ErrorCode::InvalidParams,
                            "a prompt is already in flight for this session",
                        ),
                    );
                }
                self.set(at, Slot { inflight: true, cancelled: false });
                Ok(())
            },
        }
    }

    /// What a session the engine created is answered with. The id is the
    /// engine's own, not a second one minted here: one id means an operator
    /// holding it can find its journal.
    pub fn created(&mut self, made: Result<String, RpcError>) -> (r: Result<
        NewSessionResponse,
        RpcError,
    >)
        requires
            old(self).wf(),
        ensures
            final(self).wf(),
            match made {
                Ok(session_id) => r matches Ok(response) && response.session_id@ == session_id@
                    && final(self)@ == old(self)@.with(
                    session_id@,
                    Slot { inflight: false, cancelled: false },
                ),
                Err(error) => r == Err::<NewSessionResponse, RpcError>(error) && final(self)@
                    == old(self)@,
            },
    {
        match made {
            Ok(session_id) => {
                self.open(session_id.as_str(), Slot { inflight: false, cancelled: false });
                Ok(NewSessionResponse { session_id })
            },
            Err(error) => Err(error),
        }
    }

    /// What a session that is re-opened replays, before it is answered with
    /// nothing. A session already open on this connection keeps its slot.
    pub fn loaded(&mut self, session_id: &str, history: Result<Vec<SessionEvent>, RpcError>) -> (r:
        Result<Vec<SessionUpdate>, RpcError>)
        requires
            old(self).wf(),
        ensures
            final(self).wf(),
            match history {
                Ok(events) => {
                    &&& r matches Ok(replay) && wire::updates_view(replay@)
                        == updates::replayed(events@)
                    &&& final(self)@ == if old(self)@.sessions.contains_key(session_id@) {
                        old(self)@
                    } else {
                        old(self)@.with(session_id@, Slot { inflight: false, cancelled: false })
                    }
                },
                Err(error) => r == Err::<Vec<SessionUpdate>, RpcError>(error) && final(self)@
                    == old(self)@,
            },
    {
        match history {
            Ok(events) => {
                if self.find(session_id).is_none() {
                    self.open(session_id, Slot { inflight: false, cancelled: false });
                }
                Ok(updates::replay(events.as_slice()))
            },
            Err(error) => Err(error),
        }
    }

    /// How a prompt settles. The slot is released whichever way the turn went,
    /// and the cancellation is read at the same moment, so one that arrived at
    /// any point during the turn is honoured exactly once.
    pub fn settled(
        &mut self,
        session_id: &str,
        answered: Result<event::StopReason, RpcError>,
    ) -> (r: Result<PromptResponse, RpcError>)
        requires
            old(self).wf(),
        ensures
            final(self).wf(),
            ({
                let told = old(self)@.settles(
                    session_id@,
                    match answered {
                        Ok(reason) => Ok(reason@),
                        Err(error) => Err(error@),
                    },
                );
                &&& final(self)@ == told.0
                &&& (match r {
                    Ok(response) => Ok(response),
                    Err(error) => Err(error@),
                }) == told.1
            }),
    {
        let mut cancelled = false;
        if let Some(at) = self.find(session_id) {
            cancelled = self.sessions[at].slot.cancelled;
            self.set(at, Slot { inflight: false, cancelled: false });
        }
        if cancelled {
            return Ok(PromptResponse { stop_reason: StopReason::Cancelled });
        }
        match answered {
            Ok(reason) => Ok(PromptResponse { stop_reason: StopReason::of(&reason) }),
            Err(error) => {
                // The engine's own word for an interrupted turn, reached when
                // the interrupt came from somewhere other than here.
                if let Some(ErrorCode::Cancelled) = error.kind() {
                    return Ok(PromptResponse { stop_reason: StopReason::Cancelled });
                }
                Err(error)
            },
        }
    }

    /// Whether there is a number left to ask a question under.
    pub fn can_ask(&self) -> (r: bool)
        ensures
            r == (self@.asked < u64::MAX),
    {
        self.requests < u64::MAX
    }

    /// Put one approval question to the client: the id it is asked under, and
    /// the question itself. Its answer is read by [`outcome_of`].
    pub fn request_permission(&mut self, session_id: &str, tool_call_id: &str) -> (r: (
        String,
        RequestPermissionRequest,
    ))
        requires
            old(self).wf(),
            old(self)@.asked < u64::MAX,
        ensures
            final(self).wf(),
            r.0@ == question(old(self)@.asked as nat),
            final(self)@ == (Link {
                waiting: old(self)@.waiting.insert(r.0@),
                asked: (old(self)@.asked + 1) as u64,
                ..old(self)@
            }),
            asks(r.1, session_id@, tool_call_id@),
    {
        let id = text::cat("tetanus-acp-", decimal(self.requests).as_str());
        let ghost before = text::views(self.waiting@);
        proof {
            lemma_asked_anew(before, self.requests);
        }
        self.requests = self.requests + 1;
        self.waiting.push(id.clone());
        proof {
            assert(text::views(self.waiting@) =~= before.push(id@));
        }
        (id, permission_request(session_id, tool_call_id))
    }

    /// Release the connection: refuse further work and free every waiter. What
    /// comes back are the questions nobody will answer any more.
    pub fn shutdown(&mut self) -> (released: Vec<String>)
        ensures
            final(self).wf(),
            text::views(released@).to_set() == old(self)@.waiting,
            final(self)@ == old(self)@.shut(),
    {
        self.closed = true;
        self.sessions = Vec::new();
        let mut released: Vec<String> = Vec::new();
        released.append(&mut self.waiting);
        proof {
            assert(text::views(self.waiting@) =~= Seq::<Seq<char>>::empty());
            assert(text::views(self.waiting@).to_set() =~= Set::<Seq<char>>::empty());
            assert(released@ =~= old(self).waiting@);
        }
        released
    }
}

proof fn lemma_taken_out(all: Seq<Seq<char>>, at: int, asked: u64)
    requires
        0 <= at < all.len(),
        all.no_duplicates(),
        minted(all, asked),
    ensures
        all.contains(all[at]),
        all.remove(at).no_duplicates(),
        all.remove(at).to_set() == all.to_set().remove(all[at]),
        minted(all.remove(at), asked),
{
    let rest = all.remove(at);
    assert forall|i: int| 0 <= i < rest.len() implies rest[i] == all[if i < at {
        i
    } else {
        i + 1
    }] by {}
    assert forall|id: Seq<char>| rest.to_set().contains(id) == all.to_set().remove(
        all[at],
    ).contains(id) by {
        if rest.contains(id) {
            let i = choose|i: int| 0 <= i < rest.len() && rest[i] == id;
            assert(all.contains(id));
        }
        if all.contains(id) && id != all[at] {
            let i = choose|i: int| 0 <= i < all.len() && all[i] == id;
            let j = if i < at {
                i
            } else {
                i - 1
            };
            assert(rest[j] == id);
        }
    }
    assert(rest.to_set() =~= all.to_set().remove(all[at]));
    assert forall|i: int| 0 <= i < rest.len() implies exists|n: nat|
        n < asked && #[trigger] rest[i] == #[trigger] question(n) by {
        let k = if i < at {
            i
        } else {
            i + 1
        };
        assert(rest[i] == all[k]);
    }
}

proof fn lemma_asked_anew(all: Seq<Seq<char>>, asked: u64)
    requires
        all.no_duplicates(),
        minted(all, asked),
        asked < u64::MAX,
    ensures
        all.push(question(asked as nat)).no_duplicates(),
        minted(all.push(question(asked as nat)), (asked + 1) as u64),
        all.push(question(asked as nat)).to_set() == all.to_set().insert(question(asked as nat)),
        !all.contains(question(asked as nat)),
{
    let id = question(asked as nat);
    let more = all.push(id);
    assert forall|i: int| 0 <= i < all.len() implies #[trigger] all[i] != id by {
        let n = choose|n: nat| n < asked && all[i] == #[trigger] question(n);
        lemma_questions_differ(n, asked as nat);
    }
    assert forall|i: int| 0 <= i < more.len() implies exists|n: nat|
        n < (asked + 1) as u64 && #[trigger] more[i] == #[trigger] question(n) by {
        if i < all.len() {
            let n = choose|n: nat| n < asked && all[i] == #[trigger] question(n);
            assert(more[i] == question(n));
        } else {
            assert(more[i] == question(asked as nat));
        }
    }
    assert forall|x: Seq<char>| more.to_set().contains(x) == all.to_set().insert(id).contains(
        x,
    ) by {
        if more.contains(x) {
            let i = choose|i: int| 0 <= i < more.len() && more[i] == x;
            if i < all.len() {
                assert(all[i] == x);
            }
        }
        if all.contains(x) {
            let i = choose|i: int| 0 <= i < all.len() && all[i] == x;
            assert(more[i] == x);
        }
        assert(more[all.len() as int] == id);
    }
    assert(more.to_set() =~= all.to_set().insert(id));
}

/// The question put to a client: the two one-shot choices, and nothing else.
pub open spec fn asks(
    request: RequestPermissionRequest,
    session: Seq<char>,
    call: Seq<char>,
) -> bool {
    &&& request.session_id@ == session
    &&& request.tool_call.tool_call_id@ == call
    &&& request.options@.map_values(|o: PermissionOption| o@) == seq![
        (ALLOW_ONCE@, "Allow once"@, "allow_once"@),
        (REJECT_ONCE@, "Reject"@, "reject_once"@),
    ]
}

fn permission_request(session_id: &str, tool_call_id: &str) -> (r: RequestPermissionRequest)
    ensures
        asks(r, session_id@, tool_call_id@),
{
    let mut options: Vec<PermissionOption> = Vec::new();
    options.push(
        PermissionOption {
            option_id: ALLOW_ONCE.to_owned(),
            name: "Allow once".to_owned(),
            kind: "allow_once".to_owned(),
        },
    );
    options.push(
        PermissionOption {
            option_id: REJECT_ONCE.to_owned(),
            name: "Reject".to_owned(),
            kind: "reject_once".to_owned(),
        },
    );
    proof {
        assert(options@.map_values(|o: PermissionOption| o@) =~= seq![
            (ALLOW_ONCE@, "Allow once"@, "allow_once"@),
            (REJECT_ONCE@, "Reject"@, "reject_once"@),
        ]);
    }
    RequestPermissionRequest {
        session_id: session_id.to_owned(),
        tool_call: PermissionToolCall { tool_call_id: tool_call_id.to_owned() },
        options,
    }
}

/// What an approval question came to.
#[derive(Debug, Clone, Copy, PartialEq, Eq, Structural)]
pub enum ApprovalOutcome {
    AllowedOnce,
    Rejected,
    Cancelled,
    Unavailable,
}

/// What an answer comes to, as a decision.
pub open spec fn decision(verdict: Option<wire::Verdict>) -> ApprovalOutcome {
    match verdict {
        Some(wire::Verdict::Cancelled) => ApprovalOutcome::Cancelled,
        Some(wire::Verdict::Selected(option)) => if option == ALLOW_ONCE@ {
            ApprovalOutcome::AllowedOnce
        } else if option == REJECT_ONCE@ {
            ApprovalOutcome::Rejected
        } else {
            ApprovalOutcome::Unavailable
        },
        None => ApprovalOutcome::Unavailable,
    }
}

/// What a question comes to, once its wait is over: answered, refused with an
/// error, or abandoned because nobody is left to answer.
pub open spec fn outcome_for(answered: Option<Result<Seq<char>, frame::Spelled>>) -> ApprovalOutcome {
    match answered {
        Some(Ok(result)) => decision(wire::verdict_of(result)),
        _ => ApprovalOutcome::Unavailable,
    }
}

/// Only an explicit `allow-once` grants: an error, a withdrawal, an option
/// this agent never offered and a connection that went away all deny.
pub proof fn lemma_only_allow_once_grants(answered: Option<Result<Seq<char>, frame::Spelled>>)
    ensures
        outcome_for(answered) == ApprovalOutcome::AllowedOnce <==> (answered matches Some(Ok(
            result,
        )) && wire::verdict_of(result) == Some(wire::Verdict::Selected(ALLOW_ONCE@))),
{
    reveal_strlit("allow-once");
    reveal_strlit("reject-once");
    assert(ALLOW_ONCE@.len() != REJECT_ONCE@.len());
}

/// The decision an outcome is.
pub fn decided(outcome: &PermissionOutcome) -> (r: ApprovalOutcome)
    ensures
        r == decision(Some(outcome@)),
{
    match outcome {
        PermissionOutcome::Cancelled => ApprovalOutcome::Cancelled,
        PermissionOutcome::Selected { option_id } => if same(option_id.as_str(), ALLOW_ONCE) {
            ApprovalOutcome::AllowedOnce
        } else if same(option_id.as_str(), REJECT_ONCE) {
            ApprovalOutcome::Rejected
        } else {
            ApprovalOutcome::Unavailable
        },
    }
}

/// The client's answer, read as a decision. `None` is a question nobody will
/// answer: the connection is gone, so nobody granted.
pub fn outcome_of(answered: Option<Result<String, WireError>>) -> (r: ApprovalOutcome)
    ensures
        r == outcome_for(
            match answered {
                Some(payload) => Some(frame::payload_view(payload)),
                None => None,
            },
        ),
{
    match answered {
        Some(Ok(result)) => match RequestPermissionResponse::decode(result.as_str()) {
            Some(response) => decided(&response.outcome),
            None => ApprovalOutcome::Unavailable,
        },
        _ => ApprovalOutcome::Unavailable,
    }
}

fn refused(id: String, error: RpcError) -> (step: Step)
    ensures
        step.does(Move::Answer(id@, Reply::Refused(error@))),
{
    Step::Answer { id, answer: Answer::Refused(error) }
}

fn unsaid(params: &str) -> (r: Option<RpcError>)
    ensures
        (match r {
            Some(error) => Some(error@),
            None => None,
        }) == unversioned(params@),
{
    if !json::record(params, 2) {
        return Some(RpcError::new(ErrorCode::InvalidParams, "the parameters are no object"));
    }
    let spelled = match json::member(params, "protocolVersion", 0, 2) {
        Some(spelled) => spelled,
        None => {
            return None;
        },
    };
    if let Some(n) = json::number(spelled.as_str()) {
        if n <= u32::MAX as u64 {
            return None;
        }
    }
    Some(RpcError::new(ErrorCode::InvalidParams, "`protocolVersion` is a number"))
}

/// Whether a path starts at the root.
pub fn absolute(path: &str) -> (r: bool)
    ensures
        r == absolute_of(path@),
{
    path.unicode_len() > 0 && path.get_char(0) == '/'
}

fn loads(params: &str) -> (r: Option<String>)
    ensures
        json::held(r) == named_session(params@),
{
    match json::word(params, "sessionId", 0, 3) {
        Some(session_id) => if session_id.as_str().is_empty() {
            None
        } else {
            Some(session_id)
        },
        None => None,
    }
}

fn place(params: &str, at: usize, count: usize) -> (r: Result<(), RpcError>)
    requires
        at < usize::MAX,
    ensures
        (match r {
            Ok(_) => Ok(()),
            Err(error) => Err(error@),
        }) == place_of(params@, at as nat, count as nat),
{
    if !json::record(params, count) {
        return Err(RpcError::new(ErrorCode::InvalidParams, "the parameters are no object"));
    }
    let cwd = match json::member(params, "cwd", at, count) {
        Some(member) => match json::text(member.as_str()) {
            Some(cwd) => cwd,
            None => {
                return Err(RpcError::new(ErrorCode::InvalidParams, "`cwd` is a string"));
            },
        },
        None => String::new(),
    };
    let mounted: usize = match json::member(params, "mcpServers", at + 1, count) {
        Some(member) => match json::items(member.as_str()) {
            Some(list) => list.len(),
            None => {
                return Err(RpcError::new(ErrorCode::InvalidParams, "`mcpServers` is a list"));
            },
        },
        None => 0,
    };
    if !absolute(cwd.as_str()) {
        return Err(
            RpcError::about(
                ErrorCode::InvalidParams,
                "`cwd` is an absolute path",
                "field",
                "cwd",
            ),
        );
    }
    if mounted > 0 {
        return Err(
            RpcError::about(
                ErrorCode::InvalidParams,
                "this agent mounts no MCP servers",
                "field",
                "mcpServers",
            ),
        );
    }
    Ok(())
}

fn prompt_blocks(params: &str) -> (r: Option<Vec<ContentBlock>>)
    ensures
        (match r {
            Some(blocks) => Some(wire::blocks_of(blocks@)),
            None => None,
        }) == prompt_of(params@),
{
    let member = match json::member(params, "prompt", 1, 2) {
        Some(member) => member,
        None => {
            let none: Vec<ContentBlock> = Vec::new();
            proof {
                assert(wire::blocks_of(none@) =~= Seq::<wire::Block>::empty());
            }
            return Some(none);
        },
    };
    let list = match json::items(member.as_str()) {
        Some(list) => list,
        None => {
            return None;
        },
    };
    let ghost all = text::views(list@).map_values(|item: Seq<char>| wire::block_of(item));
    let mut blocks: Vec<ContentBlock> = Vec::new();
    let mut i: usize = 0;
    proof {
        assert(wire::blocks_of(blocks@) =~= all.take(0));
    }
    while i < list.len()
        invariant
            i <= list.len(),
            all == text::views(list@).map_values(|item: Seq<char>| wire::block_of(item)),
            wire::blocks_of(blocks@) == all.take(i as int),
        decreases list.len() - i,
    {
        let ghost before = wire::blocks_of(blocks@);
        let block = ContentBlock::decode(list[i].as_str());
        proof {
            assert(all[i as int] == block@);
            assert(all.take(i + 1) =~= all.take(i as int).push(all[i as int]));
        }
        blocks.push(block);
        proof {
            assert(wire::blocks_of(blocks@) =~= before.push(all[i as int]));
        }
        i = i + 1;
    }
    proof {
        assert(all.take(i as int) =~= all);
    }
    Some(blocks)
}

// ---- what holds of every connection ----

/// Every call but the first is refused until the connection is initialized,
/// and nothing is remembered of it.
pub proof fn lemma_nothing_before_initialize(
    link: Link,
    id: Seq<char>,
    method: Seq<char>,
    params: Seq<char>,
)
    requires
        !link.initialized,
        method != INITIALIZE@,
    ensures
        link.called(id, method, params).0 == link,
        link.called(id, method, params).1 matches Move::Answer(to, Reply::Refused(failure)) && to
            == id && failure == link.unready()->0,
{
}

/// A connection that was shut down serves no call but `initialize`, and has
/// nobody left waiting.
pub proof fn lemma_shut_down_is_final(
    link: Link,
    id: Seq<char>,
    method: Seq<char>,
    params: Seq<char>,
)
    requires
        method != INITIALIZE@,
    ensures
        link.shut().waiting.is_empty(),
        link.shut().called(id, method, params).0 == link.shut(),
        link.shut().called(id, method, params).1 matches Move::Answer(_, Reply::Refused(failure))
            && failure.kind() == Some(ErrorCode::Internal),
{
}

/// One prompt in flight per session: while a session's slot is taken, another
/// prompt for it never reaches the engine, and takes nothing from the first.
pub proof fn lemma_one_prompt_at_a_time(
    link: Link,
    session: Seq<char>,
    id: Seq<char>,
    params: Seq<char>,
)
    requires
        link.sessions.contains_key(session),
        link.sessions[session].inflight,
        json::word_of(params, "sessionId"@, 0, 2) == Some(session),
    ensures
        link.prompted(id, params).0 == link,
        link.prompted(id, params).1 matches Move::Answer(_, Reply::Refused(_)),
{
}

/// A cancellation that arrived while the turn ran is the answer to the prompt,
/// whatever the turn itself came to, and is honoured exactly once: the slot
/// comes back free and uncancelled.
pub proof fn lemma_cancellation_outranks(
    link: Link,
    session: Seq<char>,
    params: Seq<char>,
    answered: Result<event::Stop, rpc::Failure>,
)
    requires
        link.sessions.contains_key(session),
        json::word_of(params, "sessionId"@, 0, 1) == Some(session),
    ensures
        ({
            let cancelled = link.heard(
                frame::Heard::Notification { method: SESSION_CANCEL@, params },
            );
            let settled = cancelled.0.settles(session, answered);
            &&& cancelled.1 == Move::Interrupt(session)
            &&& settled.1 == Ok::<PromptResponse, rpc::Failure>(
                PromptResponse { stop_reason: StopReason::Cancelled },
            )
            &&& settled.0.sessions[session] == (Slot { inflight: false, cancelled: false })
        }),
{
}

/// A prompt that settles gives its slot back: the session can be prompted
/// again, and starts uncancelled.
pub proof fn lemma_the_slot_comes_back(
    link: Link,
    session: Seq<char>,
    answered: Result<event::Stop, rpc::Failure>,
)
    requires
        link.sessions.contains_key(session),
    ensures
        link.settles(session, answered).0.unclaimable(session) is None,
{
}

/// A session this connection did not open is never prompted.
pub proof fn lemma_unknown_sessions_are_refused(
    link: Link,
    session: Seq<char>,
    id: Seq<char>,
    params: Seq<char>,
)
    requires
        !link.sessions.contains_key(session),
        json::word_of(params, "sessionId"@, 0, 2) == Some(session),
    ensures
        link.prompted(id, params).0 == link,
        link.prompted(id, params).1 matches Move::Answer(_, Reply::Refused(_)),
{
}

/// One session's prompt, cancellation or settlement leaves every other session
/// as it was.
pub proof fn lemma_sessions_are_apart(
    link: Link,
    session: Seq<char>,
    slot: Slot,
    other: Seq<char>,
)
    requires
        session != other,
    ensures
        link.with(session, slot).sessions.contains_key(other) == link.sessions.contains_key(other),
        link.sessions.contains_key(other) ==> link.with(session, slot).sessions[other]
            == link.sessions[other],
{
}

proof fn lemma_methods_differ()
    ensures
        "initialize"@.len() == 10,
        "authenticate"@.len() == 12,
        "session/new"@.len() == 11,
        "session/load"@.len() == 12,
        "authenticate"@ != "session/load"@,
        "session/prompt"@.len() == 14,
        "session/cancel"@.len() == 14,
        "session/prompt"@ != "session/cancel"@,
{
    reveal_strlit("initialize");
    reveal_strlit("authenticate");
    reveal_strlit("session/new");
    reveal_strlit("session/load");
    reveal_strlit("session/prompt");
    reveal_strlit("session/cancel");
    assert("authenticate"@[0] != "session/load"@[0]);
    assert("session/prompt"@[8] != "session/cancel"@[8]);
}

/// A client is introduced to whenever it asks, with a version that is a number or
/// with none, and after that the link is initialized and otherwise as it was.
/// A version that is no number is refused.
pub proof fn lemma_a_client_is_introduced_to(
    link: Link,
    id: Seq<char>,
    params: Seq<char>,
    version: u32,
)
    requires
        json::json_names(params) is Some,
        json::json_items(params) is None,
    ensures
        json::json_field(params, "protocolVersion"@) is None || json::counts(
            params,
            "protocolVersion"@,
            version as u64,
        ) ==> link.called(id, "initialize"@, params) == (
            Link { initialized: true, ..link },
            Move::Answer(id, Reply::Initialized),
        ),
        json::json_field(params, "protocolVersion"@) matches Some(member) ==> json::json_number(
            member,
        ) is None ==> link.called(id, "initialize"@, params) == (
            link,
            Move::Answer(
                id,
                Reply::Refused(
                    rpc::Failure::of(
                        ErrorCode::InvalidParams,
                        "`protocolVersion` is a number"@,
                    ),
                ),
            ),
        ),
{
}

/// The introduction names this agent and what it can do: it speaks the first
/// version, loads sessions, takes no images, no audio and no embedded context, and
/// asks for no authentication.
pub proof fn lemma_an_introduction_says_what_the_agent_can_do(r: InitializeResponse)
    requires
        introduces(r),
    ensures
        r.protocol_version == 1,
        r.agent_info.name@ == "tetanus-acp"@,
        r.agent_capabilities.load_session,
        !r.agent_capabilities.prompt_capabilities.image,
        !r.agent_capabilities.prompt_capabilities.audio,
        !r.agent_capabilities.prompt_capabilities.embedded_context,
        r.auth_methods@.len() == 0,
{
}

/// Before it is introduced a client is told to be, and after the link is shut down
/// that it is; and on a link that is initialized and open it is heard.
pub proof fn lemma_a_link_is_ready_once_initialized(link: Link)
    ensures
        link.unready() is None <==> link.initialized && !link.closed,
        link.closed ==> (link.unready() matches Some(failure) && failure.kind() == Some(
            ErrorCode::Internal,
        ) && failure.message == "this ACP bridge has been shut down"@),
        !link.closed && !link.initialized ==> (link.unready() matches Some(failure)
            && failure.kind() == Some(ErrorCode::InvalidRequest) && failure.message
            == "`initialize` is the first call on a connection"@),
{
}

/// A session is created, or loaded under the id it names, in a place that is an
/// absolute path and with no servers to mount; neither changes the link until it
/// is done. A place that is not absolute is refused by that field, and so are
/// servers by theirs.
pub proof fn lemma_a_session_is_opened_where_it_may_be(
    link: Link,
    id: Seq<char>,
    params: Seq<char>,
    session: Seq<char>,
    cwd: Seq<char>,
)
    requires
        link.initialized,
        !link.closed,
        json::json_names(params) is Some,
        json::says(params, "cwd"@, cwd),
        json::says(params, "sessionId"@, session),
        session.len() > 0,
        json::json_field(params, "mcpServers"@) matches Some(list) ==> json::json_items(list)
            is Some,
    ensures
        ({
            let none = json::json_field(params, "mcpServers"@) matches Some(list)
                ==> json::json_items(list)->0.len() == 0;
            let made = link.called(id, "session/new"@, params);
            let loaded = link.called(id, "session/load"@, params);
            &&& made.0 == link && loaded.0 == link
            &&& cwd.len() > 0 && cwd[0] == '/' && none ==> made.1 == Move::Create(id) && loaded.1
                == Move::Load(id, session)
            &&& cwd.len() == 0 || cwd[0] != '/' ==> made.1 == Move::Answer(
                id,
                Reply::Refused(
                    rpc::Failure::about(
                        ErrorCode::InvalidParams,
                        "`cwd` is an absolute path"@,
                        "field"@,
                        "cwd"@,
                    ),
                ),
            ) && loaded.1 == made.1
            &&& cwd.len() > 0 && cwd[0] == '/' && !none ==> made.1 == Move::Answer(
                id,
                Reply::Refused(
                    rpc::Failure::about(
                        ErrorCode::InvalidParams,
                        "this agent mounts no MCP servers"@,
                        "field"@,
                        "mcpServers"@,
                    ),
                ),
            ) && loaded.1 == made.1
        }),
{
    lemma_methods_differ();
}

/// A prompt that is admitted, for a session that is known and idle, runs in that
/// session with what its blocks say: the session is taken, and no other is
/// touched. One that is not admitted is refused as its blocks are, and changes
/// nothing.
pub proof fn lemma_a_prompt_runs_in_its_session(
    link: Link,
    id: Seq<char>,
    params: Seq<char>,
    session: Seq<char>,
    list: Seq<char>,
    items: Seq<Seq<char>>,
)
    requires
        link.initialized,
        !link.closed,
        json::says(params, "sessionId"@, session),
        json::json_field(params, "prompt"@) == Some(list),
        json::json_items(list) == Some(items),
    ensures
        ({
            let blocks = items.map_values(|item: Seq<char>| wire::block_of(item));
            let next = link.called(id, "session/prompt"@, params);
            match content::admission(blocks) {
                Ok(said) => {
                    &&& link.sessions.contains_key(session) && !link.sessions[session].inflight
                        ==> next.1 == Move::Prompt(id, session, said) && next.0 == (Link {
                        sessions: link.sessions.insert(
                            session,
                            Slot { inflight: true, cancelled: false },
                        ),
                        ..link
                    })
                    &&& !link.sessions.contains_key(session) ==> next == (
                        link,
                        Move::Answer(
                            id,
                            Reply::Refused(
                                rpc::Failure::about(
                                    ErrorCode::InvalidParams,
                                    "unknown session: "@ + session,
                                    "field"@,
                                    "sessionId"@,
                                ),
                            ),
                        ),
                    )
                    &&& link.sessions.contains_key(session) && link.sessions[session].inflight
                        ==> next == (
                        link,
                        Move::Answer(
                            id,
                            Reply::Refused(
                                rpc::Failure::of(
                                    ErrorCode::InvalidParams,
                                    "a prompt is already in flight for this session"@,
                                ),
                            ),
                        ),
                    )
                },
                Err(fault) => next == (
                    link,
                    Move::Answer(id, Reply::Refused(fault.refused())),
                ),
            }
        }),
{
    lemma_methods_differ();
    assert(prompt_of(params)->0 =~= items.map_values(|item: Seq<char>| wire::block_of(item)));
}

/// Authentication is never needed, and a method that is none is refused by its
/// name; neither changes the link.
pub proof fn lemma_an_unknown_method_is_refused(
    link: Link,
    id: Seq<char>,
    method: Seq<char>,
    params: Seq<char>,
)
    requires
        link.initialized,
        !link.closed,
    ensures
        link.called(id, "authenticate"@, params) == (
            link,
            Move::Answer(id, Reply::Authenticated),
        ),
        method != "initialize"@ && method != "authenticate"@ && method != "session/new"@ && method
            != "session/load"@ && method != "session/prompt"@ ==> link.called(id, method, params)
            == (
            link,
            Move::Answer(
                id,
                Reply::Refused(
                    rpc::Failure::about(
                        ErrorCode::MethodNotFound,
                        "no method `"@ + method + "`"@,
                        "method"@,
                        method,
                    ),
                ),
            ),
        ),
{
    lemma_methods_differ();
}

/// Whatever a request asks, what goes back at once goes back under the request's
/// own id.
pub proof fn lemma_a_request_is_answered_under_its_id(
    link: Link,
    id: Seq<char>,
    method: Seq<char>,
    params: Seq<char>,
)
    ensures
        match link.heard(frame::Heard::Request { id, method, params }).1 {
            Move::Answer(to, _) => to == id,
            Move::Create(to) => to == id,
            Move::Load(to, _) => to == id,
            Move::Prompt(to, _, _) => to == id,
            _ => false,
        },
{
}

/// A cancellation marks the session it names, whether or not it is at work, and
/// interrupts that one. Of a session that is not known, and of any other
/// notification, nothing comes.
pub proof fn lemma_a_cancellation_marks_its_session(
    link: Link,
    method: Seq<char>,
    params: Seq<char>,
    session: Seq<char>,
)
    requires
        json::says(params, "sessionId"@, session),
    ensures
        ({
            let next = link.heard(frame::Heard::Notification { method, params });
            &&& method == "session/cancel"@ && link.sessions.contains_key(session) ==> next == (
                Link {
                    sessions: link.sessions.insert(
                        session,
                        Slot { inflight: link.sessions[session].inflight, cancelled: true },
                    ),
                    ..link
                },
                Move::Interrupt(session),
            )
            &&& method != "session/cancel"@ || !link.sessions.contains_key(session) ==> next == (
                link,
                Move::Silent,
            )
        }),
{
}

/// An answer releases the question of its id with what it carries, once, and an
/// id that no question waits under releases none.
pub proof fn lemma_an_answer_releases_its_question(
    link: Link,
    id: Seq<char>,
    waiter: Seq<char>,
    payload: Result<Seq<char>, frame::Spelled>,
)
    requires
        json::json_text(id) == Some(waiter),
    ensures
        ({
            let next = link.heard(frame::Heard::Response { id, payload });
            &&& link.waiting.contains(waiter) ==> next == (
                Link { waiting: link.waiting.remove(waiter), ..link },
                Move::Release(waiter, payload),
            )
            &&& !link.waiting.contains(waiter) ==> next == (link, Move::Silent)
            &&& next.0.heard(frame::Heard::Response { id, payload }).1 is Silent
        }),
{
}

/// A turn that was not cancelled is answered for what became of it: why it
/// stopped, or its failure as it is, but for a failure that is a cancellation.
/// Settling frees the session and touches no other.
pub proof fn lemma_a_turn_is_answered_for_what_became_of_it(
    link: Link,
    session: Seq<char>,
    reason: event::Stop,
    failure: rpc::Failure,
)
    requires
        link.sessions.contains_key(session) ==> !link.sessions[session].cancelled,
    ensures
        link.settles(session, Ok(reason)).1 == Ok::<PromptResponse, rpc::Failure>(
            PromptResponse { stop_reason: StopReason::closest(reason) },
        ),
        failure.kind() != Some(ErrorCode::Cancelled) ==> link.settles(session, Err(failure)).1
            == Err::<PromptResponse, rpc::Failure>(failure),
        failure.kind() == Some(ErrorCode::Cancelled) ==> link.settles(session, Err(failure)).1
            == Ok::<PromptResponse, rpc::Failure>(
            PromptResponse { stop_reason: StopReason::Cancelled },
        ),
        link.sessions.contains_key(session) ==> link.settles(session, Ok(reason)).0 == (Link {
            sessions: link.sessions.insert(session, Slot { inflight: false, cancelled: false }),
            ..link
        }),
        !link.sessions.contains_key(session) ==> link.settles(session, Ok(reason)).0 == link,
        link.settles(session, Err(failure)).0 == link.settles(session, Ok(reason)).0,
{
}

/// A line that is no JSON, and JSON that is no message, are each answered as that,
/// under no id, and change nothing. Every other line is heard as the message it
/// is.
pub proof fn lemma_a_line_is_heard_or_refused(
    link: Link,
    raw: Seq<char>,
    document: Seq<char>,
    why: Seq<char>,
    message: frame::Heard,
)
    ensures
        ({
            let read = json::json_document(vstd::utf8::encode_utf8(raw));
            &&& read == Err::<Seq<char>, Seq<char>>(why) ==> link.framed(raw) == (
                link,
                Move::Answer(
                    "null"@,
                    Reply::Refused(rpc::Failure::of(ErrorCode::ParseError, why)),
                ),
            )
            &&& read == Ok::<Seq<char>, Seq<char>>(document) && frame::message_of(document)
                is None ==> link.framed(raw) == (
                link,
                Move::Answer(
                    "null"@,
                    Reply::Refused(
                        rpc::Failure::of(
                            ErrorCode::InvalidRequest,
                            "the frame is not a JSON-RPC message"@,
                        ),
                    ),
                ),
            )
            &&& read == Ok::<Seq<char>, Seq<char>>(document) && frame::message_of(document)
                == Some(message) ==> link.framed(raw) == link.heard(message)
        }),
{
}

/// A question offers two options, to allow once and to reject, about the call and
/// the session it is asked of.
pub proof fn lemma_a_question_offers_two_options(
    request: RequestPermissionRequest,
    session: Seq<char>,
    call: Seq<char>,
)
    requires
        asks(request, session, call),
    ensures
        request.session_id@ == session,
        request.tool_call.tool_call_id@ == call,
        request.options@.len() == 2,
        request.options@[0]@ == ("allow-once"@, "Allow once"@, "allow_once"@),
        request.options@[1]@ == ("reject-once"@, "Reject"@, "reject_once"@),
{
    let options = request.options@.map_values(|o: PermissionOption| o@);
    assert(options.len() == 2);
    assert(options[0] == request.options@[0]@);
    assert(options[1] == request.options@[1]@);
}

/// What was answered decides: an option for what it says, a cancellation for one,
/// and an option that was never offered, an error or no answer for none.
pub proof fn lemma_an_answer_decides(option: Seq<char>, answered: Option<Result<Seq<char>, frame::Spelled>>)
    ensures
        decision(Some(wire::Verdict::Cancelled)) == ApprovalOutcome::Cancelled,
        decision(None) == ApprovalOutcome::Unavailable,
        decision(Some(wire::Verdict::Selected(option))) == ApprovalOutcome::AllowedOnce <==> option
            == "allow-once"@,
        decision(Some(wire::Verdict::Selected(option))) == ApprovalOutcome::Rejected <==> option
            == "reject-once"@,
        option != "allow-once"@ && option != "reject-once"@ ==> decision(
            Some(wire::Verdict::Selected(option)),
        ) == ApprovalOutcome::Unavailable,
        answered is None || answered->0 is Err ==> outcome_for(answered)
            == ApprovalOutcome::Unavailable,
        answered matches Some(Ok(result)) ==> outcome_for(answered) == decision(
            wire::verdict_of(result),
        ),
{
    reveal_strlit("allow-once");
    reveal_strlit("reject-once");
    assert("allow-once"@.len() != "reject-once"@.len());
}

/// A path is absolute exactly where it opens with a slash.
pub proof fn lemma_an_absolute_path_opens_with_a_slash(rest: Seq<char>, path: Seq<char>)
    ensures
        absolute_of(seq!['/'] + rest),
        absolute_of(path) ==> path[0] == '/' && path == seq!['/'] + path.skip(1),
        !absolute_of(Seq::empty()),
{
    if absolute_of(path) {
        assert(path =~= seq!['/'] + path.skip(1));
    }
}

/// A new link knows no session, waits for nothing and has asked nothing. A link
/// that is shut down keeps no session and no question.
pub proof fn lemma_a_link_starts_and_ends_empty(link: Link)
    ensures
        Link::fresh() == (Link {
            initialized: false,
            closed: false,
            sessions: Map::empty(),
            waiting: Set::empty(),
            asked: 0,
        }),
        link.shut() == (Link {
            closed: true,
            sessions: Map::empty(),
            waiting: Set::empty(),
            ..link
        }),
{
}

/// Whatever creating a session hands back is its id, and the session is then known
/// and at rest; a failure is handed on as it is and leaves none.
pub proof fn lemma_a_created_session_is_known(
    bridge: &mut AcpBridge,
    made: Result<String, RpcError>,
    r: Result<NewSessionResponse, RpcError>,
)
    requires
        call_ensures(AcpBridge::created, (bridge, made), r),
    ensures
        made matches Ok(id) ==> {
            &&& r matches Ok(response) && response.session_id@ == id@
            &&& final(bridge)@.sessions == old(bridge)@.sessions.insert(
                id@,
                Slot { inflight: false, cancelled: false },
            )
        },
        made matches Err(error) ==> (r matches Err(told) && told == error) && final(bridge)@
            == old(bridge)@,
{
}

/// Whatever loading a session hands back is its journal replayed, and the session
/// is then known: one that was known already is left as it was, at work or not.
pub proof fn lemma_a_loaded_session_is_replayed(
    bridge: &mut AcpBridge,
    session: &str,
    history: Result<Vec<SessionEvent>, RpcError>,
    r: Result<Vec<SessionUpdate>, RpcError>,
)
    requires
        call_ensures(AcpBridge::loaded, (bridge, session, history), r),
    ensures
        history matches Ok(events) ==> {
            &&& r matches Ok(sent) && wire::updates_view(sent@) == updates::replayed(events@)
            &&& final(bridge)@.sessions.contains_key(session@)
            &&& old(bridge)@.sessions.contains_key(session@) ==> final(bridge)@ == old(bridge)@
            &&& !old(bridge)@.sessions.contains_key(session@)
                ==> !final(bridge)@.sessions[session@].inflight
        },
        history matches Err(error) ==> (r matches Err(told) && told == error) && final(bridge)@
            == old(bridge)@,
{
}

/// Whatever a cancellation does, it marks the session it names where that is known,
/// and leaves the rest.
pub proof fn lemma_a_cancelled_session_is_marked(
    bridge: &mut AcpBridge,
    session: String,
    step: Step,
)
    requires
        call_ensures(AcpBridge::cancel, (bridge, session), step),
    ensures
        old(bridge)@.sessions.contains_key(session@) ==> {
            &&& step matches Step::Interrupt { session_id } && session_id@ == session@
            &&& final(bridge)@.sessions[session@].cancelled
            &&& final(bridge)@.sessions[session@].inflight
                == old(bridge)@.sessions[session@].inflight
        },
        !old(bridge)@.sessions.contains_key(session@) ==> step is Silent && final(bridge)@
            == old(bridge)@,
{
}

/// Whatever a claim comes to, it is granted exactly where the session is known and
/// idle, and then the session is at work and no cancellation is held against it.
pub proof fn lemma_an_idle_session_is_claimed(
    bridge: &mut AcpBridge,
    session: &str,
    r: Result<(), RpcError>,
)
    requires
        call_ensures(AcpBridge::claim, (bridge, session), r),
    ensures
        r is Ok <==> old(bridge)@.sessions.contains_key(session@)
            && !old(bridge)@.sessions[session@].inflight,
        r is Ok ==> final(bridge)@.sessions[session@] == (Slot {
            inflight: true,
            cancelled: false,
        }),
        r is Err ==> final(bridge)@ == old(bridge)@,
{
}

/// Whatever a prompt settles with, a cancellation outranks it, a turn that ended
/// tells why, and a failure is handed on; and the session is free again.
pub proof fn lemma_a_settled_prompt_frees_its_session(
    bridge: &mut AcpBridge,
    session: &str,
    answered: Result<event::StopReason, RpcError>,
    r: Result<PromptResponse, RpcError>,
)
    requires
        call_ensures(AcpBridge::settled, (bridge, session, answered), r),
        old(bridge)@.sessions.contains_key(session@),
    ensures
        !final(bridge)@.sessions[session@].inflight,
        !final(bridge)@.sessions[session@].cancelled,
        old(bridge)@.sessions[session@].cancelled ==> (r matches Ok(response)
            && response.stop_reason == StopReason::Cancelled),
        !old(bridge)@.sessions[session@].cancelled ==> match answered {
            Ok(reason) => r matches Ok(response) && response.stop_reason == StopReason::closest(
                reason@,
            ),
            Err(error) => if error@.kind() == Some(ErrorCode::Cancelled) {
                r matches Ok(response) && response.stop_reason == StopReason::Cancelled
            } else {
                r matches Err(told) && told@ == error@
            },
        },
{
}

/// Whatever question is asked waits under an id of its own, about the session and
/// the call it is asked of.
pub proof fn lemma_a_question_waits_under_its_own_id(
    bridge: &mut AcpBridge,
    session: &str,
    call: &str,
    asked: (String, RequestPermissionRequest),
)
    requires
        call_ensures(AcpBridge::request_permission, (bridge, session, call), asked),
        old(bridge)@.asked < u64::MAX,
    ensures
        asked.0@ == "tetanus-acp-"@ + text::dec(old(bridge)@.asked as nat),
        final(bridge)@.waiting == old(bridge)@.waiting.insert(asked.0@),
        final(bridge)@.asked == old(bridge)@.asked + 1,
        asked.1.session_id@ == session@,
        asked.1.tool_call.tool_call_id@ == call@,
{
}

/// Parameters may be written as an array, in the order they are declared in: the
/// place and the servers of a new session; the id, the place and the servers of
/// one that is loaded; the id and the blocks of a prompt.
pub proof fn lemma_parameters_are_read_from_an_array(
    link: Link,
    id: Seq<char>,
    params: Seq<char>,
    items: Seq<Seq<char>>,
    session: Seq<char>,
    cwd: Seq<char>,
    blocks: Seq<Seq<char>>,
)
    requires
        link.initialized,
        !link.closed,
        json::json_items(params) == Some(items),
        cwd.len() > 0,
        cwd[0] == '/',
        session.len() > 0,
    ensures
        items.len() == 2 && json::json_text(items[0]) == Some(cwd) && json::json_items(items[1])
            == Some(Seq::<Seq<char>>::empty()) ==> link.called(id, "session/new"@, params).1
            == Move::Create(id),
        items.len() == 3 && json::json_text(items[0]) == Some(session) && json::json_text(items[1])
            == Some(cwd) && json::json_items(items[2]) == Some(Seq::<Seq<char>>::empty())
            ==> link.called(id, "session/load"@, params).1 == Move::Load(id, session),
        items.len() == 2 && json::json_text(items[0]) == Some(session) && json::json_items(items[1])
            == Some(blocks) && link.sessions.contains_key(session)
            && !link.sessions[session].inflight && content::admission(
            blocks.map_values(|item: Seq<char>| wire::block_of(item)),
        ) is Ok ==> link.called(id, "session/prompt"@, params).1 == Move::Prompt(
            id,
            session,
            content::admission(blocks.map_values(|item: Seq<char>| wire::block_of(item)))->Ok_0,
        ),
{
    lemma_methods_differ();
    if items.len() == 2 && json::json_items(items[1]) == Some(blocks) {
        assert(prompt_of(params)->0 =~= blocks.map_values(|item: Seq<char>| wire::block_of(item)));
    }
}

/// Parameters that cannot be read are refused in the order they are read in, each
/// in words of its own: what is no object, a place that is no string, servers that
/// are no list.
pub proof fn lemma_unread_parameters_are_refused(params: Seq<char>, place: nat, count: nat)
    ensures
        !json::is_record(params, count) ==> place_of(params, place, count) == Err::<
            (),
            rpc::Failure,
        >(rpc::Failure::of(ErrorCode::InvalidParams, "the parameters are no object"@)),
        json::is_record(params, count) && (json::member_of(params, "cwd"@, place, count)
            matches Some(cwd) && json::json_text(cwd) is None) ==> place_of(params, place, count)
            == Err::<(), rpc::Failure>(
            rpc::Failure::of(ErrorCode::InvalidParams, "`cwd` is a string"@),
        ),
        json::is_record(params, count) && json::word_of(params, "cwd"@, place, count) is Some && (
        json::member_of(params, "mcpServers"@, place + 1, count) matches Some(list)
            && json::json_items(list) is None) ==> place_of(params, place, count) == Err::<
            (),
            rpc::Failure,
        >(rpc::Failure::of(ErrorCode::InvalidParams, "`mcpServers` is a list"@)),
        !json::is_record(params, 2) ==> unversioned(params) == Some(
            rpc::Failure::of(ErrorCode::InvalidParams, "the parameters are no object"@),
        ),
{
}

/// A prompt without a session, and one whose blocks are no list, are refused in
/// those words and change nothing.
pub proof fn lemma_an_unread_prompt_is_refused(link: Link, id: Seq<char>, params: Seq<char>)
    requires
        json::json_items(params) is None,
    ensures
        json::json_field(params, "sessionId"@) is None ==> link.prompted(id, params) == (
            link,
            Move::Answer(
                id,
                Reply::Refused(
                    rpc::Failure::of(ErrorCode::InvalidParams, "`sessionId` is a string"@),
                ),
            ),
        ),
        json::word_of(params, "sessionId"@, 0, 2) is Some && (json::json_field(params, "prompt"@)
            matches Some(list) && json::json_items(list) is None) ==> link.prompted(id, params) == (
            link,
            Move::Answer(
                id,
                Reply::Refused(
                    rpc::Failure::of(ErrorCode::InvalidParams, "`prompt` is a list of blocks"@),
                ),
            ),
        ),
{
}

/// Parameters written as an array longer than they are many are refused: two of a
/// prompt and of a new session, three of one that is loaded.
pub proof fn lemma_an_array_too_long_is_refused(
    link: Link,
    id: Seq<char>,
    params: Seq<char>,
    items: Seq<Seq<char>>,
)
    requires
        link.initialized,
        !link.closed,
        json::json_items(params) == Some(items),
        json::json_names(params) is None,
    ensures
        items.len() > 2 ==> link.prompted(id, params).1 matches Move::Answer(_, Reply::Refused(_)),
        items.len() > 2 ==> link.called(id, "session/new"@, params).1 matches Move::Answer(
            _,
            Reply::Refused(_),
        ),
        items.len() > 3 ==> link.called(id, "session/load"@, params).1 matches Move::Answer(
            _,
            Reply::Refused(_),
        ),
        items.len() > 2 ==> link.called(id, "initialize"@, params).1 matches Move::Answer(
            _,
            Reply::Refused(_),
        ),
{
    lemma_methods_differ();
}

} // verus!
