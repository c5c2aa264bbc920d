//! The protocol over plain HTTP: a client POSTs to a path that names a method,
//! with the parameters as the body, and reads the result back.
//!
//! Every call must declare the JSON media type and is refused before dispatch
//! when it does not, so that a request a browser sends without asking can
//! never run a method. The status is the carrier's: a method that ran and
//! failed is answered 200, with the failure in the envelope.
//!
//! Who is asking is settled between the two halves of this module: [`begin`]
//! says what the caller presented, and [`dispatch`] is told whether that was
//! admitted.
use vstd::prelude::*;
use vstd::string::*;

use crate::json;
use crate::rpc;
use crate::rpc::{ErrorCode, RpcError};
use crate::text;
use crate::text::{alike, same, strip_prefix, trim, up_to};

verus! {

/// Where the calls live. A prefix, because the method is the rest of it.
pub const PREFIX: &'static str = "/api/";

/// The media type every call must declare.
pub const JSON: &'static str = "application/json";

/// The methods that are the host's own rather than the engine's.
pub const LIST: &'static str = "host.listDirectory";

/// The method that makes a directory.
pub const CREATE: &'static str = "host.createDirectory";

/// What a request said of itself.
#[derive(Clone, Debug)]
pub struct Request {
    pub method: String,
    pub path: String,
    /// The `token` of the query, if it has one.
    pub token: Option<String>,
    /// The `authorization` header, if there is one.
    pub authorization: Option<String>,
    /// The `content-type` header, if there is one.
    pub content_type: Option<String>,
    pub body: Vec<u8>,
}

/// What a request said of itself, by what it holds.
pub struct Asked {
    pub method: Seq<char>,
    pub path: Seq<char>,
    pub token: Option<Seq<char>>,
    pub authorization: Option<Seq<char>>,
    pub content_type: Option<Seq<char>>,
    pub body: Seq<u8>,
}

impl View for Request {
    type V = Asked;

    open spec fn view(&self) -> Asked {
        Asked {
            method: self.method@,
            path: self.path@,
            token: json::held(self.token),
            authorization: json::held(self.authorization),
            content_type: json::held(self.content_type),
            body: self.body@,
        }
    }
}

/// The status of an answer, which is the carrier's and not the method's.
#[derive(Clone, Copy, PartialEq, Eq, Structural, Debug)]
pub enum Status {
    Fine,
    BadRequest,
    Unauthorized,
    NotFound,
    MethodNotAllowed,
    UnsupportedMedia,
}

/// A refusal by the carrier: a status that means it, and the failure a caller
/// reads in the same envelope every other answer uses. Only a refusal of the
/// verb says which verb is allowed.
#[derive(Clone, Debug)]
pub struct Refusal {
    pub status: Status,
    pub error: RpcError,
    pub allow: Option<&'static str>,
}

/// A refusal, by what it says.
pub struct Refused {
    pub status: Status,
    pub error: rpc::Failure,
    pub allow: Option<Seq<char>>,
}

impl View for Refusal {
    type V = Refused;

    open spec fn view(&self) -> Refused {
        Refused {
            status: self.status,
            error: self.error@,
            allow: match self.allow {
                Some(verb) => Some(verb@),
                None => None,
            },
        }
    }
}

/// A refusal with a status, a code and a sentence.
pub open spec fn refusal_of(status: Status, code: ErrorCode, said: Seq<char>) -> Refused {
    Refused { status, error: rpc::Failure::of(code, said), allow: None }
}

fn refused(status: Status, code: ErrorCode, said: &str) -> (r: Refusal)
    ensures
        r@ == refusal_of(status, code, said@),
{
    Refusal { status, error: RpcError::new(code, said), allow: None }
}

/// The token a caller presents: the one in the query, or the one in the header
/// a client that is not a browser would think to use.
pub open spec fn presented_of(asked: Asked) -> Option<Seq<char>> {
    match asked.token {
        Some(token) => Some(token),
        None => match asked.authorization {
            Some(header) => text::after_prefix(header, "Bearer "@),
            None => None,
        },
    }
}

/// Whether a request is a call at all.
pub open spec fn is_call(asked: Asked) -> bool {
    asked.method == "POST"@
}

/// The refusal of a request that is not a POST.
pub open spec fn not_a_post() -> Refused {
    Refused {
        allow: Some("POST"@),
        ..refusal_of(Status::MethodNotAllowed, ErrorCode::InvalidRequest, "a call is a POST"@)
    }
}

/// Begin a call: the token to admit it by, or the refusal of a request that is
/// not one.
pub fn begin(request: &Request) -> (r: Result<Option<String>, Refusal>)
    ensures
        match r {
            Ok(token) => is_call(request@) && json::held(token) == presented_of(request@),
            Err(refusal) => !is_call(request@) && refusal@ == not_a_post(),
        },
{
    if !same(request.method.as_str(), "POST") {
        let refusal = refused(
            Status::MethodNotAllowed,
            ErrorCode::InvalidRequest,
            "a call is a POST",
        );
        return Err(Refusal { status: refusal.status, error: refusal.error, allow: Some("POST") });
    }
    Ok(
        match &request.token {
            Some(token) => Some(token.clone()),
            None => match &request.authorization {
                Some(header) => strip_prefix(header.as_str(), "Bearer "),
                None => None,
            },
        },
    )
}

/// The media type a request declares, without its parameters.
pub open spec fn declared_of(asked: Asked) -> Seq<char> {
    match asked.content_type {
        Some(kind) => text::trimmed(kind.take(text::char_at(kind, ';') as int)),
        None => text::trimmed(Seq::empty()),
    }
}

/// The method a path names, when it names one.
pub open spec fn method_of(asked: Asked) -> Option<Seq<char>> {
    match text::after_prefix(asked.path, PREFIX@) {
        Some(method) => if method.len() == 0 {
            None
        } else {
            Some(method)
        },
        None => None,
    }
}

/// The parameters of a call: an empty body is an empty object.
pub open spec fn params_of(asked: Asked) -> Result<Seq<char>, Seq<char>> {
    if asked.body.len() == 0 {
        Ok("{}"@)
    } else {
        json::json_document(asked.body)
    }
}

/// What a call that was not refused is answered by.
#[derive(Clone, Debug)]
pub enum Call {
    /// List a directory: the one named, or the account's home.
    List { path: Option<String> },
    /// Make a directory at a path, under a name.
    Create { path: String, name: String },
    /// Answer this failure, in a result.
    Answer(RpcError),
    /// Hand the engine this frame.
    Frame(String),
}

/// What a call is answered by, by what it says.
pub enum Errand {
    List(Option<Seq<char>>),
    Create(Seq<char>, Seq<char>),
    Answer(rpc::Failure),
    Frame(Seq<char>),
}

impl View for Call {
    type V = Errand;

    open spec fn view(&self) -> Errand {
        match self {
            Call::List { path } => Errand::List(json::held(*path)),
            Call::Create { path, name } => Errand::Create(path@, name@),
            Call::Answer(error) => Errand::Answer(error@),
            Call::Frame(frame) => Errand::Frame(frame@),
        }
    }
}

/// The host's own methods, answered here rather than by the engine.
pub open spec fn picked_of(method: Seq<char>, params: Seq<char>) -> Option<Errand> {
    if method == LIST@ {
        Some(Errand::List(json::text_of(params, "path"@)))
    } else if method == CREATE@ {
        match (json::text_of(params, "path"@), json::text_of(params, "name"@)) {
            (Some(path), Some(name)) => Some(Errand::Create(path, name)),
            _ => Some(
                Errand::Answer(
                    rpc::Failure::of(
                        ErrorCode::InvalidParams,
                        "a directory is made at a path, under a name"@,
                    ),
                ),
            ),
        }
    } else {
        None
    }
}

/// The frame a call goes to the engine in. The id is the carrier's, not the
/// caller's: one POST is one call, and the answer goes back down the
/// connection it came up.
pub open spec fn frame_of(method: Seq<char>, params: Seq<char>) -> Option<Seq<char>> {
    let versioned = json::json_with("{}"@, "jsonrpc"@, "2.0"@)->0;
    let numbered = json::json_put(versioned, "id"@, text::dec(1))->0;
    let named = json::json_with(numbered, "method"@, method)->0;
    json::json_put(named, "params"@, params)
}

/// The frame a call goes to the engine in. `None` when the parameters are no
/// document. Where the frame can be read back, it reads as it was written:
/// parameters nested as deep as a reader goes leave no room for the frame
/// around them.
pub fn frame(method: &str, params: &str) -> (r: Option<String>)
    ensures
        json::held(r) == frame_of(method@, params@),
        r is Some <==> json::json_compact(params@) is Some,
        r matches Some(frame) ==> json::json_compact(frame@) is Some ==> {
            &&& json::text_of(frame@, "jsonrpc"@) == Some("2.0"@)
            &&& json::number_of(frame@, "id"@) == Some(1u64)
            &&& json::text_of(frame@, "method"@) == Some(method@)
            &&& json::json_field(frame@, "params"@) is Some
        },
{
    proof {
        reveal_strlit("jsonrpc");
        reveal_strlit("id");
        reveal_strlit("method");
        reveal_strlit("params");
        assert("jsonrpc"@.len() != "id"@.len());
        assert("method"@[0] != "params"@[0]);
    }
    let base = json::object();
    let versioned = json::with_text(base.as_str(), "jsonrpc", "2.0")?;
    let id = json::number_text(1);
    let numbered = json::with_member(versioned.as_str(), "id", id.as_str())?;
    let named = json::with_text(numbered.as_str(), "method", method)?;
    json::with_member(named.as_str(), "params", params)
}

/// What becomes of a call, once who is asking has been settled.
pub open spec fn dispatch_of(asked: Asked, admitted: bool) -> Result<Errand, Refused> {
    if !admitted {
        Err(
            refusal_of(
                Status::Unauthorized,
                ErrorCode::InvalidRequest,
                "this carrier is not open to you"@,
            ),
        )
    } else if !text::alike_of(declared_of(asked), JSON@) {
        Err(
            refusal_of(
                Status::UnsupportedMedia,
                ErrorCode::InvalidRequest,
                "a call declares application/json"@,
            ),
        )
    } else {
        match (method_of(asked), params_of(asked)) {
            (None, _) => Err(
                refusal_of(Status::NotFound, ErrorCode::MethodNotFound, "a call names a method"@),
            ),
            (Some(_), Err(why)) => Err(
                refusal_of(
                    Status::BadRequest,
                    ErrorCode::ParseError,
                    "the body is not JSON: "@ + why,
                ),
            ),
            (Some(method), Ok(params)) => match picked_of(method, params) {
                Some(errand) => Ok(errand),
                None => match frame_of(method, params) {
                    Some(frame) => Ok(Errand::Frame(frame)),
                    None => Err(unanswered()),
                },
            },
        }
    }
}

/// The refusal of a call that has no answer over this carrier.
pub open spec fn unanswered() -> Refused {
    refusal_of(
        Status::BadRequest,
        ErrorCode::InvalidRequest,
        "that call has no answer over this carrier"@,
    )
}

/// The host's own methods, or `None` for a call that is not one of them.
pub fn picked(method: &str, params: &str) -> (r: Option<Call>)
    ensures
        (match r {
            Some(call) => Some(call@),
            None => None,
        }) == picked_of(method@, params@),
{
    if same(method, LIST) {
        // An absent path is the account's home, which is where a chooser that
        // did not say where to open should open.
        Some(Call::List { path: json::text_field(params, "path") })
    } else if same(method, CREATE) {
        match (json::text_field(params, "path"), json::text_field(params, "name")) {
            (Some(path), Some(name)) => Some(Call::Create { path, name }),
            _ => Some(
                Call::Answer(
                    RpcError::new(
                        ErrorCode::InvalidParams,
                        "a directory is made at a path, under a name",
                    ),
                ),
            ),
        }
    } else {
        None
    }
}

/// One call, from the request that carried it to what answers it. `admitted`
/// is whether the caller may ask at all, and nothing of the call is looked at
/// before it.
pub fn dispatch(request: &Request, admitted: bool) -> (r: Result<Call, Refusal>)
    ensures
        (match r {
            Ok(call) => Ok(call@),
            Err(refusal) => Err(refusal@),
        }) == dispatch_of(request@, admitted),
{
    if !admitted {
        return Err(
            refused(
                Status::Unauthorized,
                ErrorCode::InvalidRequest,
                "this carrier is not open to you",
            ),
        );
    }
    let declared = match &request.content_type {
        Some(kind) => trim(up_to(kind.as_str(), ';').as_str()),
        None => {
            proof {
                reveal_strlit("");
                assert(""@ =~= Seq::<char>::empty());
            }
            trim("")
        },
    };
    if !alike(declared.as_str(), JSON) {
        return Err(
            refused(
                Status::UnsupportedMedia,
                ErrorCode::InvalidRequest,
                "a call declares application/json",
            ),
        );
    }
    let method = match strip_prefix(request.path.as_str(), PREFIX) {
        Some(method) => method,
        None => {
            return Err(
                refused(Status::NotFound, ErrorCode::MethodNotFound, "a call names a method"),
            );
        },
    };
    if method.as_str().is_empty() {
        return Err(refused(Status::NotFound, ErrorCode::MethodNotFound, "a call names a method"));
    }
    let params = if request.body.len() == 0 {
        json::object()
    } else {
        match json::document(request.body.as_slice()) {
            Ok(params) => params,
            Err(why) => {
                let said = text::cat("the body is not JSON: ", why.as_str());
                return Err(refused(Status::BadRequest, ErrorCode::ParseError, said.as_str()));
            },
        }
    };
    if let Some(call) = picked(method.as_str(), params.as_str()) {
        return Ok(call);
    }
    match frame(method.as_str(), params.as_str()) {
        Some(frame) => Ok(Call::Frame(frame)),
        None => Err(
            refused(
                Status::BadRequest,
                ErrorCode::InvalidRequest,
                "that call has no answer over this carrier",
            ),
        ),
    }
}

/// What the engine answered a frame with, or the refusal of a call it had no
/// answer for. Only a notification has none, and saying so beats an empty
/// success.
pub fn answered(answer: Option<String>) -> (r: Result<String, Refusal>)
    ensures
        match (answer, r) {
            (Some(said), Ok(body)) => body@ == said@,
            (None, Err(refusal)) => refusal@ == unanswered(),
            _ => false,
        },
{
    match answer {
        Some(said) => Ok(said),
        None => Err(
            refused(
                Status::BadRequest,
                ErrorCode::InvalidRequest,
                "that call has no answer over this carrier",
            ),
        ),
    }
}

/// Nothing runs for a caller who was not admitted, whatever they asked for.
pub proof fn lemma_nothing_runs_unadmitted(asked: Asked)
    ensures
        dispatch_of(asked, false) matches Err(refusal) && refusal.status == Status::Unauthorized,
{
}

/// A call is dispatched only when it declares the JSON media type: anything
/// else is refused before its path or its body is looked at.
pub proof fn lemma_media_is_settled_before_dispatch(a: Asked, b: Asked)
    requires
        !text::alike_of(declared_of(a), JSON@),
        a.content_type == b.content_type,
    ensures
        dispatch_of(a, true) == dispatch_of(b, true),
        dispatch_of(a, true) matches Err(refusal) && refusal.status == Status::UnsupportedMedia,
{
}

/// The three ways choosing a directory fails.
#[derive(Clone, Debug)]
pub enum PickerError {
    Unreadable(String),
    Exists(String),
    CreateFailed(String),
}

impl PickerError {
    /// The path it is about.
    pub open spec fn subject(self) -> Seq<char> {
        match self {
            PickerError::Unreadable(path) => path@,
            PickerError::Exists(path) => path@,
            PickerError::CreateFailed(path) => path@,
        }
    }

    /// The code a caller can act on. Already there is not a fault of the
    /// machine: the argument is what was wrong.
    pub open spec fn code(self) -> ErrorCode {
        match self {
            PickerError::Unreadable(_) => ErrorCode::Io,
            PickerError::Exists(_) => ErrorCode::InvalidParams,
            PickerError::CreateFailed(_) => ErrorCode::Io,
        }
    }
}

/// The picker's failures, mapped one to one onto codes a caller can act on.
/// The path it is about travels in the data.
pub fn refusal(err: &PickerError, message: &str) -> (e: RpcError)
    ensures
        e@ == rpc::Failure::about(err.code(), message@, "path"@, err.subject()),
        e@.names("path"@) == Some(err.subject()),
{
    match err {
        PickerError::Unreadable(path) => RpcError::about(
            ErrorCode::Io,
            message,
            "path",
            path.as_str(),
        ),
        PickerError::Exists(path) => RpcError::about(
            ErrorCode::InvalidParams,
            message,
            "path",
            path.as_str(),
        ),
        PickerError::CreateFailed(path) => RpcError::about(
            ErrorCode::Io,
            message,
            "path",
            path.as_str(),
        ),
    }
}

/// A token in the query is the one presented, whatever the header says. Without
/// one it is what the header bears behind its scheme, and a header of another
/// scheme presents nothing.
pub proof fn lemma_the_query_speaks_before_the_header(asked: Asked, token: Seq<char>)
    ensures
        asked.token == Some(token) ==> presented_of(asked) == Some(token),
        asked.token is None && asked.authorization == Some("Bearer "@ + token) ==> presented_of(
            asked,
        ) == Some(token),
        asked.token is None && asked.authorization is None ==> presented_of(asked) is None,
        asked.token is None && presented_of(asked) == Some(token) ==> asked.authorization == Some(
            "Bearer "@ + token,
        ),
{
    text::lemma_a_prefix_comes_off("Bearer "@, token, "Bearer "@ + token);
    if asked.authorization is Some {
        text::lemma_a_prefix_comes_off("Bearer "@, token, asked.authorization->0);
    }
}

/// A call is a POST and nothing else is, and what is not is told so.
pub proof fn lemma_a_call_is_a_post(asked: Asked)
    ensures
        is_call(asked) <==> asked.method == "POST"@,
        not_a_post().status == Status::MethodNotAllowed,
        not_a_post().allow == Some("POST"@),
        not_a_post().error.kind() == Some(ErrorCode::InvalidRequest),
        not_a_post().error.message == "a call is a POST"@,
{
}

/// The method is what stands behind the prefix of the path, whole, and a path
/// without the prefix or with nothing behind it names none.
pub proof fn lemma_the_path_names_the_method(asked: Asked, method: Seq<char>)
    ensures
        method.len() > 0 && asked.path == "/api/"@ + method ==> method_of(asked) == Some(method),
        method_of(asked) == Some(method) ==> asked.path == "/api/"@ + method && method.len() > 0,
        asked.path == "/api/"@ ==> method_of(asked) is None,
{
    text::lemma_a_prefix_comes_off("/api/"@, method, "/api/"@ + method);
    text::lemma_a_prefix_comes_off("/api/"@, method, asked.path);
    if asked.path == "/api/"@ {
        text::lemma_a_prefix_comes_off("/api/"@, Seq::empty(), asked.path);
        assert("/api/"@ + Seq::<char>::empty() =~= "/api/"@);
    }
}

/// What a call declares is its content type without what follows a semicolon and
/// without the blanks around it.
pub proof fn lemma_a_declared_type_stands_before_its_parameters(
    asked: Asked,
    kind: Seq<char>,
    rest: Seq<char>,
)
    requires
        forall|i: int| 0 <= i < kind.len() ==> #[trigger] kind[i] != ';',
    ensures
        asked.content_type == Some(kind) ==> declared_of(asked) == text::trimmed(kind),
        asked.content_type == Some(kind.push(';') + rest) ==> declared_of(asked) == text::trimmed(
            kind,
        ),
        asked.content_type is None ==> declared_of(asked).len() == 0,
{
    text::lemma_up_to_the_first_of_it(kind, ';');
    assert(kind.take(kind.len() as int) =~= kind);
    let whole = kind.push(';') + rest;
    text::lemma_up_to_the_first_of_it(whole, ';');
    let at = text::char_at(whole, ';');
    assert(whole[kind.len() as int] == ';');
    if at < kind.len() {
        assert(whole[at as int] == kind[at as int]);
    }
    assert(whole.take(kind.len() as int) =~= kind);
    text::lemma_blank_trims_to_nothing(Seq::empty());
}

/// A body is the parameters as they stand, and none is an empty object.
pub proof fn lemma_no_body_is_no_parameters(asked: Asked)
    ensures
        asked.body.len() == 0 ==> params_of(asked) == Ok::<Seq<char>, Seq<char>>("{}"@),
        asked.body.len() > 0 ==> params_of(asked) == json::json_document(asked.body),
{
}

/// The two calls about directories are answered here: one lists the path it
/// names or none, the other makes the name it gives at the path it gives, and
/// without both it is refused. No other call is answered here.
pub proof fn lemma_directories_are_answered_here(
    method: Seq<char>,
    params: Seq<char>,
    path: Seq<char>,
    name: Seq<char>,
)
    ensures
        json::spells(params, "path"@, path) ==> picked_of("host.listDirectory"@, params) == Some(
            Errand::List(Some(path)),
        ),
        json::json_field(params, "path"@) is None ==> picked_of("host.listDirectory"@, params)
            == Some(Errand::List(None)),
        json::spells(params, "path"@, path) && json::spells(params, "name"@, name) ==> picked_of(
            "host.createDirectory"@,
            params,
        ) == Some(Errand::Create(path, name)),
        json::json_field(params, "path"@) is None || json::json_field(params, "name"@) is None ==> (
        picked_of("host.createDirectory"@, params) matches Some(Errand::Answer(error))
            && error.kind() == Some(ErrorCode::InvalidParams)),
        method != "host.listDirectory"@ && method != "host.createDirectory"@ ==> picked_of(
            method,
            params,
        ) is None,
{
    reveal_strlit("host.listDirectory");
    reveal_strlit("host.createDirectory");
    assert("host.listDirectory"@.len() != "host.createDirectory"@.len());
}

/// A call is refused for the first thing that is wrong with it, in this order:
/// who makes it, what it declares, what it names, what it carries.
pub proof fn lemma_a_call_is_refused_for_the_first_wrong(asked: Asked)
    ensures
        dispatch_of(asked, false) matches Err(refusal) && refusal.status == Status::Unauthorized
            && refusal.error.message == "this carrier is not open to you"@,
        !text::alike_of(declared_of(asked), "application/json"@) ==> (dispatch_of(asked, true)
            matches Err(refusal) && refusal.status == Status::UnsupportedMedia
            && refusal.error.message == "a call declares application/json"@),
        text::alike_of(declared_of(asked), "application/json"@) && method_of(asked) is None ==> (
        dispatch_of(asked, true) matches Err(refusal) && refusal.status == Status::NotFound
            && refusal.error.kind() == Some(ErrorCode::MethodNotFound)),
        text::alike_of(declared_of(asked), "application/json"@) && method_of(asked) is Some && (
        params_of(asked) matches Err(why)) ==> (dispatch_of(asked, true) matches Err(refusal)
            && refusal.status == Status::BadRequest && refusal.error.kind() == Some(
            ErrorCode::ParseError,
        ) && refusal.error.message == "the body is not JSON: "@ + params_of(asked)->Err_0),
{
}

/// A call that is in order reaches what it names: an errand of this carrier, or
/// else the engine, in a frame of that method and those parameters.
pub proof fn lemma_a_call_in_order_goes_on(asked: Asked, method: Seq<char>, params: Seq<char>)
    requires
        text::alike_of(declared_of(asked), "application/json"@),
        method_of(asked) == Some(method),
        params_of(asked) == Ok::<Seq<char>, Seq<char>>(params),
    ensures
        picked_of(method, params) matches Some(errand) ==> dispatch_of(asked, true) == Ok::<
            Errand,
            Refused,
        >(errand),
        picked_of(method, params) is None && frame_of(method, params) is Some ==> dispatch_of(
            asked,
            true,
        ) == Ok::<Errand, Refused>(Errand::Frame(frame_of(method, params)->0)),
        picked_of(method, params) is None && frame_of(method, params) is None ==> (dispatch_of(
            asked,
            true,
        ) matches Err(refusal) && refusal.status == Status::BadRequest),
{
}

/// What a picker refuses is told by the path it is about: a path that is taken
/// as a wrong parameter, and one that cannot be read or made as the disk's fault.
pub proof fn lemma_a_picker_tells_its_path(path: String)
    ensures
        PickerError::Unreadable(path).subject() == path@,
        PickerError::Exists(path).subject() == path@,
        PickerError::CreateFailed(path).subject() == path@,
        PickerError::Unreadable(path).code() == ErrorCode::Io,
        PickerError::Exists(path).code() == ErrorCode::InvalidParams,
        PickerError::CreateFailed(path).code() == ErrorCode::Io,
{
}

/// Whatever begins a call is its token: only a POST begins one, and the token in
/// the query is the one it presents before that of the header.
pub proof fn lemma_only_a_post_begins_a_call(
    request: &Request,
    begun: Result<Option<String>, Refusal>,
)
    requires
        call_ensures(begin, (request,), begun),
    ensures
        begun is Ok <==> request.method@ == "POST"@,
        begun is Ok && request.token is Some ==> json::held(begun->Ok_0) == json::held(
            request.token,
        ),
        begun is Ok && request.token is None && request.authorization is None ==> begun->Ok_0
            is None,
        begun matches Err(refusal) ==> refusal.status == Status::MethodNotAllowed,
{
}

/// Whatever is answered is the answer as it stands, and a call without one is
/// refused.
pub proof fn lemma_an_answer_stands(answer: Option<String>, r: Result<String, Refusal>)
    requires
        call_ensures(answered, (answer,), r),
    ensures
        answer matches Some(said) ==> (r matches Ok(body) && body@ == said@),
        answer is None ==> (r matches Err(refusal) && refusal.status == Status::BadRequest),
{
}

/// Whatever is dispatched was admitted.
pub proof fn lemma_only_the_admitted_are_dispatched(
    request: &Request,
    admitted: bool,
    r: Result<Call, Refusal>,
)
    requires
        call_ensures(dispatch, (request, admitted), r),
    ensures
        r is Ok ==> admitted,
        !admitted ==> (r matches Err(refusal) && refusal.status == Status::Unauthorized),
{
}

/// A call that is not answered here is put to the engine in one frame: of the
/// version, under the first number, with its method and its parameters.
pub proof fn lemma_a_call_is_framed_for_the_engine(method: Seq<char>, params: Seq<char>)
    ensures
        frame_of(method, params) == json::json_put(
            json::json_with(
                json::json_put(
                    json::json_with("{}"@, "jsonrpc"@, "2.0"@)->0,
                    "id"@,
                    text::dec(1),
                )->0,
                "method"@,
                method,
            )->0,
            "params"@,
            params,
        ),
{
}

/// A directory asked for without a path or without a name is refused in those
/// words, and a call that has no answer here in its own.
pub proof fn lemma_a_refused_directory_is_told_why(params: Seq<char>)
    requires
        json::json_field(params, "path"@) is None || json::json_field(params, "name"@) is None,
    ensures
        picked_of("host.createDirectory"@, params) == Some(
            Errand::Answer(
                rpc::Failure::of(
                    ErrorCode::InvalidParams,
                    "a directory is made at a path, under a name"@,
                ),
            ),
        ),
        unanswered().error.message == "that call has no answer over this carrier"@,
        unanswered().error.kind() == Some(ErrorCode::InvalidRequest),
{
    reveal_strlit("host.listDirectory");
    reveal_strlit("host.createDirectory");
    assert("host.listDirectory"@.len() != "host.createDirectory"@.len());
}

} // verus!
