//! JSON-RPC frames, told apart: a request, a notification, or an answer.
use vstd::prelude::*;
use vstd::string::*;

use crate::json;
use crate::text::same;

verus! {

/// A failure as a peer spelled it.
#[derive(Debug, Clone)]
pub struct WireError {
    pub code: i64,
    pub message: String,
    pub data: Option<String>,
}

/// A failure as a peer spelled it, by what it says.
pub struct Spelled {
    pub code: i64,
    pub message: Seq<char>,
    pub data: Option<Seq<char>>,
}

impl View for WireError {
    type V = Spelled;

    open spec fn view(&self) -> Spelled {
        Spelled { code: self.code, message: self.message@, data: json::held(self.data) }
    }
}

/// The result of an answer, or the failure in its place.
pub open spec fn payload_view(payload: Result<String, WireError>) -> Result<Seq<char>, Spelled> {
    match payload {
        Ok(result) => Ok(result@),
        Err(error) => Err(error@),
    }
}

/// One frame. An id is held as its JSON text, so that it is echoed as it came.
#[derive(Debug)]
pub enum Message {
    Request { id: String, method: String, params: String },
    Notification { method: String, params: String },
    Response { id: String, payload: Result<String, WireError> },
}

/// One frame, by what it says.
pub enum Heard {
    Request { id: Seq<char>, method: Seq<char>, params: Seq<char> },
    Notification { method: Seq<char>, params: Seq<char> },
    Response { id: Seq<char>, payload: Result<Seq<char>, Spelled> },
}

impl View for Message {
    type V = Heard;

    open spec fn view(&self) -> Heard {
        match self {
            Message::Request { id, method, params } => Heard::Request {
                id: id@,
                method: method@,
                params: params@,
            },
            Message::Notification { method, params } => Heard::Notification {
                method: method@,
                params: params@,
            },
            Message::Response { id, payload } => Heard::Response {
                id: id@,
                payload: payload_view(*payload),
            },
        }
    }
}

/// The parameters of a frame: left out, or `null`, they are an empty object.
pub open spec fn params_of(frame: Seq<char>) -> Seq<char> {
    match json::json_field(frame, "params"@) {
        Some(params) => if params == "null"@ {
            "{}"@
        } else {
            params
        },
        None => "{}"@,
    }
}

/// Whether a document can be an id: a string, a number or `null`.
pub open spec fn is_id(id: Seq<char>) -> bool {
    &&& json::json_names(id) is None
    &&& json::json_items(id) is None
    &&& json::json_bool(id) is None
}

/// The failure an answer carries in place of a result.
pub open spec fn error_of(error: Seq<char>) -> Option<Spelled> {
    match (json::json_field(error, "code"@), json::text_of(error, "message"@)) {
        (Some(code), Some(message)) => match json::json_integer(code) {
            Some(code) => Some(
                Spelled { code, message, data: json::json_field(error, "data"@) },
            ),
            None => None,
        },
        _ => None,
    }
}

/// The frame a document is, when it is one.
pub open spec fn message_of(frame: Seq<char>) -> Option<Heard> {
    if json::text_of(frame, "jsonrpc"@) != Some("2.0"@) {
        None
    } else {
        match (json::json_field(frame, "method"@), json::json_field(frame, "id"@)) {
            (Some(method), Some(id)) => match json::json_text(method) {
                Some(method) => if is_id(id) {
                    Some(Heard::Request { id, method, params: params_of(frame) })
                } else {
                    None
                },
                None => None,
            },
            (Some(method), None) => match json::json_text(method) {
                Some(method) => Some(Heard::Notification { method, params: params_of(frame) }),
                None => None,
            },
            (None, Some(id)) => if !is_id(id) {
                None
            } else {
                match (json::json_field(frame, "result"@), json::json_field(frame, "error"@)) {
                    (Some(result), None) => Some(Heard::Response { id, payload: Ok(result) }),
                    (None, Some(error)) => match error_of(error) {
                        Some(error) => Some(Heard::Response { id, payload: Err(error) }),
                        None => None,
                    },
                    _ => None,
                }
            },
            (None, None) => None,
        }
    }
}

fn params(frame: &str) -> (s: String)
    ensures
        s@ == params_of(frame@),
{
    match json::field(frame, "params") {
        Some(params) => if same(params.as_str(), "null") {
            json::object()
        } else {
            params
        },
        None => json::object(),
    }
}

fn can_be_id(id: &str) -> (r: bool)
    ensures
        r == is_id(id@),
{
    json::names(id).is_none() && json::items(id).is_none() && json::boolean(id).is_none()
}

fn error(spelled: &str) -> (r: Option<WireError>)
    ensures
        (match r {
            Some(error) => Some(error@),
            None => None,
        }) == error_of(spelled@),
{
    match (json::field(spelled, "code"), json::text_field(spelled, "message")) {
        (Some(code), Some(message)) => match json::integer(code.as_str()) {
            Some(code) => Some(WireError { code, message, data: json::field(spelled, "data") }),
            None => None,
        },
        _ => None,
    }
}

impl Message {
    /// The frame a document is, when it is one.
    pub fn decode(frame: &str) -> (r: Option<Message>)
        ensures
            (match r {
                Some(message) => Some(message@),
                None => None,
            }) == message_of(frame@),
    {
        match json::text_field(frame, "jsonrpc") {
            Some(version) => {
                if !same(version.as_str(), "2.0") {
                    return None;
                }
            },
            None => {
                return None;
            },
        }
        match (json::field(frame, "method"), json::field(frame, "id")) {
            (Some(method), Some(id)) => match json::text(method.as_str()) {
                Some(method) => if can_be_id(id.as_str()) {
                    Some(Message::Request { id, method, params: params(frame) })
                } else {
                    None
                },
                None => None,
            },
            (Some(method), None) => match json::text(method.as_str()) {
                Some(method) => Some(Message::Notification { method, params: params(frame) }),
                None => None,
            },
            (None, Some(id)) => {
                if !can_be_id(id.as_str()) {
                    return None;
                }
                match (json::field(frame, "result"), json::field(frame, "error")) {
                    (Some(result), None) => Some(Message::Response { id, payload: Ok(result) }),
                    (None, Some(spelled)) => match error(spelled.as_str()) {
                        Some(error) => Some(Message::Response { id, payload: Err(error) }),
                        None => None,
                    },
                    _ => None,
                }
            },
            (None, None) => None,
        }
    }
}

/// A frame with a method and an id is a request, one with a method alone a
/// notification: each of the method it names, with the parameters it carries, and
/// with none where they are missing or null.
pub proof fn lemma_a_frame_with_a_method_asks(
    frame: Seq<char>,
    method: Seq<char>,
    id: Seq<char>,
    params: Seq<char>,
)
    requires
        json::spells(frame, "jsonrpc"@, "2.0"@),
        json::spells(frame, "method"@, method),
        json::json_field(frame, "params"@) == Some(params) && params != "null"@ || (params == "{}"@
            && (json::json_field(frame, "params"@) is None || json::json_field(frame, "params"@)
            == Some("null"@))),
    ensures
        json::json_field(frame, "id"@) is None ==> message_of(frame) == Some(
            Heard::Notification { method, params },
        ),
        json::json_field(frame, "id"@) == Some(id) && is_id(id) ==> message_of(frame) == Some(
            Heard::Request { id, method, params },
        ),
        json::json_field(frame, "id"@) == Some(id) && !is_id(id) ==> message_of(frame) is None,
{
}

/// A frame without a method is an answer to the id it carries: with its result as
/// it stands, or with the error it tells, and with one of the two exactly.
pub proof fn lemma_a_frame_without_a_method_answers(
    frame: Seq<char>,
    id: Seq<char>,
    result: Seq<char>,
    error: Seq<char>,
    member: Seq<char>,
    code: i64,
    message: Seq<char>,
)
    requires
        json::spells(frame, "jsonrpc"@, "2.0"@),
        json::json_field(frame, "method"@) is None,
        json::json_field(frame, "id"@) == Some(id),
        is_id(id),
    ensures
        json::json_field(frame, "result"@) == Some(result) && json::json_field(frame, "error"@)
            is None ==> message_of(frame) == Some(Heard::Response { id, payload: Ok(result) }),
        json::json_field(frame, "result"@) is None && json::json_field(frame, "error"@) == Some(
            error,
        ) && json::json_field(error, "code"@) == Some(member) && json::json_integer(member)
            == Some(code) && json::spells(error, "message"@, message) ==> message_of(frame) == Some(
            Heard::Response {
                id,
                payload: Err(Spelled { code, message, data: json::json_field(error, "data"@) }),
            },
        ),
        (json::json_field(frame, "result"@) is Some <==> json::json_field(frame, "error"@) is Some)
            ==> message_of(frame) is None,
{
}

/// A frame of another version, or of none, is no message, and neither is one with
/// no method and no id.
pub proof fn lemma_a_frame_states_its_version(frame: Seq<char>)
    ensures
        json::json_field(frame, "jsonrpc"@) is None ==> message_of(frame) is None,
        json::json_field(frame, "jsonrpc"@) matches Some(version) ==> json::json_text(version)
            != Some("2.0"@) ==> message_of(frame) is None,
        json::json_field(frame, "method"@) is None && json::json_field(frame, "id"@) is None
            ==> message_of(frame) is None,
{
}

/// An id is neither an object nor an array nor a truth value, and anything else is
/// one.
pub proof fn lemma_an_id_is_a_plain_value(id: Seq<char>)
    ensures
        is_id(id) <==> json::json_names(id) is None && json::json_items(id) is None && id
            != "true"@ && id != "false"@,
{
    json::lemma_true_is_not_false(id);
}

} // verus!
