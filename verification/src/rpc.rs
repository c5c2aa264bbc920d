//! A failure as it crosses a boundary: a code, a message for a log, and the
//! data the code carries.
use vstd::prelude::*;

use crate::json;

verus! {

/// Every code the protocol defines.
#[derive(Clone, Copy, PartialEq, Eq, Structural, Debug)]
pub enum ErrorCode {
    ParseError,
    InvalidRequest,
    MethodNotFound,
    InvalidParams,
    Internal,
    UnsupportedProtocolVersion,
    NotImplemented,
    SessionNotFound,
    SessionBusy,
    Cancelled,
    MissingCredential,
    ProviderError,
    ToolUnknown,
    LogCorrupt,
    Io,
}

impl ErrorCode {
    /// The status a process that failed with this code exits with.
    pub open spec fn status(self) -> u8 {
        match self {
            ErrorCode::ParseError => 2,
            ErrorCode::InvalidRequest => 2,
            ErrorCode::MethodNotFound => 2,
            ErrorCode::InvalidParams => 2,
            ErrorCode::Internal => 1,
            ErrorCode::UnsupportedProtocolVersion => 3,
            ErrorCode::NotImplemented => 3,
            ErrorCode::SessionNotFound => 4,
            ErrorCode::SessionBusy => 4,
            ErrorCode::Cancelled => 130,
            ErrorCode::MissingCredential => 5,
            ErrorCode::ProviderError => 6,
            ErrorCode::ToolUnknown => 4,
            ErrorCode::LogCorrupt => 1,
            ErrorCode::Io => 1,
        }
    }

    /// The status a process that failed with this code exits with.
    pub fn exit_status(self) -> (s: u8)
        ensures
            s == self.status(),
    {
        match self {
            ErrorCode::ParseError | ErrorCode::InvalidRequest => 2,
            ErrorCode::MethodNotFound | ErrorCode::InvalidParams => 2,
            ErrorCode::Internal | ErrorCode::LogCorrupt | ErrorCode::Io => 1,
            ErrorCode::UnsupportedProtocolVersion | ErrorCode::NotImplemented => 3,
            ErrorCode::SessionNotFound | ErrorCode::SessionBusy | ErrorCode::ToolUnknown => 4,
            ErrorCode::Cancelled => 130,
            ErrorCode::MissingCredential => 5,
            ErrorCode::ProviderError => 6,
        }
    }
}

/// A code, known or not. An unknown code is reported as it arrived and never
/// folded onto a known one.
#[derive(Clone, Copy, PartialEq, Eq, Structural, Debug)]
pub enum Code {
    Known(ErrorCode),
    Other(i64),
}

/// A failure as it crosses a boundary.
#[derive(Clone, Debug)]
pub struct RpcError {
    pub code: Code,
    pub message: String,
    /// The data the code carries, as one compact JSON text.
    pub data: Option<String>,
}

/// A failure, by what it says.
pub struct Failure {
    pub code: Code,
    pub message: Seq<char>,
    pub data: Option<Seq<char>>,
}

impl View for RpcError {
    type V = Failure;

    open spec fn view(&self) -> Failure {
        Failure { code: self.code, message: self.message@, data: json::held(self.data) }
    }
}

impl Failure {
    /// A failure with a known code and no data.
    pub open spec fn of(code: ErrorCode, message: Seq<char>) -> Failure {
        Failure { code: Code::Known(code), message, data: None }
    }

    /// A failure with a known code, and one string in its data.
    pub open spec fn about(
        code: ErrorCode,
        message: Seq<char>,
        name: Seq<char>,
        value: Seq<char>,
    ) -> Failure {
        Failure {
            code: Code::Known(code),
            message,
            data: json::json_with("{}"@, name, value),
        }
    }

    /// The code, when this crate knows it.
    pub open spec fn kind(self) -> Option<ErrorCode> {
        match self.code {
            Code::Known(code) => Some(code),
            Code::Other(_) => None,
        }
    }

    /// One string out of the data, when the code carries one.
    pub open spec fn names(self, name: Seq<char>) -> Option<Seq<char>> {
        match self.data {
            Some(data) => json::text_of(data, name),
            None => None,
        }
    }

    /// One number out of the data.
    pub open spec fn counts(self, name: Seq<char>) -> Option<u64> {
        match self.data {
            Some(data) => json::number_of(data, name),
            None => None,
        }
    }
}

impl RpcError {
    /// A failure with a known code and no data.
    pub fn new(code: ErrorCode, message: &str) -> (e: RpcError)
        ensures
            e@ == Failure::of(code, message@),
    {
        RpcError { code: Code::Known(code), message: message.to_owned(), data: None }
    }

    /// The same failure, carrying data.
    pub fn with_data(self, data: String) -> (e: RpcError)
        ensures
            e@ == (Failure { data: Some(data@), ..self@ }),
    {
        RpcError { code: self.code, message: self.message, data: Some(data) }
    }

    /// The same failure, with one string in its data. Every other string and
    /// number the data carried is kept; data that is no object is replaced.
    pub fn with_text(self, name: &str, value: &str) -> (e: RpcError)
        ensures
            e@.code == self@.code,
            e@.message == self@.message,
            e@.names(name@) == Some(value@),
            e@.data matches Some(data) && json::json_names(data) is Some,
            self@.data matches Some(data) && json::json_names(data) is Some ==> {
                &&& forall|other: Seq<char>|
                    other != name@ ==> #[trigger] e@.names(other) == self@.names(other)
                &&& forall|other: Seq<char>| #[trigger] e@.counts(other) == self@.counts(other)
                    || other == name@
            },
            json::held(e.data) == json::json_with(
                match self@.data {
                    Some(data) => if json::json_names(data) is Some {
                        data
                    } else {
                        "{}"@
                    },
                    None => "{}"@,
                },
                name@,
                value@,
            ),
    {
        let before = match &self.data {
            Some(data) => data.clone(),
            None => json::object(),
        };
        match json::with_text(before.as_str(), name, value) {
            Some(data) => RpcError { code: self.code, message: self.message, data: Some(data) },
            None => {
                let data = json::with_text(json::object().as_str(), name, value);
                RpcError { code: self.code, message: self.message, data }
            },
        }
    }

    /// A failure with a known code, and one string in its data.
    pub fn about(code: ErrorCode, message: &str, name: &str, value: &str) -> (e: RpcError)
        ensures
            e@ == Failure::about(code, message@, name@, value@),
            e@.names(name@) == Some(value@),
            e@.data matches Some(data) && json::json_names(data) is Some,
    {
        RpcError::new(code, message).with_text(name, value)
    }

    /// The code, when this crate knows it.
    pub fn kind(&self) -> (r: Option<ErrorCode>)
        ensures
            r == self@.kind(),
    {
        match self.code {
            Code::Known(code) => Some(code),
            Code::Other(_) => None,
        }
    }

    /// One string out of the data, when the code carries one.
    pub fn field(&self, name: &str) -> (r: Option<String>)
        ensures
            json::held(r) == self@.names(name@),
    {
        match &self.data {
            Some(data) => json::text_field(data.as_str(), name),
            None => None,
        }
    }

    /// One number out of the data.
    pub fn number(&self, name: &str) -> (r: Option<u64>)
        ensures
            r == self@.counts(name@),
    {
        match &self.data {
            Some(data) => json::number_field(data.as_str(), name),
            None => None,
        }
    }
}

/// A failure ends with the status of its code: two for a request that is wrong,
/// three for what this build cannot do, four for what is not there or is busy,
/// five for a credential, six for the provider, one hundred and thirty for an
/// interrupt, and one for a fault of this build or of the disk.
pub proof fn lemma_a_code_has_its_status(code: ErrorCode)
    ensures
        code.status() == 2 <==> code is ParseError || code is InvalidRequest
            || code is MethodNotFound || code is InvalidParams,
        code.status() == 3 <==> code is UnsupportedProtocolVersion || code is NotImplemented,
        code.status() == 4 <==> code is SessionNotFound || code is SessionBusy
            || code is ToolUnknown,
        code.status() == 5 <==> code is MissingCredential,
        code.status() == 6 <==> code is ProviderError,
        code.status() == 130 <==> code is Cancelled,
        code.status() == 1 <==> code is Internal || code is LogCorrupt || code is Io,
{
}

/// A failure keeps what it was made of: its code, its words, and what it is about.
pub proof fn lemma_a_failure_keeps_what_it_was_made_of(
    code: ErrorCode,
    message: Seq<char>,
    name: Seq<char>,
    value: Seq<char>,
)
    ensures
        Failure::of(code, message).kind() == Some(code),
        Failure::of(code, message).message == message,
        Failure::of(code, message).data is None,
        Failure::about(code, message, name, value).kind() == Some(code),
        Failure::about(code, message, name, value).message == message,
        Failure::about(code, message, name, value).data == json::json_with("{}"@, name, value),
{
}

/// What a failure names is what its data spells under that name, and without
/// data it names nothing. A code that is not known is of no kind.
pub proof fn lemma_a_failure_names_what_its_data_spells(
    error: Failure,
    name: Seq<char>,
    said: Seq<char>,
    n: u64,
)
    ensures
        error.data is None ==> error.names(name) is None && error.counts(name) is None,
        error.data matches Some(data) ==> {
            &&& json::spells(data, name, said) ==> error.names(name) == Some(said)
            &&& json::counts(data, name, n) ==> error.counts(name) == Some(n)
            &&& json::json_field(data, name) is None ==> error.names(name) is None
                && error.counts(name) is None
        },
        error.kind() is None <==> error.code is Other,
{
}

} // verus!
