//! A failure, in the words a person needs and the status a script reads.
//!
//! A person needs to know what to do next, so a code whose data names the
//! variable, the path, the line or the tool says it, and adds the command that
//! fixes it. A script needs a number, and takes it from the protocol's table.
//! A code this crate does not know is reported as it arrived - the raw code
//! beside the server's own message - and exits 1.
//!
//! Nothing in a failure is drawn as it arrived: the terminal tames the two
//! sentences made here before it draws them.
use vstd::prelude::*;
use vstd::string::*;

use crate::json;
use crate::paint;
use crate::paint::{Charset, Line, Role};
use crate::render::rows;
use crate::rpc;
use crate::rpc::{Code, ErrorCode, RpcError};
use crate::text;
use crate::text::{contains, decimal};

verus! {

broadcast use {crate::text::group_views, crate::paint::group_rows};

/// What the data of a failure names.
#[derive(Clone, Debug)]
pub struct Facts {
    pub env: Option<String>,
    pub provider: Option<String>,
    pub status: Option<u64>,
    pub line: Option<u64>,
    pub path: Option<String>,
    pub root: Option<String>,
    pub session_id: Option<String>,
    pub name: Option<String>,
    pub method: Option<String>,
    pub server: Option<String>,
    pub client: Option<String>,
    pub field: Option<String>,
}

/// What the data of a failure names, by what it says.
pub struct Named {
    pub env: Option<Seq<char>>,
    pub provider: Option<Seq<char>>,
    pub status: Option<u64>,
    pub line: Option<u64>,
    pub path: Option<Seq<char>>,
    pub root: Option<Seq<char>>,
    pub session_id: Option<Seq<char>>,
    pub name: Option<Seq<char>>,
    pub method: Option<Seq<char>>,
    pub server: Option<Seq<char>>,
    pub client: Option<Seq<char>>,
    pub field: Option<Seq<char>>,
}

impl View for Facts {
    type V = Named;

    open spec fn view(&self) -> Named {
        Named {
            env: json::held(self.env),
            provider: json::held(self.provider),
            status: self.status,
            line: self.line,
            path: json::held(self.path),
            root: json::held(self.root),
            session_id: json::held(self.session_id),
            name: json::held(self.name),
            method: json::held(self.method),
            server: json::held(self.server),
            client: json::held(self.client),
            field: json::held(self.field),
        }
    }
}

/// What the data of a failure names.
pub open spec fn named(error: rpc::Failure) -> Named {
    Named {
        env: error.names("env"@),
        provider: error.names("provider"@),
        status: error.counts("status"@),
        line: error.counts("line"@),
        path: error.names("path"@),
        root: error.names("root"@),
        session_id: error.names("session_id"@),
        name: error.names("name"@),
        method: error.names("method"@),
        server: error.names("server"@),
        client: error.names("client"@),
        field: error.names("field"@),
    }
}

/// Read what the data of a failure names.
pub fn facts(error: &RpcError) -> (f: Facts)
    ensures
        f@ == named(error@),
{
    Facts {
        env: error.field("env"),
        provider: error.field("provider"),
        status: error.number("status"),
        line: error.number("line"),
        path: error.field("path"),
        root: error.field("root"),
        session_id: error.field("session_id"),
        name: error.field("name"),
        method: error.field("method"),
        server: error.field("server"),
        client: error.field("client"),
        field: error.field("field"),
    }
}

/// How a corrupt journal reads, wherever it is reported.
pub open spec fn corrupt_line(line: u64) -> Seq<char> {
    "the journal is not readable at line "@ + text::dec(line as nat)
}

/// How a corrupt journal reads, wherever it is reported.
pub fn corrupt_at(line: u64) -> (s: String)
    ensures
        s@ == corrupt_line(line),
{
    text::cat("the journal is not readable at line ", decimal(line).as_str())
}

/// The sentence a failure of a known code reads as.
pub open spec fn sentence_of(code: ErrorCode, message: Seq<char>, f: Named) -> Seq<char> {
    match code {
        ErrorCode::MissingCredential => match f.env {
            Some(env) => env + " is not set"@,
            None => message,
        },
        ErrorCode::ProviderError => match (f.provider, f.status) {
            (Some(provider), Some(status)) => provider + " answered "@ + text::dec(status as nat),
            (Some(provider), None) => provider + " could not be reached"@,
            _ => message,
        },
        ErrorCode::LogCorrupt => match f.line {
            Some(line) => corrupt_line(line),
            None => message,
        },
        ErrorCode::Io => match f.path {
            Some(path) => if text::holds(message, path) {
                message
            } else {
                path + ": "@ + message
            },
            None => message,
        },
        ErrorCode::SessionNotFound => match (f.path, f.session_id) {
            (Some(path), _) => "no journal at "@ + path,
            (None, Some(id)) => "no session "@ + id,
            (None, None) => message,
        },
        ErrorCode::SessionBusy => match f.session_id {
            Some(id) => "a turn is already running on "@ + id,
            None => message,
        },
        ErrorCode::ToolUnknown => match f.name {
            Some(name) => "this build has no tool called "@ + name,
            None => message,
        },
        ErrorCode::NotImplemented => match f.method {
            Some(method) => "this build does not serve "@ + method + " yet"@,
            None => message,
        },
        ErrorCode::UnsupportedProtocolVersion => match (f.server, f.client) {
            (Some(server), Some(client)) => "the server speaks protocol "@ + server
                + "; this build speaks "@ + client,
            _ => message,
        },
        ErrorCode::InvalidParams => match f.field {
            Some(field) => field + " is not acceptable: "@ + message,
            None => message,
        },
        ErrorCode::Cancelled => "interrupted"@,
        ErrorCode::Internal => message,
        ErrorCode::ParseError => message,
        ErrorCode::InvalidRequest => message,
        ErrorCode::MethodNotFound => message,
    }
}

/// The way out of a failure of a known code, when there is one.
pub open spec fn way_out_of(code: ErrorCode, f: Named) -> Option<Seq<char>> {
    match code {
        ErrorCode::MissingCredential => Some(
            "export it, or run with `--adapter mock` for an offline turn"@,
        ),
        ErrorCode::ProviderError => Some(
            "try again, or run with `--adapter mock` for an offline turn"@,
        ),
        ErrorCode::LogCorrupt => Some("read what is before it with `tetanus replay <path> --raw`"@),
        ErrorCode::SessionNotFound => Some(
            match (f.path, f.root) {
                (Some(_), Some(root)) => "nothing there, and nothing named that under "@ + root
                    + "; list what there is with `tetanus sessions`"@,
                (Some(_), None) =>
                    "check the path, or list what there is with `tetanus sessions`"@,
                (None, _) => "name the journal by path to open it again"@,
            },
        ),
        ErrorCode::SessionBusy => Some("wait for it to end, or stop it with Ctrl-C"@),
        ErrorCode::ToolUnknown => Some("list the tools it does have with `tetanus tools`"@),
        ErrorCode::UnsupportedProtocolVersion => Some(
            "use a tetanus build that matches the server"@,
        ),
        ErrorCode::InvalidParams => Some("`tetanus <command> --help` lists what each flag takes"@),
        ErrorCode::Io => None,
        ErrorCode::NotImplemented => None,
        ErrorCode::Cancelled => None,
        ErrorCode::Internal => None,
        ErrorCode::ParseError => None,
        ErrorCode::InvalidRequest => None,
        ErrorCode::MethodNotFound => None,
    }
}

/// A whole number in decimal, with its sign.
pub open spec fn signed_dec(n: int) -> Seq<char> {
    if n < 0 {
        "-"@ + text::dec((-n) as nat)
    } else {
        text::dec(n as nat)
    }
}

/// A whole number in decimal, with its sign.
pub fn signed(n: i64) -> (s: String)
    ensures
        s@ == signed_dec(n as int),
{
    if n < 0 {
        // One short of the magnitude, which always fits.
        let short: u64 = (-(n + 1)) as u64;
        text::cat("-", decimal(short + 1).as_str())
    } else {
        decimal(n as u64)
    }
}

/// The sentence a failure reads as, and the way out when there is one.
pub open spec fn said_of(error: rpc::Failure, f: Named) -> (Seq<char>, Option<Seq<char>>) {
    match error.code {
        Code::Other(code) => (
            error.message + " (error "@ + signed_dec(code as int) + ")"@,
            None,
        ),
        Code::Known(code) => (sentence_of(code, error.message, f), way_out_of(code, f)),
    }
}

fn sentence(code: ErrorCode, message: &str, f: &Facts) -> (s: String)
    ensures
        s@ == sentence_of(code, message@, f@),
{
    match code {
        ErrorCode::MissingCredential => match &f.env {
            Some(env) => text::cat(env.as_str(), " is not set"),
            None => message.to_owned(),
        },
        ErrorCode::ProviderError => match (&f.provider, f.status) {
            (Some(provider), Some(status)) => {
                let mut s = text::cat(provider.as_str(), " answered ");
                s.append(decimal(status).as_str());
                s
            },
            (Some(provider), None) => text::cat(provider.as_str(), " could not be reached"),
            _ => message.to_owned(),
        },
        ErrorCode::LogCorrupt => match f.line {
            Some(line) => corrupt_at(line),
            None => message.to_owned(),
        },
        ErrorCode::Io => match &f.path {
            // A sentence that names the path already needs no help, and naming
            // it twice reads as two paths.
            Some(path) => if contains(message, path.as_str()) {
                message.to_owned()
            } else {
                let mut s = text::cat(path.as_str(), ": ");
                s.append(message);
                s
            },
            None => message.to_owned(),
        },
        // A path the user typed and an id that has gone are different
        // mistakes: one is a typo to fix here, the other is a session to find
        // again.
        ErrorCode::SessionNotFound => match (&f.path, &f.session_id) {
            (Some(path), _) => text::cat("no journal at ", path.as_str()),
            (None, Some(id)) => text::cat("no session ", id.as_str()),
            (None, None) => message.to_owned(),
        },
        ErrorCode::SessionBusy => match &f.session_id {
            Some(id) => text::cat("a turn is already running on ", id.as_str()),
            None => message.to_owned(),
        },
        ErrorCode::ToolUnknown => match &f.name {
            Some(name) => text::cat("this build has no tool called ", name.as_str()),
            None => message.to_owned(),
        },
        ErrorCode::NotImplemented => match &f.method {
            Some(method) => {
                let mut s = text::cat("this build does not serve ", method.as_str());
                s.append(" yet");
                s
            },
            None => message.to_owned(),
        },
        ErrorCode::UnsupportedProtocolVersion => match (&f.server, &f.client) {
            (Some(server), Some(client)) => {
                let mut s = text::cat("the server speaks protocol ", server.as_str());
                s.append("; this build speaks ");
                s.append(client.as_str());
                s
            },
            _ => message.to_owned(),
        },
        ErrorCode::InvalidParams => match &f.field {
            Some(field) => {
                let mut s = text::cat(field.as_str(), " is not acceptable: ");
                s.append(message);
                s
            },
            None => message.to_owned(),
        },
        ErrorCode::Cancelled => "interrupted".to_owned(),
        ErrorCode::Internal => message.to_owned(),
        ErrorCode::ParseError => message.to_owned(),
        ErrorCode::InvalidRequest => message.to_owned(),
        ErrorCode::MethodNotFound => message.to_owned(),
    }
}

fn way_out(code: ErrorCode, f: &Facts) -> (r: Option<String>)
    ensures
        json::held(r) == way_out_of(code, f@),
{
    match code {
        ErrorCode::MissingCredential => Some(
            "export it, or run with `--adapter mock` for an offline turn".to_owned(),
        ),
        ErrorCode::ProviderError => Some(
            "try again, or run with `--adapter mock` for an offline turn".to_owned(),
        ),
        ErrorCode::LogCorrupt => Some(
            "read what is before it with `tetanus replay <path> --raw`".to_owned(),
        ),
        ErrorCode::SessionNotFound => Some(
            match (&f.path, &f.root) {
                (Some(_), Some(root)) => {
                    let mut s = text::cat(
                        "nothing there, and nothing named that under ",
                        root.as_str(),
                    );
                    s.append("; list what there is with `tetanus sessions`");
                    s
                },
                (Some(_), None) =>
                    "check the path, or list what there is with `tetanus sessions`".to_owned(),
                (None, _) => "name the journal by path to open it again".to_owned(),
            },
        ),
        ErrorCode::SessionBusy => Some("wait for it to end, or stop it with Ctrl-C".to_owned()),
        ErrorCode::ToolUnknown => Some(
            "list the tools it does have with `tetanus tools`".to_owned(),
        ),
        ErrorCode::UnsupportedProtocolVersion => Some(
            "use a tetanus build that matches the server".to_owned(),
        ),
        ErrorCode::InvalidParams => Some(
            "`tetanus <command> --help` lists what each flag takes".to_owned(),
        ),
        _ => None,
    }
}

/// The sentence a failure reads as and the way out when there is one, given
/// what its data names.
pub fn said_with(error: &RpcError, f: &Facts) -> (r: (String, Option<String>))
    ensures
        (r.0@, json::held(r.1)) == said_of(error@, f@),
{
    match error.code {
        Code::Other(code) => {
            let mut s = text::cat(error.message.as_str(), " (error ");
            s.append(signed(code).as_str());
            s.append(")");
            (s, None)
        },
        Code::Known(code) => (sentence(code, error.message.as_str(), f), way_out(code, f)),
    }
}

/// The sentence a failure reads as, and the way out when there is one.
///
/// Both are composed out of what an engine sent, so whoever draws them tames
/// them first.
pub fn said(error: &RpcError) -> (r: (String, Option<String>))
    ensures
        (r.0@, json::held(r.1)) == said_of(error@, named(error@)),
{
    said_with(error, &facts(error))
}

/// A failure always says something: where there is no data, the server's own
/// sentence is what is left of it. Only an interruption is said in one word,
/// whatever the server said of it.
pub proof fn lemma_no_data_falls_back(error: rpc::Failure)
    requires
        error.data is None,
        error.kind() matches Some(code) && code != ErrorCode::Cancelled,
    ensures
        said_of(error, named(error)).0 == error.message,
{
}

/// The status the process exits with, from the protocol's table. An unknown
/// code exits 1.
pub open spec fn status_of(error: rpc::Failure) -> u8 {
    match error.kind() {
        Some(code) => code.status(),
        None => 1,
    }
}

/// The status the process exits with, from the protocol's table.
pub fn status(error: &RpcError) -> (s: u8)
    ensures
        s == status_of(error@),
{
    match error.kind() {
        Some(code) => code.exit_status(),
        None => 1,
    }
}

/// No failure exits with the status of a command that did what was asked.
pub proof fn lemma_a_failure_never_exits_zero(error: rpc::Failure)
    ensures
        status_of(error) != 0,
{
}

/// The room the way out has when a failure is drawn as rows.
pub fn note_room(cols: usize) -> (r: usize)
    ensures
        r == if cols > 6 {
            (cols - 6) as usize
        } else {
            1
        },
{
    if cols > 6 {
        cols - 6
    } else {
        1
    }
}

/// One row of the way out, under the sentence it is about.
pub open spec fn note_row(row: Seq<char>) -> paint::Row {
    seq![rows::plain("    "@), (Role::Muted, row)]
}

/// A failure as rows of a transcript.
pub open spec fn fault_rows(
    charset: Charset,
    message: Seq<char>,
    note: Seq<Seq<char>>,
) -> Seq<paint::Row> {
    seq![
        seq![
            rows::plain("  "@),
            (Role::Error, paint::glyph_of(charset, "✗"@, "!"@)),
            rows::plain(" "@),
            (Role::Error, message),
        ],
    ] + note.map_values(|row: Seq<char>| note_row(row))
}

/// A failure as rows of a transcript, for a surface that has no stream to
/// report it on: the sentence behind the mark a failed tool call uses, and the
/// way out - as the terminal folded it - on the rows under it.
pub fn lines(charset: Charset, message: &str, note: &Vec<String>) -> (r: Vec<Line>)
    ensures
        paint::rows_of(r@) == fault_rows(charset, message@, text::views(note@)),
{
    let mut l = Line::of(Role::Plain, "  ");
    l.put(Role::Error, charset.glyph("✗", "!"));
    l.put(Role::Plain, " ");
    l.put(Role::Error, message);
    let ghost all = fault_rows(charset, message@, text::views(note@));
    proof {
        assert(l@ =~= all[0]);
    }
    let mut r = paint::only(l);
    let mut i: usize = 0;
    proof {
        assert(paint::rows_of(r@) =~= all.take(1));
    }
    while i < note.len()
        invariant
            i <= note.len(),
            all == fault_rows(charset, message@, text::views(note@)),
            paint::rows_of(r@) == all.take(i + 1),
        decreases note.len() - i,
    {
        let mut row = Line::of(Role::Plain, "    ");
        row.put(Role::Muted, note[i].as_str());
        proof {
            assert(row@ =~= note_row(note@[i as int]@));
            assert(all[i + 1] == note_row(note@[i as int]@));
            assert(all.take(i + 2) =~= all.take(i + 1).push(all[i + 1]));
        }
        r.push(row);
        i = i + 1;
    }
    proof {
        assert(all.take(i + 1) =~= all);
    }
    r
}

/// A failure is told by what its data names, where it names what the sentence
/// needs: a credential by its variable, a provider by its name and its answer, a
/// journal by its line or its path, a session by its id, a tool and a method by
/// their names, the versions by both, a parameter by its field.
pub proof fn lemma_a_failure_is_told_by_what_it_names(
    message: Seq<char>,
    f: Named,
    named: Seq<char>,
    other: Seq<char>,
    n: u64,
)
    ensures
        f.env == Some(named) ==> sentence_of(ErrorCode::MissingCredential, message, f) == named
            + " is not set"@,
        f.provider == Some(named) && f.status == Some(n) ==> sentence_of(
            ErrorCode::ProviderError,
            message,
            f,
        ) == named + " answered "@ + text::dec(n as nat),
        f.provider == Some(named) && f.status is None ==> sentence_of(
            ErrorCode::ProviderError,
            message,
            f,
        ) == named + " could not be reached"@,
        f.line == Some(n) ==> sentence_of(ErrorCode::LogCorrupt, message, f)
            == "the journal is not readable at line "@ + text::dec(n as nat),
        f.path == Some(named) ==> sentence_of(ErrorCode::SessionNotFound, message, f)
            == "no journal at "@ + named,
        f.path is None && f.session_id == Some(named) ==> sentence_of(
            ErrorCode::SessionNotFound,
            message,
            f,
        ) == "no session "@ + named,
        f.session_id == Some(named) ==> sentence_of(ErrorCode::SessionBusy, message, f)
            == "a turn is already running on "@ + named,
        f.name == Some(named) ==> sentence_of(ErrorCode::ToolUnknown, message, f)
            == "this build has no tool called "@ + named,
        f.method == Some(named) ==> sentence_of(ErrorCode::NotImplemented, message, f)
            == "this build does not serve "@ + named + " yet"@,
        f.server == Some(named) && f.client == Some(other) ==> sentence_of(
            ErrorCode::UnsupportedProtocolVersion,
            message,
            f,
        ) == "the server speaks protocol "@ + named + "; this build speaks "@ + other,
        f.field == Some(named) ==> sentence_of(ErrorCode::InvalidParams, message, f) == named
            + " is not acceptable: "@ + message,
        sentence_of(ErrorCode::Cancelled, message, f) == "interrupted"@,
{
}

/// A fault of the disk is told with its path, once: before the message where the
/// message does not hold it, and as the message is where it does.
pub proof fn lemma_a_disk_fault_is_told_with_its_path(message: Seq<char>, f: Named, path: Seq<char>)
    requires
        f.path == Some(path),
    ensures
        text::holds(message, path) ==> sentence_of(ErrorCode::Io, message, f) == message,
        !text::holds(message, path) ==> sentence_of(ErrorCode::Io, message, f) == path + ": "@
            + message,
        text::holds(sentence_of(ErrorCode::Io, message, f), path),
{
    if !text::holds(message, path) {
        text::lemma_a_part_is_held_wherever_it_stands(
            Seq::empty(),
            path,
            ": "@ + message,
            message,
        );
        assert(Seq::<char>::empty() + path + (": "@ + message) =~= path + ": "@ + message);
    }
}

/// What data does not name is not told: then the message stands as it is.
pub proof fn lemma_the_message_stands_where_nothing_is_named(
    code: ErrorCode,
    message: Seq<char>,
    f: Named,
)
    requires
        code != ErrorCode::Cancelled,
        f.env is None,
        f.provider is None,
        f.line is None,
        f.path is None,
        f.session_id is None,
        f.name is None,
        f.method is None,
        f.server is None,
        f.field is None,
    ensures
        sentence_of(code, message, f) == message,
{
}

/// There is a way out of what a reader can do something about and of nothing
/// else, and each is its own: where a journal is missing it depends on what was
/// looked for.
pub proof fn lemma_each_fault_has_its_way_out(code: ErrorCode, f: Named, root: Seq<char>)
    ensures
        way_out_of(code, f) is None <==> code is Io || code is NotImplemented || code is Cancelled
            || code is Internal || code is ParseError || code is InvalidRequest
            || code is MethodNotFound,
        way_out_of(ErrorCode::MissingCredential, f) == Some(
            "export it, or run with `--adapter mock` for an offline turn"@,
        ),
        way_out_of(ErrorCode::ProviderError, f) == Some(
            "try again, or run with `--adapter mock` for an offline turn"@,
        ),
        way_out_of(ErrorCode::LogCorrupt, f) == Some(
            "read what is before it with `tetanus replay <path> --raw`"@,
        ),
        way_out_of(ErrorCode::SessionBusy, f) == Some(
            "wait for it to end, or stop it with Ctrl-C"@,
        ),
        way_out_of(ErrorCode::ToolUnknown, f) == Some(
            "list the tools it does have with `tetanus tools`"@,
        ),
        way_out_of(ErrorCode::UnsupportedProtocolVersion, f) == Some(
            "use a tetanus build that matches the server"@,
        ),
        way_out_of(ErrorCode::InvalidParams, f) == Some(
            "`tetanus <command> --help` lists what each flag takes"@,
        ),
        f.path is Some && f.root == Some(root) ==> way_out_of(ErrorCode::SessionNotFound, f)
            == Some(
            "nothing there, and nothing named that under "@ + root
                + "; list what there is with `tetanus sessions`"@,
        ),
        f.path is Some && f.root is None ==> way_out_of(ErrorCode::SessionNotFound, f) == Some(
            "check the path, or list what there is with `tetanus sessions`"@,
        ),
        f.path is None ==> way_out_of(ErrorCode::SessionNotFound, f) == Some(
            "name the journal by path to open it again"@,
        ),
{
}

/// A failure of a code that is not known is told in its own words with the code,
/// and there is no way out of it; one that is known is told by its code.
pub proof fn lemma_an_unknown_code_is_told_with_its_number(
    error: rpc::Failure,
    f: Named,
    code: i64,
    known: ErrorCode,
)
    ensures
        error.code == Code::Other(code) ==> said_of(error, f) == (
            error.message + " (error "@ + signed_dec(code as int) + ")"@,
            None::<Seq<char>>,
        ) && status_of(error) == 1,
        error.code == Code::Known(known) ==> said_of(error, f) == (
            sentence_of(known, error.message, f),
            way_out_of(known, f),
        ) && status_of(error) == known.status(),
{
}

/// A number is told with its sign, and reads back.
pub proof fn lemma_a_signed_number_reads_back(n: nat)
    ensures
        signed_dec(n as int) == text::dec(n),
        n > 0 ==> signed_dec(-(n as int)) == "-"@ + text::dec(n),
        text::spelt(signed_dec(n as int)) == n,
{
    text::lemma_decimals_read_back(n);
}

/// What a failure names is read out of its data, each name for itself.
pub proof fn lemma_each_name_is_read_for_itself(error: rpc::Failure)
    ensures
        named(error).env == error.names("env"@),
        named(error).provider == error.names("provider"@),
        named(error).status == error.counts("status"@),
        named(error).line == error.counts("line"@),
        named(error).path == error.names("path"@),
        named(error).root == error.names("root"@),
        named(error).session_id == error.names("session_id"@),
        named(error).name == error.names("name"@),
        named(error).method == error.names("method"@),
        named(error).server == error.names("server"@),
        named(error).client == error.names("client"@),
        named(error).field == error.names("field"@),
{
}

/// A fault is drawn as its message behind a mark, and the way out under it, row by
/// row and whole.
pub proof fn lemma_a_fault_is_drawn_whole(
    charset: Charset,
    message: Seq<char>,
    note: Seq<Seq<char>>,
    i: int,
)
    ensures
        ({
            let rows = fault_rows(charset, message, note);
            &&& rows.len() == note.len() + 1
            &&& rows[0].last() == (Role::Error, message)
            &&& rows[0][1] == (
                Role::Error,
                if charset is Unicode {
                    "✗"@
                } else {
                    "!"@
                },
            )
            &&& 0 <= i < note.len() ==> rows[i + 1] == seq![
                rows::plain("    "@),
                (Role::Muted, note[i]),
            ]
        }),
{
}

} // verus!
