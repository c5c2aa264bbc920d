//! Journals on disk: finding one, reading its lines, and what is said when it
//! cannot be read.
use vstd::prelude::*;
use vstd::string::*;

use crate::event;
use crate::event::{SessionEvent, StopReason};
use crate::json;
use crate::render::raw;
use crate::rpc;
use crate::rpc::{Code, ErrorCode, RpcError};
use crate::text;
use crate::text::trim;

verus! {

broadcast use crate::text::group_views;

/// Why a journal could not be read, in the words of whoever read it.
#[derive(Clone, Debug)]
pub enum JournalError {
    /// A line is not what a journal holds there.
    Corrupt { line: u64, said: String },
    /// The filesystem refused.
    Io(String),
    Other(String),
}

/// What a journal that could not be read is reported as. A corrupt journal and
/// an unreadable one are different codes, because they are different things
/// for the user to do.
pub open spec fn fault_of(error: JournalError, path: Seq<char>) -> rpc::Failure {
    match error {
        JournalError::Corrupt { line, said } => rpc::Failure {
            code: Code::Known(ErrorCode::LogCorrupt),
            message: said@,
            data: json::json_put("{}"@, "line"@, text::dec(line as nat)),
        },
        JournalError::Io(said) => rpc::Failure::about(ErrorCode::Io, said@, "path"@, path),
        JournalError::Other(said) => rpc::Failure::of(ErrorCode::Internal, said@),
    }
}

/// What a journal that could not be read is reported as.
pub fn journal_fault(error: &JournalError, path: &str) -> (e: RpcError)
    ensures
        e@ == fault_of(*error, path@),
        *error matches JournalError::Corrupt { line, .. } ==> e@.counts("line"@) == Some(line),
{
    match error {
        JournalError::Corrupt { line, said } => {
            let number = json::number_text(*line);
            let data = json::with_member(json::object().as_str(), "line", number.as_str());
            RpcError {
                code: Code::Known(ErrorCode::LogCorrupt),
                message: said.clone(),
                data,
            }
        },
        JournalError::Io(said) => RpcError::about(ErrorCode::Io, said.as_str(), "path", path),
        JournalError::Other(said) => RpcError::new(ErrorCode::Internal, said.as_str()),
    }
}

/// A journal the user named that is not there, and the root an id was looked
/// for under when the target was not a path.
pub open spec fn no_journal(path: Seq<char>, root: Option<Seq<char>>) -> rpc::Failure {
    let data = json::json_with("{}"@, "path"@, path);
    rpc::Failure {
        code: Code::Known(ErrorCode::SessionNotFound),
        message: "no journal at "@ + path,
        data: match root {
            Some(root) => json::json_with(data->0, "root"@, root),
            None => data,
        },
    }
}

/// A journal the user named that is not there.
pub fn missing_journal(path: &str, root: Option<&str>) -> (e: RpcError)
    ensures
        e@ == no_journal(
            path@,
            match root {
                Some(root) => Some(root@),
                None => None,
            },
        ),
        e@.names("path"@) == Some(path@),
        root matches Some(root) ==> e@.names("root"@) == Some(root@),
{
    proof {
        reveal_strlit("path");
        reveal_strlit("root");
        assert("path"@[0] != "root"@[0]);
    }
    let error = RpcError::about(
        ErrorCode::SessionNotFound,
        text::cat("no journal at ", path).as_str(),
        "path",
        path,
    );
    match root {
        Some(root) => error.with_text("root", root),
        None => error,
    }
}

/// Where a journal is kept, and the id it is offered to the store under.
/// `parent` is the directory its path names and `stem` its file's own name.
///
/// A named path is opened where it is, so its directory is the root: the one
/// the process stands in where the path names none. The file's name is offered
/// as the id only where the journal is to be `named`, which keeps an id the
/// list prints an id the store answers to; a store not offered one mints its
/// own.
pub fn journal_home(parent: Option<String>, stem: Option<String>, named: bool) -> (r: (
    String,
    Option<String>,
))
    ensures
        r.0@ == (match parent {
            Some(dir) => if dir@.len() == 0 {
                "."@
            } else {
                dir@
            },
            None => "."@,
        }),
        r.1 == (if named {
            stem
        } else {
            None
        }),
{
    let root = match parent {
        Some(dir) => if dir.as_str().is_empty() {
            ".".to_owned()
        } else {
            dir
        },
        None => ".".to_owned(),
    };
    let id = if named {
        stem
    } else {
        None
    };
    (root, id)
}

/// The same failure, with the file it is about named on it where it is the
/// filesystem's and names none. Nothing else of it is touched, and a path
/// already named is never written over.
pub open spec fn about_of(error: rpc::Failure, path: Seq<char>) -> rpc::Failure {
    if error.kind() != Some(ErrorCode::Io) {
        error
    } else {
        match error.data {
            None => rpc::Failure { data: json::json_with("{}"@, "path"@, path), ..error },
            Some(data) => if json::json_names(data) is Some && json::json_field(
                data,
                "path"@,
            ) is None {
                rpc::Failure { data: json::json_with(data, "path"@, path), ..error }
            } else {
                error
            },
        }
    }
}

/// The same failure, with the file it is about named on it.
pub fn about(error: RpcError, path: &str) -> (e: RpcError)
    ensures
        e@ == about_of(error@, path@),
{
    match error.kind() {
        Some(ErrorCode::Io) => {},
        _ => {
            return error;
        },
    }
    let unnamed = match &error.data {
        None => true,
        Some(data) => json::names(data.as_str()).is_some() && json::field(
            data.as_str(),
            "path",
        ).is_none(),
    };
    if unnamed {
        error.with_text("path", path)
    } else {
        error
    }
}

/// The lines of a journal that hold anything, each under its number in the
/// file, counted from one.
pub open spec fn numbered(lines: Seq<Seq<char>>) -> Seq<(nat, Seq<char>)>
    decreases lines.len(),
{
    if lines.len() == 0 {
        Seq::empty()
    } else {
        let before = numbered(lines.drop_last());
        if text::trimmed(lines.last()).len() == 0 {
            before
        } else {
            before.push((lines.len(), lines.last()))
        }
    }
}

/// Whether rows of the raw view are what these lines read as.
pub open spec fn read_as(rows: Seq<raw::Line>, lines: Seq<(nat, Seq<char>)>) -> bool {
    &&& rows.len() == lines.len()
    &&& forall|i: int|
        0 <= i < rows.len() ==> raw::reads_as(
            #[trigger] rows[i],
            lines[i].0 as usize,
            lines[i].1,
        )
}

/// Read a journal as text, one line at a time. A line that is not an event is
/// the raw view's to show under its number, not this reader's to refuse.
pub fn journal_lines(said: &str) -> (r: Vec<raw::Line>)
    ensures
        read_as(r@, numbered(text::lines_of(said@))),
{
    let lines = text::lines(said);
    let ghost all = text::views(lines@);
    let mut r: Vec<raw::Line> = Vec::new();
    let mut i: usize = 0;
    proof {
        assert(all.take(0) =~= Seq::<Seq<char>>::empty());
    }
    while i < lines.len()
        invariant
            i <= lines.len(),
            all == text::views(lines@),
            read_as(r@, numbered(all.take(i as int))),
        decreases lines.len() - i,
    {
        proof {
            assert(all.take(i + 1).drop_last() =~= all.take(i as int));
            assert(all.take(i + 1).last() == lines@[i as int]@);
        }
        if !trim(lines[i].as_str()).as_str().is_empty() {
            let ghost before = r@;
            r.push(raw::parse(i + 1, lines[i].as_str()));
            proof {
                assert forall|j: int| 0 <= j < r@.len() implies raw::reads_as(
                    #[trigger] r@[j],
                    numbered(all.take(i + 1))[j].0 as usize,
                    numbered(all.take(i + 1))[j].1,
                ) by {
                    if j < before.len() {
                        assert(r@[j] == before[j]);
                    }
                }
            }
        }
        i = i + 1;
    }
    proof {
        assert(all.take(i as int) =~= all);
    }
    r
}

/// Where reading would go on after a page that is the whole of a journal.
pub open spec fn next_seq_of(events: Seq<SessionEvent>) -> u64 {
    if events.len() == 0 {
        0
    } else {
        (events.last().seq + 1) as u64
    }
}

/// Where reading would go on after a page that is the whole of a journal.
pub fn next_seq(events: &Vec<SessionEvent>) -> (n: u64)
    requires
        events@.len() > 0 ==> events@.last().seq < u64::MAX,
    ensures
        n == next_seq_of(events@),
{
    if events.len() == 0 {
        0
    } else {
        events[events.len() - 1].seq + 1
    }
}

/// Why an engine's turn closed, in the engine's own words.
#[derive(Clone, Copy, Debug, PartialEq, Eq, Structural)]
pub enum TurnStop {
    Natural,
    PreStepRejected,
    MaxSteps,
    Cancelled,
    /// The provider stopped the completion at its output cap.
    MaxTokens,
    /// A later run found the journal left open.
    Interrupted,
}

/// A stop reason, carried across to the protocol's. The two the protocol does
/// not name cross under the engine's own word for them.
pub open spec fn reason_of(stop: TurnStop) -> event::Stop {
    match stop {
        TurnStop::Natural => event::Stop::Natural,
        TurnStop::PreStepRejected => event::Stop::PreStepRejected,
        TurnStop::MaxSteps => event::Stop::MaxSteps,
        TurnStop::Cancelled => event::Stop::Cancelled,
        TurnStop::MaxTokens => event::Stop::Other("max-tokens"@),
        TurnStop::Interrupted => event::Stop::Other("interrupted"@),
    }
}

/// A stop reason, carried across to the protocol's.
pub fn reason(stop: TurnStop) -> (r: StopReason)
    ensures
        r@ == reason_of(stop),
{
    match stop {
        TurnStop::Natural => StopReason::Natural,
        TurnStop::PreStepRejected => StopReason::PreStepRejected,
        TurnStop::MaxSteps => StopReason::MaxSteps,
        TurnStop::Cancelled => StopReason::Cancelled,
        TurnStop::MaxTokens => StopReason::Other("max-tokens".to_owned()),
        TurnStop::Interrupted => StopReason::Other("interrupted".to_owned()),
    }
}

/// A path the engine named is never written over, and only a failure of the
/// filesystem's gains one.
pub proof fn lemma_a_named_path_stands(error: rpc::Failure, path: Seq<char>)
    requires
        error.names("path"@) is Some || error.kind() != Some(ErrorCode::Io),
    ensures
        about_of(error, path) == error,
{
}

/// Every line that holds anything is read, in order and under a number of its
/// own: the numbers rise, and each is the place of its line.
pub proof fn lemma_every_line_keeps_its_number(lines: Seq<Seq<char>>)
    ensures
        forall|i: int|
            0 <= i < numbered(lines).len() ==> {
                let (number, line) = #[trigger] numbered(lines)[i];
                0 < number <= lines.len() && line == lines[number - 1] && text::trimmed(line).len()
                    > 0
            },
        forall|i: int, j: int|
            0 <= i < j < numbered(lines).len() ==> (#[trigger] numbered(lines)[i]).0 < (
            #[trigger] numbered(lines)[j]).0,
    decreases lines.len(),
{
    if lines.len() > 0 {
        let rest = lines.drop_last();
        lemma_every_line_keeps_its_number(rest);
        let before = numbered(rest);
        let all = numbered(lines);
        assert forall|i: int| 0 <= i < all.len() implies ({
            let (number, line) = #[trigger] all[i];
            0 < number <= lines.len() && line == lines[number - 1] && text::trimmed(line).len() > 0
        }) by {
            if i < before.len() {
                assert(all[i] == before[i]);
                let (number, line) = before[i];
                assert(rest[number - 1] == lines[number - 1]);
            }
        }
        assert forall|i: int, j: int| 0 <= i < j < all.len() implies (#[trigger] all[i]).0 < (
        #[trigger] all[j]).0 by {
            assert(all[i] == before[i]);
            if j < before.len() {
                assert(all[j] == before[j]);
            }
        }
    }
}

/// What is wrong with a journal is told in its own words and under its own code:
/// a line that is none by its number, what the disk refused by the path.
pub proof fn lemma_a_journal_fault_keeps_its_words(
    line: u64,
    said: String,
    path: Seq<char>,
)
    ensures
        ({
            let corrupt = fault_of(JournalError::Corrupt { line, said }, path);
            let disk = fault_of(JournalError::Io(said), path);
            let other = fault_of(JournalError::Other(said), path);
            &&& corrupt.kind() == Some(ErrorCode::LogCorrupt) && corrupt.message == said@
            &&& corrupt.data == json::json_put("{}"@, "line"@, text::dec(line as nat))
            &&& disk.kind() == Some(ErrorCode::Io) && disk.message == said@
            &&& disk.data == json::json_with("{}"@, "path"@, path)
            &&& other.kind() == Some(ErrorCode::Internal) && other.message == said@
            &&& other.data is None
        }),
{
}

/// A journal that is not there is told by its path, and by the root it was looked
/// for under where there was one.
pub proof fn lemma_a_missing_journal_is_told_by_its_path(path: Seq<char>, root: Option<Seq<char>>)
    ensures
        no_journal(path, root).kind() == Some(ErrorCode::SessionNotFound),
        no_journal(path, root).message == "no journal at "@ + path,
        root is None ==> no_journal(path, root).data == json::json_with("{}"@, "path"@, path),
        root matches Some(root) ==> no_journal(path, Some(root)).data == json::json_with(
            json::json_with("{}"@, "path"@, path)->0,
            "root"@,
            root,
        ),
{
}

/// A failure of the disk that names no path is given one, and keeps its code, its
/// words and the rest of its data.
pub proof fn lemma_a_disk_fault_is_given_its_path(error: rpc::Failure, path: Seq<char>)
    ensures
        about_of(error, path).code == error.code,
        about_of(error, path).message == error.message,
        error.kind() == Some(ErrorCode::Io) && error.data is None ==> about_of(error, path).data
            == json::json_with("{}"@, "path"@, path),
        error.kind() == Some(ErrorCode::Io) && (error.data matches Some(data) && json::json_names(
            data,
        ) is Some && json::json_field(data, "path"@) is None) ==> about_of(error, path).data
            == json::json_with(error.data->0, "path"@, path),
{
}

/// Every line that is not blank is read, under its place in the file: the lines
/// of a file with one more are those it had and that one, and a blank one counts
/// in the numbers and in nothing else.
pub proof fn lemma_a_blank_line_only_counts(lines: Seq<Seq<char>>, line: Seq<char>)
    ensures
        numbered(Seq::empty()) == Seq::<(nat, Seq<char>)>::empty(),
        text::trimmed(line).len() == 0 ==> numbered(lines.push(line)) == numbered(lines),
        text::trimmed(line).len() > 0 ==> numbered(lines.push(line)) == numbered(lines).push(
            (lines.len() + 1, line),
        ),
{
    assert(lines.push(line).drop_last() =~= lines);
}

/// The next event has the number after the last one's, and the first has nought.
pub proof fn lemma_events_are_numbered_on(events: Seq<SessionEvent>, event: SessionEvent)
    requires
        event.seq < u64::MAX,
    ensures
        next_seq_of(Seq::empty()) == 0,
        next_seq_of(events.push(event)) == event.seq + 1,
{
}

/// No two ways a turn may stop are written as the same reason.
pub proof fn lemma_ways_to_stop_stay_apart(a: TurnStop, b: TurnStop)
    ensures
        reason_of(a) == reason_of(b) ==> a == b,
        reason_of(TurnStop::Natural) is Natural,
        reason_of(TurnStop::PreStepRejected) is PreStepRejected,
        reason_of(TurnStop::MaxSteps) is MaxSteps,
        reason_of(TurnStop::Cancelled) is Cancelled,
        reason_of(TurnStop::MaxTokens) == event::Stop::Other("max-tokens"@),
        reason_of(TurnStop::Interrupted) == event::Stop::Other("interrupted"@),
{
    reveal_strlit("max-tokens");
    reveal_strlit("interrupted");
    assert("max-tokens"@.len() != "interrupted"@.len());
}

/// Whatever home a journal has is the directory it stands in, or the one at hand
/// where it stands in none; and it lends its own name to its session exactly where
/// it was asked to.
pub proof fn lemma_a_journal_stands_in_its_directory(
    parent: Option<String>,
    stem: Option<String>,
    named: bool,
    home: (String, Option<String>),
)
    requires
        call_ensures(journal_home, (parent, stem, named), home),
    ensures
        parent matches Some(dir) ==> dir@.len() > 0 ==> home.0@ == dir@,
        parent is None || parent->0@.len() == 0 ==> home.0@ == "."@,
        named ==> home.1 == stem,
        !named ==> home.1 is None,
{
}

/// Whatever is read of a journal is a row for each of its lines that is not blank,
/// in order.
pub proof fn lemma_a_journal_is_read_line_by_line(said: &str, rows: Vec<raw::Line>, i: int)
    requires
        call_ensures(journal_lines, (said,), rows),
    ensures
        rows@.len() == numbered(text::lines_of(said@)).len(),
        0 <= i < rows@.len() ==> ({
            let (number, line) = numbered(text::lines_of(said@))[i];
            raw::reads_as(rows@[i], number as usize, line)
        }),
{
}

/// Whatever number comes next is nought on an empty journal, and otherwise the one
/// after the last.
pub proof fn lemma_the_next_number_follows_the_last(events: &Vec<SessionEvent>, n: u64)
    requires
        call_ensures(next_seq, (events,), n),
        events@.len() > 0 ==> events@.last().seq < u64::MAX,
    ensures
        events@.len() == 0 ==> n == 0,
        events@.len() > 0 ==> n == events@.last().seq + 1,
{
}

} // verus!
