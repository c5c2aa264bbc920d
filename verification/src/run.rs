//! One turn run headlessly: each step of it, from what the last one came to.
//!
//! What can be refused is refused before the journal exists: a view with no
//! screen, a prompt that cannot be sent, settings that cannot be run on, a
//! provider that cannot be reached.
use vstd::prelude::*;
use vstd::string::*;

use crate::command;
use crate::journal;
use crate::journal::JournalError;
use crate::paint;
use crate::paint::{Line, Role};
use crate::render::cell;
use crate::render::fault;
use crate::render::rows;
use crate::rpc;
use crate::rpc::{ErrorCode, RpcError};
use crate::settings;
use crate::settings::Reported;
use crate::text;
use crate::text::{decimal, spaces};

verus! {

/// How a run is asked to show its turn.
#[derive(Clone, Copy, Debug, PartialEq, Eq, Structural)]
pub struct Shown {
    pub trace: bool,
    pub json: bool,
    pub ui: bool,
}

/// How a turn is watched while it runs.
#[derive(Clone, Copy, Debug, PartialEq, Eq, Structural)]
pub enum Watch {
    /// Behind a status line: the trace is printed afterwards, so nothing may
    /// be written above it.
    Progress,
    /// Every event as a line of JSON.
    Json,
    /// On a screen of its own.
    Page,
    /// In a block under the prompt.
    Live,
}

/// How a turn is watched while it runs.
pub open spec fn watch_of(shown: Shown) -> Watch {
    if shown.trace {
        Watch::Progress
    } else if shown.json {
        Watch::Json
    } else if shown.ui {
        Watch::Page
    } else {
        Watch::Live
    }
}

/// Whether a way of watching draws the turn on stdout.
pub open spec fn drawn_by(watch: Watch, terminal: bool) -> bool {
    match watch {
        Watch::Progress => false,
        Watch::Json => false,
        Watch::Page => true,
        Watch::Live => terminal,
    }
}

/// Whether a way of watching draws the turn on stdout.
pub fn drawn(watch: Watch, terminal: bool) -> (r: bool)
    ensures
        r == drawn_by(watch, terminal),
{
    match watch {
        Watch::Progress => false,
        Watch::Json => false,
        Watch::Page => true,
        Watch::Live => terminal,
    }
}

/// What is printed once a turn is over.
#[derive(Clone, Copy, Debug, PartialEq, Eq, Structural)]
pub enum Print {
    /// The event sequence, the turn's figures and its answer, and where the
    /// journal went.
    Trace,
    /// The call's result, and nothing after it.
    Json,
    /// The answer once more, because the screen it was read on is gone, and
    /// where the journal went.
    Answer,
    /// Where the journal went.
    Journal,
}

/// What is printed once a turn is over.
pub open spec fn print_of(shown: Shown) -> Print {
    if shown.json {
        Print::Json
    } else if shown.trace {
        Print::Trace
    } else if shown.ui {
        Print::Answer
    } else {
        Print::Journal
    }
}

/// How a run ends.
#[derive(Debug)]
pub enum Ending {
    Printed(Print),
    Failed(RpcError),
    Reported(Reported),
    /// The user stopped it. Where the journal went is still worth saying,
    /// except to a script that asked for a result and gets none.
    Stopped { journal: bool },
}

/// How a run ends, by what it says.
pub enum Close {
    Printed(Print),
    Failed(rpc::Failure),
    Reported(settings::Told),
    Stopped(bool),
}

impl View for Ending {
    type V = Close;

    open spec fn view(&self) -> Close {
        match self {
            Ending::Printed(print) => Close::Printed(*print),
            Ending::Failed(error) => Close::Failed(error@),
            Ending::Reported(told) => Close::Reported(told@),
            Ending::Stopped { journal } => Close::Stopped(*journal),
        }
    }
}

/// The next thing to do.
#[derive(Debug)]
pub enum Action {
    /// Read the prompt.
    Ask,
    /// Settle what the turn runs on.
    Settle,
    /// Resolve the adapter and its model.
    Adapt,
    /// Create the session, under the journal's own name or under one the store
    /// mints.
    Open { named: bool },
    /// Open the journal to append to it.
    Log,
    /// Put the engine together.
    Boot,
    /// Run the turn, watched this way.
    Work(Watch),
    /// See the journal onto the disk.
    Flush,
    End(Ending),
}

/// The next thing to do, by what it says.
pub enum Act {
    Ask,
    Settle,
    Adapt,
    Open(bool),
    Log,
    Boot,
    Work(Watch),
    Flush,
    End(Close),
}

impl View for Action {
    type V = Act;

    open spec fn view(&self) -> Act {
        match self {
            Action::Ask => Act::Ask,
            Action::Settle => Act::Settle,
            Action::Adapt => Act::Adapt,
            Action::Open { named } => Act::Open(*named),
            Action::Log => Act::Log,
            Action::Boot => Act::Boot,
            Action::Work(watch) => Act::Work(*watch),
            Action::Flush => Act::Flush,
            Action::End(ending) => Act::End(ending@),
        }
    }
}

/// Where a run stands, by what it was last asked to do.
#[derive(Clone, Copy, Debug, PartialEq, Eq, Structural)]
pub enum Phase {
    Asking,
    Settling,
    Adapting,
    OpeningNamed,
    OpeningAnonymous,
    Logging,
    Booting,
    Working,
    Flushing,
    Over,
}

/// What a step came to.
#[derive(Debug)]
pub enum Event {
    /// It did what was asked.
    Done,
    /// It failed with a protocol code.
    Failed(RpcError),
    /// It failed, and the report is worded.
    Reported(Reported),
    /// It failed with a sentence of this build's own.
    Said(String),
    /// The journal could not be opened.
    Unlogged(JournalError),
    /// The user stopped it.
    Stopped,
}

/// What follows a step that did what was asked.
pub open spec fn onward(phase: Phase, shown: Shown) -> (Phase, Act) {
    match phase {
        Phase::Asking => (Phase::Settling, Act::Settle),
        Phase::Settling => (Phase::Adapting, Act::Adapt),
        Phase::Adapting => (Phase::OpeningNamed, Act::Open(true)),
        Phase::OpeningNamed | Phase::OpeningAnonymous => (Phase::Logging, Act::Log),
        Phase::Logging => (Phase::Booting, Act::Boot),
        Phase::Booting => (Phase::Working, Act::Work(watch_of(shown))),
        Phase::Working => (Phase::Flushing, Act::Flush),
        Phase::Flushing => (Phase::Over, Act::End(Close::Printed(print_of(shown)))),
        Phase::Over => (Phase::Over, Act::End(Close::Printed(print_of(shown)))),
    }
}

/// What follows a step that failed with a protocol code. A name the store will
/// not take as an id is not an error: the run is about the turn, so the store
/// mints one. A failure to open the journal names the file.
pub open spec fn refused(phase: Phase, path: Seq<char>, error: rpc::Failure) -> (Phase, Act) {
    match phase {
        Phase::OpeningNamed => if error.kind() == Some(ErrorCode::InvalidParams) {
            (Phase::OpeningAnonymous, Act::Open(false))
        } else {
            (Phase::Over, Act::End(Close::Failed(journal::about_of(error, path))))
        },
        Phase::OpeningAnonymous => (
            Phase::Over,
            Act::End(Close::Failed(journal::about_of(error, path))),
        ),
        _ => (Phase::Over, Act::End(Close::Failed(error))),
    }
}

/// What a run does after a step. `path` is the file its journal is.
pub open spec fn after(phase: Phase, shown: Shown, path: Seq<char>, event: Event) -> (Phase, Act) {
    match event {
        Event::Done => onward(phase, shown),
        Event::Failed(error) => refused(phase, path, error@),
        Event::Reported(told) => (Phase::Over, Act::End(Close::Reported(told@))),
        Event::Said(why) => (
            Phase::Over,
            Act::End(
                Close::Reported(
                    settings::Told {
                        message: why@,
                        note: None,
                        status: ErrorCode::Internal.status(),
                    },
                ),
            ),
        ),
        Event::Unlogged(error) => (
            Phase::Over,
            Act::End(Close::Failed(journal::fault_of(error, path))),
        ),
        Event::Stopped => (Phase::Over, Act::End(Close::Stopped(!shown.json))),
    }
}

/// What a run does first.
pub open spec fn first(shown: Shown, terminal: bool) -> (Phase, Act) {
    if shown.ui && !terminal {
        (Phase::Over, Act::End(Close::Failed(command::no_screen())))
    } else {
        (Phase::Asking, Act::Ask)
    }
}

/// The status a run exits with.
pub open spec fn exits(close: Close) -> u8 {
    match close {
        Close::Printed(_) => 0,
        Close::Failed(error) => fault::status_of(error),
        Close::Reported(told) => told.status,
        Close::Stopped(_) => ErrorCode::Cancelled.status(),
    }
}

/// A run under way.
#[derive(Debug)]
pub struct Run {
    shown: Shown,
    phase: Phase,
}

impl Run {
    pub closed spec fn shown(&self) -> Shown {
        self.shown
    }

    pub closed spec fn phase(&self) -> Phase {
        self.phase
    }

    /// Begin a run. `terminal` is whether there is a screen to draw on.
    pub fn start(shown: Shown, terminal: bool) -> (r: (Run, Action))
        ensures
            r.0.shown() == shown,
            (r.0.phase(), r.1@) == first(shown, terminal),
    {
        if shown.ui && !terminal {
            (
                Run { shown, phase: Phase::Over },
                Action::End(Ending::Failed(command::nowhere_to_draw())),
            )
        } else {
            (Run { shown, phase: Phase::Asking }, Action::Ask)
        }
    }

    fn watch(&self) -> (w: Watch)
        ensures
            w == watch_of(self.shown()),
    {
        if self.shown.trace {
            Watch::Progress
        } else if self.shown.json {
            Watch::Json
        } else if self.shown.ui {
            Watch::Page
        } else {
            Watch::Live
        }
    }

    fn print(&self) -> (p: Print)
        ensures
            p == print_of(self.shown()),
    {
        if self.shown.json {
            Print::Json
        } else if self.shown.trace {
            Print::Trace
        } else if self.shown.ui {
            Print::Answer
        } else {
            Print::Journal
        }
    }

    fn onward(&self) -> (r: (Phase, Action))
        ensures
            (r.0, r.1@) == onward(self.phase(), self.shown()),
    {
        match self.phase {
            Phase::Asking => (Phase::Settling, Action::Settle),
            Phase::Settling => (Phase::Adapting, Action::Adapt),
            Phase::Adapting => (Phase::OpeningNamed, Action::Open { named: true }),
            Phase::OpeningNamed | Phase::OpeningAnonymous => (Phase::Logging, Action::Log),
            Phase::Logging => (Phase::Booting, Action::Boot),
            Phase::Booting => (Phase::Working, Action::Work(self.watch())),
            Phase::Working => (Phase::Flushing, Action::Flush),
            Phase::Flushing => (Phase::Over, Action::End(Ending::Printed(self.print()))),
            Phase::Over => (Phase::Over, Action::End(Ending::Printed(self.print()))),
        }
    }

    fn refused(&self, path: &str, error: RpcError) -> (r: (Phase, Action))
        ensures
            (r.0, r.1@) == refused(self.phase(), path@, error@),
    {
        let invalid = match error.kind() {
            Some(ErrorCode::InvalidParams) => true,
            _ => false,
        };
        match self.phase {
            Phase::OpeningNamed => if invalid {
                (Phase::OpeningAnonymous, Action::Open { named: false })
            } else {
                (Phase::Over, Action::End(Ending::Failed(journal::about(error, path))))
            },
            Phase::OpeningAnonymous => (
                Phase::Over,
                Action::End(Ending::Failed(journal::about(error, path))),
            ),
            _ => (Phase::Over, Action::End(Ending::Failed(error))),
        }
    }

    /// What to do now that the last step came to this. `path` is the file the
    /// journal is, once that is settled.
    pub fn next(&mut self, path: &str, event: Event) -> (action: Action)
        ensures
            final(self).shown() == old(self).shown(),
            (final(self).phase(), action@) == after(
                old(self).phase(),
                old(self).shown(),
                path@,
                event,
            ),
    {
        let (phase, action) = match event {
            Event::Done => self.onward(),
            Event::Failed(error) => self.refused(path, error),
            Event::Reported(told) => (Phase::Over, Action::End(Ending::Reported(told))),
            Event::Said(why) => (
                Phase::Over,
                Action::End(Ending::Reported(settings::report(why.as_str()))),
            ),
            Event::Unlogged(error) => (
                Phase::Over,
                Action::End(Ending::Failed(journal::journal_fault(&error, path))),
            ),
            Event::Stopped => (
                Phase::Over,
                Action::End(Ending::Stopped { journal: !self.shown.json }),
            ),
        };
        self.phase = phase;
        action
    }
}

/// The status a run exits with.
pub fn exit_status(ending: &Ending) -> (s: u8)
    ensures
        s == exits(ending@),
{
    match ending {
        Ending::Printed(_) => 0,
        Ending::Failed(error) => fault::status(error),
        Ending::Reported(told) => told.status,
        Ending::Stopped { .. } => ErrorCode::Cancelled.exit_status(),
    }
}

/// One entry of the event sequence. An entry with no place in the journal
/// leaves the column blank.
pub open spec fn trace_of(
    place: nat,
    seq: Option<u64>,
    topic: Seq<char>,
    data: Option<Seq<char>>,
) -> paint::Row {
    let index = seq![
        rows::plain(cell::pad_of(text::dec(place).len(), 4) + text::dec(place) + "  "@),
    ];
    let number = match seq {
        Some(seq) => seq![
            rows::plain(cell::pad_of(text::dec(seq as nat).len(), 4)),
            (Role::Number, text::dec(seq as nat)),
        ],
        None => seq![rows::plain(text::blanks(4))],
    };
    let said = seq![rows::plain("  "@), (Role::Topic, topic)];
    let rest = match data {
        Some(data) => seq![rows::plain("  "@ + data)],
        None => Seq::empty(),
    };
    index + number + said + rest
}

/// One entry of the event sequence.
pub fn trace_row(place: usize, seq: Option<u64>, topic: &str, data: Option<&str>) -> (l: Line)
    ensures
        l@ == trace_of(
            place as nat,
            seq,
            topic@,
            match data {
                Some(data) => Some(data@),
                None => None,
            },
        ),
{
    let named = decimal(place as u64);
    let mut index = cell::pad(named.as_str().unicode_len(), 4);
    index.append(named.as_str());
    index.append("  ");
    let mut l = Line::of(Role::Plain, index.as_str());
    match seq {
        Some(seq) => {
            let number = decimal(seq);
            l.put(Role::Plain, cell::pad(number.as_str().unicode_len(), 4).as_str());
            l.put(Role::Number, number.as_str());
        },
        None => {
            l.put(Role::Plain, spaces(4).as_str());
        },
    }
    l.put(Role::Plain, "  ");
    l.put(Role::Topic, topic);
    if let Some(data) = data {
        l.put(Role::Plain, text::cat("  ", data).as_str());
    }
    proof {
        assert(l@ =~= trace_of(
            place as nat,
            seq,
            topic@,
            match data {
                Some(data) => Some(data@),
                None => None,
            },
        ));
    }
    l
}

// ---- laws ----

/// What fails before the journal is opened leaves none behind: no failure of
/// the first steps leads to opening one.
pub proof fn lemma_a_refusal_opens_nothing(
    phase: Phase,
    shown: Shown,
    path: Seq<char>,
    event: Event,
)
    requires
        phase is Asking || phase is Settling || phase is Adapting,
        !(event is Done),
    ensures
        after(phase, shown, path, event).1 is End,
        after(phase, shown, path, event).0 is Over,
{
}

/// The journal is opened under its own name first, and once more without it
/// where the store would not take the name; never a third time.
pub proof fn lemma_the_name_is_offered_once(
    shown: Shown,
    path: Seq<char>,
    error: RpcError,
)
    ensures
        after(Phase::OpeningNamed, shown, path, Event::Failed(error)).1 is Open
            <==> error@.kind() == Some(ErrorCode::InvalidParams),
        after(Phase::OpeningAnonymous, shown, path, Event::Failed(error)).1 is End,
{
}

/// A run that was stopped exits as an interrupted command, and says where the
/// journal went unless a script is reading.
pub proof fn lemma_a_stopped_run(phase: Phase, shown: Shown, path: Seq<char>)
    ensures
        after(phase, shown, path, Event::Stopped).1 == Act::End(Close::Stopped(!shown.json)),
        exits(Close::Stopped(!shown.json)) == 130,
{
}

/// The result is the last thing a script reads: with `--json` nothing else is
/// printed when a turn is over.
pub proof fn lemma_nothing_follows_the_result(shown: Shown)
    requires
        shown.json,
    ensures
        onward(Phase::Flushing, shown).1 == Act::End(Close::Printed(Print::Json)),
{
}

/// A run reaches its end: every step either ends it or leads to a later one.
pub proof fn lemma_every_step_goes_on(phase: Phase, shown: Shown, path: Seq<char>, event: Event)
    requires
        !(phase is Over),
    ensures
        place(after(phase, shown, path, event).0) > place(phase),
{
}

/// How far along a run is.
pub open spec fn place(phase: Phase) -> nat {
    match phase {
        Phase::Asking => 0,
        Phase::Settling => 1,
        Phase::Adapting => 2,
        Phase::OpeningNamed => 3,
        Phase::OpeningAnonymous => 4,
        Phase::Logging => 5,
        Phase::Booting => 6,
        Phase::Working => 7,
        Phase::Flushing => 8,
        Phase::Over => 9,
    }
}

/// A run that meets nothing in its way goes through every step in order: it asks,
/// settles, adapts, opens the session under the journal's name, opens the journal,
/// boots, works, flushes and prints.
pub proof fn lemma_a_run_goes_step_by_step(shown: Shown, path: Seq<char>)
    ensures
        first(shown, true) == (Phase::Asking, Act::Ask),
        after(Phase::Asking, shown, path, Event::Done) == (Phase::Settling, Act::Settle),
        after(Phase::Settling, shown, path, Event::Done) == (Phase::Adapting, Act::Adapt),
        after(Phase::Adapting, shown, path, Event::Done) == (Phase::OpeningNamed, Act::Open(true)),
        after(Phase::OpeningNamed, shown, path, Event::Done) == (Phase::Logging, Act::Log),
        after(Phase::OpeningAnonymous, shown, path, Event::Done) == (Phase::Logging, Act::Log),
        after(Phase::Logging, shown, path, Event::Done) == (Phase::Booting, Act::Boot),
        after(Phase::Booting, shown, path, Event::Done) == (
            Phase::Working,
            Act::Work(watch_of(shown)),
        ),
        after(Phase::Working, shown, path, Event::Done) == (Phase::Flushing, Act::Flush),
        after(Phase::Flushing, shown, path, Event::Done) == (
            Phase::Over,
            Act::End(Close::Printed(print_of(shown))),
        ),
{
}

/// A turn is watched behind a status line where its trace is asked for, as lines
/// of JSON where only those are, on a screen where only that is, and live where
/// nothing is asked for.
pub proof fn lemma_a_turn_is_watched_as_asked(shown: Shown)
    ensures
        watch_of(shown) is Progress <==> shown.trace,
        watch_of(shown) is Json <==> shown.json && !shown.trace,
        watch_of(shown) is Page <==> shown.ui && !shown.json && !shown.trace,
        watch_of(shown) is Live <==> !shown.ui && !shown.json && !shown.trace,
{
}

/// What is printed at the end is the result alone where JSON is asked for, else
/// the trace where that is, else the answer where it was read on a screen, and
/// else where the journal went.
pub proof fn lemma_a_turn_is_printed_as_asked(shown: Shown)
    ensures
        print_of(shown) is Json <==> shown.json,
        print_of(shown) is Trace <==> shown.trace && !shown.json,
        print_of(shown) is Answer <==> shown.ui && !shown.trace && !shown.json,
        print_of(shown) is Journal <==> !shown.ui && !shown.trace && !shown.json,
{
}

/// A turn is drawn on the terminal's output where it has a screen of its own, and
/// where it is live on a terminal, and nowhere else.
pub proof fn lemma_only_a_screen_draws_over_the_output(watch: Watch, terminal: bool)
    ensures
        drawn_by(watch, terminal) <==> watch is Page || (watch is Live && terminal),
{
}

/// A screen needs a terminal, and nothing is begun without one.
pub proof fn lemma_a_screen_needs_a_terminal(shown: Shown, terminal: bool)
    ensures
        first(shown, terminal).1 is End <==> shown.ui && !terminal,
        first(shown, terminal).1 is End ==> first(shown, terminal) == (
            Phase::Over,
            Act::End(Close::Failed(command::no_screen())),
        ),
{
}

/// What stopped a run is what it ends with: a failure as it came, but with the
/// path of the journal where the session could not be opened; a report as it was
/// worded; a sentence of this build's own as a fault of it; a journal that could
/// not be opened by what was wrong with it.
pub proof fn lemma_a_run_ends_with_what_stopped_it(
    phase: Phase,
    shown: Shown,
    path: Seq<char>,
    error: RpcError,
    told: Reported,
    why: String,
    fault: JournalError,
)
    ensures
        !(phase is OpeningNamed) && !(phase is OpeningAnonymous) ==> after(
            phase,
            shown,
            path,
            Event::Failed(error),
        ) == (Phase::Over, Act::End(Close::Failed(error@))),
        phase is OpeningAnonymous || (phase is OpeningNamed && error@.kind() != Some(
            ErrorCode::InvalidParams,
        )) ==> after(phase, shown, path, Event::Failed(error)) == (
            Phase::Over,
            Act::End(Close::Failed(journal::about_of(error@, path))),
        ),
        phase is OpeningNamed && error@.kind() == Some(ErrorCode::InvalidParams) ==> after(
            phase,
            shown,
            path,
            Event::Failed(error),
        ) == (Phase::OpeningAnonymous, Act::Open(false)),
        after(phase, shown, path, Event::Reported(told)) == (
            Phase::Over,
            Act::End(Close::Reported(told@)),
        ),
        after(phase, shown, path, Event::Said(why)) == (
            Phase::Over,
            Act::End(
                Close::Reported(settings::Told { message: why@, note: None, status: 1 }),
            ),
        ),
        after(phase, shown, path, Event::Unlogged(fault)) == (
            Phase::Over,
            Act::End(Close::Failed(journal::fault_of(fault, path))),
        ),
{
}

/// A run exits with nought exactly where it came to print, and otherwise with
/// the status of what it ends with.
pub proof fn lemma_a_run_exits_with_its_ending(close: Close)
    ensures
        close is Printed ==> exits(close) == 0,
        close matches Close::Failed(error) ==> exits(close) == fault::status_of(error)
            && exits(close) != 0,
        close matches Close::Reported(told) ==> exits(close) == told.status,
        close is Stopped ==> exits(close) == 130,
{
    if close is Failed {
        fault::lemma_a_failure_never_exits_zero(close->Failed_0);
    }
}

/// A row of the trace reads as its place, the event's number where it has one,
/// its topic and its data where it has any, in columns.
pub proof fn lemma_a_trace_row_reads_in_columns(
    place: nat,
    seq: Option<u64>,
    topic: Seq<char>,
    data: Option<Seq<char>>,
)
    ensures
        ({
            let row = trace_of(place, seq, topic, data);
            let at: int = if seq is Some {
                3
            } else {
                2
            };
            &&& row[0].1 == cell::pad_of(text::dec(place).len(), 4) + text::dec(place) + "  "@
            &&& seq matches Some(seq) ==> row[2] == (Role::Number, text::dec(seq as nat))
                && row[1].1 == cell::pad_of(text::dec(seq as nat).len(), 4)
            &&& seq is None ==> row[1].1 == text::blanks(4)
            &&& row[at + 1] == (Role::Topic, topic)
            &&& data matches Some(data) ==> row.len() == at + 3 && row[at + 2].1 == "  "@ + data
            &&& data is None ==> row.len() == at + 2
        }),
{
}

} // verus!
