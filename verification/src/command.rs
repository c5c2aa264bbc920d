//! What a subcommand does next: each step of it, from what the last one came
//! to.
//!
//! A flag the terminal cannot honour is answered before anything is opened. A
//! settings document is read before anything is announced. A journal is worth
//! more than the view of it, so a view that would not open leaves the pages it
//! would have shown on the ordinary screen.
use vstd::prelude::*;
use vstd::string::*;

use crate::journal;
use crate::journal::JournalError;
use crate::render::fault;
use crate::rpc;
use crate::rpc::{ErrorCode, RpcError};
use crate::text;

verus! {

/// A subcommand that does not run a turn.
#[derive(Clone, Debug)]
pub enum Command {
    Config { dir: Option<String>, defaults: bool, json: bool },
    Models { json: bool },
    Tools { json: bool },
    Sessions { dir: Option<String>, ui: bool, think: bool, json: bool },
    Replay { path: String, dir: Option<String>, raw: bool, live: bool, ui: bool, json: bool },
    Serve { dir: Option<String>, listen: Option<String> },
    Info,
}

/// What is printed.
#[derive(Clone, Copy, Debug, PartialEq, Eq, Structural)]
pub enum Shape {
    /// The page a person reads.
    Page,
    /// The call's result, as one line of JSON.
    Json,
    /// The journal as its file spells it.
    Raw,
    /// The journal as a turn.
    Timeline,
}

/// How a subcommand ends.
#[derive(Debug)]
pub enum Ending {
    /// Its answer is printed.
    Shown(Shape),
    /// Its answer is printed, with an aside.
    Noted(Shape, String),
    /// The journal is printed as its file spells it, and one of its lines, by
    /// number, is not one.
    Broken(usize),
    Failed(RpcError),
    /// The settings document cannot be run on.
    Misconfigured(RpcError),
    /// The settings were refused, for a flag or for the document.
    Refused(RpcError),
    /// The reader stopped it.
    Stopped,
    /// The reader closed the view.
    Closed,
    /// A server came to its ordinary end.
    Served,
}

/// The next thing to do.
#[derive(Debug)]
pub enum Action {
    /// Resolve the compiled defaults alone.
    Compile,
    /// Read the settings document, with `--dir` over it.
    Boot,
    /// Ask the engine for the resolved settings.
    Dump,
    /// Ask the engine for the sessions.
    List,
    /// Whether there is anything at the path the user gave.
    Look,
    /// Whether there is anything under the sessions root by that name, as it
    /// was given or with the extension a journal is listed under.
    LookUnder { extended: bool },
    /// Read the journal that was found, as text.
    ReadText,
    /// Read the journal that was found, as a log.
    ReadLog,
    /// Show the sessions on a screen of their own, and say there why the last
    /// one chosen could not be read.
    Pick(Option<String>),
    /// Show the journal on a screen of its own.
    Browse,
    /// Play the journal back.
    Play,
    /// Bind the address the user gave.
    Bind,
    /// Say what the server is doing: on the address bound, or on stdio.
    Announce(Option<String>),
    /// Serve until it ends.
    Serve,
    End(Ending),
}

/// What a step came to.
#[derive(Debug)]
pub enum Event {
    /// The settings are settled, and this is the root sessions live under.
    Booted(String),
    /// The settings document could not be read.
    BootUnread(RpcError),
    /// The settings it holds were refused.
    BootRefused(RpcError),
    /// The engine answered.
    Answered,
    /// The engine refused.
    Declined(RpcError),
    /// Whether there is anything there.
    There(bool),
    /// The text was read, and the first of its lines that is no event, by
    /// number, is this.
    Text(Option<usize>),
    /// The log was read.
    Read,
    /// The journal could not be read.
    Unread(JournalError, String),
    /// The reader chose a session to read.
    Chosen,
    /// The view was closed by the reader.
    Quit,
    /// The reader interrupted.
    Interrupted,
    /// The view could not be opened.
    NoView(String),
    /// The address bound.
    Bound(String),
    /// The address could not be bound.
    Unbound(String),
    /// The address bound could not be named.
    Unnamed(String),
    /// The banner is out.
    Announced,
    /// The server ended in the ordinary way.
    Ended,
    /// The server broke.
    Broke(String),
}

/// How a subcommand ends, by what it says.
pub enum Close {
    Shown(Shape),
    Noted(Shape, Seq<char>),
    Broken(usize),
    Failed(rpc::Failure),
    Misconfigured(rpc::Failure),
    Refused(rpc::Failure),
    Stopped,
    Closed,
    Served,
}

impl View for Ending {
    type V = Close;

    open spec fn view(&self) -> Close {
        match self {
            Ending::Shown(shape) => Close::Shown(*shape),
            Ending::Noted(shape, note) => Close::Noted(*shape, note@),
            Ending::Broken(line) => Close::Broken(*line),
            Ending::Failed(error) => Close::Failed(error@),
            Ending::Misconfigured(error) => Close::Misconfigured(error@),
            Ending::Refused(error) => Close::Refused(error@),
            Ending::Stopped => Close::Stopped,
            Ending::Closed => Close::Closed,
            Ending::Served => Close::Served,
        }
    }
}

/// The next thing to do, by what it says.
pub enum Act {
    Compile,
    Boot,
    Dump,
    List,
    Look,
    LookUnder(bool),
    ReadText,
    ReadLog,
    Pick(Option<Seq<char>>),
    Browse,
    Play,
    Bind,
    Announce(Option<Seq<char>>),
    Serve,
    End(Close),
}

impl View for Action {
    type V = Act;

    open spec fn view(&self) -> Act {
        match self {
            Action::Compile => Act::Compile,
            Action::Boot => Act::Boot,
            Action::Dump => Act::Dump,
            Action::List => Act::List,
            Action::Look => Act::Look,
            Action::LookUnder { extended } => Act::LookUnder(*extended),
            Action::ReadText => Act::ReadText,
            Action::ReadLog => Act::ReadLog,
            Action::Pick(why) => Act::Pick(crate::json::held(*why)),
            Action::Browse => Act::Browse,
            Action::Play => Act::Play,
            Action::Bind => Act::Bind,
            Action::Announce(address) => Act::Announce(crate::json::held(*address)),
            Action::Serve => Act::Serve,
            Action::End(ending) => Act::End(ending@),
        }
    }
}

/// Where a subcommand stands, by what it was last asked to do.
#[derive(Clone, Copy, Debug, PartialEq, Eq, Structural)]
pub enum Phase {
    Booting,
    Dumping,
    Listing,
    Looking,
    LookingUnder,
    LookingExtended,
    ReadingText,
    ReadingLog,
    Picking,
    Browsing,
    Playing,
    Binding,
    Announcing,
    Serving,
    Over,
}

/// `--ui` where there is no screen to draw on: a bad argument, and not a
/// failure of the work the command was asked to do.
pub open spec fn no_screen() -> rpc::Failure {
    rpc::Failure::about(
        ErrorCode::InvalidParams,
        "--ui needs a terminal to draw on"@,
        "field"@,
        "ui"@,
    )
}

/// `--ui` where there is no screen to draw on.
pub fn nowhere_to_draw() -> (e: RpcError)
    ensures
        e@ == no_screen(),
        e@.names("field"@) == Some("ui"@),
{
    RpcError::about(
        ErrorCode::InvalidParams,
        "--ui needs a terminal to draw on",
        "field",
        "ui",
    )
}

/// What a subcommand does first.
pub open spec fn first(command: Command, terminal: bool) -> (Phase, Act) {
    match command {
        Command::Config { defaults, .. } => (
            Phase::Booting,
            if defaults {
                Act::Compile
            } else {
                Act::Boot
            },
        ),
        Command::Models { json } => (Phase::Over, Act::End(Close::Shown(answer(json)))),
        Command::Tools { json } => (Phase::Over, Act::End(Close::Shown(answer(json)))),
        Command::Sessions { ui, .. } => if ui && !terminal {
            (Phase::Over, Act::End(Close::Failed(no_screen())))
        } else {
            (Phase::Booting, Act::Boot)
        },
        Command::Replay { ui, .. } => if ui && !terminal {
            (Phase::Over, Act::End(Close::Failed(no_screen())))
        } else {
            (Phase::Looking, Act::Look)
        },
        Command::Serve { .. } => (Phase::Booting, Act::Boot),
        Command::Info => (Phase::Over, Act::End(Close::Shown(Shape::Page))),
    }
}

/// Whether a subcommand is about the compiled defaults alone.
pub open spec fn compiles(command: Command) -> bool {
    command is Config && command->defaults
}

/// What an answer is printed as.
pub open spec fn answer(json: bool) -> Shape {
    if json {
        Shape::Json
    } else {
        Shape::Page
    }
}

/// A failure that carries no data, for a step the filesystem or the network
/// refused.
pub open spec fn io(said: Seq<char>) -> Act {
    Act::End(Close::Failed(rpc::Failure::of(ErrorCode::Io, said)))
}

/// What a journal that was found is read as.
pub open spec fn reading(raw: bool) -> (Phase, Act) {
    if raw {
        (Phase::ReadingText, Act::ReadText)
    } else {
        (Phase::ReadingLog, Act::ReadLog)
    }
}

/// Whether a step can come to this.
pub open spec fn expected(command: Command, phase: Phase, event: Event) -> bool {
    match phase {
        Phase::Booting => event is Booted || event is BootRefused || (event is BootUnread
            && !compiles(command)),
        Phase::Dumping => command is Config && (event is Answered || event is Declined),
        Phase::Listing => command is Sessions && (event is Answered || event is Declined),
        Phase::Looking | Phase::LookingUnder | Phase::LookingExtended => command is Replay
            && event is There,
        Phase::ReadingText => command is Replay && (event is Text || event is Unread),
        Phase::ReadingLog => (command is Replay || command is Sessions) && (event is Read
            || event is Unread),
        Phase::Picking => command is Sessions && (event is Chosen || event is Quit
            || event is Interrupted || event is NoView),
        Phase::Browsing => event is Quit || event is Interrupted || event is NoView,
        Phase::Playing => event is Quit || event is Interrupted,
        Phase::Binding => command is Serve && command->listen is Some && (event is Bound
            || event is Unbound || event is Unnamed),
        Phase::Announcing => event is Announced,
        Phase::Serving => event is Ended || event is Broke,
        Phase::Over => false,
    }
}

/// What a subcommand does once the settings are settled.
pub open spec fn settled(command: Command) -> (Phase, Act) {
    match command {
        Command::Config { .. } => (Phase::Dumping, Act::Dump),
        Command::Sessions { .. } => (Phase::Listing, Act::List),
        Command::Replay { .. } => (Phase::LookingUnder, Act::LookUnder(false)),
        Command::Serve { listen, .. } => if listen is Some {
            (Phase::Binding, Act::Bind)
        } else {
            (Phase::Announcing, Act::Announce(None))
        },
        _ => (Phase::Over, Act::End(Close::Shown(Shape::Page))),
    }
}

/// What a subcommand does once the engine has answered.
pub open spec fn answered(command: Command) -> (Phase, Act) {
    match command {
        Command::Config { defaults, json, .. } => (
            Phase::Over,
            Act::End(
                if defaults {
                    Close::Noted(
                        answer(json),
                        "what this build compiles in, not what it will run on"@,
                    )
                } else {
                    Close::Shown(answer(json))
                },
            ),
        ),
        Command::Sessions { ui, json, .. } => if json {
            (Phase::Over, Act::End(Close::Shown(Shape::Json)))
        } else if ui {
            (Phase::Picking, Act::Pick(None))
        } else {
            (Phase::Over, Act::End(Close::Shown(Shape::Page)))
        },
        _ => (Phase::Over, Act::End(Close::Shown(Shape::Page))),
    }
}

/// What is done with a journal once it has been read. One chosen off the list
/// is read on a screen of its own, as the list was.
pub open spec fn read(command: Command) -> (Phase, Act) {
    match command {
        Command::Sessions { .. } => (Phase::Browsing, Act::Browse),
        Command::Replay { live, ui, json, .. } => if json {
            (Phase::Over, Act::End(Close::Shown(Shape::Json)))
        } else if ui {
            (Phase::Browsing, Act::Browse)
        } else if live {
            (Phase::Playing, Act::Play)
        } else {
            (Phase::Over, Act::End(Close::Shown(Shape::Timeline)))
        },
        _ => (Phase::Over, Act::End(Close::Shown(Shape::Timeline))),
    }
}

/// What a subcommand does after a step. `root` is where sessions live, once
/// that is settled.
pub open spec fn after(command: Command, phase: Phase, root: Seq<char>, event: Event) -> (
    Phase,
    Act,
) {
    match event {
        Event::Booted(_) => settled(command),
        Event::BootUnread(error) => (Phase::Over, Act::End(Close::Misconfigured(error@))),
        Event::BootRefused(error) => (
            Phase::Over,
            Act::End(
                // No document was read for the compiled defaults, so none is
                // to blame for one of them.
                if compiles(command) {
                    Close::Failed(error@)
                } else {
                    Close::Refused(error@)
                },
            ),
        ),
        Event::Answered => answered(command),
        Event::Declined(error) => (Phase::Over, Act::End(Close::Failed(error@))),
        Event::There(there) => if there {
            reading(command->raw)
        } else if phase is Looking {
            (Phase::Booting, Act::Boot)
        } else if phase is LookingUnder {
            (Phase::LookingExtended, Act::LookUnder(true))
        } else {
            (
                Phase::Over,
                Act::End(Close::Failed(journal::no_journal(command->path@, Some(root)))),
            )
        },
        Event::Text(broken) => (
            Phase::Over,
            Act::End(
                match broken {
                    Some(line) => Close::Broken(line),
                    None => Close::Shown(Shape::Raw),
                },
            ),
        ),
        Event::Read => read(command),
        Event::Unread(error, path) => if command is Sessions {
            // The list is still worth reading, so the failure is said on it.
            (Phase::Picking, Act::Pick(Some(journal::fault_of(error, path@).message)))
        } else {
            (Phase::Over, Act::End(Close::Failed(journal::fault_of(error, path@))))
        },
        Event::Chosen => (Phase::ReadingLog, Act::ReadLog),
        Event::Quit => if command is Sessions && phase is Browsing {
            // A journal opened from the list is closed back onto it.
            (Phase::Picking, Act::Pick(None))
        } else {
            (Phase::Over, Act::End(Close::Closed))
        },
        Event::Interrupted => (Phase::Over, Act::End(Close::Stopped)),
        Event::NoView(why) => (
            Phase::Over,
            Act::End(
                Close::Noted(
                    if command is Sessions {
                        Shape::Page
                    } else {
                        Shape::Timeline
                    },
                    "no full-screen view: "@ + why@,
                ),
            ),
        ),
        Event::Bound(address) => (Phase::Announcing, Act::Announce(Some(address@))),
        Event::Unbound(why) => (Phase::Over, io(command->listen->0@ + ": "@ + why@)),
        Event::Unnamed(why) => (Phase::Over, io(why@)),
        Event::Announced => (Phase::Serving, Act::Serve),
        Event::Ended => (Phase::Over, Act::End(Close::Served)),
        Event::Broke(why) => (Phase::Over, io(why@)),
    }
}

/// The status a subcommand exits with.
pub open spec fn exits(close: Close) -> u8 {
    match close {
        Close::Broken(_) => ErrorCode::LogCorrupt.status(),
        Close::Failed(error) => fault::status_of(error),
        Close::Misconfigured(error) => fault::status_of(error),
        Close::Refused(error) => fault::status_of(error),
        Close::Stopped => ErrorCode::Cancelled.status(),
        _ => 0,
    }
}

/// A subcommand under way.
#[derive(Debug)]
pub struct Process {
    command: Command,
    phase: Phase,
    root: String,
}

fn shape(json: bool) -> (s: Shape)
    ensures
        s == answer(json),
{
    if json {
        Shape::Json
    } else {
        Shape::Page
    }
}

impl Process {
    pub closed spec fn command(&self) -> Command {
        self.command
    }

    pub closed spec fn phase(&self) -> Phase {
        self.phase
    }

    pub closed spec fn root(&self) -> Seq<char> {
        self.root@
    }

    /// Begin a subcommand. `terminal` is whether there is a screen to draw on.
    pub fn start(command: Command, terminal: bool) -> (r: (Process, Action))
        ensures
            r.0.command() == command,
            (r.0.phase(), r.1@) == first(command, terminal),
    {
        let (phase, action) = match &command {
            Command::Config { defaults, .. } => (
                Phase::Booting,
                if *defaults {
                    Action::Compile
                } else {
                    Action::Boot
                },
            ),
            Command::Models { json } => (Phase::Over, Action::End(Ending::Shown(shape(*json)))),
            Command::Tools { json } => (Phase::Over, Action::End(Ending::Shown(shape(*json)))),
            Command::Sessions { ui, .. } => if *ui && !terminal {
                (Phase::Over, Action::End(Ending::Failed(nowhere_to_draw())))
            } else {
                (Phase::Booting, Action::Boot)
            },
            Command::Replay { ui, .. } => if *ui && !terminal {
                (Phase::Over, Action::End(Ending::Failed(nowhere_to_draw())))
            } else {
                (Phase::Looking, Action::Look)
            },
            Command::Serve { .. } => (Phase::Booting, Action::Boot),
            Command::Info => (Phase::Over, Action::End(Ending::Shown(Shape::Page))),
        };
        (Process { command, phase, root: String::new() }, action)
    }

    fn listing(&self) -> (r: bool)
        ensures
            r == (self.command() is Sessions),
    {
        match &self.command {
            Command::Sessions { .. } => true,
            _ => false,
        }
    }

    fn compiling(&self) -> (r: bool)
        ensures
            r == compiles(self.command()),
    {
        match &self.command {
            Command::Config { defaults, .. } => *defaults,
            _ => false,
        }
    }

    fn settle(&self) -> (r: (Phase, Action))
        ensures
            (r.0, r.1@) == settled(self.command()),
    {
        match &self.command {
            Command::Config { .. } => (Phase::Dumping, Action::Dump),
            Command::Sessions { .. } => (Phase::Listing, Action::List),
            Command::Replay { .. } => (Phase::LookingUnder, Action::LookUnder { extended: false }),
            Command::Serve { listen, .. } => if listen.is_some() {
                (Phase::Binding, Action::Bind)
            } else {
                (Phase::Announcing, Action::Announce(None))
            },
            _ => (Phase::Over, Action::End(Ending::Shown(Shape::Page))),
        }
    }

    fn answer(&self) -> (r: (Phase, Action))
        ensures
            (r.0, r.1@) == answered(self.command()),
    {
        match &self.command {
            Command::Config { defaults, json, .. } => (
                Phase::Over,
                Action::End(
                    if *defaults {
                        Ending::Noted(
                            shape(*json),
                            "what this build compiles in, not what it will run on".to_owned(),
                        )
                    } else {
                        Ending::Shown(shape(*json))
                    },
                ),
            ),
            Command::Sessions { ui, json, .. } => if *json {
                (Phase::Over, Action::End(Ending::Shown(Shape::Json)))
            } else if *ui {
                (Phase::Picking, Action::Pick(None))
            } else {
                (Phase::Over, Action::End(Ending::Shown(Shape::Page)))
            },
            _ => (Phase::Over, Action::End(Ending::Shown(Shape::Page))),
        }
    }

    fn show(&self) -> (r: (Phase, Action))
        ensures
            (r.0, r.1@) == read(self.command()),
    {
        match &self.command {
            Command::Sessions { .. } => (Phase::Browsing, Action::Browse),
            Command::Replay { live, ui, json, .. } => if *json {
                (Phase::Over, Action::End(Ending::Shown(Shape::Json)))
            } else if *ui {
                (Phase::Browsing, Action::Browse)
            } else if *live {
                (Phase::Playing, Action::Play)
            } else {
                (Phase::Over, Action::End(Ending::Shown(Shape::Timeline)))
            },
            _ => (Phase::Over, Action::End(Ending::Shown(Shape::Timeline))),
        }
    }

    fn look(&self, there: bool) -> (r: (Phase, Action))
        requires
            self.command() is Replay,
        ensures
            (r.0, r.1@) == after(self.command(), self.phase(), self.root(), Event::There(there)),
    {
        let (path, raw) = match &self.command {
            Command::Replay { path, raw, .. } => (path, *raw),
            _ => {
                return (Phase::Over, Action::Look);
            },
        };
        if there {
            if raw {
                (Phase::ReadingText, Action::ReadText)
            } else {
                (Phase::ReadingLog, Action::ReadLog)
            }
        } else {
            match self.phase {
                Phase::Looking => (Phase::Booting, Action::Boot),
                Phase::LookingUnder => (
                    Phase::LookingExtended,
                    Action::LookUnder { extended: true },
                ),
                _ => (
                    Phase::Over,
                    Action::End(
                        Ending::Failed(
                            journal::missing_journal(path.as_str(), Some(self.root.as_str())),
                        ),
                    ),
                ),
            }
        }
    }

    fn unbound(&self, why: &str) -> (r: RpcError)
        requires
            self.command() is Serve,
            self.command()->listen is Some,
        ensures
            r@ == rpc::Failure::of(
                ErrorCode::Io,
                self.command()->listen->0@ + ": "@ + why@,
            ),
    {
        let mut said = String::new();
        if let Command::Serve { listen: Some(address), .. } = &self.command {
            said = text::cat(address.as_str(), ": ");
            said.append(why);
        }
        RpcError::new(ErrorCode::Io, said.as_str())
    }

    /// What to do now that the last step came to this.
    pub fn next(&mut self, event: Event) -> (action: Action)
        requires
            expected(old(self).command(), old(self).phase(), event),
        ensures
            final(self).command() == old(self).command(),
            (final(self).phase(), action@) == after(
                old(self).command(),
                old(self).phase(),
                old(self).root(),
                event,
            ),
            event matches Event::Booted(root) ==> final(self).root() == root@,
            !(event is Booted) ==> final(self).root() == old(self).root(),
    {
        let (phase, action) = match event {
            Event::Booted(root) => {
                self.root = root;
                self.settle()
            },
            Event::BootUnread(error) => (
                Phase::Over,
                Action::End(Ending::Misconfigured(error)),
            ),
            Event::BootRefused(error) => (
                Phase::Over,
                Action::End(
                    if self.compiling() {
                        Ending::Failed(error)
                    } else {
                        Ending::Refused(error)
                    },
                ),
            ),
            Event::Answered => self.answer(),
            Event::Declined(error) => (Phase::Over, Action::End(Ending::Failed(error))),
            Event::There(there) => self.look(there),
            Event::Text(broken) => (
                Phase::Over,
                Action::End(
                    match broken {
                        Some(line) => Ending::Broken(line),
                        None => Ending::Shown(Shape::Raw),
                    },
                ),
            ),
            Event::Read => self.show(),
            Event::Unread(error, path) => {
                let error = journal::journal_fault(&error, path.as_str());
                if self.listing() {
                    (Phase::Picking, Action::Pick(Some(error.message)))
                } else {
                    (Phase::Over, Action::End(Ending::Failed(error)))
                }
            },
            Event::Chosen => (Phase::ReadingLog, Action::ReadLog),
            Event::Quit => match self.phase {
                Phase::Browsing => if self.listing() {
                    (Phase::Picking, Action::Pick(None))
                } else {
                    (Phase::Over, Action::End(Ending::Closed))
                },
                _ => (Phase::Over, Action::End(Ending::Closed)),
            },
            Event::Interrupted => (Phase::Over, Action::End(Ending::Stopped)),
            Event::NoView(why) => (
                Phase::Over,
                Action::End(
                    Ending::Noted(
                        if self.listing() {
                            Shape::Page
                        } else {
                            Shape::Timeline
                        },
                        text::cat("no full-screen view: ", why.as_str()),
                    ),
                ),
            ),
            Event::Bound(address) => (Phase::Announcing, Action::Announce(Some(address))),
            Event::Unbound(why) => (
                Phase::Over,
                Action::End(Ending::Failed(self.unbound(why.as_str()))),
            ),
            Event::Unnamed(why) => (
                Phase::Over,
                Action::End(Ending::Failed(RpcError::new(ErrorCode::Io, why.as_str()))),
            ),
            Event::Announced => (Phase::Serving, Action::Serve),
            Event::Ended => (Phase::Over, Action::End(Ending::Served)),
            Event::Broke(why) => (
                Phase::Over,
                Action::End(Ending::Failed(RpcError::new(ErrorCode::Io, why.as_str()))),
            ),
        };
        self.phase = phase;
        action
    }
}

/// The status a subcommand exits with.
pub fn exit_status(ending: &Ending) -> (s: u8)
    ensures
        s == exits(ending@),
{
    match ending {
        Ending::Broken(_) => ErrorCode::LogCorrupt.exit_status(),
        Ending::Failed(error) => fault::status(error),
        Ending::Misconfigured(error) => fault::status(error),
        Ending::Refused(error) => fault::status(error),
        Ending::Stopped => ErrorCode::Cancelled.exit_status(),
        _ => 0,
    }
}

/// What is said of a journal that was printed with a line in it that is none.
pub fn broken(line: usize) -> (r: (String, &'static str))
    ensures
        r.0@ == fault::corrupt_line(line as u64),
        r.1@ == "that line is shown above; repair or remove it"@,
{
    (fault::corrupt_at(line as u64), "that line is shown above; repair or remove it")
}

// ---- laws ----

/// A flag the terminal cannot honour is answered before anything is opened,
/// and with the status of a bad argument.
pub proof fn lemma_no_screen_opens_nothing(command: Command)
    requires
        (command is Sessions && command->Sessions_ui) || (command is Replay && command->Replay_ui),
    ensures
        first(command, false).1 == Act::End(Close::Failed(no_screen())),
        exits(Close::Failed(no_screen())) == 2,
{
}

/// A journal the user can see is opened as it was given, and no document is
/// read for it.
pub proof fn lemma_a_path_that_is_there_is_opened(command: Command, root: Seq<char>)
    requires
        command is Replay,
    ensures
        ({
            let (phase, act) = after(command, Phase::Looking, root, Event::There(true));
            (act is ReadText || act is ReadLog) && (phase is ReadingText || phase is ReadingLog)
        }),
{
}

/// A target that is nothing at all is refused, and not read as an empty
/// journal: the failure names the target and the root it was looked for under.
pub proof fn lemma_nothing_by_that_name_is_refused(command: Command, root: Seq<char>)
    requires
        command is Replay,
    ensures
        after(command, Phase::LookingExtended, root, Event::There(false)).1 == Act::End(
            Close::Failed(journal::no_journal(command->path@, Some(root))),
        ),
        exits(Close::Failed(journal::no_journal(command->path@, Some(root)))) == 4,
{
}

/// A session chosen off the list is read, and shown on a screen of its own;
/// closing that comes back to the list, and so does a journal that could not
/// be read, with why. Only the list itself is closed for good.
pub proof fn lemma_the_list_is_come_back_to(
    command: Command,
    root: Seq<char>,
    error: JournalError,
    path: String,
)
    requires
        command is Sessions,
    ensures
        after(command, Phase::Picking, root, Event::Chosen) == (Phase::ReadingLog, Act::ReadLog),
        after(command, Phase::ReadingLog, root, Event::Read) == (Phase::Browsing, Act::Browse),
        after(command, Phase::ReadingLog, root, Event::Unread(error, path)) == (
            Phase::Picking,
            Act::Pick(Some(journal::fault_of(error, path@).message)),
        ),
        after(command, Phase::Browsing, root, Event::Quit) == (Phase::Picking, Act::Pick(None)),
        after(command, Phase::Picking, root, Event::Quit).1 == Act::End(Close::Closed),
{
}

/// An interrupted view exits as an interrupted command does, whichever view it
/// was.
pub proof fn lemma_an_interrupt_is_one_status(command: Command, phase: Phase, root: Seq<char>)
    ensures
        after(command, phase, root, Event::Interrupted).1 == Act::End(Close::Stopped),
        exits(Close::Stopped) == 130,
{
}

/// A bind that fails has not announced a server: nothing is announced but what
/// was bound, or stdio where no address was given.
pub proof fn lemma_only_what_is_bound_is_announced(
    command: Command,
    phase: Phase,
    root: Seq<char>,
    event: Event,
)
    requires
        command is Serve,
        expected(command, phase, event),
        after(command, phase, root, event).1 is Announce,
    ensures
        match command->listen {
            Some(_) => event matches Event::Bound(address) && after(command, phase, root, event).1
                == Act::Announce(Some(address@)),
            None => event is Booted || event is Bound,
        },
{
}

/// The page of compiled defaults reads no document, and blames none.
pub proof fn lemma_defaults_read_no_document(
    command: Command,
    terminal: bool,
    phase: Phase,
    root: Seq<char>,
    event: Event,
)
    requires
        command is Config,
        command->defaults,
        expected(command, phase, event),
    ensures
        first(command, terminal).1 is Compile,
        after(command, phase, root, event).1 matches Act::End(close) ==> !(close is Misconfigured)
            && !(close is Refused),
{
}

/// A broken journal is never an ordinary exit.
pub proof fn lemma_a_broken_journal_is_a_failure(command: Command, root: Seq<char>, line: usize)
    requires
        command is Replay,
    ensures
        after(command, Phase::ReadingText, root, Event::Text(Some(line))).1 matches Act::End(close)
            && exits(close) != 0,
{
}

/// Each command begins with what it needs: the settings it resolves, the journal
/// it looks for, or nothing, where it can answer at once.
pub proof fn lemma_each_command_begins_with_what_it_needs(command: Command, terminal: bool)
    ensures
        ({
            let (phase, act) = first(command, terminal);
            match command {
                Command::Config { defaults, .. } => phase is Booting && (defaults ==> act
                    is Compile) && (!defaults ==> act is Boot),
                Command::Models { json } | Command::Tools { json } => phase is Over && act
                    == Act::End(
                    Close::Shown(
                        if json {
                            Shape::Json
                        } else {
                            Shape::Page
                        },
                    ),
                ),
                Command::Sessions { ui, .. } => ui && !terminal || (phase, act) == (
                    Phase::Booting,
                    Act::Boot,
                ),
                Command::Replay { ui, .. } => ui && !terminal || (phase, act) == (
                    Phase::Looking,
                    Act::Look,
                ),
                Command::Serve { .. } => (phase, act) == (Phase::Booting, Act::Boot),
                Command::Info => (phase, act) == (
                    Phase::Over,
                    Act::End(Close::Shown(Shape::Page)),
                ),
            }
        }),
{
}

/// With its settings settled each command goes on to its own work: settings are
/// dumped, sessions listed, a journal looked for under the root, and a server
/// bound to the address it was given, or announced where it was given none.
pub proof fn lemma_settings_lead_to_the_work(command: Command, phase: Phase, root: Seq<char>, under: String)
    ensures
        ({
            let next = after(command, phase, root, Event::Booted(under));
            match command {
                Command::Config { .. } => next == (Phase::Dumping, Act::Dump),
                Command::Sessions { .. } => next == (Phase::Listing, Act::List),
                Command::Replay { .. } => next == (Phase::LookingUnder, Act::LookUnder(false)),
                Command::Serve { listen: Some(_), .. } => next == (Phase::Binding, Act::Bind),
                Command::Serve { listen: None, .. } => next == (
                    Phase::Announcing,
                    Act::Announce(None),
                ),
                _ => true,
            }
        }),
{
}

/// What could not be settled ends the command: a document that could not be read
/// and one that was refused each as that, but the compiled defaults as a failure.
pub proof fn lemma_unsettled_settings_end_the_command(
    command: Command,
    phase: Phase,
    root: Seq<char>,
    error: RpcError,
)
    ensures
        after(command, phase, root, Event::BootUnread(error)) == (
            Phase::Over,
            Act::End(Close::Misconfigured(error@)),
        ),
        command is Config && command->defaults ==> after(
            command,
            phase,
            root,
            Event::BootRefused(error),
        ) == (Phase::Over, Act::End(Close::Failed(error@))),
        !(command is Config) || !command->defaults ==> after(
            command,
            phase,
            root,
            Event::BootRefused(error),
        ) == (Phase::Over, Act::End(Close::Refused(error@))),
        after(command, phase, root, Event::Declined(error)) == (
            Phase::Over,
            Act::End(Close::Failed(error@)),
        ),
{
}

/// An answer is shown in the shape that was asked for: JSON where that was, else
/// the page; the compiled defaults with a note that they are no more; and the
/// sessions on a screen where that was asked for and JSON was not.
pub proof fn lemma_an_answer_is_shown_as_asked(command: Command, phase: Phase, root: Seq<char>)
    ensures
        ({
            let act = after(command, phase, root, Event::Answered).1;
            match command {
                Command::Config { defaults, json, .. } => {
                    let shape = if json {
                        Shape::Json
                    } else {
                        Shape::Page
                    };
                    &&& !defaults ==> act == Act::End(Close::Shown(shape))
                    &&& defaults ==> act == Act::End(
                        Close::Noted(
                            shape,
                            "what this build compiles in, not what it will run on"@,
                        ),
                    )
                },
                Command::Sessions { ui, json, .. } => {
                    &&& json ==> act == Act::End(Close::Shown(Shape::Json))
                    &&& !json && ui ==> act == Act::Pick(None)
                    &&& !json && !ui ==> act == Act::End(Close::Shown(Shape::Page))
                },
                _ => true,
            }
        }),
{
}

/// A journal is looked for at its path, then under the root by that name, then
/// there with the extension, and is read where it is first found: as its file
/// spells it where that was asked for, and as a log otherwise.
pub proof fn lemma_a_journal_is_looked_for_in_order(command: Command, phase: Phase, root: Seq<char>)
    requires
        command is Replay,
    ensures
        command->raw ==> after(command, phase, root, Event::There(true)) == (
            Phase::ReadingText,
            Act::ReadText,
        ),
        !command->raw ==> after(command, phase, root, Event::There(true)) == (
            Phase::ReadingLog,
            Act::ReadLog,
        ),
        after(command, Phase::Looking, root, Event::There(false)) == (Phase::Booting, Act::Boot),
        after(command, Phase::LookingUnder, root, Event::There(false)) == (
            Phase::LookingExtended,
            Act::LookUnder(true),
        ),
{
}

/// A journal that was read is shown as asked: JSON before a screen, a screen
/// before playing it back, and as a timeline where none was asked for.
pub proof fn lemma_a_journal_is_shown_as_asked(command: Command, phase: Phase, root: Seq<char>)
    requires
        command is Replay,
    ensures
        ({
            let next = after(command, phase, root, Event::Read);
            let (json, ui, live) = (
                command->Replay_json,
                command->Replay_ui,
                command->live,
            );
            &&& json ==> next == (Phase::Over, Act::End(Close::Shown(Shape::Json)))
            &&& !json && ui ==> next == (Phase::Browsing, Act::Browse)
            &&& !json && !ui && live ==> next == (Phase::Playing, Act::Play)
            &&& !json && !ui && !live ==> next == (
                Phase::Over,
                Act::End(Close::Shown(Shape::Timeline)),
            )
        }),
        after(command, phase, root, Event::Text(None)) == (
            Phase::Over,
            Act::End(Close::Shown(Shape::Raw)),
        ),
{
}

/// A journal that could not be read ends a replay with what was wrong with it,
/// and a line of it that is none by that line's own number.
pub proof fn lemma_an_unread_journal_ends_a_replay(
    command: Command,
    phase: Phase,
    root: Seq<char>,
    error: JournalError,
    path: String,
    line: usize,
)
    requires
        command is Replay,
    ensures
        after(command, phase, root, Event::Unread(error, path)) == (
            Phase::Over,
            Act::End(Close::Failed(journal::fault_of(error, path@))),
        ),
        after(command, phase, root, Event::Text(Some(line))) == (
            Phase::Over,
            Act::End(Close::Broken(line)),
        ),
        after(command, phase, root, Event::Quit) == (Phase::Over, Act::End(Close::Closed)),
{
}

/// A view that could not be opened is no failure: what it would have shown is
/// printed, with why.
pub proof fn lemma_no_view_is_no_failure(
    command: Command,
    phase: Phase,
    root: Seq<char>,
    why: String,
)
    ensures
        after(command, phase, root, Event::NoView(why)) == (
            Phase::Over,
            Act::End(
                Close::Noted(
                    if command is Sessions {
                        Shape::Page
                    } else {
                        Shape::Timeline
                    },
                    "no full-screen view: "@ + why@,
                ),
            ),
        ),
{
}

/// A server announces the address it bound, serves once it is announced, and ends
/// well where it comes to its end. What keeps it from that is a fault of the
/// network: an address that could not be bound named as it was given.
pub proof fn lemma_a_server_announces_then_serves(
    command: Command,
    phase: Phase,
    root: Seq<char>,
    address: String,
    why: String,
)
    requires
        command is Serve,
    ensures
        after(command, phase, root, Event::Bound(address)) == (
            Phase::Announcing,
            Act::Announce(Some(address@)),
        ),
        after(command, phase, root, Event::Announced) == (Phase::Serving, Act::Serve),
        after(command, phase, root, Event::Ended) == (Phase::Over, Act::End(Close::Served)),
        command->listen matches Some(asked) ==> (after(command, phase, root, Event::Unbound(why)).1
            matches Act::End(Close::Failed(error)) && error.kind() == Some(ErrorCode::Io)
            && error.message == asked@ + ": "@ + why@),
        after(command, phase, root, Event::Unnamed(why)).1 matches Act::End(Close::Failed(error))
            && error.kind() == Some(ErrorCode::Io) && error.message == why@,
        after(command, phase, root, Event::Broke(why)).1 matches Act::End(Close::Failed(error))
            && error.kind() == Some(ErrorCode::Io) && error.message == why@,
{
}

/// A command exits with nought where its answer was printed, its view closed or
/// its server ended, and otherwise with the status of what it ends with.
pub proof fn lemma_a_command_exits_with_its_ending(close: Close)
    ensures
        close is Shown || close is Noted || close is Closed || close is Served <==> exits(close)
            == 0,
        close is Broken ==> exits(close) == 1,
        close is Stopped ==> exits(close) == 130,
        close matches Close::Failed(error) ==> exits(close) == fault::status_of(error),
        close matches Close::Misconfigured(error) ==> exits(close) == fault::status_of(error),
        close matches Close::Refused(error) ==> exits(close) == fault::status_of(error),
{
    match close {
        Close::Failed(error) => fault::lemma_a_failure_never_exits_zero(error),
        Close::Misconfigured(error) => fault::lemma_a_failure_never_exits_zero(error),
        Close::Refused(error) => fault::lemma_a_failure_never_exits_zero(error),
        _ => {},
    }
}

/// A screen that has no terminal to draw on is refused by the flag that asked for
/// it.
pub proof fn lemma_no_screen_is_the_flags_fault()
    ensures
        no_screen().kind() == Some(ErrorCode::InvalidParams),
        no_screen().message == "--ui needs a terminal to draw on"@,
        no_screen().data == crate::json::json_with("{}"@, "field"@, "ui"@),
{
}

/// Whatever is said of a broken line names that line.
pub proof fn lemma_a_broken_line_is_named(line: usize, r: (String, &'static str))
    requires
        call_ensures(broken, (line,), r),
        line <= u64::MAX,
    ensures
        r.0@ == "the journal is not readable at line "@ + text::dec(line as nat),
        r.1@ == "that line is shown above; repair or remove it"@,
{
}

} // verus!
