//! A conversation: one session, many turns, typed one after another.
//!
//! A line is a message unless it opens with a slash, and `//` is how a message
//! that opens with one is still sent. Which line spends a turn, which leaves
//! and what each way out exits with are decided here; reading the line and
//! running the turn are not.
use vstd::prelude::*;
use vstd::string::*;

use crate::event::SessionEvent;
use crate::rpc;
use crate::rpc::{ErrorCode, RpcError};
use crate::settings;
use crate::settings::Reported;
use crate::text;
use crate::text::{first_word, same, trim_str};

verus! {

/// What a chat was asked to be, before the settings were read.
#[derive(Clone, Debug)]
pub struct ChatArgs {
    /// Which model provider to talk to.
    pub adapter: Option<crate::settings::AdapterChoice>,
    /// Model id. Defaults to the adapter's first catalog entry.
    pub model: Option<String>,
    /// The journal this conversation is kept in. An existing one is resumed.
    pub session: Option<String>,
    /// Step budget for each turn.
    pub max_steps: Option<u32>,
    /// Print the model's thinking in full, not folded to its first line.
    pub think: bool,
}

/// What a typed line asks for.
#[derive(Debug, PartialEq)]
pub enum Input<'a> {
    /// Nothing was typed. The prompt comes back, and no turn is spent.
    Blank,
    /// Ask the model this.
    Ask(&'a str),
    /// Leave the chat.
    Leave,
    /// Print the commands.
    Help,
    /// A slash command this build does not have, as it was typed.
    Unknown(&'a str),
}

/// What a typed line asks for, by what it says.
pub enum Wish {
    Blank,
    Ask(Seq<char>),
    Leave,
    Help,
    Unknown(Seq<char>),
}

impl<'a> View for Input<'a> {
    type V = Wish;

    open spec fn view(&self) -> Wish {
        match self {
            Input::Blank => Wish::Blank,
            Input::Ask(said) => Wish::Ask(said@),
            Input::Leave => Wish::Leave,
            Input::Help => Wish::Help,
            Input::Unknown(command) => Wish::Unknown(command@),
        }
    }
}

/// What a line with no blanks around it asks for.
pub open spec fn wish_of(said: Seq<char>) -> Wish {
    if said.len() >= 2 && said[0] == '/' && said[1] == '/' {
        // The escape and nothing else is one slash, which is not a question.
        if said.len() == 2 {
            Wish::Blank
        } else {
            Wish::Ask(said.skip(1))
        }
    } else if said.len() == 0 {
        Wish::Blank
    } else if said == "/exit"@ || said == "/quit"@ || said == "/q"@ {
        Wish::Leave
    } else if said == "/help"@ || said == "/?"@ {
        Wish::Help
    } else if said[0] == '/' {
        Wish::Unknown(said.take(text::word_end(said) as int))
    } else {
        Wish::Ask(said)
    }
}

/// Read one typed line as an [`Input`].
pub fn parse(line: &str) -> (r: Input<'_>)
    ensures
        r@ == wish_of(text::trimmed(line@)),
{
    let said = trim_str(line);
    let n: usize = said.unicode_len();
    // The escape is read before the commands, so that `//exit` asks the model
    // `/exit` instead of leaving.
    if n >= 2 && said.get_char(0) == '/' && said.get_char(1) == '/' {
        if n == 2 {
            return Input::Blank;
        }
        proof {
            assert(said@.subrange(1, n as int) =~= said@.skip(1));
        }
        return Input::Ask(said.substring_char(1, n));
    }
    if n == 0 {
        Input::Blank
    } else if same(said, "/exit") || same(said, "/quit") || same(said, "/q") {
        Input::Leave
    } else if same(said, "/help") || same(said, "/?") {
        Input::Help
    } else if said.get_char(0) == '/' {
        // The command is the first word: `/reset now` is not a message, and
        // saying which command is missing is what tells the user it is not.
        Input::Unknown(first_word(said))
    } else {
        Input::Ask(said)
    }
}

/// A message that opens with a slash can always be put: with one slash more
/// before it, it is asked as it is.
pub proof fn lemma_every_slashed_message_can_be_asked(said: Seq<char>)
    requires
        said.len() >= 2,
        said[0] == '/',
    ensures
        wish_of(seq!['/'] + said) == Wish::Ask(said),
{
    let escaped = seq!['/'] + said;
    assert(escaped[1] == said[0]);
    assert(escaped.skip(1) =~= said);
}

/// A line that opens with one slash never reaches the model, whatever follows
/// the slash: a typo is not answered with a paid-for turn.
pub proof fn lemma_a_command_is_never_asked(said: Seq<char>)
    requires
        said.len() >= 1,
        said[0] == '/',
        said.len() < 2 || said[1] != '/',
    ensures
        !(wish_of(said) is Ask),
{
}

/// One line from the reader, or the way they left instead.
#[derive(Clone, Debug)]
pub enum Typed {
    Line(String),
    /// End of input: Ctrl-D at a terminal, or a script whose input ran out.
    Eof,
    /// Ctrl-C, wherever it lands.
    Interrupted,
    /// The line could not be read.
    Broken(String),
}

/// What a chat does next.
#[derive(Clone, Debug)]
pub enum Step {
    /// Wait for another line.
    Wait,
    /// Print the card of commands, and wait.
    Help,
    /// Say that this is not a command, and wait.
    Unknown(String),
    /// Run a turn on this.
    Ask(String),
    /// Name the journal, and end well.
    Leave,
    /// Name the journal, and end interrupted.
    Stop,
    /// Report this, and end.
    Fail(RpcError),
    /// Report this, which has no code behind it, and end.
    Report(Reported),
}

/// What a chat does next, by what it says.
pub enum Next {
    Wait,
    Help,
    Unknown(Seq<char>),
    Ask(Seq<char>),
    Leave,
    Stop,
    Fail(rpc::Failure),
    Report(settings::Told),
}

impl View for Step {
    type V = Next;

    open spec fn view(&self) -> Next {
        match self {
            Step::Wait => Next::Wait,
            Step::Help => Next::Help,
            Step::Unknown(command) => Next::Unknown(command@),
            Step::Ask(said) => Next::Ask(said@),
            Step::Leave => Next::Leave,
            Step::Stop => Next::Stop,
            Step::Fail(error) => Next::Fail(error@),
            Step::Report(told) => Next::Report(told@),
        }
    }
}

/// What a chat does with what was typed.
pub open spec fn next_of(typed: Typed) -> Next {
    match typed {
        Typed::Line(line) => match wish_of(text::trimmed(line@)) {
            Wish::Blank => Next::Wait,
            Wish::Ask(said) => Next::Ask(said),
            Wish::Leave => Next::Leave,
            Wish::Help => Next::Help,
            Wish::Unknown(command) => Next::Unknown(command),
        },
        Typed::Eof => Next::Leave,
        Typed::Interrupted => Next::Stop,
        Typed::Broken(why) => Next::Fail(
            rpc::Failure::of(ErrorCode::Io, "standard input: "@ + why@),
        ),
    }
}

/// What a chat does with what was typed.
pub fn heard(typed: Typed) -> (step: Step)
    ensures
        step@ == next_of(typed),
{
    match typed {
        Typed::Line(line) => match parse(line.as_str()) {
            Input::Blank => Step::Wait,
            Input::Ask(said) => Step::Ask(said.to_owned()),
            Input::Leave => Step::Leave,
            Input::Help => Step::Help,
            Input::Unknown(command) => Step::Unknown(command.to_owned()),
        },
        Typed::Eof => Step::Leave,
        Typed::Interrupted => Step::Stop,
        Typed::Broken(why) => Step::Fail(
            RpcError::new(ErrorCode::Io, text::cat("standard input: ", why.as_str()).as_str()),
        ),
    }
}

/// How the turn a chat ran came back.
#[derive(Clone, Debug)]
pub enum Turned {
    /// It ended, and its journal is flushed.
    Ended,
    /// It ended, and its journal could not be flushed.
    Unflushed(String),
    /// The reader stopped it.
    Interrupted,
    /// It failed.
    Failed(RpcError),
}

/// What a chat does once a turn came back. A turn that failed ends the chat:
/// the conversation is on the journal, and the next chat on it goes on. A
/// journal that could not be flushed is no failure of the turn's, so it is
/// reported in its own words.
pub open spec fn after_turn(turned: Turned) -> Next {
    match turned {
        Turned::Ended => Next::Wait,
        Turned::Unflushed(why) => Next::Report(settings::plain(why@)),
        Turned::Interrupted => Next::Stop,
        Turned::Failed(error) => Next::Fail(error@),
    }
}

/// What a chat does once a turn came back.
pub fn turned(how: Turned) -> (step: Step)
    ensures
        step@ == after_turn(how),
{
    match how {
        Turned::Ended => Step::Wait,
        Turned::Unflushed(why) => Step::Report(settings::report(why.as_str())),
        Turned::Interrupted => Step::Stop,
        Turned::Failed(error) => Step::Fail(error),
    }
}

/// The status a chat exits with, once it ends.
pub open spec fn ends_with(next: Next) -> Option<u8> {
    match next {
        Next::Leave => Some(0),
        Next::Stop => Some(ErrorCode::Cancelled.status()),
        Next::Fail(error) => Some(crate::render::fault::status_of(error)),
        Next::Report(told) => Some(told.status),
        _ => None,
    }
}

/// The status a chat exits with, when a step ends it.
pub fn ends(step: &Step) -> (r: Option<u8>)
    ensures
        r == ends_with(step@),
{
    match step {
        Step::Leave => Some(0),
        Step::Stop => Some(ErrorCode::Cancelled.exit_status()),
        Step::Fail(error) => Some(crate::render::fault::status(error)),
        Step::Report(told) => Some(told.status),
        _ => None,
    }
}

/// Ctrl-C is a way out, at the prompt and during a turn, and the two answers
/// agree.
pub proof fn lemma_an_interrupt_ends_the_same_way()
    ensures
        next_of(Typed::Interrupted) == after_turn(Turned::Interrupted),
        ends_with(next_of(Typed::Interrupted)) == Some(130u8),
{
}

/// What a chat says of a command it does not have. `tamed` is what the
/// terminal can draw of it.
pub fn not_a_command(tamed: &str) -> (s: String)
    ensures
        s@ == tamed@ + " is not a command; /help lists them"@,
{
    text::cat(tamed, " is not a command; /help lists them")
}

/// Turns already on a journal.
pub open spec fn turns_of(events: Seq<SessionEvent>) -> nat
    decreases events.len(),
{
    if events.len() == 0 {
        0
    } else {
        turns_of(events.drop_last()) + if events.last().ty@ == "turn/start"@ {
            1nat
        } else {
            0
        }
    }
}

/// Turns already on a journal, which is what a resumed chat remembers.
pub fn turns_on(events: &[SessionEvent]) -> (n: usize)
    ensures
        n == turns_of(events@),
{
    let mut n: usize = 0;
    let mut i: usize = 0;
    proof {
        assert(events@.take(0) =~= Seq::<SessionEvent>::empty());
    }
    while i < events.len()
        invariant
            i <= events.len(),
            n <= i,
            n == turns_of(events@.take(i as int)),
        decreases events.len() - i,
    {
        proof {
            assert(events@.take(i + 1).drop_last() =~= events@.take(i as int));
            assert(events@.take(i + 1).last() == events@[i as int]);
        }
        if same(events[i].ty.as_str(), "turn/start") {
            n = n + 1;
        }
        i = i + 1;
    }
    proof {
        assert(events@.take(i as int) =~= events@);
    }
    n
}

/// A line is asked whole: where it holds something besides the blanks around it
/// and does not open with a slash, the question is the line without those blanks,
/// however long it is, and the next thing done is to ask it.
pub proof fn lemma_a_question_is_asked_whole(line: String, before: Seq<char>, said: Seq<char>, behind: Seq<char>)
    requires
        line@ == before + said + behind,
        forall|i: int| 0 <= i < before.len() ==> text::is_space(#[trigger] before[i]),
        forall|i: int| 0 <= i < behind.len() ==> text::is_space(#[trigger] behind[i]),
        said.len() > 0,
        !text::is_space(said[0]),
        !text::is_space(said.last()),
        said[0] != '/',
    ensures
        wish_of(text::trimmed(line@)) == Wish::Ask(said),
        next_of(Typed::Line(line)) == Next::Ask(said),
{
    text::lemma_trimmed_is_what_blanks_surround(before, said, behind);
    reveal_strlit("/exit");
    reveal_strlit("/quit");
    reveal_strlit("/q");
    reveal_strlit("/help");
    reveal_strlit("/?");
}

/// Whatever is asked is part of what was typed: the line without the blanks
/// around it, or that with one slash off its front where two open it.
pub proof fn lemma_only_what_was_typed_is_asked(line: String)
    ensures
        next_of(Typed::Line(line)) matches Next::Ask(said) ==> said.len() > 0 && (said
            == text::trimmed(line@) || seq!['/'] + said == text::trimmed(line@)),
{
    let typed = text::trimmed(line@);
    if typed.len() > 2 {
        assert(seq!['/'] + typed.skip(1) =~= typed || typed[0] != '/');
    }
}

/// The commands are these and nothing else is one: three words leave, two print
/// the card, a blank line and a bare escape do nothing, and any other line that
/// opens with one slash is told back by its first word.
pub proof fn lemma_each_command_is_its_own(said: Seq<char>)
    ensures
        wish_of(said) is Leave <==> said == "/exit"@ || said == "/quit"@ || said == "/q"@,
        wish_of(said) is Help <==> said == "/help"@ || said == "/?"@,
        wish_of(said) is Blank <==> said.len() == 0 || said == "//"@,
        wish_of(said) matches Wish::Unknown(command) ==> {
            &&& said[0] == '/'
            &&& 0 < command.len() <= said.len()
            &&& command == said.take(command.len() as int)
            &&& forall|i: int| 0 <= i < command.len() ==> !text::is_space(#[trigger] said[i])
            &&& command.len() < said.len() ==> text::is_space(said[command.len() as int])
        },
        said.len() > 0 && said[0] == '/' && (said.len() == 1 || said[1] != '/') ==> !(wish_of(
            said,
        ) is Ask) && !(wish_of(said) is Blank),
{
    reveal_strlit("/exit");
    reveal_strlit("/quit");
    reveal_strlit("/q");
    reveal_strlit("/help");
    reveal_strlit("/?");
    reveal_strlit("//");
    text::lemma_a_word_stops_at_the_first_blank(said);
    if said.len() == 2 && said[0] == '/' && said[1] == '/' {
        assert(said =~= "//"@);
    }
}

/// What was typed decides what comes next: each wish its own step, the end of the
/// input leaves, an interrupt stops, and a line that could not be read fails as
/// a fault of the input, with the reason given.
pub proof fn lemma_each_wish_has_its_step(line: String, why: String)
    ensures
        match wish_of(text::trimmed(line@)) {
            Wish::Blank => next_of(Typed::Line(line)) is Wait,
            Wish::Ask(said) => next_of(Typed::Line(line)) == Next::Ask(said),
            Wish::Leave => next_of(Typed::Line(line)) is Leave,
            Wish::Help => next_of(Typed::Line(line)) is Help,
            Wish::Unknown(command) => next_of(Typed::Line(line)) == Next::Unknown(command),
        },
        next_of(Typed::Eof) is Leave,
        next_of(Typed::Interrupted) is Stop,
        next_of(Typed::Broken(why)) matches Next::Fail(error) && error.code == rpc::Code::Known(
            ErrorCode::Io,
        ) && error.message == "standard input: "@ + why@ && error.data is None,
{
}

/// After a turn the chat goes on exactly where the turn ended and its journal is
/// flushed. A failure and a report are passed on as they are.
pub proof fn lemma_a_chat_goes_on_after_a_turn_that_ended(turned: Turned)
    ensures
        after_turn(turned) is Wait <==> turned is Ended,
        turned matches Turned::Failed(error) ==> after_turn(turned) == Next::Fail(error@),
        turned matches Turned::Unflushed(why) ==> (after_turn(turned) matches Next::Report(told)
            && told.message == why@ && told.note is None && told.status == 1),
        turned is Interrupted ==> after_turn(turned) is Stop,
{
}

/// A chat ends with nought exactly where it was left, and a step that goes on has
/// no status.
pub proof fn lemma_leaving_ends_well(next: Next)
    ensures
        ends_with(next) is None <==> next is Wait || next is Help || next is Unknown
            || next is Ask,
        next is Leave ==> ends_with(next) == Some(0u8),
        next is Stop ==> ends_with(next) == Some(130u8),
        next matches Next::Report(told) ==> ends_with(next) == Some(told.status),
        next matches Next::Fail(error) ==> ends_with(next) == Some(
            crate::render::fault::status_of(error),
        ),
{
}

/// The turns on a journal are counted over all of it: those of two stretches add
/// up, and an event counts for one exactly where it starts a turn.
pub proof fn lemma_every_turn_is_counted(
    first: Seq<SessionEvent>,
    rest: Seq<SessionEvent>,
    event: SessionEvent,
)
    ensures
        turns_of(first + rest) == turns_of(first) + turns_of(rest),
        turns_of(seq![event]) == if event.ty@ == "turn/start"@ {
            1nat
        } else {
            0
        },
        turns_of(Seq::empty()) == 0,
    decreases rest.len(),
{
    assert(seq![event].drop_last() =~= Seq::<SessionEvent>::empty());
    assert(turns_of(seq![event].drop_last()) == 0);
    if rest.len() == 0 {
        assert(first + rest =~= first);
    } else {
        lemma_every_turn_is_counted(first, rest.drop_last(), event);
        assert((first + rest).drop_last() =~= first + rest.drop_last());
        assert((first + rest).last() == rest.last());
    }
}

/// Whatever parsing hands back for a line that, without the blanks around it, is
/// not empty and does not open with a slash, is that line asked whole.
pub proof fn lemma_parsing_asks_a_question_whole(line: &str, read: Input<'_>)
    requires
        call_ensures(parse, (line,), read),
        text::trimmed(line@).len() > 0,
        text::trimmed(line@)[0] != '/',
    ensures
        read matches Input::Ask(said) && said@ == text::trimmed(line@),
{
    reveal_strlit("/exit");
    reveal_strlit("/quit");
    reveal_strlit("/q");
    reveal_strlit("/help");
    reveal_strlit("/?");
}

/// Whatever is heard in a line is asked whole, where it is not empty without the
/// blanks around it and does not open with a slash.
pub proof fn lemma_hearing_asks_a_question_whole(line: String, step: Step)
    requires
        call_ensures(heard, (Typed::Line(line),), step),
        text::trimmed(line@).len() > 0,
        text::trimmed(line@)[0] != '/',
    ensures
        step matches Step::Ask(said) && said@ == text::trimmed(line@),
{
    reveal_strlit("/exit");
    reveal_strlit("/quit");
    reveal_strlit("/q");
    reveal_strlit("/help");
    reveal_strlit("/?");
}

/// Whatever is said of a command there is none of begins with that command.
pub proof fn lemma_an_unknown_command_is_told_back(tamed: &str, said: String)
    requires
        call_ensures(not_a_command, (tamed,), said),
    ensures
        said@ == tamed@ + " is not a command; /help lists them"@,
{
}

} // verus!
