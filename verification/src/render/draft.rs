//! Rows of a page before the terminal has folded, cut and measured them.
use vstd::prelude::*;

use crate::event;
use crate::event::StopReason;
use crate::json;
use crate::paint;
use crate::paint::{Line, Role};

verus! {

/// Who a block of text is said by.
#[derive(Clone, Copy, PartialEq, Eq, Structural, Debug)]
pub enum Speaker {
    You,
    Think,
    Ai,
}

impl Speaker {
    /// The label the block is under.
    pub open spec fn name(self) -> Seq<char> {
        match self {
            Speaker::You => "you"@,
            Speaker::Think => "think"@,
            Speaker::Ai => "ai"@,
        }
    }

    /// The blanks that carry the label out to its column.
    pub open spec fn gap(self) -> Seq<char> {
        match self {
            Speaker::You => "   "@,
            Speaker::Think => " "@,
            Speaker::Ai => "    "@,
        }
    }

    /// The part the label plays.
    pub open spec fn role(self) -> Role {
        match self {
            Speaker::You => Role::Accent,
            Speaker::Think => Role::Muted,
            Speaker::Ai => Role::Topic,
        }
    }

    /// The label and the blanks after it take one column more than the label column,
    /// whoever is speaking.
    pub proof fn lemma_labels_line_up(self)
        ensures
            self.name().len() + self.gap().len() == 6,
    {
        reveal_strlit("you");
        reveal_strlit("   ");
        reveal_strlit("think");
        reveal_strlit(" ");
        reveal_strlit("ai");
        reveal_strlit("    ");
    }

    pub(crate) fn label(self) -> (s: &'static str)
        ensures
            s@ == self.name(),
    {
        match self {
            Speaker::You => "you",
            Speaker::Think => "think",
            Speaker::Ai => "ai",
        }
    }

    pub(crate) fn pad(self) -> (s: &'static str)
        ensures
            s@ == self.gap(),
    {
        match self {
            Speaker::You => "   ",
            Speaker::Think => " ",
            Speaker::Ai => "    ",
        }
    }

    pub(crate) fn part(self) -> (r: Role)
        ensures
            r == self.role(),
    {
        match self {
            Speaker::You => Role::Accent,
            Speaker::Think => Role::Muted,
            Speaker::Ai => Role::Topic,
        }
    }
}

/// How a turn ended, as its closing rows report it.
#[derive(Clone, Debug)]
pub struct Closing {
    pub turn: u64,
    pub steps: u32,
    pub reason: StopReason,
    /// How long the turn took, when that was a second or more.
    pub took: Option<u64>,
    /// Tokens billed, when any step measured them.
    pub total: Option<u64>,
    /// How fast it was, on the turns slow enough for that to be a fact.
    pub waited: Option<u64>,
    pub rate: Option<u64>,
    /// Who held the turn open.
    pub veto: Option<String>,
}

/// How a turn ended, by what it says.
pub struct Close {
    pub turn: u64,
    pub steps: u32,
    pub reason: event::Stop,
    pub took: Option<u64>,
    pub total: Option<u64>,
    pub waited: Option<u64>,
    pub rate: Option<u64>,
    pub veto: Option<Seq<char>>,
}

impl View for Closing {
    type V = Close;

    open spec fn view(&self) -> Close {
        Close {
            turn: self.turn,
            steps: self.steps,
            reason: self.reason@,
            took: self.took,
            total: self.total,
            waited: self.waited,
            rate: self.rate,
            veto: json::held(self.veto),
        }
    }
}

/// Rows of the page, before the terminal has had its say about them.
#[derive(Clone, Debug)]
pub enum Draft {
    /// A row with nothing left to decide.
    Row(Line),
    /// The model a session runs on.
    Session { model: String },
    /// A labelled block, to be folded to the width.
    Said { who: Speaker, said: String },
    /// Thinking as one row: what it opened with, and how many lines more there
    /// are behind it.
    Folded { first: String, rest: usize },
    /// A tool asked for, and what it was given, to be cut to the width.
    Call { name: String, value: String },
    /// What a tool produced, to be folded to the width.
    Result { ok: bool, name: String, content: String, answers: Option<String>, whole: bool },
    /// The rows a turn closes with.
    Closing(Closing),
    /// An event of a type this crate does not know, to be cut to the width.
    Raw { ty: String, data: String },
}

/// Rows of the page, by what they say.
pub enum Sketch {
    Row(paint::Row),
    Session(Seq<char>),
    Said(Speaker, Seq<char>),
    Folded(Seq<char>, nat),
    Call(Seq<char>, Seq<char>),
    Result {
        ok: bool,
        name: Seq<char>,
        content: Seq<char>,
        answers: Option<Seq<char>>,
        whole: bool,
    },
    Closing(Close),
    Raw(Seq<char>, Seq<char>),
}

impl View for Draft {
    type V = Sketch;

    open spec fn view(&self) -> Sketch {
        match self {
            Draft::Row(line) => Sketch::Row(line@),
            Draft::Session { model } => Sketch::Session(model@),
            Draft::Said { who, said } => Sketch::Said(*who, said@),
            Draft::Folded { first, rest } => Sketch::Folded(first@, *rest as nat),
            Draft::Call { name, value } => Sketch::Call(name@, value@),
            Draft::Result { ok, name, content, answers, whole } => Sketch::Result {
                ok: *ok,
                name: name@,
                content: content@,
                answers: json::held(*answers),
                whole: *whole,
            },
            Draft::Closing(closing) => Sketch::Closing(closing@),
            Draft::Raw { ty, data } => Sketch::Raw(ty@, data@),
        }
    }
}

/// What a list of drafts says.
pub open spec fn sketched(drafts: Seq<Draft>) -> Seq<Sketch> {
    drafts.map_values(|d: Draft| d@)
}

/// A draft added at the end is the last thing said.
pub broadcast proof fn sketched_push(drafts: Seq<Draft>, draft: Draft)
    ensures
        #[trigger] sketched(drafts.push(draft)) == sketched(drafts).push(draft@),
{
    assert(sketched(drafts.push(draft)) =~= sketched(drafts).push(draft@));
}

/// No drafts say nothing.
pub broadcast proof fn sketched_empty()
    ensures
        #[trigger] sketched(Seq::<Draft>::empty()) == Seq::<Sketch>::empty(),
{
    assert(sketched(Seq::<Draft>::empty()) =~= Seq::<Sketch>::empty());
}

/// Two lists of drafts say what each says, one after the other.
pub broadcast proof fn sketched_add(a: Seq<Draft>, b: Seq<Draft>)
    ensures
        #[trigger] sketched(a + b) == sketched(a) + sketched(b),
{
    assert(sketched(a + b) =~= sketched(a) + sketched(b));
}

pub broadcast group group_sketched {
    sketched_push,
    sketched_empty,
    sketched_add,
}

/// Each speaker has a name and a colour of their own.
pub proof fn lemma_speakers_are_told_apart(a: Speaker, b: Speaker)
    ensures
        a != b ==> a.name() != b.name() && a.role() != b.role(),
        Speaker::You.name() == "you"@,
        Speaker::Think.name() == "think"@,
        Speaker::Ai.name() == "ai"@,
{
    reveal_strlit("you");
    reveal_strlit("think");
    reveal_strlit("ai");
    assert("you"@.len() == 3 && "think"@.len() == 5 && "ai"@.len() == 2);
}

} // verus!
