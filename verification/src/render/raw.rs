//! The journal as the file spells it: one line in, one row out.
//!
//! A journal read as a log is a sequence, and one with a hole in it is
//! refused. This view shows a file, so it takes each line on its own and
//! reports the ones it cannot read rather than refusing the file they are in.
use vstd::prelude::*;
use vstd::string::*;

use crate::event;
use crate::event::SessionEvent;
use crate::json;
use crate::paint;
use crate::paint::Role;
use crate::render::cell;
use crate::render::rows;
use crate::text;
use crate::text::decimal;

verus! {

broadcast use crate::paint::group_rows;

/// Width of the `seq` column.
pub const SEQ: usize = 4;

/// Width of the topic column. A longer topic pushes its data right rather than
/// being cut: this view never hides what the file says.
pub const TOPIC: usize = 20;

/// One line of a journal, as this view sees it.
#[derive(Debug)]
pub enum Line {
    /// A line that reads as an event, whatever the rest of the file does.
    Event(SessionEvent),
    /// A line that does not, under the number a repair has to find it by.
    Unreadable { number: usize, text: String },
}

/// Whether a line is what a text at a place in the file reads as.
pub open spec fn reads_as(line: Line, number: usize, said: Seq<char>) -> bool {
    match line {
        Line::Event(event) => {
            &&& event::decodes(said)
            &&& Some(event.ty@) == json::text_of(said, "type"@)
            &&& Some(event.seq) == json::number_of(said, "seq"@)
            &&& Some(event.time) == json::number_of(said, "time"@)
            &&& Some(event.data@) == json::json_field(said, "data"@)
        },
        Line::Unreadable { number: at, text } => {
            &&& !event::decodes(said)
            &&& at == number
            &&& text@ == said
        },
    }
}

/// Read one line of a journal without judging the log it belongs to. `number`
/// is the line's place in the file, counted from one.
pub fn parse(number: usize, said: &str) -> (l: Line)
    ensures
        reads_as(l, number, said@),
{
    match SessionEvent::decode(said) {
        Some(event) => Line::Event(event),
        None => Line::Unreadable { number, text: said.to_owned() },
    }
}

/// The first line that could not be read, by its number.
pub open spec fn unreadable_of(lines: Seq<Line>) -> Option<usize>
    decreases lines.len(),
{
    if lines.len() == 0 {
        None
    } else {
        match lines[0] {
            Line::Unreadable { number, .. } => Some(number),
            Line::Event(_) => unreadable_of(lines.skip(1)),
        }
    }
}

/// The first line this view could not read, if there was one.
pub fn unreadable(lines: &Vec<Line>) -> (r: Option<usize>)
    ensures
        r == unreadable_of(lines@),
{
    let mut i: usize = 0;
    proof {
        assert(lines@.skip(0) =~= lines@);
    }
    while i < lines.len()
        invariant
            i <= lines.len(),
            unreadable_of(lines@) == unreadable_of(lines@.skip(i as int)),
        decreases lines.len() - i,
    {
        proof {
            assert(lines@.skip(i as int).skip(1) =~= lines@.skip(i + 1));
        }
        if let Line::Unreadable { number, .. } = &lines[i] {
            return Some(*number);
        }
        i = i + 1;
    }
    None
}

/// One row: a number column, a topic column, and what follows.
pub open spec fn columns(
    number: (Role, Seq<char>),
    topic: (Role, Seq<char>),
    rest: (Role, Seq<char>),
) -> paint::Row {
    seq![
        rows::plain(cell::pad_of(number.1.len(), SEQ as nat)),
        number,
        rows::plain("  "@),
        topic,
        rows::plain(cell::pad_of(topic.1.len(), TOPIC as nat) + " "@),
        rest,
    ]
}

/// One line as a row. The number of an unreadable line goes beside its text
/// and not in the `seq` column: `seq` is what a line claims about itself.
pub open spec fn row_of(line: Line) -> paint::Row {
    match line {
        Line::Event(event) => columns(
            (Role::Number, text::dec(event.seq as nat)),
            (Role::Topic, event.ty@),
            rows::plain(event.data@),
        ),
        Line::Unreadable { number, text } => columns(
            (Role::Error, "?"@),
            (Role::Error, "unreadable"@),
            (Role::Muted, "line "@ + text::dec(number as nat) + ": "@ + text@),
        ),
    }
}

/// The page.
pub open spec fn page_of(lines: Seq<Line>) -> Seq<paint::Row> {
    if lines.len() == 0 {
        seq![seq![(Role::Muted, "the journal is empty"@)]]
    } else {
        Seq::new(lines.len(), |i: int| row_of(lines[i]))
    }
}

fn row(number: (Role, &str), topic: (Role, &str), rest: (Role, &str)) -> (l: paint::Line)
    ensures
        l@ == columns((number.0, number.1@), (topic.0, topic.1@), (rest.0, rest.1@)),
{
    let mut l = paint::Line::of(Role::Plain, cell::pad(number.1.unicode_len(), SEQ).as_str());
    l.put(number.0, number.1);
    l.put(Role::Plain, "  ");
    l.put(topic.0, topic.1);
    let mut pad = cell::pad(topic.1.unicode_len(), TOPIC);
    pad.append(" ");
    l.put(Role::Plain, pad.as_str());
    l.put(rest.0, rest.1);
    proof {
        assert(l@ =~= columns(
            (number.0, number.1@),
            (topic.0, topic.1@),
            (rest.0, rest.1@),
        ));
    }
    l
}

/// Every line, readable or not, in the order the file holds them.
pub fn render(lines: &Vec<Line>) -> (r: Vec<paint::Line>)
    ensures
        paint::rows_of(r@) == page_of(lines@),
{
    if lines.len() == 0 {
        return paint::only(paint::Line::of(Role::Muted, "the journal is empty"));
    }
    let ghost all = page_of(lines@);
    let mut r: Vec<paint::Line> = Vec::new();
    let mut i: usize = 0;
    proof {
        assert(all.take(0) =~= Seq::<paint::Row>::empty());
    }
    while i < lines.len()
        invariant
            i <= lines.len(),
            lines@.len() > 0,
            all == page_of(lines@),
            paint::rows_of(r@) == all.take(i as int),
        decreases lines.len() - i,
    {
        let l = match &lines[i] {
            Line::Event(event) => row(
                (Role::Number, decimal(event.seq).as_str()),
                (Role::Topic, event.ty.as_str()),
                (Role::Plain, event.data.as_str()),
            ),
            Line::Unreadable { number, text } => {
                let mut said = text::cat("line ", decimal(*number as u64).as_str());
                said.append(": ");
                said.append(text.as_str());
                row((Role::Error, "?"), (Role::Error, "unreadable"), (Role::Muted, said.as_str()))
            },
        };
        proof {
            assert(l@ == all[i as int]);
            assert(all.take(i + 1) =~= all.take(i as int).push(all[i as int]));
        }
        r.push(l);
        i = i + 1;
    }
    proof {
        assert(all.take(i as int) =~= all);
    }
    r
}

/// Nothing in the file is hidden: a file with lines has a row for each.
pub proof fn lemma_every_line_has_a_row(lines: Seq<Line>)
    requires
        lines.len() > 0,
    ensures
        page_of(lines).len() == lines.len(),
        forall|i: int| 0 <= i < lines.len() ==> #[trigger] page_of(lines)[i] == row_of(lines[i]),
{
}

/// A broken line is reported whenever there is one, and it is the first.
pub proof fn lemma_the_first_broken_line_is_reported(lines: Seq<Line>)
    ensures
        match unreadable_of(lines) {
            Some(number) => exists|i: int|
                {
                    &&& 0 <= i < lines.len()
                    &&& (#[trigger] lines[i] matches Line::Unreadable { number: at, .. } && at
                        == number)
                    &&& forall|j: int| 0 <= j < i ==> (#[trigger] lines[j] is Event)
                },
            None => forall|i: int| 0 <= i < lines.len() ==> (#[trigger] lines[i] is Event),
        },
    decreases lines.len(),
{
    if lines.len() > 0 && lines[0] is Event {
        let rest = lines.skip(1);
        lemma_the_first_broken_line_is_reported(rest);
        assert forall|j: int| 0 <= j < rest.len() implies rest[j] == #[trigger] lines[j + 1] by {}
        match unreadable_of(rest) {
            Some(number) => {
                let i = choose|i: int|
                    {
                        &&& 0 <= i < rest.len()
                        &&& (#[trigger] rest[i] matches Line::Unreadable { number: at, .. } && at
                            == number)
                        &&& forall|j: int| 0 <= j < i ==> (#[trigger] rest[j] is Event)
                    };
                assert(lines[i + 1] == rest[i]);
                assert forall|j: int| 0 <= j < i + 1 implies (#[trigger] lines[j] is Event) by {
                    if j > 0 {
                        assert(rest[j - 1] is Event);
                        assert(rest[j - 1] == lines[j]);
                    }
                }
            },
            None => {
                assert forall|j: int| 0 <= j < lines.len() implies (#[trigger] lines[j] is Event) by {
                    if j > 0 {
                        assert(rest[j - 1] is Event);
                        assert(rest[j - 1] == lines[j]);
                    }
                }
            },
        }
    } else if lines.len() > 0 {
        assert(lines[0] matches Line::Unreadable { number: at, .. } && Some(at) == unreadable_of(
            lines,
        ));
    }
}

/// A line that is an event is drawn by its own number, its type and its data, and
/// one that is none by the number it has in the file and by what it says.
pub proof fn lemma_a_line_is_drawn_as_it_reads(line: Line)
    ensures
        match line {
            Line::Event(event) => {
                &&& row_of(line)[1] == (Role::Number, text::dec(event.seq as nat))
                &&& row_of(line)[3] == (Role::Topic, event.ty@)
                &&& row_of(line)[5] == rows::plain(event.data@)
            },
            Line::Unreadable { number, text } => {
                &&& row_of(line)[1] == (Role::Error, "?"@)
                &&& row_of(line)[3] == (Role::Error, "unreadable"@)
                &&& row_of(line)[5] == (
                    Role::Muted,
                    "line "@ + text::dec(number as nat) + ": "@ + text@,
                )
            },
        },
        row_of(line).len() == 6,
{
}

/// The columns line up: the number ends in the fourth and the topic starts in the
/// seventh, and is carried out to twenty.
pub proof fn lemma_the_columns_line_up(
    number: (Role, Seq<char>),
    topic: (Role, Seq<char>),
    rest: (Role, Seq<char>),
)
    requires
        number.1.len() <= 4,
        topic.1.len() <= 20,
    ensures
        ({
            let row = columns(number, topic, rest);
            &&& row[0].1.len() + number.1.len() == 4
            &&& topic.1.len() + row[4].1.len() == 21
            &&& row[2].1 == "  "@
        }),
{
    reveal_strlit(" ");
}

/// What was read of a line is the line: an event has its type, its place, its time
/// and its data, and a line that is none is kept whole under its number.
pub proof fn lemma_a_line_is_read_or_kept(
    line: Line,
    number: usize,
    said: Seq<char>,
    ty: Seq<char>,
    seq: u64,
    time: u64,
    data: Seq<char>,
)
    requires
        reads_as(line, number, said),
    ensures
        json::spells(said, "type"@, ty) && json::counts(said, "seq"@, seq) && json::counts(
            said,
            "time"@,
            time,
        ) && json::json_field(said, "data"@) == Some(data) ==> (line matches Line::Event(event)
            && event.ty@ == ty && event.seq == seq && event.time == time && event.data@ == data),
        json::json_field(said, "type"@) is None || json::json_field(said, "seq"@) is None
            || json::json_field(said, "time"@) is None || json::json_field(said, "data"@) is None
            ==> (line matches Line::Unreadable { number: at, text } && at == number && text@
            == said),
{
}

/// A journal without lines is told as that, and one with lines is told by them.
pub proof fn lemma_an_empty_journal_is_told(lines: Seq<Line>)
    ensures
        lines.len() == 0 ==> page_of(lines) == seq![
            seq![(Role::Muted, "the journal is empty"@)],
        ],
        lines.len() > 0 ==> page_of(lines).len() == lines.len(),
{
}

} // verus!
