//! The three things a chat prints that a turn does not: the page it opens on,
//! the marker it waits at, and the card of commands.
//!
//! The journal is the one fact about a chat that is on the screen nowhere
//! else, and the fact a reader needs to resume the conversation.
use vstd::prelude::*;
use vstd::string::*;

use crate::paint;
use crate::paint::{Charset, Field, Line, Role, Sheet};
use crate::render::keys;
use crate::render::rows;
use crate::text;
use crate::text::{decimal, spaces};

verus! {

broadcast use {crate::paint::group_fields, crate::paint::group_rows};

/// Width of the label column on the opening page.
pub const LABEL: usize = 7;

/// The columns of the widest command.
pub const WIDEST: usize = 10;

/// What a chat opened on, with its two names as the terminal draws them.
#[derive(Clone, Copy, Debug)]
pub struct Opened<'a> {
    /// The model every turn of this chat will run on.
    pub model: &'a str,
    /// Where the conversation is being written.
    pub journal: &'a str,
    /// Turns already on that journal. None for a chat that starts one.
    pub turns: usize,
}

/// A text, or the word for a text with nothing in it.
pub open spec fn or_empty_of(said: Seq<char>) -> Seq<char> {
    if said.len() == 0 {
        "(empty)"@
    } else {
        said
    }
}

/// A text, or the word for a text with nothing in it.
pub fn or_empty<'a>(said: &'a str) -> (s: &'a str)
    ensures
        s@ == or_empty_of(said@),
{
    if said.is_empty() {
        "(empty)"
    } else {
        said
    }
}

/// How much of the conversation a resumed journal is carrying.
pub open spec fn turns_of(turns: nat) -> Seq<char> {
    if turns == 1 {
        "1 turn already, and this chat remembers it"@
    } else {
        text::dec(turns) + " turns already, and this chat remembers them"@
    }
}

fn turns(count: usize) -> (s: String)
    ensures
        s@ == turns_of(count as nat),
{
    if count == 1 {
        "1 turn already, and this chat remembers it".to_owned()
    } else {
        let mut s = decimal(count as u64);
        s.append(" turns already, and this chat remembers them");
        s
    }
}

/// A labelled row on the opening page.
pub open spec fn row_of(label: Seq<char>, said: Seq<char>) -> paint::Labelled {
    paint::Labelled { label, column: LABEL as nat, said: seq![rows::plain(said)] }
}

/// The rows of the opening page. Turns are reported only where there are some:
/// a chat that starts a journal has no history to report.
pub open spec fn opening_rows(charset: Charset, opened: Opened) -> Seq<paint::Labelled> {
    let keys = row_of(
        "keys"@,
        "/help for the commands"@ + paint::glyph_of(charset, " · "@, " - "@)
            + "ctrl-d to leave"@,
    );
    let journal = row_of("journal"@, opened.journal@);
    if opened.turns > 0 {
        seq![journal, row_of("resumed"@, turns_of(opened.turns as nat)), keys]
    } else {
        seq![journal, keys]
    }
}

fn field(label: &str, said: &str) -> (f: Field)
    ensures
        f@ == row_of(label@, said@),
{
    Field { label: label.to_owned(), column: LABEL, said: Line::of(Role::Plain, said) }
}

/// The page a chat opens on.
pub fn banner(charset: Charset, opened: &Opened) -> (s: Sheet)
    ensures
        s.heading@ == seq![
            rows::plain("chat on "@),
            (Role::Accent, or_empty_of(opened.model@)),
        ],
        s.at is None,
        paint::fields_of(s.fields@) == opening_rows(charset, *opened),
        s.rows@.len() == 0,
        s.note is None,
{
    let mut heading = Line::of(Role::Plain, "chat on ");
    heading.put(Role::Accent, or_empty(opened.model));
    proof {
        assert(heading@ =~= seq![
            rows::plain("chat on "@),
            (Role::Accent, or_empty_of(opened.model@)),
        ]);
    }
    let mut fields: Vec<Field> = Vec::new();
    fields.push(field("journal", opened.journal));
    if opened.turns > 0 {
        fields.push(field("resumed", turns(opened.turns).as_str()));
    }
    let mut keys = text::cat("/help for the commands", charset.glyph(" · ", " - "));
    keys.append("ctrl-d to leave");
    fields.push(field("keys", keys.as_str()));
    proof {
        assert(paint::fields_of(fields@) =~= opening_rows(charset, *opened));
    }
    Sheet { heading, at: None, fields, rows: Vec::new(), note: None }
}

/// The marker a chat waits at, with the space the reader types after.
pub fn marker(charset: Charset) -> (l: Line)
    ensures
        l@ == seq![(Role::Accent, paint::glyph_of(charset, "›"@, ">"@)), rows::plain(" "@)],
{
    let mut l = Line::of(Role::Accent, charset.glyph("›", ">"));
    l.put(Role::Plain, " ");
    proof {
        assert(l@ =~= seq![
            (Role::Accent, paint::glyph_of(charset, "›"@, ">"@)),
            rows::plain(" "@),
        ]);
    }
    l
}

/// Every command the chat answers, and what each one does, in the order a
/// reader meets them.
pub open spec fn commands_of() -> Seq<(Seq<char>, Seq<char>)> {
    seq![
        ("/help"@, "this card; `/?` does the same"@),
        ("/keys"@, "on a screen of its own: every key it answers, editing keys included"@),
        ("/exit"@, "leave the chat; `/quit`, `/q` and ctrl-d do the same"@),
        (
            "/find word"@,
            "on a screen of its own: mark it, and walk the marks with ctrl-n and ctrl-p; `/find` alone takes the marks off"@,
        ),
        ("//text"@, "ask `/text`, rather than run it as a command"@),
    ]
}

/// What a key map says.
pub open spec fn spelled(keys: Seq<keys::Row>) -> Seq<(Seq<char>, Seq<char>)> {
    keys.map_values(|k: keys::Row| (k.0@, k.1@))
}

/// Every command the chat answers, and what each one does.
pub fn commands() -> (r: Vec<keys::Row>)
    ensures
        spelled(r@) == commands_of(),
{
    let mut r: Vec<keys::Row> = Vec::new();
    r.push(("/help", "this card; `/?` does the same"));
    r.push(("/keys", "on a screen of its own: every key it answers, editing keys included"));
    r.push(("/exit", "leave the chat; `/quit`, `/q` and ctrl-d do the same"));
    r.push(
        (
            "/find word",
            "on a screen of its own: mark it, and walk the marks with ctrl-n and ctrl-p; `/find` alone takes the marks off",
        ),
    );
    r.push(("//text", "ask `/text`, rather than run it as a command"));
    proof {
        assert(spelled(r@) =~= commands_of());
    }
    r
}

/// No command is wider than the column they stand in, and one fills it.
proof fn lemma_widest()
    ensures
        forall|i: int|
            0 <= i < commands_of().len() ==> (#[trigger] commands_of()[i]).0.len() <= WIDEST,
        commands_of()[3].0.len() == WIDEST,
{
    reveal_strlit("/help");
    reveal_strlit("/keys");
    reveal_strlit("/exit");
    reveal_strlit("/find word");
    reveal_strlit("//text");
    let all = commands_of();
    assert(all[0].0.len() == 5);
    assert(all[1].0.len() == 5);
    assert(all[2].0.len() == 5);
    assert(all[3].0.len() == 10);
    assert(all[4].0.len() == 6);
}

/// The columns what a command does is cut to, on a card this wide.
pub fn card_room(cols: usize) -> (n: usize)
    ensures
        n == rows::left_of(cols as nat, (WIDEST + 4) as nat),
{
    cols.saturating_sub(WIDEST + 4)
}

/// One command on the card, with what it does cut to the width.
pub open spec fn card_row(command: Seq<char>, cut: Seq<char>) -> paint::Row {
    seq![
        rows::plain("  "@),
        (Role::Accent, command),
        rows::plain(text::blanks((WIDEST - command.len() + 2) as nat)),
        (Role::Muted, cut),
    ]
}

/// The card, as lines to settle onto a transcript.
pub open spec fn card_rows(said: Seq<Seq<char>>) -> Seq<paint::Row> {
    seq![seq![(Role::Heading, "commands"@)]] + Seq::new(
        commands_of().len(),
        |i: int| card_row(commands_of()[i].0, said[i]),
    )
}

/// The card, as lines to settle onto a transcript. `said` is what each command
/// does, as the terminal cut it to [`card_room`].
pub fn card(said: &Vec<String>) -> (r: Vec<Line>)
    requires
        said@.len() == commands_of().len(),
    ensures
        paint::rows_of(r@) == card_rows(text::views(said@)),
{
    let ghost all = card_rows(text::views(said@));
    let rows = commands();
    let mut r = paint::only(Line::of(Role::Heading, "commands"));
    let mut i: usize = 0;
    proof {
        assert(paint::rows_of(r@) =~= all.take(1));
    }
    while i < rows.len()
        invariant
            i <= rows.len(),
            spelled(rows@) == commands_of(),
            said@.len() == rows@.len(),
            all == card_rows(text::views(said@)),
            paint::rows_of(r@) == all.take(i + 1),
        decreases rows.len() - i,
    {
        proof {
            lemma_widest();
            assert(commands_of()[i as int] == spelled(rows@)[i as int]);
            assert(commands_of()[i as int].0 == rows@[i as int].0@);
        }
        let command = rows[i].0;
        let mut l = Line::of(Role::Plain, "  ");
        l.put(Role::Accent, command);
        l.put(Role::Plain, spaces(WIDEST - command.unicode_len() + 2).as_str());
        l.put(Role::Muted, said[i].as_str());
        proof {
            assert(all[i + 1] == card_row(commands_of()[i as int].0, said@[i as int]@));
            assert(l@ =~= all[i + 1]);
            assert(all.take(i + 2) =~= all.take(i + 1).push(all[i + 1]));
        }
        r.push(l);
        i = i + 1;
    }
    proof {
        assert(all.take(i + 1) =~= all);
    }
    r
}

/// The rows of the card a chat prints.
pub open spec fn help_rows() -> Seq<paint::Labelled> {
    Seq::new(
        commands_of().len(),
        |i: int|
            paint::Labelled {
                label: commands_of()[i].0,
                column: WIDEST as nat,
                said: seq![rows::plain(commands_of()[i].1)],
            },
    )
}

/// The card a chat prints.
pub fn help() -> (s: Sheet)
    ensures
        s.heading@ == seq![rows::plain("commands"@)],
        s.at is None,
        paint::fields_of(s.fields@) == help_rows(),
        s.rows@.len() == 0,
        s.note is None,
{
    let ghost all = help_rows();
    let rows = commands();
    let mut fields: Vec<Field> = Vec::new();
    let mut i: usize = 0;
    proof {
        assert(all.take(0) =~= Seq::<paint::Labelled>::empty());
    }
    while i < rows.len()
        invariant
            i <= rows.len(),
            spelled(rows@) == commands_of(),
            all == help_rows(),
            paint::fields_of(fields@) == all.take(i as int),
        decreases rows.len() - i,
    {
        let f = Field {
            label: rows[i].0.to_owned(),
            column: WIDEST,
            said: Line::of(Role::Plain, rows[i].1),
        };
        proof {
            assert(commands_of()[i as int] == spelled(rows@)[i as int]);
            assert(f@ == all[i as int]);
            assert(all.take(i + 1) =~= all.take(i as int).push(all[i as int]));
        }
        fields.push(f);
        i = i + 1;
    }
    proof {
        assert(all.take(i as int) =~= all);
    }
    Sheet {
        heading: Line::of(Role::Plain, "commands"),
        at: None,
        fields,
        rows: Vec::new(),
        note: None,
    }
}

/// Every row of the card starts what its command does in one column.
pub proof fn lemma_one_column(i: int)
    requires
        0 <= i < commands_of().len(),
    ensures
        commands_of()[i].0.len() + (WIDEST - commands_of()[i].0.len() + 2) == WIDEST + 2,
        commands_of()[i].0.len() <= WIDEST,
{
    lemma_widest();
}

/// A chat opens with where it is kept, with how many turns it remembers where it
/// has had any, one as one, and with its keys.
pub proof fn lemma_a_chat_opens_with_what_it_remembers(charset: Charset, opened: Opened)
    ensures
        ({
            let rows = opening_rows(charset, opened);
            let at: int = if opened.turns > 0 {
                1
            } else {
                0
            };
            &&& rows.len() == at + 2
            &&& rows[0].label == "journal"@ && rows[0].said == seq![rows::plain(opened.journal@)]
            &&& rows.last().label == "keys"@
            &&& opened.turns == 1 ==> rows[1].said == seq![
                rows::plain("1 turn already, and this chat remembers it"@),
            ]
            &&& opened.turns > 1 ==> rows[1].label == "resumed"@ && rows[1].said == seq![
                rows::plain(
                    text::dec(opened.turns as nat)
                        + " turns already, and this chat remembers them"@,
                ),
            ]
        }),
{
}

/// What is empty is told as that, and what is not as it is.
pub proof fn lemma_nothing_is_told_as_empty(said: Seq<char>)
    ensures
        said.len() > 0 ==> or_empty_of(said) == said,
        said.len() == 0 ==> or_empty_of(said) == "(empty)"@,
{
}

/// The card and the help list the same commands in the same order, each by its own
/// word: the card with what it does cut to the width, the help with all of it.
pub proof fn lemma_the_card_and_the_help_agree(said: Seq<Seq<char>>, i: int)
    requires
        said.len() == commands_of().len(),
        0 <= i < commands_of().len(),
    ensures
        card_rows(said).len() == help_rows().len() + 1,
        card_rows(said)[i + 1][1] == (Role::Accent, help_rows()[i].label),
        card_rows(said)[i + 1][3] == (Role::Muted, said[i]),
        help_rows()[i].said == seq![rows::plain(commands_of()[i].1)],
        help_rows()[i].label == commands_of()[i].0,
        card_rows(said)[0] == seq![(Role::Heading, "commands"@)],
{
}

/// Whatever banner a chat opens with names its model, and an unnamed one as that.
pub proof fn lemma_a_chat_is_headed_by_its_model(
    charset: Charset,
    opened: &Opened,
    sheet: Sheet,
)
    requires
        call_ensures(banner, (charset, opened), sheet),
    ensures
        sheet.heading@[0] == rows::plain("chat on "@),
        opened.model@.len() > 0 ==> sheet.heading@[1] == (Role::Accent, opened.model@),
        opened.model@.len() == 0 ==> sheet.heading@[1] == (Role::Accent, "(empty)"@),
{
}

/// A row of the card is two columns in, its command out to the widest, and two
/// columns on what the command does.
pub proof fn lemma_a_card_row_stands_in_columns(command: Seq<char>, cut: Seq<char>)
    requires
        command.len() <= 10,
    ensures
        card_row(command, cut).len() == 4,
        card_row(command, cut)[0] == rows::plain("  "@),
        card_row(command, cut)[1] == (Role::Accent, command),
        command.len() + card_row(command, cut)[2].1.len() == 12,
        card_row(command, cut)[3] == (Role::Muted, cut),
{
}

/// The last row of what a chat opens with tells how to see the commands and how to
/// leave.
pub proof fn lemma_a_chat_opens_with_its_keys(charset: Charset, opened: Opened)
    ensures
        charset is Unicode ==> opening_rows(charset, opened).last().said == seq![
            rows::plain("/help for the commands"@ + " · "@ + "ctrl-d to leave"@),
        ],
        charset is Ascii ==> opening_rows(charset, opened).last().said == seq![
            rows::plain("/help for the commands"@ + " - "@ + "ctrl-d to leave"@),
        ],
{
}

} // verus!
