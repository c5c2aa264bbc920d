//! What the help pages say, and the colour the command line asked for before
//! it is parsed.
//!
//! Help is printed while the arguments are parsed, so the palette is decided
//! from them before that. The page also says what the binary exits with: the
//! numbers are the error codes' own, and the table here only words each one.
use vstd::prelude::*;
use vstd::string::*;

use crate::paint;
use crate::paint::{Line, Role};
use crate::render::cell;
use crate::render::chat;
use crate::render::keys;
use crate::render::rows;
use crate::rpc::ErrorCode;
use crate::text;
use crate::text::{decimal, same, spaces};

verus! {

broadcast use {crate::paint::group_rows, crate::text::group_views};

/// How far a description is indented when it is under its command rather than
/// beside it.
pub const STACKED: usize = 6;

/// The width of the number column: what a meaning starts at, and what a folded
/// one continues under.
pub const NUMBER: usize = 7;

/// When to colour output.
#[derive(Clone, Copy, Debug, PartialEq, Eq, Structural)]
pub enum ColorChoice {
    Auto,
    Always,
    Never,
}

/// The choice a word makes. Rejecting any other is the parser's job, a moment
/// later.
pub open spec fn choice_of(word: Seq<char>) -> ColorChoice {
    if word == "always"@ {
        ColorChoice::Always
    } else if word == "never"@ {
        ColorChoice::Never
    } else {
        ColorChoice::Auto
    }
}

/// The choice a word makes.
pub fn color_choice(word: &str) -> (c: ColorChoice)
    ensures
        c == choice_of(word@),
{
    if same(word, "always") {
        ColorChoice::Always
    } else if same(word, "never") {
        ColorChoice::Never
    } else {
        ColorChoice::Auto
    }
}

/// The colour a run of arguments asks for: the first `--color WHEN` or
/// `--color=WHEN` in it.
pub open spec fn color_in(args: Seq<Seq<char>>) -> ColorChoice
    decreases args.len(),
{
    if args.len() == 0 {
        ColorChoice::Auto
    } else if text::after_prefix(args[0], "--color="@) is Some {
        choice_of(text::after_prefix(args[0], "--color="@)->0)
    } else if args[0] == "--color"@ {
        if args.len() > 1 {
            choice_of(args[1])
        } else {
            ColorChoice::Auto
        }
    } else {
        color_in(args.skip(1))
    }
}

/// The colour a run of arguments asks for, before they are parsed.
pub fn color_from_argv(args: &Vec<String>) -> (c: ColorChoice)
    ensures
        c == color_in(text::views(args@)),
{
    let ghost all = text::views(args@);
    let mut i: usize = 0;
    proof {
        assert(all.skip(0) =~= all);
    }
    while i < args.len()
        invariant
            i <= args.len(),
            all == text::views(args@),
            color_in(all) == color_in(all.skip(i as int)),
        decreases args.len() - i,
    {
        proof {
            assert(all.skip(i as int)[0] == args@[i as int]@);
            assert(all.skip(i as int).skip(1) =~= all.skip(i + 1));
        }
        if let Some(value) = text::strip_prefix(args[i].as_str(), "--color=") {
            return color_choice(value.as_str());
        }
        if same(args[i].as_str(), "--color") {
            if i + 1 < args.len() {
                proof {
                    assert(all.skip(i as int)[1] == args@[i + 1]@);
                }
                return color_choice(args[i + 1].as_str());
            }
            return ColorChoice::Auto;
        }
        i = i + 1;
    }
    ColorChoice::Auto
}

// ---- the tables ----

/// What to type, and what each one is for.
pub open spec fn root_examples_of() -> Seq<(Seq<char>, Seq<char>)> {
    seq![
        ("tetanus run"@, "one offline turn, mock adapter"@),
        ("tetanus run \"list the files\""@, "ask for something specific"@),
        ("tetanus run -a deepseek -m deepseek-v4-pro"@, "needs DEEPSEEK_API_KEY"@),
        ("tetanus chat"@, "talk to the model, turn by turn"@),
        ("tetanus chat -a mock -s /tmp/c.jsonl"@, "the same offline, in that journal"@),
        ("tetanus sessions"@, "every journal, newest first"@),
        ("tetanus sessions --ui"@, "pick one of them and read it"@),
        ("tetanus replay sessions/turn.jsonl"@, "re-read a journal from before"@),
        ("tetanus replay sessions/turn.jsonl --live"@, "watch that turn arrive again"@),
        ("tetanus replay sessions/turn.jsonl --ui"@, "read it on a screen of its own"@),
        ("tetanus config"@, "every key, and what set it"@),
        ("tetanus models"@, "which providers are reachable"@),
        ("tetanus tools"@, "what the agent is able to call"@),
        ("tetanus serve"@, "hand stdout to the protocol"@),
        ("tetanus serve --listen 127.0.0.1:8787"@, "serve the protocol on a socket"@),
    ]
}

/// What to type, and what each one is for.
pub fn root_examples() -> (r: Vec<keys::Row>)
    ensures
        chat::spelled(r@) == root_examples_of(),
{
    let mut r: Vec<keys::Row> = Vec::new();
    r.push(("tetanus run", "one offline turn, mock adapter"));
    r.push(("tetanus run \"list the files\"", "ask for something specific"));
    r.push(("tetanus run -a deepseek -m deepseek-v4-pro", "needs DEEPSEEK_API_KEY"));
    r.push(("tetanus chat", "talk to the model, turn by turn"));
    r.push(("tetanus chat -a mock -s /tmp/c.jsonl", "the same offline, in that journal"));
    r.push(("tetanus sessions", "every journal, newest first"));
    r.push(("tetanus sessions --ui", "pick one of them and read it"));
    r.push(("tetanus replay sessions/turn.jsonl", "re-read a journal from before"));
    r.push(("tetanus replay sessions/turn.jsonl --live", "watch that turn arrive again"));
    r.push(("tetanus replay sessions/turn.jsonl --ui", "read it on a screen of its own"));
    r.push(("tetanus config", "every key, and what set it"));
    r.push(("tetanus models", "which providers are reachable"));
    r.push(("tetanus tools", "what the agent is able to call"));
    r.push(("tetanus serve", "hand stdout to the protocol"));
    r.push(("tetanus serve --listen 127.0.0.1:8787", "serve the protocol on a socket"));
    proof {
        assert(chat::spelled(r@) =~= root_examples_of());
    }
    r
}

/// What to type to run a turn.
pub open spec fn run_examples_of() -> Seq<(Seq<char>, Seq<char>)> {
    seq![
        ("tetanus run"@, "the default: \"run one full turn\""@),
        ("tetanus run \"list the files\""@, "ask for something else"@),
        ("tetanus run - < task.md"@, "a prompt too long to quote"@),
        ("tetanus run --trace"@, "the raw event sequence instead"@),
        ("tetanus run --ui"@, "watch it on a screen of its own"@),
        ("tetanus run --session /tmp/t.jsonl"@, "choose where the journal lands"@),
        ("tetanus run --max-steps 1"@, "stop after one step"@),
        ("tetanus run --think"@, "unfold what the model thought"@),
        ("tetanus run --json"@, "JSONL for a script, not for a person"@),
    ]
}

/// What to type to run a turn.
pub fn run_examples() -> (r: Vec<keys::Row>)
    ensures
        chat::spelled(r@) == run_examples_of(),
{
    let mut r: Vec<keys::Row> = Vec::new();
    r.push(("tetanus run", "the default: \"run one full turn\""));
    r.push(("tetanus run \"list the files\"", "ask for something else"));
    r.push(("tetanus run - < task.md", "a prompt too long to quote"));
    r.push(("tetanus run --trace", "the raw event sequence instead"));
    r.push(("tetanus run --ui", "watch it on a screen of its own"));
    r.push(("tetanus run --session /tmp/t.jsonl", "choose where the journal lands"));
    r.push(("tetanus run --max-steps 1", "stop after one step"));
    r.push(("tetanus run --think", "unfold what the model thought"));
    r.push(("tetanus run --json", "JSONL for a script, not for a person"));
    proof {
        assert(chat::spelled(r@) =~= run_examples_of());
    }
    r
}

/// What to type to hold a conversation.
pub open spec fn chat_examples_of() -> Seq<(Seq<char>, Seq<char>)> {
    seq![
        ("tetanus chat"@, "DeepSeek; needs DEEPSEEK_API_KEY"@),
        ("tetanus chat -a mock"@, "the same conversation, offline"@),
        ("tetanus chat -s sessions/plan.jsonl"@, "start or resume that conversation"@),
        ("tetanus chat --think"@, "unfold what the model thought"@),
        ("tetanus chat --max-steps 1"@, "stop each turn after one step"@),
    ]
}

/// What to type to hold a conversation.
pub fn chat_examples() -> (r: Vec<keys::Row>)
    ensures
        chat::spelled(r@) == chat_examples_of(),
{
    let mut r: Vec<keys::Row> = Vec::new();
    r.push(("tetanus chat", "DeepSeek; needs DEEPSEEK_API_KEY"));
    r.push(("tetanus chat -a mock", "the same conversation, offline"));
    r.push(("tetanus chat -s sessions/plan.jsonl", "start or resume that conversation"));
    r.push(("tetanus chat --think", "unfold what the model thought"));
    r.push(("tetanus chat --max-steps 1", "stop each turn after one step"));
    proof {
        assert(chat::spelled(r@) =~= chat_examples_of());
    }
    r
}

/// Every variable this binary reads, and what it changes.
pub open spec fn environment_of() -> Seq<(Seq<char>, Seq<char>)> {
    seq![
        ("TETANUS_HOME"@, "where the settings document lives, unless `--settings` says"@),
        ("DEEPSEEK_API_KEY"@, "credential for `--adapter deepseek`"@),
        ("NO_COLOR"@, "set to anything non-empty for plain output"@),
        ("CLICOLOR_FORCE"@, "set to keep colour through a pipe"@),
        ("CLICOLOR"@, "set to 0 for plain output"@),
        ("TERM"@, "`dumb`, or unset: no colour, and ASCII glyphs"@),
        ("LC_ALL, LC_CTYPE, LANG"@, "the first one set picks the glyphs; non-UTF-8 is ASCII"@),
        ("COLUMNS"@, "override the detected line width"@),
    ]
}

/// Every variable this binary reads, and what it changes.
pub fn environment() -> (r: Vec<keys::Row>)
    ensures
        chat::spelled(r@) == environment_of(),
{
    let mut r: Vec<keys::Row> = Vec::new();
    r.push(("TETANUS_HOME", "where the settings document lives, unless `--settings` says"));
    r.push(("DEEPSEEK_API_KEY", "credential for `--adapter deepseek`"));
    r.push(("NO_COLOR", "set to anything non-empty for plain output"));
    r.push(("CLICOLOR_FORCE", "set to keep colour through a pipe"));
    r.push(("CLICOLOR", "set to 0 for plain output"));
    r.push(("TERM", "`dumb`, or unset: no colour, and ASCII glyphs"));
    r.push(("LC_ALL, LC_CTYPE, LANG", "the first one set picks the glyphs; non-UTF-8 is ASCII"));
    r.push(("COLUMNS", "override the detected line width"));
    proof {
        assert(chat::spelled(r@) =~= environment_of());
    }
    r
}

/// What each exit status means, in the order a reader scans them.
pub open spec fn statuses_of() -> Seq<(u8, Seq<char>)> {
    seq![
        (0u8, "it did what was asked"@),
        (1u8, "this build failed, or a file could not be read"@),
        (2u8, "the command line was wrong"@),
        (3u8, "this build cannot do what was asked of it"@),
        (4u8, "what was named is not there, or is busy"@),
        (5u8, "a credential is not set"@),
        (6u8, "the provider refused the call"@),
        (130u8, "interrupted"@),
    ]
}

/// What a list of statuses says.
pub open spec fn meanings(rows: Seq<(u8, &'static str)>) -> Seq<(u8, Seq<char>)> {
    rows.map_values(|r: (u8, &'static str)| (r.0, r.1@))
}

/// What each exit status means, in the order a reader scans them.
pub fn statuses() -> (r: Vec<(u8, &'static str)>)
    ensures
        meanings(r@) == statuses_of(),
{
    let mut r: Vec<(u8, &'static str)> = Vec::new();
    r.push((0, "it did what was asked"));
    r.push((1, "this build failed, or a file could not be read"));
    r.push((2, "the command line was wrong"));
    r.push((3, "this build cannot do what was asked of it"));
    r.push((4, "what was named is not there, or is busy"));
    r.push((5, "a credential is not set"));
    r.push((6, "the provider refused the call"));
    r.push((130, "interrupted"));
    proof {
        assert(meanings(r@) =~= statuses_of());
    }
    r
}

/// Every status a failure exits with is worded, and so is success: no code
/// leaves a hole in the page.
pub proof fn lemma_every_status_is_worded(code: ErrorCode)
    ensures
        exists|i: int|
            0 <= i < statuses_of().len() && (#[trigger] statuses_of()[i]).0 == code.status(),
        statuses_of()[0].0 == 0,
{
    let all = statuses_of();
    assert(all[1].0 == 1);
    assert(all[2].0 == 2);
    assert(all[3].0 == 3);
    assert(all[4].0 == 4);
    assert(all[5].0 == 5);
    assert(all[6].0 == 6);
    assert(all[7].0 == 130);
}

// ---- two columns ----

/// Where a description starts when there is room for one beside its command:
/// two spaces in, and two clear of the widest command.
pub open spec fn column_of(table: Seq<(Seq<char>, Seq<char>)>) -> nat {
    2 + cell::widest_of(table.map_values(|r: (Seq<char>, Seq<char>)| r.0.len())) + 2
}

/// The width of the widest description.
pub open spec fn widest_of(table: Seq<(Seq<char>, Seq<char>)>) -> nat {
    cell::widest_of(table.map_values(|r: (Seq<char>, Seq<char>)| r.1.len()))
}

/// Whether a window has room for the two columns.
pub open spec fn fits_of(width: nat, table: Seq<(Seq<char>, Seq<char>)>) -> bool {
    column_of(table) + widest_of(table) <= width
}

fn measure(table: &Vec<keys::Row>) -> (r: (usize, usize))
    ensures
        r.0 == cell::widest_of(
            chat::spelled(table@).map_values(|r: (Seq<char>, Seq<char>)| r.0.len()),
        ),
        r.1 == widest_of(chat::spelled(table@)),
{
    let ghost said = chat::spelled(table@);
    let ghost commands = said.map_values(|r: (Seq<char>, Seq<char>)| r.0.len());
    let ghost whats = said.map_values(|r: (Seq<char>, Seq<char>)| r.1.len());
    let mut left: Vec<usize> = Vec::new();
    let mut right: Vec<usize> = Vec::new();
    let mut i: usize = 0;
    while i < table.len()
        invariant
            i <= table.len(),
            said == chat::spelled(table@),
            commands == said.map_values(|r: (Seq<char>, Seq<char>)| r.0.len()),
            whats == said.map_values(|r: (Seq<char>, Seq<char>)| r.1.len()),
            cell::counted(left@) =~= commands.take(i as int),
            cell::counted(right@) =~= whats.take(i as int),
        decreases table.len() - i,
    {
        let ghost before = (left@, right@);
        left.push(table[i].0.unicode_len());
        right.push(table[i].1.unicode_len());
        proof {
            assert(said[i as int] == (table@[i as int].0@, table@[i as int].1@));
            assert(cell::counted(left@) =~= cell::counted(before.0).push(commands[i as int]));
            assert(cell::counted(right@) =~= cell::counted(before.1).push(whats[i as int]));
        }
        i = i + 1;
    }
    proof {
        assert(commands.take(i as int) =~= commands);
        assert(whats.take(i as int) =~= whats);
    }
    (cell::widest(&left), cell::widest(&right))
}

/// Whether a window has room for the two columns. Where it has not, every
/// command is folded to [`command_room`] and every description to
/// [`what_room`].
pub fn fits(width: usize, table: &Vec<keys::Row>) -> (r: bool)
    ensures
        r == fits_of(width as nat, chat::spelled(table@)),
{
    let (left, right) = measure(table);
    width >= 4 && width - 4 >= left && width - 4 - left >= right
}

/// The columns a command is folded to.
pub fn command_room(width: usize) -> (n: usize)
    ensures
        n == if width > 3 {
            (width - 2) as nat
        } else {
            1
        },
{
    if width > 3 {
        width - 2
    } else {
        1
    }
}

/// The columns a description is folded to.
pub fn what_room(width: usize) -> (n: usize)
    ensures
        n == if width > STACKED + 1 {
            (width - STACKED) as nat
        } else {
            1
        },
{
    if width > STACKED + 1 {
        width - STACKED
    } else {
        1
    }
}

/// A command and what it does, side by side.
pub open spec fn side_row(command: Seq<char>, what: Seq<char>, column: nat) -> paint::Row {
    seq![rows::plain("  "@ + command + cell::pad_of(command.len(), (column - 2) as nat) + what)]
}

/// A headed block of two columns.
pub open spec fn side_rows(heading: Seq<char>, table: Seq<(Seq<char>, Seq<char>)>) -> Seq<
    paint::Row,
> {
    seq![seq![(Role::Heading, heading)]] + Seq::new(
        table.len(),
        |i: int| side_row(table[i].0, table[i].1, column_of(table)),
    )
}

/// A command folded under itself, the rest of it deeper than its start.
pub open spec fn command_rows(folded: Seq<Seq<char>>) -> Seq<paint::Row> {
    if folded.len() == 0 {
        seq![seq![rows::plain("  "@)]]
    } else {
        Seq::new(
            folded.len(),
            |i: int|
                if i == 0 {
                    seq![rows::plain("  "@ + folded[i])]
                } else {
                    seq![rows::plain("    "@ + folded[i])]
                },
        )
    }
}

/// A description under its command.
pub open spec fn what_rows(folded: Seq<Seq<char>>) -> Seq<paint::Row> {
    Seq::new(
        folded.len(),
        |i: int| seq![rows::plain(text::blanks(STACKED as nat) + folded[i])],
    )
}

/// A headed block with every description under its command.
pub open spec fn stack_rows(
    heading: Seq<char>,
    commands: Seq<Seq<Seq<char>>>,
    whats: Seq<Seq<Seq<char>>>,
) -> Seq<paint::Row>
    decreases commands.len(),
{
    if commands.len() == 0 {
        seq![seq![(Role::Heading, heading)]]
    } else {
        stack_rows(heading, commands.drop_last(), whats.drop_last()) + command_rows(
            commands.last(),
        ) + what_rows(whats.last())
    }
}

/// What a list of folded texts says.
pub open spec fn folds(texts: Seq<Vec<String>>) -> Seq<Seq<Seq<char>>> {
    texts.map_values(|t: Vec<String>| text::views(t@))
}

/// A headed block of two columns, in a window that has room for both.
pub fn columns(heading: &str, table: &Vec<keys::Row>) -> (r: Vec<Line>)
    requires
        column_of(chat::spelled(table@)) <= usize::MAX,
    ensures
        paint::rows_of(r@) == side_rows(heading@, chat::spelled(table@)),
{
    let ghost said = chat::spelled(table@);
    let ghost all = side_rows(heading@, said);
    let (widest, _) = measure(table);
    let column: usize = widest + 4;
    let mut r = paint::only(Line::of(Role::Heading, heading));
    let mut i: usize = 0;
    proof {
        assert(paint::rows_of(r@) =~= all.take(1));
    }
    while i < table.len()
        invariant
            i <= table.len(),
            said == chat::spelled(table@),
            column == column_of(said),
            all == side_rows(heading@, said),
            paint::rows_of(r@) == all.take(i + 1),
        decreases table.len() - i,
    {
        let mut row = text::cat("  ", table[i].0);
        row.append(cell::pad(table[i].0.unicode_len(), column - 2).as_str());
        row.append(table[i].1);
        let l = Line::of(Role::Plain, row.as_str());
        proof {
            assert(said[i as int] == (table@[i as int].0@, table@[i as int].1@));
            assert(all[i + 1] == side_row(said[i as int].0, said[i as int].1, column_of(said)));
            assert(l@ =~= all[i + 1]);
            assert(all.take(i + 2) =~= all.take(i + 1).push(all[i + 1]));
        }
        r.push(l);
        i = i + 1;
    }
    proof {
        assert(all.take(i + 1) =~= all);
    }
    r
}

fn put_command(r: &mut Vec<Line>, folded: &Vec<String>)
    ensures
        paint::rows_of(final(r)@) == paint::rows_of(old(r)@) + command_rows(text::views(folded@)),
{
    let ghost before = paint::rows_of(r@);
    let ghost all = command_rows(text::views(folded@));
    if folded.len() == 0 {
        let l = Line::of(Role::Plain, "  ");
        proof {
            assert(before.push(l@) =~= before + all);
        }
        r.push(l);
        return;
    }
    let mut i: usize = 0;
    proof {
        assert(before + all.take(0) =~= before);
    }
    while i < folded.len()
        invariant
            i <= folded.len(),
            folded@.len() > 0,
            all == command_rows(text::views(folded@)),
            paint::rows_of(r@) == before + all.take(i as int),
        decreases folded.len() - i,
    {
        let row = if i == 0 {
            text::cat("  ", folded[i].as_str())
        } else {
            text::cat("    ", folded[i].as_str())
        };
        let l = Line::of(Role::Plain, row.as_str());
        proof {
            assert(l@ =~= all[i as int]);
            assert((before + all.take(i as int)).push(all[i as int]) =~= before + all.take(i + 1));
        }
        r.push(l);
        i = i + 1;
    }
    proof {
        assert(all.take(i as int) =~= all);
    }
}

fn put_what(r: &mut Vec<Line>, folded: &Vec<String>)
    ensures
        paint::rows_of(final(r)@) == paint::rows_of(old(r)@) + what_rows(text::views(folded@)),
{
    let ghost before = paint::rows_of(r@);
    let ghost all = what_rows(text::views(folded@));
    let mut i: usize = 0;
    proof {
        assert(before + all.take(0) =~= before);
    }
    while i < folded.len()
        invariant
            i <= folded.len(),
            all == what_rows(text::views(folded@)),
            paint::rows_of(r@) == before + all.take(i as int),
        decreases folded.len() - i,
    {
        let mut row = spaces(STACKED);
        row.append(folded[i].as_str());
        let l = Line::of(Role::Plain, row.as_str());
        proof {
            assert(l@ =~= all[i as int]);
            assert((before + all.take(i as int)).push(all[i as int]) =~= before + all.take(i + 1));
        }
        r.push(l);
        i = i + 1;
    }
    proof {
        assert(all.take(i as int) =~= all);
    }
}

/// A headed block in a window with no room for the second column: the
/// description under its command, each folded to what is left. Two lines that
/// say which is which beat one wrapped into nonsense.
pub fn stacked(heading: &str, commands: &Vec<Vec<String>>, whats: &Vec<Vec<String>>) -> (r: Vec<
    Line,
>)
    requires
        commands@.len() == whats@.len(),
    ensures
        paint::rows_of(r@) == stack_rows(heading@, folds(commands@), folds(whats@)),
{
    let ghost left = folds(commands@);
    let ghost right = folds(whats@);
    let mut r = paint::only(Line::of(Role::Heading, heading));
    let mut i: usize = 0;
    proof {
        assert(left.take(0) =~= Seq::<Seq<Seq<char>>>::empty());
        assert(right.take(0) =~= Seq::<Seq<Seq<char>>>::empty());
    }
    while i < commands.len()
        invariant
            i <= commands.len(),
            commands@.len() == whats@.len(),
            left == folds(commands@),
            right == folds(whats@),
            paint::rows_of(r@) == stack_rows(
                heading@,
                left.take(i as int),
                right.take(i as int),
            ),
        decreases commands.len() - i,
    {
        put_command(&mut r, &commands[i]);
        put_what(&mut r, &whats[i]);
        proof {
            assert(left.take(i + 1).drop_last() =~= left.take(i as int));
            assert(right.take(i + 1).drop_last() =~= right.take(i as int));
            assert(left.take(i + 1).last() == text::views(commands@[i as int]@));
            assert(right.take(i + 1).last() == text::views(whats@[i as int]@));
        }
        i = i + 1;
    }
    proof {
        assert(left.take(i as int) =~= left);
        assert(right.take(i as int) =~= right);
    }
    r
}

/// The columns the meaning of a status is folded to.
pub fn meaning_room(width: usize) -> (n: usize)
    ensures
        n == if width > NUMBER + 1 {
            (width - NUMBER) as nat
        } else {
            1
        },
{
    if width > NUMBER + 1 {
        width - NUMBER
    } else {
        1
    }
}

/// A status and what it means, folded with the number column kept clear.
pub open spec fn status_rows(status: nat, folded: Seq<Seq<char>>) -> Seq<paint::Row> {
    let number = "  "@ + text::dec(status) + cell::pad_of(text::dec(status).len(), 4) + " "@;
    if folded.len() == 0 {
        seq![seq![rows::plain(number)]]
    } else {
        Seq::new(
            folded.len(),
            |i: int|
                if i == 0 {
                    seq![rows::plain(number + folded[i])]
                } else {
                    seq![rows::plain(text::blanks(NUMBER as nat) + folded[i])]
                },
        )
    }
}

/// The block of statuses a caller reads.
pub open spec fn exit_rows(folded: Seq<Seq<Seq<char>>>) -> Seq<paint::Row>
    decreases folded.len(),
{
    if folded.len() == 0 {
        seq![seq![(Role::Heading, "Exit status:"@)]]
    } else {
        exit_rows(folded.drop_last()) + status_rows(
            statuses_of()[folded.len() - 1].0 as nat,
            folded.last(),
        )
    }
}

fn put_status(r: &mut Vec<Line>, status: u8, folded: &Vec<String>)
    ensures
        paint::rows_of(final(r)@) == paint::rows_of(old(r)@) + status_rows(
            status as nat,
            text::views(folded@),
        ),
{
    let ghost before = paint::rows_of(r@);
    let ghost all = status_rows(status as nat, text::views(folded@));
    let said = decimal(status as u64);
    let mut number = text::cat("  ", said.as_str());
    number.append(cell::pad(said.as_str().unicode_len(), 4).as_str());
    number.append(" ");
    if folded.len() == 0 {
        let l = Line::of(Role::Plain, number.as_str());
        proof {
            assert(before.push(l@) =~= before + all);
        }
        r.push(l);
        return;
    }
    let mut i: usize = 0;
    proof {
        assert(before + all.take(0) =~= before);
    }
    while i < folded.len()
        invariant
            i <= folded.len(),
            folded@.len() > 0,
            number@ == "  "@ + text::dec(status as nat) + cell::pad_of(
                text::dec(status as nat).len(),
                4,
            ) + " "@,
            all == status_rows(status as nat, text::views(folded@)),
            paint::rows_of(r@) == before + all.take(i as int),
        decreases folded.len() - i,
    {
        let row = if i == 0 {
            text::cat(number.as_str(), folded[i].as_str())
        } else {
            text::cat(spaces(NUMBER).as_str(), folded[i].as_str())
        };
        let l = Line::of(Role::Plain, row.as_str());
        proof {
            assert(l@ =~= all[i as int]);
            assert((before + all.take(i as int)).push(all[i as int]) =~= before + all.take(i + 1));
        }
        r.push(l);
        i = i + 1;
    }
    proof {
        assert(all.take(i as int) =~= all);
    }
}

/// The block of statuses a caller reads. `folded` is each meaning as the
/// terminal folded it to [`meaning_room`].
pub fn exit_status(folded: &Vec<Vec<String>>) -> (r: Vec<Line>)
    requires
        folded@.len() == statuses_of().len(),
    ensures
        paint::rows_of(r@) == exit_rows(folds(folded@)),
{
    let ghost all = folds(folded@);
    let table = statuses();
    let mut r = paint::only(Line::of(Role::Heading, "Exit status:"));
    let mut i: usize = 0;
    proof {
        assert(all.take(0) =~= Seq::<Seq<Seq<char>>>::empty());
    }
    while i < table.len()
        invariant
            i <= table.len(),
            meanings(table@) == statuses_of(),
            folded@.len() == table@.len(),
            all == folds(folded@),
            paint::rows_of(r@) == exit_rows(all.take(i as int)),
        decreases table.len() - i,
    {
        proof {
            assert(meanings(table@)[i as int].0 == table@[i as int].0);
            assert(all.take(i + 1).drop_last() =~= all.take(i as int));
            assert(all.take(i + 1).last() == text::views(folded@[i as int]@));
        }
        put_status(&mut r, table[i].0, &folded[i]);
        i = i + 1;
    }
    proof {
        assert(all.take(i as int) =~= all);
    }
    r
}

/// The sentence under the chat's own examples, to be folded to the width.
pub fn chat_note() -> (s: &'static str)
    ensures
        s@
            == "Type a message and press Enter. `/help` lists the commands, `/exit` or ctrl-d leaves, and every turn is appended to the journal, which is what the next chat on the same path reads back as memory."@,
{
    "Type a message and press Enter. `/help` lists the commands, `/exit` or ctrl-d leaves, and every turn is appended to the journal, which is what the next chat on the same path reads back as memory."
}

/// Every description starts in one column, clear of every command.
pub proof fn lemma_one_column(table: Seq<(Seq<char>, Seq<char>)>, i: int)
    requires
        0 <= i < table.len(),
    ensures
        ({
            let column = column_of(table);
            2 + table[i].0.len() + rows::left_of((column - 2) as nat, table[i].0.len()) == column
        }),
        table[i].0.len() + 4 <= column_of(table),
{
    cell::lemma_none_is_wider(
        table.map_values(|r: (Seq<char>, Seq<char>)| r.0.len()),
        i,
    );
}

/// A row of a block that fits ends inside the window.
pub proof fn lemma_a_row_fits(width: nat, table: Seq<(Seq<char>, Seq<char>)>, i: int)
    requires
        fits_of(width, table),
        0 <= i < table.len(),
    ensures
        column_of(table) + table[i].1.len() <= width,
{
    cell::lemma_none_is_wider(
        table.map_values(|r: (Seq<char>, Seq<char>)| r.1.len()),
        i,
    );
}

/// A colour is chosen by its word, and any other word leaves the choice open.
pub proof fn lemma_a_colour_is_chosen_by_its_word(word: Seq<char>)
    ensures
        choice_of(word) == ColorChoice::Always <==> word == "always"@,
        choice_of(word) == ColorChoice::Never <==> word == "never"@,
        choice_of(word) == ColorChoice::Auto <==> word != "always"@ && word != "never"@,
{
    reveal_strlit("always");
    reveal_strlit("never");
    assert("always"@.len() != "never"@.len());
}

/// The first colour flag speaks, in either of its two forms, wherever it stands
/// among the arguments; the arguments before it and behind it are no matter. With
/// no such flag the choice is open.
pub proof fn lemma_the_first_colour_flag_speaks(
    before: Seq<Seq<char>>,
    word: Seq<char>,
    behind: Seq<Seq<char>>,
)
    requires
        forall|i: int|
            0 <= i < before.len() ==> #[trigger] before[i] != "--color"@ && !text::stands_at(
                before[i],
                "--color="@,
                0,
            ),
    ensures
        color_in(before.push("--color="@ + word) + behind) == choice_of(word),
        color_in(before.push("--color"@).push(word) + behind) == choice_of(word),
        color_in(before.push("--color"@)) == ColorChoice::Auto,
        color_in(before) == ColorChoice::Auto,
    decreases before.len(),
{
    let joined = before.push("--color="@ + word) + behind;
    let apart = before.push("--color"@).push(word) + behind;
    let bare = before.push("--color"@);
    if before.len() == 0 {
        text::lemma_a_prefix_comes_off("--color="@, word, joined[0]);
        reveal_strlit("--color=");
        reveal_strlit("--color");
        assert(apart[0] == "--color"@ && apart[1] == word);
        assert(text::after_prefix("--color"@, "--color="@) is None);
        assert(bare[0] == "--color"@);
    } else {
        lemma_the_first_colour_flag_speaks(before.skip(1), word, behind);
        assert(joined.skip(1) =~= before.skip(1).push("--color="@ + word) + behind);
        assert(apart.skip(1) =~= before.skip(1).push("--color"@).push(word) + behind);
        assert(bare.skip(1) =~= before.skip(1).push("--color"@));
        assert(joined[0] == before[0] && apart[0] == before[0] && bare[0] == before[0]);
    }
}

/// A table fits a width where its widest name and its widest meaning fit beside
/// each other. Then every row is its name and its meaning, in order, and all the
/// meanings start in one column.
pub proof fn lemma_a_table_is_drawn_in_columns(
    heading: Seq<char>,
    table: Seq<(Seq<char>, Seq<char>)>,
    i: int,
)
    requires
        0 <= i < table.len(),
    ensures
        side_rows(heading, table).len() == table.len() + 1,
        side_rows(heading, table)[0] == seq![(Role::Heading, heading)],
        side_rows(heading, table)[i + 1] == seq![
            rows::plain(
                "  "@ + table[i].0 + cell::pad_of(table[i].0.len(), (column_of(table) - 2) as nat)
                    + table[i].1,
            ),
        ],
{
}

/// A table that is stacked is drawn pair by pair and in order: what is folded of a
/// name, its first row out to the left, and under it what is folded of its
/// meaning.
pub proof fn lemma_a_stack_is_drawn_pair_by_pair(
    heading: Seq<char>,
    commands: Seq<Seq<Seq<char>>>,
    whats: Seq<Seq<Seq<char>>>,
    command: Seq<Seq<char>>,
    what: Seq<Seq<char>>,
    i: int,
)
    requires
        commands.len() == whats.len(),
    ensures
        stack_rows(heading, Seq::empty(), Seq::empty()) == seq![seq![(Role::Heading, heading)]],
        stack_rows(heading, commands.push(command), whats.push(what)) == stack_rows(
            heading,
            commands,
            whats,
        ) + command_rows(command) + what_rows(what),
        command.len() > 0 ==> command_rows(command).len() == command.len(),
        0 < i < command.len() ==> command_rows(command)[i] == seq![
            rows::plain("    "@ + command[i]),
        ],
        command.len() > 0 ==> command_rows(command)[0] == seq![rows::plain("  "@ + command[0])],
        what_rows(what).len() == what.len(),
        0 <= i < what.len() ==> what_rows(what)[i] == seq![
            rows::plain(text::blanks(6) + what[i]),
        ],
{
    assert(commands.push(command).drop_last() =~= commands);
    assert(whats.push(what).drop_last() =~= whats);
}

/// A status is told by its number and its meaning, the rest of the meaning under
/// its start; and the statuses are told each with its own meaning, in order.
pub proof fn lemma_a_status_is_told_with_its_meaning(
    status: nat,
    folded: Seq<Seq<char>>,
    before: Seq<Seq<Seq<char>>>,
    i: int,
)
    ensures
        folded.len() > 0 ==> status_rows(status, folded).len() == folded.len()
            && status_rows(status, folded)[0] == seq![
            rows::plain(
                "  "@ + text::dec(status) + cell::pad_of(text::dec(status).len(), 4) + " "@
                    + folded[0],
            ),
        ],
        0 < i < folded.len() ==> status_rows(status, folded)[i] == seq![
            rows::plain(text::blanks(7) + folded[i]),
        ],
        exit_rows(Seq::empty()) == seq![seq![(Role::Heading, "Exit status:"@)]],
        exit_rows(before.push(folded)) == exit_rows(before) + status_rows(
            statuses_of()[before.len() as int].0 as nat,
            folded,
        ),
{
    assert(before.push(folded).drop_last() =~= before);
}

/// Each status is worded once, and for what it stands for: nought for what went
/// well, one for a fault, two for a wrong command line, three for what cannot be
/// done, four for what is not there, five for a credential, six for the provider,
/// and one hundred and thirty for an interrupt.
pub proof fn lemma_each_status_is_worded_once(i: int, j: int)
    requires
        0 <= i < j < statuses_of().len(),
    ensures
        statuses_of()[i].0 < statuses_of()[j].0,
        statuses_of().len() == 8,
        statuses_of()[i].0 == 0 ==> statuses_of()[i].1 == "it did what was asked"@,
        statuses_of()[j].0 == ErrorCode::Cancelled.status() ==> statuses_of()[j].1
            == "interrupted"@,
        statuses_of()[j].0 == ErrorCode::MissingCredential.status() ==> statuses_of()[j].1
            == "a credential is not set"@,
        statuses_of()[j].0 == ErrorCode::ProviderError.status() ==> statuses_of()[j].1
            == "the provider refused the call"@,
        statuses_of()[j].0 == ErrorCode::InvalidParams.status() ==> statuses_of()[j].1
            == "the command line was wrong"@,
        statuses_of()[j].0 == ErrorCode::NotImplemented.status() ==> statuses_of()[j].1
            == "this build cannot do what was asked of it"@,
        statuses_of()[j].0 == ErrorCode::SessionNotFound.status() ==> statuses_of()[j].1
            == "what was named is not there, or is busy"@,
        statuses_of()[j].0 == ErrorCode::Internal.status() ==> statuses_of()[j].1
            == "this build failed, or a file could not be read"@,
{
}

/// Whatever room there is for folding is the width less the margin, and never less
/// than a column.
pub proof fn lemma_room_is_never_less_than_a_column(
    width: usize,
    command: usize,
    what: usize,
    meaning: usize,
)
    requires
        call_ensures(command_room, (width,), command),
        call_ensures(what_room, (width,), what),
        call_ensures(meaning_room, (width,), meaning),
    ensures
        width > 3 ==> command + 2 == width,
        width <= 3 ==> command == 1,
        width > 7 ==> what + 6 == width,
        width <= 7 ==> what == 1,
        width > 8 ==> meaning + 7 == width,
        width <= 8 ==> meaning == 1,
{
}

/// A table stands two columns in, and its meanings two columns behind its widest
/// name; it fits where its widest meaning still ends within the width.
pub proof fn lemma_a_table_takes_the_width_it_needs(
    width: nat,
    table: Seq<(Seq<char>, Seq<char>)>,
)
    ensures
        column_of(table) == cell::widest_of(
            table.map_values(|r: (Seq<char>, Seq<char>)| r.0.len()),
        ) + 4,
        fits_of(width, table) <==> cell::widest_of(
            table.map_values(|r: (Seq<char>, Seq<char>)| r.0.len()),
        ) + 4 + cell::widest_of(table.map_values(|r: (Seq<char>, Seq<char>)| r.1.len())) <= width,
        command_rows(Seq::empty()) == seq![seq![rows::plain("  "@)]],
{
}

} // verus!
