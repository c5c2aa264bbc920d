//! Drafts finished into rows, once the terminal has folded, cut and measured
//! the text in them.
//!
//! Each draft is finished in two steps. One function says how much room the
//! text has; the other lays out what the terminal made of it in that room.
use vstd::prelude::*;
use vstd::string::*;

use crate::event;
use crate::event::StopReason;
use crate::paint;
use crate::paint::{Charset, Line, Role};
use crate::render::draft;
use crate::render::draft::{Closing, Speaker};
use crate::render::figures;
use crate::render::figures::{millis, tokens};
use crate::render::timeline::{CAP, KEEP, MARGIN};
use crate::text;
use crate::text::{decimal, join, same, spaces};

verus! {

broadcast use {crate::text::group_views, crate::paint::group_rows};

/// What is left of a width once part of it is taken.
pub open spec fn left_of(width: nat, taken: nat) -> nat {
    if width >= taken {
        (width - taken) as nat
    } else {
        0
    }
}

/// A piece with no part of its own.
pub open spec fn plain(said: Seq<char>) -> (Role, Seq<char>) {
    (Role::Plain, said)
}

/// The row that names the model a session runs on.
pub fn session(named: &str) -> (l: Line)
    ensures
        l@ == seq![plain("session on "@), (Role::Accent, named@)],
{
    let mut l = Line::of(Role::Plain, "session on ");
    l.put(Role::Accent, named);
    proof {
        assert(l@ =~= seq![plain("session on "@), (Role::Accent, named@)]);
    }
    l
}

/// The room a labelled block has.
pub fn said_room(width: usize) -> (r: usize)
    ensures
        r == left_of(width as nat, MARGIN as nat),
{
    width.saturating_sub(MARGIN)
}

/// One row of a labelled block: the first carries the label, and every other
/// starts under its text.
pub open spec fn said_row(who: Speaker, row: Seq<char>, first: bool) -> paint::Row {
    if first {
        seq![plain("  "@), (who.role(), who.name()), plain(who.gap() + row)]
    } else {
        seq![plain(text::blanks(MARGIN as nat) + row)]
    }
}

/// A labelled block of text.
pub open spec fn said_rows(who: Speaker, rows: Seq<Seq<char>>) -> Seq<paint::Row> {
    Seq::new(rows.len(), |i: int| said_row(who, rows[i], i == 0))
}

/// A labelled block of text, folded to the width. Continuation rows align
/// under the first.
pub fn said(who: Speaker, rows: &Vec<String>) -> (r: Vec<Line>)
    ensures
        paint::rows_of(r@) == said_rows(who, text::views(rows@)),
{
    let mut r: Vec<Line> = Vec::new();
    let mut i: usize = 0;
    let ghost all = said_rows(who, text::views(rows@));
    proof {
        assert(paint::rows_of(r@) =~= all.take(0));
    }
    while i < rows.len()
        invariant
            i <= rows.len(),
            all == said_rows(who, text::views(rows@)),
            paint::rows_of(r@) == all.take(i as int),
        decreases rows.len() - i,
    {
        let mut l = Line::blank();
        if i == 0 {
            l.put(Role::Plain, "  ");
            l.put(who.part(), who.label());
            l.put(Role::Plain, text::cat(who.pad(), rows[i].as_str()).as_str());
        } else {
            l.put(Role::Plain, text::cat(spaces(MARGIN).as_str(), rows[i].as_str()).as_str());
        }
        proof {
            assert(l@ =~= all[i as int]);
        }
        r.push(l);
        proof {
            assert(all.take(i + 1) =~= all.take(i as int).push(all[i as int]));
        }
        i = i + 1;
    }
    proof {
        assert(all.take(i as int) =~= all);
    }
    r
}

/// How much of something a fold is hiding.
pub open spec fn more_of(lines: nat) -> Seq<char> {
    if lines == 1 {
        "+1 line"@
    } else {
        "+"@ + text::dec(lines) + " lines"@
    }
}

/// How much of something a fold is hiding.
///
/// One wording, because a journal folds two things - a model's thinking and a
/// tool's result - and a reader who has learnt to read one count should not
/// have to learn the other.
pub fn more(lines: usize) -> (s: String)
    ensures
        s@ == more_of(lines as nat),
{
    if lines == 1 {
        "+1 line".to_owned()
    } else {
        let mut s = text::cat("+", decimal(lines as u64).as_str());
        s.append(" lines");
        s
    }
}

/// What the row of a folded thought says after its first line.
pub open spec fn after_fold(rest: nat) -> Seq<char> {
    if rest == 0 {
        Seq::empty()
    } else {
        "  "@ + more_of(rest)
    }
}

fn fold_mark(rest: usize) -> (s: String)
    ensures
        s@ == after_fold(rest as nat),
{
    if rest == 0 {
        String::new()
    } else {
        text::cat("  ", more(rest).as_str())
    }
}

/// The room the first line of a folded thought has.
pub fn folded_room(width: usize, rest: usize) -> (r: usize)
    ensures
        r == left_of(width as nat, MARGIN as nat + after_fold(rest as nat).len()),
{
    let mark = fold_mark(rest);
    width.saturating_sub(MARGIN).saturating_sub(mark.as_str().unicode_len())
}

/// Thinking as one row: what the model opened with, and how much more there is
/// behind it.
pub fn folded(summary: &str, rest: usize) -> (l: Line)
    ensures
        l@ == seq![
            plain("  "@),
            (Role::Muted, "think"@),
            plain(" "@),
            (Role::Muted, summary@ + after_fold(rest as nat)),
        ],
{
    let mut l = Line::of(Role::Plain, "  ");
    l.put(Role::Muted, "think");
    l.put(Role::Plain, " ");
    l.put(Role::Muted, text::cat(summary, fold_mark(rest).as_str()).as_str());
    proof {
        assert(l@ =~= seq![
            plain("  "@),
            (Role::Muted, "think"@),
            plain(" "@),
            (Role::Muted, summary@ + after_fold(rest as nat)),
        ]);
    }
    l
}

/// What stands before the text of a tool's row.
pub open spec fn head_of(glyph: Seq<char>, name: Seq<char>) -> Seq<char> {
    "  "@ + glyph + " "@ + name + "  "@
}

/// What stands before the text of a tool's row, to be measured.
pub fn head(glyph: &str, name: &str) -> (s: String)
    ensures
        s@ == head_of(glyph@, name@),
{
    let mut s = text::cat("  ", glyph);
    s.append(" ");
    s.append(name);
    s.append("  ");
    s
}

/// The mark of a tool asked for.
pub open spec fn call_mark(charset: Charset) -> Seq<char> {
    paint::glyph_of(charset, "▸"@, ">"@)
}

/// The mark of a tool asked for.
pub fn call_glyph(charset: Charset) -> (g: &'static str)
    ensures
        g@ == call_mark(charset),
{
    charset.glyph("▸", ">")
}

/// The mark of a tool that answered.
pub open spec fn result_mark(charset: Charset, ok: bool) -> Seq<char> {
    if ok {
        paint::glyph_of(charset, "✓"@, "+"@)
    } else {
        paint::glyph_of(charset, "✗"@, "!"@)
    }
}

/// The mark of a tool that answered, and the part it plays.
pub fn result_glyph(charset: Charset, ok: bool) -> (g: &'static str)
    ensures
        g@ == result_mark(charset, ok),
{
    if ok {
        charset.glyph("✓", "+")
    } else {
        charset.glyph("✗", "!")
    }
}

/// The part a result's mark plays.
pub open spec fn result_role(ok: bool) -> Role {
    if ok {
        Role::Good
    } else {
        Role::Error
    }
}

/// The room the value of a tool's row has beside a head so many columns wide.
pub fn tool_room(width: usize, head: usize) -> (r: usize)
    ensures
        r == left_of(width as nat, head as nat),
{
    width.saturating_sub(head)
}

/// Which call a row answers, when it has to say.
pub open spec fn says_of(call: Seq<char>) -> Seq<char> {
    " (for "@ + call + ")"@
}

/// Which call a row answers, when it has to say.
pub fn says(call: &str) -> (s: String)
    ensures
        s@ == says_of(call@),
{
    let mut s = text::cat(" (for ", call);
    s.append(")");
    s
}

/// One tool row: a mark, the tool's name, and a value cut to the width.
pub open spec fn tool_row(
    glyph: Seq<char>,
    role: Role,
    name: Seq<char>,
    value: Seq<char>,
) -> paint::Row {
    seq![plain("  "@), (role, glyph), plain(" "@ + name + "  "@ + value)]
}

/// One tool row: a mark, the tool's name, and a value cut to the width.
///
/// The call row. Its value is the arguments as JSON, flattened and cut,
/// because a reader checks arguments against what they asked for rather than
/// reading them.
pub fn tool(glyph: &str, role: Role, name: &str, value: &str) -> (l: Line)
    ensures
        l@ == tool_row(glyph@, role, name@, value@),
{
    let mut l = Line::of(Role::Plain, "  ");
    l.put(role, glyph);
    let mut s = text::cat(" ", name);
    s.append("  ");
    s.append(value);
    l.put(Role::Plain, s.as_str());
    proof {
        assert(l@ =~= tool_row(glyph@, role, name@, value@));
    }
    l
}

/// What a tool produced, before it is folded to the width: all of it, or its
/// two ends and how many lines between them are left out.
#[derive(Clone, Debug)]
pub struct Plan {
    pub head: String,
    pub hidden: usize,
    pub tail: String,
}

/// Whether a result is folded: it was not asked for whole, and the tool wrote
/// more lines than the cap.
pub open spec fn is_folded(content: Seq<char>, whole: bool) -> bool {
    !whole && text::lines_of(content).len() > CAP
}

/// What is drawn before the fold.
pub open spec fn head_lines(content: Seq<char>, whole: bool) -> Seq<char> {
    if is_folded(content, whole) {
        text::joined(text::lines_of(content).take(KEEP as int), "\n"@)
    } else {
        content
    }
}

/// How many lines the fold hides.
pub open spec fn hidden_lines(content: Seq<char>, whole: bool) -> nat {
    if is_folded(content, whole) {
        (text::lines_of(content).len() - CAP) as nat
    } else {
        0
    }
}

/// What is drawn after the fold.
pub open spec fn tail_lines(content: Seq<char>, whole: bool) -> Seq<char> {
    if is_folded(content, whole) {
        let lines = text::lines_of(content);
        text::joined(lines.skip(lines.len() - KEEP), "\n"@)
    } else {
        Seq::empty()
    }
}

/// Every line the tool wrote is drawn or counted: the lines kept at the two
/// ends and the lines the fold says it hides are all of them.
pub proof fn lemma_fold_counts_every_line(content: Seq<char>, whole: bool)
    requires
        is_folded(content, whole),
    ensures
        KEEP + hidden_lines(content, whole) + KEEP == text::lines_of(content).len(),
        hidden_lines(content, whole) > 0,
{
}

/// A result asked for whole hides nothing, however long it is.
pub proof fn lemma_whole_hides_nothing(content: Seq<char>)
    ensures
        hidden_lines(content, true) == 0,
        head_lines(content, true) == content,
{
}

fn joined_lines(lines: &Vec<String>, from: usize, to: usize) -> (s: String)
    requires
        from <= to <= lines.len(),
    ensures
        s@ == text::joined(text::views(lines@).subrange(from as int, to as int), "\n"@),
{
    let ghost all = text::views(lines@);
    let mut some: Vec<String> = Vec::new();
    let mut i: usize = from;
    proof {
        assert(text::views(some@) =~= all.subrange(from as int, from as int));
    }
    while i < to
        invariant
            from <= i <= to <= lines.len(),
            all == text::views(lines@),
            text::views(some@) == all.subrange(from as int, i as int),
        decreases to - i,
    {
        some.push(lines[i].clone());
        proof {
            assert(all.subrange(from as int, i + 1) =~= all.subrange(from as int, i as int).push(
                lines@[i as int]@,
            ));
        }
        i = i + 1;
    }
    join(&some, "\n")
}

/// What of a result is drawn. Folded like prose, so newlines the tool wrote
/// are newlines on the page, and capped so that one long result cannot push
/// the answer it led to off the screen - unless the whole of it was asked for.
pub fn plan(content: &str, whole: bool) -> (p: Plan)
    ensures
        p.head@ == head_lines(content@, whole),
        p.hidden == hidden_lines(content@, whole),
        p.tail@ == tail_lines(content@, whole),
{
    let lines = text::lines(content);
    let n: usize = lines.len();
    if whole || n <= CAP {
        return Plan { head: content.to_owned(), hidden: 0, tail: String::new() };
    }
    let head = joined_lines(&lines, 0, KEEP);
    let tail = joined_lines(&lines, n - KEEP, n);
    proof {
        let all = text::views(lines@);
        assert(all.subrange(0, KEEP as int) =~= all.take(KEEP as int));
        assert(all.subrange(n - KEEP, n as int) =~= all.skip(n - KEEP));
    }
    Plan { head, hidden: n - CAP, tail }
}

/// The room a result's text has beside its head and its marker. The marker is
/// folded around rather than added afterwards: a row that overran the width by
/// its length would put every row under it out of place.
pub fn result_room(width: usize, head: usize, says: usize) -> (r: usize)
    ensures
        r == if left_of(width as nat, head as nat + says as nat) == 0 {
            1
        } else {
            left_of(width as nat, head as nat + says as nat)
        },
{
    let left: usize = width.saturating_sub(head).saturating_sub(says);
    if left == 0 {
        1
    } else {
        left
    }
}

/// The fold in the middle of a result.
pub open spec fn fold_row(charset: Charset, hidden: nat) -> (Role, Seq<char>) {
    (Role::Muted, paint::glyph_of(charset, "…"@, "..."@) + " "@ + more_of(hidden))
}

/// The pieces a result is made of, row by row: what the terminal made of its
/// head, the fold if there is one, and what it made of its tail.
pub open spec fn result_body(
    charset: Charset,
    head: Seq<Seq<char>>,
    hidden: nat,
    tail: Seq<Seq<char>>,
) -> Seq<(Role, Seq<char>)> {
    let before = head.map_values(|row: Seq<char>| plain(row));
    if hidden == 0 {
        before
    } else {
        before.push(fold_row(charset, hidden)) + tail.map_values(|row: Seq<char>| plain(row))
    }
}

/// One row of a result: the first carries the mark and the name, every other
/// starts under its text, and the last says which call it answers.
pub open spec fn result_row(
    glyph: Seq<char>,
    role: Role,
    name: Seq<char>,
    pad: nat,
    says: Option<Seq<char>>,
    body: Seq<(Role, Seq<char>)>,
    at: int,
) -> paint::Row {
    let lead = if at == 0 {
        seq![plain("  "@), (role, glyph), plain(" "@ + name + "  "@)]
    } else {
        seq![plain(text::blanks(pad))]
    };
    let row = lead.push(body[at]);
    if at == body.len() - 1 && says is Some {
        row.push(plain(says->0))
    } else {
        row
    }
}

/// What a tool call produced, laid out.
pub open spec fn result_rows(
    glyph: Seq<char>,
    role: Role,
    name: Seq<char>,
    pad: nat,
    says: Option<Seq<char>>,
    body: Seq<(Role, Seq<char>)>,
) -> Seq<paint::Row> {
    Seq::new(body.len(), |i: int| result_row(glyph, role, name, pad, says, body, i))
}

fn push_plain(body: &mut Vec<paint::Span>, rows: &Vec<String>)
    ensures
        final(body)@.map_values(|s: paint::Span| s@) == old(body)@.map_values(
            |s: paint::Span| s@,
        ) + text::views(rows@).map_values(|row: Seq<char>| plain(row)),
{
    let ghost before = body@.map_values(|s: paint::Span| s@);
    let ghost added = text::views(rows@).map_values(|row: Seq<char>| plain(row));
    let mut i: usize = 0;
    proof {
        assert(before =~= before + added.take(0));
    }
    while i < rows.len()
        invariant
            i <= rows.len(),
            added == text::views(rows@).map_values(|row: Seq<char>| plain(row)),
            body@.map_values(|s: paint::Span| s@) == before + added.take(i as int),
        decreases rows.len() - i,
    {
        let ghost now = body@.map_values(|s: paint::Span| s@);
        body.push(paint::Span { role: Role::Plain, text: rows[i].clone() });
        proof {
            assert(body@.map_values(|s: paint::Span| s@) =~= now.push(added[i as int]));
            assert(before + added.take(i + 1) =~= (before + added.take(i as int)).push(
                added[i as int],
            ));
        }
        i = i + 1;
    }
    proof {
        assert(added.take(i as int) =~= added);
    }
}

/// What a tool call produced, laid out: the rows the terminal made of its two
/// ends, with the fold between them, under the head the first row carries.
///
/// `pad` is how many columns that head takes, so that the rows under it start
/// where its text does.
pub fn produced(
    charset: Charset,
    ok: bool,
    name: &str,
    pad: usize,
    says: Option<&str>,
    head: &Vec<String>,
    hidden: usize,
    tail: &Vec<String>,
) -> (r: Vec<Line>)
    ensures
        paint::rows_of(r@) == result_rows(
            result_mark(charset, ok),
            result_role(ok),
            name@,
            pad as nat,
            match says {
                Some(says) => Some(says@),
                None => None,
            },
            result_body(charset, text::views(head@), hidden as nat, text::views(tail@)),
        ),
{
    let glyph = result_glyph(charset, ok);
    let role = if ok {
        Role::Good
    } else {
        Role::Error
    };
    let ghost said = match says {
        Some(says) => Some(says@),
        None => None,
    };
    let mut body: Vec<paint::Span> = Vec::new();
    proof {
        assert(body@.map_values(|s: paint::Span| s@) =~= Seq::<(Role, Seq<char>)>::empty());
    }
    push_plain(&mut body, head);
    if hidden > 0 {
        let mut fold = text::cat(charset.glyph("…", "..."), " ");
        fold.append(more(hidden).as_str());
        let ghost now = body@.map_values(|s: paint::Span| s@);
        body.push(paint::Span { role: Role::Muted, text: fold });
        proof {
            assert(body@.map_values(|s: paint::Span| s@) =~= now.push(
                fold_row(charset, hidden as nat),
            ));
        }
        push_plain(&mut body, tail);
    }
    let ghost b = result_body(charset, text::views(head@), hidden as nat, text::views(tail@));
    proof {
        assert(body@.map_values(|s: paint::Span| s@) =~= b);
    }
    let ghost all = result_rows(glyph@, role, name@, pad as nat, said, b);
    let mut r: Vec<Line> = Vec::new();
    let mut i: usize = 0;
    proof {
        assert(paint::rows_of(r@) =~= all.take(0));
    }
    while i < body.len()
        invariant
            i <= body.len(),
            body@.map_values(|s: paint::Span| s@) == b,
            said == (match says {
                Some(says) => Some(says@),
                None => None,
            }),
            all == result_rows(glyph@, role, name@, pad as nat, said, b),
            paint::rows_of(r@) == all.take(i as int),
        decreases body.len() - i,
    {
        let mut l = Line::blank();
        if i == 0 {
            l.put(Role::Plain, "  ");
            l.put(role, glyph);
            let mut named = text::cat(" ", name);
            named.append("  ");
            l.put(Role::Plain, named.as_str());
        } else {
            l.put(Role::Plain, spaces(pad).as_str());
        }
        proof {
            assert(b[i as int] == body@[i as int]@);
        }
        l.put(body[i].role, body[i].text.as_str());
        if i + 1 == body.len() {
            if let Some(says) = says {
                l.put(Role::Plain, says);
            }
        }
        proof {
            assert(l@ =~= all[i as int]);
            assert(all.take(i + 1) =~= all.take(i as int).push(all[i as int]));
        }
        r.push(l);
        i = i + 1;
    }
    proof {
        assert(all.take(i as int) =~= all);
    }
    r
}

/// The room the payload of an event this crate does not know has beside a type
/// so many columns wide.
pub fn raw_room(width: usize, named: usize) -> (r: usize)
    ensures
        r == left_of(width as nat, named as nat + 4),
{
    width.saturating_sub(named).saturating_sub(4)
}

/// A type this crate does not know. It is passed through rather than dropped.
pub fn raw(named: &str, data: &str) -> (l: Line)
    ensures
        l@ == seq![plain("  "@), (Role::Topic, named@), plain("  "@ + data@)],
{
    let mut l = Line::of(Role::Plain, "  ");
    l.put(Role::Topic, named);
    l.put(Role::Plain, text::cat("  ", data).as_str());
    proof {
        assert(l@ =~= seq![plain("  "@), (Role::Topic, named@), plain("  "@ + data@)]);
    }
    l
}

/// Why the turn closed, in a reader's words rather than the wire's. `tamed` is
/// what the terminal can draw of a reason this crate has no words for.
pub open spec fn stopped_of(reason: event::Stop, tamed: Seq<char>) -> Seq<char> {
    match reason {
        event::Stop::Natural => "natural"@,
        event::Stop::PreStepRejected => "rejected before the step"@,
        event::Stop::MaxSteps => "step budget spent"@,
        event::Stop::Cancelled => "cancelled"@,
        event::Stop::Other(word) => if word == "max-tokens"@ {
            "cut off at the output cap"@
        } else if word == "failed"@ {
            "failed"@
        } else {
            tamed
        },
    }
}

/// Why the turn closed, in a reader's words rather than the wire's.
pub fn stopped(reason: &StopReason, tamed: &str) -> (s: String)
    ensures
        s@ == stopped_of(reason@, tamed@),
{
    match reason {
        StopReason::Natural => "natural".to_owned(),
        StopReason::PreStepRejected => "rejected before the step".to_owned(),
        StopReason::MaxSteps => "step budget spent".to_owned(),
        StopReason::Cancelled => "cancelled".to_owned(),
        StopReason::Other(word) => if same(word.as_str(), "max-tokens") {
            "cut off at the output cap".to_owned()
        } else if same(word.as_str(), "failed") {
            "failed".to_owned()
        } else {
            tamed.to_owned()
        },
    }
}

/// Whether a turn ended the way it meant to. Only one reason is: a model that
/// stopped writing because it had finished.
pub open spec fn settled_role(reason: event::Stop) -> Role {
    match reason {
        event::Stop::Natural => Role::Good,
        _ => Role::Warn,
    }
}

fn settled(reason: &StopReason) -> (r: Role)
    ensures
        r == settled_role(reason@),
{
    match reason {
        StopReason::Natural => Role::Good,
        _ => Role::Warn,
    }
}

/// A figure of the closing row, when it is there.
pub open spec fn figure(dot: Seq<char>, said: Option<Seq<char>>) -> Seq<char> {
    match said {
        Some(said) => " "@ + dot + " "@ + said,
        None => Seq::empty(),
    }
}

/// What a turn cost, in words.
pub open spec fn cost_of(total: u64) -> Seq<char> {
    figures::tokens_of(total as nat) + if total == 1 {
        " token"@
    } else {
        " tokens"@
    }
}

/// A reading of the closing row, when there is one.
pub open spec fn reading(millis: Option<u64>, lead: Seq<char>) -> Option<Seq<char>> {
    match millis {
        Some(millis) => Some(lead + figures::millis_of(millis)),
        None => None,
    }
}

/// What the closing row says after the reason and before the cost: the steps,
/// and how long they took.
pub open spec fn closing_lead(charset: Charset, close: draft::Close) -> Seq<char> {
    let dot = paint::glyph_of(charset, "·"@, "-"@);
    " "@ + dot + " "@ + text::dec(close.steps as nat) + if close.steps == 1 {
        " step"@
    } else {
        " steps"@
    } + figure(dot, reading(close.took, Seq::empty()))
}

/// What the closing row says after the reason.
pub open spec fn closing_tail(charset: Charset, close: draft::Close) -> Seq<char> {
    let dot = paint::glyph_of(charset, "·"@, "-"@);
    closing_lead(charset, close) + figure(
        dot,
        match close.total {
            Some(total) => Some(cost_of(total)),
            None => None,
        },
    ) + figure(dot, reading(close.waited, "first token in "@)) + figure(
        dot,
        match close.rate {
            Some(rate) => Some(text::dec(rate as nat) + " tok/s"@),
            None => None,
        },
    )
}

/// Whether a turn was cut off at the provider's output cap.
pub open spec fn cut_off(reason: event::Stop) -> bool {
    reason == event::Stop::Other("max-tokens"@)
}

/// The rows a turn closes with: a blank, how it ended and what it took, who
/// held it open, and - for an answer that was cut off - that it was.
pub open spec fn closing_rows(
    charset: Charset,
    close: draft::Close,
    tamed: Seq<char>,
    veto: Seq<char>,
) -> Seq<paint::Row> {
    let dot = paint::glyph_of(charset, "·"@, "-"@);
    let first = seq![
        Seq::empty(),
        seq![
            plain("turn "@ + text::dec(close.turn as nat) + " "@ + dot + " "@),
            (settled_role(close.reason), stopped_of(close.reason, tamed)),
            plain(closing_tail(charset, close)),
        ],
    ];
    let held = if close.veto is Some {
        first.push(seq![plain("  held open by "@ + veto)])
    } else {
        first
    };
    if cut_off(close.reason) {
        held.push(
            seq![(Role::Muted, "  the answer stops where the cap did; ask again to go on"@)],
        )
    } else {
        held
    }
}

fn put_figure(s: &mut String, dot: &str, said: &str)
    ensures
        final(s)@ == old(s)@ + figure(dot@, Some(said@)),
{
    let mut f = text::cat(" ", dot);
    f.append(" ");
    f.append(said);
    s.append(f.as_str());
}

fn closing_text(charset: Charset, closing: &Closing) -> (s: String)
    ensures
        s@ == closing_tail(charset, closing@),
{
    let dot = charset.glyph("·", "-");
    let mut s = text::cat(" ", dot);
    s.append(" ");
    s.append(decimal(closing.steps as u64).as_str());
    if closing.steps == 1 {
        s.append(" step");
    } else {
        s.append(" steps");
    }
    let ghost mut so_far = s@;
    if let Some(took) = closing.took {
        let said = millis(took);
        proof {
            assert(said@ =~= Seq::<char>::empty() + figures::millis_of(took));
        }
        put_figure(&mut s, dot, said.as_str());
    }
    proof {
        assert(s@ =~= so_far + figure(dot@, reading(closing.took, Seq::empty())));
        so_far = s@;
    }
    if let Some(total) = closing.total {
        let mut said = tokens(total);
        if total == 1 {
            said.append(" token");
        } else {
            said.append(" tokens");
        }
        put_figure(&mut s, dot, said.as_str());
    }
    proof {
        assert(s@ =~= so_far + figure(
            dot@,
            match closing.total {
                Some(total) => Some(cost_of(total)),
                None => None,
            },
        ));
        so_far = s@;
    }
    if let Some(waited) = closing.waited {
        put_figure(&mut s, dot, text::cat("first token in ", millis(waited).as_str()).as_str());
    }
    proof {
        assert(s@ =~= so_far + figure(dot@, reading(closing.waited, "first token in "@)));
        so_far = s@;
    }
    if let Some(rate) = closing.rate {
        put_figure(&mut s, dot, text::cat(decimal(rate).as_str(), " tok/s").as_str());
    }
    proof {
        assert(s@ =~= so_far + figure(
            dot@,
            match closing.rate {
                Some(rate) => Some(text::dec(rate as nat) + " tok/s"@),
                None => None,
            },
        ));
    }
    s
}

/// The rows a turn closes with. `tamed` is what the terminal can draw of a
/// reason this crate has no words for, and `veto` of whoever held the turn
/// open.
pub fn closing(charset: Charset, how: &Closing, tamed: &str, veto: &str) -> (r: Vec<Line>)
    ensures
        paint::rows_of(r@) == closing_rows(charset, how@, tamed@, veto@),
{
    let dot = charset.glyph("·", "-");
    let mut r = paint::only(Line::blank());
    let mut lead = text::cat("turn ", decimal(how.turn).as_str());
    lead.append(" ");
    lead.append(dot);
    lead.append(" ");
    let mut l = Line::of(Role::Plain, lead.as_str());
    l.put(settled(&how.reason), stopped(&how.reason, tamed).as_str());
    l.put(Role::Plain, closing_text(charset, how).as_str());
    proof {
        assert(l@ =~= closing_rows(charset, how@, tamed@, veto@)[1]);
    }
    r.push(l);
    if how.veto.is_some() {
        let held = text::cat("  held open by ", veto);
        r.push(Line::of(Role::Plain, held.as_str()));
    }
    // The one reason worth a sentence of its own: a cut-off turn shown as an
    // ordinary end tells the reader that a sentence the model never finished
    // is the whole reply.
    if let StopReason::Other(word) = &how.reason {
        if same(word.as_str(), "max-tokens") {
            r.push(
                Line::of(
                    Role::Muted,
                    "  the answer stops where the cap did; ask again to go on",
                ),
            );
        }
    }
    proof {
        assert(paint::rows_of(r@) =~= closing_rows(charset, how@, tamed@, veto@));
    }
    r
}

/// What was said is drawn row by row and whole: the first row under the name of
/// who said it, the others under it, and every row as it was folded.
pub proof fn lemma_what_was_said_is_drawn_row_by_row(who: Speaker, rows: Seq<Seq<char>>, i: int)
    requires
        0 <= i < rows.len(),
    ensures
        said_rows(who, rows).len() == rows.len(),
        i == 0 ==> said_rows(who, rows)[i] == seq![
            plain("  "@),
            (who.role(), who.name()),
            plain(who.gap() + rows[i]),
        ],
        i > 0 ==> said_rows(who, rows)[i] == seq![plain(text::blanks(8) + rows[i])],
{
}

/// Lines that are not shown are counted, one as one.
pub proof fn lemma_hidden_lines_are_counted(lines: nat)
    ensures
        lines == 1 ==> more_of(lines) == "+1 line"@,
        lines != 1 ==> more_of(lines) == "+"@ + text::dec(lines) + " lines"@,
        lines > 0 ==> after_fold(lines) == "  "@ + more_of(lines),
        after_fold(0).len() == 0,
{
}

/// A call and a result are told apart by their marks, and a result that went well
/// from one that did not by its mark and its colour, on every terminal.
pub proof fn lemma_results_are_told_apart(charset: Charset)
    ensures
        result_mark(charset, true) != result_mark(charset, false),
        call_mark(charset) != result_mark(charset, true),
        call_mark(charset) != result_mark(charset, false),
        result_role(true) == Role::Good,
        result_role(false) == Role::Error,
        call_mark(Charset::Unicode) == "▸"@,
        call_mark(Charset::Ascii) == ">"@,
        result_mark(Charset::Unicode, true) == "✓"@,
        result_mark(Charset::Unicode, false) == "✗"@,
        result_mark(Charset::Ascii, true) == "+"@,
        result_mark(Charset::Ascii, false) == "!"@,
{
    reveal_strlit("▸");
    reveal_strlit(">");
    reveal_strlit("✓");
    reveal_strlit("✗");
    reveal_strlit("+");
    reveal_strlit("!");
    assert("✓"@[0] != "✗"@[0] && "▸"@[0] != "✓"@[0] && "▸"@[0] != "✗"@[0]);
    assert("+"@[0] != "!"@[0] && ">"@[0] != "+"@[0] && ">"@[0] != "!"@[0]);
}

/// A long result is folded past sixteen lines to its first eight and its last
/// eight, and a shorter one, or one asked for whole, is not.
pub proof fn lemma_a_long_result_keeps_both_ends(content: Seq<char>, whole: bool)
    ensures
        ({
            let lines = text::lines_of(content);
            &&& whole || lines.len() <= 16 ==> {
                &&& head_lines(content, whole) == content
                &&& hidden_lines(content, whole) == 0
                &&& tail_lines(content, whole).len() == 0
            }
            &&& !whole && lines.len() > 16 ==> {
                &&& head_lines(content, whole) == text::joined(lines.take(8), "\n"@)
                &&& tail_lines(content, whole) == text::joined(lines.skip(lines.len() - 8), "\n"@)
                &&& hidden_lines(content, whole) == lines.len() - 16
            }
        }),
{
}

/// The body of a result is its head, row by row; then, where lines are hidden, a
/// row that counts them; then its tail, row by row.
pub proof fn lemma_a_body_counts_what_it_hides(
    charset: Charset,
    head: Seq<Seq<char>>,
    hidden: nat,
    tail: Seq<Seq<char>>,
    i: int,
)
    ensures
        ({
            let body = result_body(charset, head, hidden, tail);
            &&& 0 <= i < head.len() ==> body[i] == plain(head[i])
            &&& hidden == 0 ==> body.len() == head.len()
            &&& hidden > 0 ==> {
                &&& body.len() == head.len() + 1 + tail.len()
                &&& body[head.len() as int] == (
                    Role::Muted,
                    paint::glyph_of(charset, "…"@, "..."@) + " "@ + more_of(hidden),
                )
                &&& 0 <= i < tail.len() ==> body[head.len() + 1 + i] == plain(tail[i])
            }
        }),
{
}

/// A result is drawn with its mark and its tool before its first row, its rows in
/// order under each other, and the call it is for behind its last row alone.
pub proof fn lemma_a_result_is_drawn_in_order(
    glyph: Seq<char>,
    role: Role,
    name: Seq<char>,
    pad: nat,
    says: Option<Seq<char>>,
    body: Seq<(Role, Seq<char>)>,
    i: int,
)
    requires
        0 <= i < body.len(),
    ensures
        ({
            let drawn = result_rows(glyph, role, name, pad, says, body);
            let at: int = if i == 0 {
                3
            } else {
                1
            };
            &&& drawn.len() == body.len()
            &&& i == 0 ==> drawn[i][1] == (role, glyph) && drawn[i][2] == plain(
                " "@ + name + "  "@,
            )
            &&& i > 0 ==> drawn[i][0] == plain(text::blanks(pad))
            &&& drawn[i][at] == body[i]
            &&& i == body.len() - 1 && says is Some ==> drawn[i].len() == at + 2 && drawn[i].last()
                == plain(says->0)
            &&& i < body.len() - 1 || says is None ==> drawn[i].len() == at + 1
        }),
{
}

/// A tool's row reads as its mark, its name and what it was given.
pub proof fn lemma_a_tool_row_reads_in_order(
    glyph: Seq<char>,
    role: Role,
    name: Seq<char>,
    value: Seq<char>,
    call: Seq<char>,
)
    ensures
        tool_row(glyph, role, name, value).len() == 3,
        tool_row(glyph, role, name, value)[0] == plain("  "@),
        tool_row(glyph, role, name, value)[1] == (role, glyph),
        tool_row(glyph, role, name, value)[2] == plain(" "@ + name + "  "@ + value),
        head_of(glyph, name) == "  "@ + glyph + " "@ + name + "  "@,
        says_of(call) == " (for "@ + call + ")"@,
{
}

/// Why a turn stopped is told in words of its own for each reason that is known,
/// and by the reason's own word, tamed, for any other. Only a natural end is good.
pub proof fn lemma_a_stop_is_told_in_its_words(reason: event::Stop, tamed: Seq<char>)
    ensures
        reason is Natural ==> stopped_of(reason, tamed) == "natural"@,
        reason is PreStepRejected ==> stopped_of(reason, tamed) == "rejected before the step"@,
        reason is MaxSteps ==> stopped_of(reason, tamed) == "step budget spent"@,
        reason is Cancelled ==> stopped_of(reason, tamed) == "cancelled"@,
        stopped_of(event::Stop::Other("max-tokens"@), tamed) == "cut off at the output cap"@,
        stopped_of(event::Stop::Other("failed"@), tamed) == "failed"@,
        reason matches event::Stop::Other(word) ==> word != "max-tokens"@ && word != "failed"@
            ==> stopped_of(reason, tamed) == tamed,
        settled_role(reason) == Role::Good <==> reason is Natural,
        settled_role(reason) == Role::Warn <==> !(reason is Natural),
{
    reveal_strlit("max-tokens");
    reveal_strlit("failed");
    assert("max-tokens"@.len() != "failed"@.len());
}

/// The rows a turn closes with name that turn, why it stopped and its figures;
/// who held it open, where anyone did; and that the answer is not all of it, where
/// it was cut off, and nowhere else.
pub proof fn lemma_a_closing_names_its_turn(
    charset: Charset,
    close: draft::Close,
    tamed: Seq<char>,
    veto: Seq<char>,
)
    ensures
        ({
            let rows = closing_rows(charset, close, tamed, veto);
            let dot = paint::glyph_of(charset, "·"@, "-"@);
            let held: int = if close.veto is Some {
                1
            } else {
                0
            };
            let cut: int = if close.reason == event::Stop::Other("max-tokens"@) {
                1
            } else {
                0
            };
            &&& rows.len() == 2 + held + cut
            &&& rows[0].len() == 0
            &&& rows[1].len() == 3
            &&& rows[1][0] == plain("turn "@ + text::dec(close.turn as nat) + " "@ + dot + " "@)
            &&& rows[1][1] == (settled_role(close.reason), stopped_of(close.reason, tamed))
            &&& rows[1][2] == plain(closing_tail(charset, close))
            &&& held == 1 ==> rows[2] == seq![plain("  held open by "@ + veto)]
            &&& cut == 1 ==> rows.last() == seq![
                (Role::Muted, "  the answer stops where the cap did; ask again to go on"@),
            ]
        }),
{
}

/// The figures of a turn are told in order, each where there is one: the steps,
/// one as one; the time; the tokens, one as one; the first wait; the rate.
pub proof fn lemma_a_turns_figures_are_told_in_order(charset: Charset, close: draft::Close)
    ensures
        ({
            let dot = paint::glyph_of(charset, "·"@, "-"@);
            let steps = " "@ + dot + " "@ + text::dec(close.steps as nat) + (if close.steps == 1 {
                " step"@
            } else {
                " steps"@
            });
            let took = match close.took {
                Some(took) => " "@ + dot + " "@ + (Seq::<char>::empty() + figures::millis_of(
                    took,
                )),
                None => Seq::empty(),
            };
            let cost = match close.total {
                Some(total) => " "@ + dot + " "@ + (figures::tokens_of(total as nat) + (if total
                    == 1 {
                    " token"@
                } else {
                    " tokens"@
                })),
                None => Seq::empty(),
            };
            let waited = match close.waited {
                Some(waited) => " "@ + dot + " "@ + ("first token in "@ + figures::millis_of(
                    waited,
                )),
                None => Seq::empty(),
            };
            let rate = match close.rate {
                Some(rate) => " "@ + dot + " "@ + (text::dec(rate as nat) + " tok/s"@),
                None => Seq::empty(),
            };
            closing_tail(charset, close) == steps + took + cost + waited + rate
        }),
{
}

/// What is left of a width is what it has beyond what is taken, and never less
/// than nothing.
pub proof fn lemma_what_is_left_of_a_width(width: nat, taken: nat)
    ensures
        width >= taken ==> left_of(width, taken) + taken == width,
        width < taken ==> left_of(width, taken) == 0,
        plain(text::blanks(width)) == (Role::Plain, text::blanks(width)),
{
}

/// Whatever is drawn of a session, of folded thinking and of an event of no known
/// type, each shows what it is given, whole and in order.
pub proof fn lemma_single_rows_show_what_they_are_given(
    named: &str,
    opened: Line,
    summary: &str,
    rest: usize,
    thought: Line,
    data: &str,
    unknown: Line,
)
    requires
        call_ensures(session, (named,), opened),
        call_ensures(folded, (summary, rest), thought),
        call_ensures(raw, (named, data), unknown),
    ensures
        opened@ == seq![plain("session on "@), (Role::Accent, named@)],
        thought@.last() == (
            Role::Muted,
            summary@ + if rest == 0 {
                Seq::empty()
            } else {
                "  "@ + more_of(rest as nat)
            },
        ),
        thought@[1] == (Role::Muted, "think"@),
        unknown@ == seq![plain("  "@), (Role::Topic, named@), plain("  "@ + data@)],
{
}

/// Whatever room a row has is the width less what stands before what is drawn in
/// it; and a result always has a column.
pub proof fn lemma_room_is_what_is_left_of_the_width(
    width: usize,
    head: usize,
    says: usize,
    said: usize,
    tool: usize,
    result: usize,
    raw: usize,
)
    requires
        call_ensures(said_room, (width,), said),
        call_ensures(tool_room, (width, head), tool),
        call_ensures(result_room, (width, head, says), result),
        call_ensures(raw_room, (width, head), raw),
    ensures
        width >= 8 ==> said + 8 == width,
        width < 8 ==> said == 0,
        width >= head ==> tool + head == width,
        width < head ==> tool == 0,
        width > head + says ==> result + head + says == width,
        width <= head + says ==> result == 1,
        width >= head + 4 ==> raw + head + 4 == width,
        width < head + 4 ==> raw == 0,
{
}

/// Whatever a turn is closed with, its rows name its own turn and why it stopped.
pub proof fn lemma_what_is_closed_names_its_turn(
    charset: Charset,
    how: &Closing,
    tamed: &str,
    veto: &str,
    rows: Vec<Line>,
)
    requires
        call_ensures(closing, (charset, how, tamed, veto), rows),
    ensures
        rows@.len() >= 2,
        rows@[1]@[0].1 == "turn "@ + text::dec(how.turn as nat) + " "@ + paint::glyph_of(
            charset,
            "·"@,
            "-"@,
        ) + " "@,
        rows@[1]@[1].1 == stopped_of(how.reason@, tamed@),
{
    let drawn = paint::rows_of(rows@);
    assert(drawn.len() == rows@.len());
    assert(drawn[1] == rows@[1]@);
}

} // verus!
