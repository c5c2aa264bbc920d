//! What this build is, for the person about to report that it is broken.
//!
//! Counts and not lists: the providers and the tools have pages of their own,
//! and a count with the command that expands it says the same without a second
//! copy.
use vstd::prelude::*;
use vstd::string::*;

use crate::paint;
use crate::paint::{Field, Line, Role, Sheet};
use crate::render::rows;
use crate::text;
use crate::text::{decimal, spaces};

verus! {

broadcast use crate::paint::group_fields;

/// Space between a count and the command that expands it.
pub const GAP: usize = 2;

/// The columns of the widest label, which is `providers`.
pub const LABEL: usize = 9;

/// The facts on the page.
#[derive(Clone, Copy, Debug)]
pub struct Build {
    /// This binary's version.
    pub version: &'static str,
    /// The `major.minor` of the protocol it was built against.
    pub protocol: &'static str,
    /// How many model providers it registers.
    pub providers: usize,
    /// How many tools an agent may call.
    pub tools: usize,
    pub os: &'static str,
    pub arch: &'static str,
}

/// A labelled row on this page.
pub open spec fn row_of(label: Seq<char>, said: paint::Row) -> paint::Labelled {
    paint::Labelled { label, column: LABEL as nat, said }
}

/// The columns the counts take. Only the rows that carry a command share them.
pub open spec fn counts_of(build: Build) -> nat {
    let providers = text::dec(build.providers as nat).len();
    let tools = text::dec(build.tools as nat).len();
    if providers > tools {
        providers
    } else {
        tools
    }
}

/// A count, and the command that expands it.
pub open spec fn count_row(count: nat, column: nat, command: Seq<char>) -> paint::Row {
    seq![
        rows::plain(text::dec(count)),
        rows::plain(text::blanks(rows::left_of(column, text::dec(count).len()) + GAP as nat)),
        (Role::Muted, command),
    ]
}

/// The rows of the page.
pub open spec fn build_rows(build: Build) -> Seq<paint::Labelled> {
    seq![
        row_of("protocol"@, seq![rows::plain(build.protocol@)]),
        row_of(
            "providers"@,
            count_row(build.providers as nat, counts_of(build), "tetanus models"@),
        ),
        row_of("tools"@, count_row(build.tools as nat, counts_of(build), "tetanus tools"@)),
        row_of("platform"@, seq![rows::plain(build.os@ + " "@ + build.arch@)]),
    ]
}

fn field(label: &str, said: Line) -> (f: Field)
    ensures
        f@ == row_of(label@, said@),
{
    Field { label: label.to_owned(), column: LABEL, said }
}

proof fn lemma_short(n: nat)
    requires
        n <= u64::MAX,
    ensures
        text::dec(n).len() <= 20,
{
    reveal_with_fuel(text::dec, 21);
}

fn counted(count: usize, column: usize, command: &str) -> (l: Line)
    requires
        column <= 20,
    ensures
        l@ == count_row(count as nat, column as nat, command@),
{
    let said = decimal(count as u64);
    let pad: usize = column.saturating_sub(said.as_str().unicode_len()) + GAP;
    let mut l = Line::of(Role::Plain, said.as_str());
    l.put(Role::Plain, spaces(pad).as_str());
    l.put(Role::Muted, command);
    proof {
        assert(l@ =~= count_row(count as nat, column as nat, command@));
    }
    l
}

/// The build page.
pub fn render(build: &Build) -> (s: Sheet)
    ensures
        s.heading@ == seq![rows::plain("tetanus "@), (Role::Accent, build.version@)],
        s.at is None,
        paint::fields_of(s.fields@) == build_rows(*build),
        s.rows@.len() == 0,
        s.note is None,
{
    let mut heading = Line::of(Role::Plain, "tetanus ");
    heading.put(Role::Accent, build.version);
    proof {
        assert(heading@ =~= seq![rows::plain("tetanus "@), (Role::Accent, build.version@)]);
        lemma_short(build.providers as nat);
        lemma_short(build.tools as nat);
    }
    let providers: usize = decimal(build.providers as u64).as_str().unicode_len();
    let tools: usize = decimal(build.tools as u64).as_str().unicode_len();
    let column: usize = if providers > tools {
        providers
    } else {
        tools
    };
    let mut platform = text::cat(build.os, " ");
    platform.append(build.arch);
    let mut fields: Vec<Field> = Vec::new();
    fields.push(field("protocol", Line::of(Role::Plain, build.protocol)));
    fields.push(field("providers", counted(build.providers, column, "tetanus models")));
    fields.push(field("tools", counted(build.tools, column, "tetanus tools")));
    fields.push(field("platform", Line::of(Role::Plain, platform.as_str())));
    proof {
        assert(paint::fields_of(fields@) =~= build_rows(*build));
    }
    Sheet { heading, at: None, fields, rows: Vec::new(), note: None }
}

/// A build is told by its own facts, each under its own label: the protocol, how
/// many providers and how many tools there are with the command that lists them,
/// and the platform.
pub proof fn lemma_a_build_is_told_by_its_own_facts(build: Build)
    ensures
        ({
            let rows = build_rows(build);
            &&& rows.len() == 4
            &&& rows[0].label == "protocol"@ && rows[0].said == seq![rows::plain(build.protocol@)]
            &&& rows[1].label == "providers"@ && rows[1].said[0] == rows::plain(
                text::dec(build.providers as nat),
            ) && rows[1].said[2] == (Role::Muted, "tetanus models"@)
            &&& rows[2].label == "tools"@ && rows[2].said[0] == rows::plain(
                text::dec(build.tools as nat),
            ) && rows[2].said[2] == (Role::Muted, "tetanus tools"@)
            &&& rows[3].label == "platform"@ && rows[3].said == seq![
                rows::plain(build.os@ + " "@ + build.arch@),
            ]
        }),
{
}

/// The two counts stand in one column, and so do the commands behind them.
pub proof fn lemma_the_counts_line_up(build: Build)
    ensures
        ({
            let rows = build_rows(build);
            &&& rows[1].said[0].1.len() + rows[1].said[1].1.len() == counts_of(build) + 2
            &&& rows[2].said[0].1.len() + rows[2].said[1].1.len() == counts_of(build) + 2
            &&& rows[1].column == rows[2].column == rows[0].column == rows[3].column
        }),
{
}

} // verus!
