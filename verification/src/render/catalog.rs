//! What this build can call: model providers, and tools.
//!
//! Availability is on the provider's row because an absent credential is the
//! commonest reason a first run fails, and naming the variable here turns that
//! into something fixed before it. Only the first model is tagged: it is the
//! one a run with no `--model` takes.
//!
//! A name is what a caller types and what a model asks by, so neither page
//! cuts one. Where the widest leaves no room for what belongs beside it, the
//! page stacks: the name on a row of its own, and the rest under it.
use vstd::prelude::*;
use vstd::string::*;

use crate::json;
use crate::paint;
use crate::paint::{Line, Page, Role};
use crate::render::cell;
use crate::render::cell::Cell;
use crate::render::rows;
use crate::text;
use crate::text::{same, spaces};

verus! {

broadcast use {crate::paint::group_rows, crate::text::group_views};

/// Indent of a row that belongs to the entry above it.
pub const INDENT: &'static str = "  ";

/// Space between the two columns of a row.
pub const GAP: usize = 2;

/// The narrowest sentence worth a column of its own.
pub const LEAST: usize = 16;

/// How the names of a page stand to what follows them.
#[derive(Clone, Copy, Debug, PartialEq, Eq, Structural)]
pub struct Beside {
    /// Whether what follows a name goes under it.
    pub stacked: bool,
    /// The column the names are carried out to.
    pub pad: usize,
    /// The columns a sentence beside a name has.
    pub room: usize,
}

/// Whether names this wide leave nothing beside them.
pub open spec fn stacks(width: nat, names: Seq<nat>) -> bool {
    rows::left_of(width, cell::widest_of(names) + GAP as nat) < LEAST
}

/// The column the names are carried out to.
pub open spec fn column_of(width: nat, names: Seq<nat>) -> nat {
    if stacks(width, names) {
        0
    } else {
        cell::widest_of(names)
    }
}

/// The columns a sentence has.
pub open spec fn room_of(width: nat, names: Seq<nat>) -> nat {
    let left = rows::left_of(width, column_of(width, names) + GAP as nat);
    if left < 1 {
        1
    } else {
        left
    }
}

/// How the names of a page stand to what follows them, on a terminal this
/// wide.
pub fn beside(width: usize, names: &Vec<usize>) -> (b: Beside)
    ensures
        b.stacked == stacks(width as nat, cell::counted(names@)),
        b.pad == column_of(width as nat, cell::counted(names@)),
        b.room == room_of(width as nat, cell::counted(names@)),
{
    let wanted: usize = cell::widest(names);
    let stacked = width.saturating_sub(wanted).saturating_sub(GAP) < LEAST;
    let pad: usize = if stacked {
        0
    } else {
        wanted
    };
    let left: usize = width.saturating_sub(pad).saturating_sub(GAP);
    let room: usize = if left < 1 {
        1
    } else {
        left
    };
    Beside { stacked, pad, room }
}

/// A provider, with every text on it as the terminal draws it.
#[derive(Clone, Debug)]
pub struct Provider {
    pub name: Cell,
    pub models: Vec<String>,
    pub credential_env: Option<String>,
    pub available: bool,
}

/// A provider, by what it says.
pub struct Offer {
    pub name: cell::Drawn,
    pub models: Seq<Seq<char>>,
    pub credential_env: Option<Seq<char>>,
    pub available: bool,
}

impl View for Provider {
    type V = Offer;

    open spec fn view(&self) -> Offer {
        Offer {
            name: self.name@,
            models: text::views(self.models@),
            credential_env: json::held(self.credential_env),
            available: self.available,
        }
    }
}

/// What a list of providers says.
pub open spec fn offers(providers: Seq<Provider>) -> Seq<Offer> {
    providers.map_values(|p: Provider| p@)
}

/// The columns the names of a list of providers take.
pub open spec fn offer_widths(providers: Seq<Offer>) -> Seq<nat> {
    providers.map_values(|p: Offer| p.name.width)
}

/// A provider's state, in the words that say what to do about it.
pub open spec fn state_of(offer: Offer) -> (Role, Seq<char>) {
    if offer.available {
        (Role::Good, "ready"@)
    } else {
        match offer.credential_env {
            Some(env) => (Role::Warn, "set "@ + env),
            None => (Role::Warn, "unavailable"@),
        }
    }
}

/// A name, and what goes beside it or under it.
pub open spec fn entry(
    role: Role,
    name: cell::Drawn,
    said: (Role, Seq<char>),
    stacked: bool,
    pad: nat,
) -> Seq<paint::Row> {
    if stacked {
        seq![seq![(role, name.text)], seq![rows::plain(text::blanks(GAP as nat)), said]]
    } else {
        seq![
            seq![
                (role, name.text),
                rows::plain(text::blanks(rows::left_of(pad, name.width) + GAP as nat)),
                said,
            ],
        ]
    }
}

/// One model of a provider. The first is the one a run takes by default.
pub open spec fn model_row(model: Seq<char>, first: bool) -> paint::Row {
    if first {
        seq![
            rows::plain(INDENT@ + model),
            rows::plain(text::blanks(GAP as nat)),
            (Role::Muted, "default"@),
        ]
    } else {
        seq![rows::plain(INDENT@ + model)]
    }
}

/// The models a provider advertises. One that advertises none is not broken:
/// a model it does not list can still be named.
pub open spec fn model_rows(models: Seq<Seq<char>>) -> Seq<paint::Row> {
    if models.len() == 0 {
        seq![
            seq![
                rows::plain(INDENT@),
                (Role::Muted, "no advertised models - name one with --model"@),
            ],
        ]
    } else {
        Seq::new(models.len(), |i: int| model_row(models[i], i == 0))
    }
}

/// A provider's block.
pub open spec fn offer_rows(offer: Offer, stacked: bool, pad: nat) -> Seq<paint::Row> {
    entry(Role::Accent, offer.name, state_of(offer), stacked, pad) + model_rows(offer.models)
}

/// Blocks one after another, an empty row between each two.
pub open spec fn spaced(blocks: Seq<Seq<paint::Row>>) -> Seq<paint::Row>
    decreases blocks.len(),
{
    if blocks.len() == 0 {
        Seq::empty()
    } else if blocks.len() == 1 {
        blocks[0]
    } else {
        spaced(blocks.drop_last()) + paint::empty_rows(1) + blocks.last()
    }
}

/// The blocks of a list of providers.
pub open spec fn offer_blocks(providers: Seq<Offer>, stacked: bool, pad: nat) -> Seq<
    Seq<paint::Row>,
> {
    Seq::new(providers.len(), |i: int| offer_rows(providers[i], stacked, pad))
}

/// The page of models.
pub open spec fn models_rows(width: nat, providers: Seq<Offer>) -> Seq<paint::Row> {
    if providers.len() == 0 {
        seq![seq![(Role::Muted, "no providers are registered"@)]]
    } else {
        let names = offer_widths(providers);
        spaced(offer_blocks(providers, stacks(width, names), column_of(width, names)))
    }
}

/// A provider's state, in the words that say what to do about it.
fn state(provider: &Provider) -> (s: (Role, String))
    ensures
        (s.0, s.1@) == state_of(provider@),
{
    if provider.available {
        return (Role::Good, "ready".to_owned());
    }
    match &provider.credential_env {
        Some(env) => (Role::Warn, text::cat("set ", env.as_str())),
        None => (Role::Warn, "unavailable".to_owned()),
    }
}

/// Add a name, and what goes beside it or under it.
fn enter(page: &mut Vec<Line>, role: Role, name: &Cell, said: (Role, &str), stacked: bool, pad: usize)
    requires
        pad + GAP <= usize::MAX,
    ensures
        paint::rows_of(final(page)@) == paint::rows_of(old(page)@) + entry(
            role,
            name@,
            (said.0, said.1@),
            stacked,
            pad as nat,
        ),
{
    let ghost before = paint::rows_of(page@);
    let ghost whole = entry(role, name@, (said.0, said.1@), stacked, pad as nat);
    if stacked {
        let l = Line::of(role, name.text.as_str());
        proof {
            assert(l@ =~= whole[0]);
        }
        page.push(l);
        let mut l = Line::of(Role::Plain, spaces(GAP).as_str());
        l.put(said.0, said.1);
        proof {
            assert(l@ =~= whole[1]);
        }
        page.push(l);
        proof {
            assert(before.push(whole[0]).push(whole[1]) =~= before + whole);
        }
    } else {
        let mut l = Line::of(role, name.text.as_str());
        l.put(Role::Plain, spaces(pad.saturating_sub(name.width) + GAP).as_str());
        l.put(said.0, said.1);
        proof {
            assert(l@ =~= whole[0]);
        }
        page.push(l);
        proof {
            assert(before.push(whole[0]) =~= before + whole);
        }
    }
}

/// Add the models a provider advertises.
fn advertise(page: &mut Vec<Line>, models: &Vec<String>)
    ensures
        paint::rows_of(final(page)@) == paint::rows_of(old(page)@) + model_rows(
            text::views(models@),
        ),
{
    let ghost before = paint::rows_of(page@);
    let ghost all = model_rows(text::views(models@));
    let mut i: usize = 0;
    proof {
        assert(before + all.take(0) =~= before);
    }
    while i < models.len()
        invariant
            i <= models.len(),
            all == model_rows(text::views(models@)),
            paint::rows_of(page@) == before + all.take(i as int),
        decreases models.len() - i,
    {
        let mut l = Line::of(Role::Plain, text::cat(INDENT, models[i].as_str()).as_str());
        if i == 0 {
            l.put(Role::Plain, spaces(GAP).as_str());
            l.put(Role::Muted, "default");
        }
        proof {
            assert(l@ =~= all[i as int]);
            assert((before + all.take(i as int)).push(all[i as int]) =~= before + all.take(i + 1));
        }
        page.push(l);
        i = i + 1;
    }
    if models.len() == 0 {
        let mut l = Line::of(Role::Plain, INDENT);
        l.put(Role::Muted, "no advertised models - name one with --model");
        proof {
            assert(l@ =~= all[0]);
            assert(before.push(all[0]) =~= before + all);
        }
        page.push(l);
    } else {
        proof {
            assert(all.take(i as int) =~= all);
        }
    }
}

/// Every provider, its state, and the models it advertises.
pub fn models(width: usize, providers: &Vec<Provider>) -> (p: Page)
    ensures
        p.heading@ == "models"@,
        p.at is None,
        paint::rows_of(p.rows@) == models_rows(width as nat, offers(providers@)),
{
    let heading = "models".to_owned();
    if providers.len() == 0 {
        return Page {
            heading,
            at: None,
            rows: paint::only(Line::of(Role::Muted, "no providers are registered")),
        };
    }
    let ghost said = offers(providers@);
    let ghost names = offer_widths(said);
    let mut widths: Vec<usize> = Vec::new();
    let mut i: usize = 0;
    while i < providers.len()
        invariant
            i <= providers.len(),
            said == offers(providers@),
            names == offer_widths(said),
            cell::counted(widths@) =~= names.take(i as int),
        decreases providers.len() - i,
    {
        let ghost before = widths@;
        widths.push(providers[i].name.width);
        proof {
            assert(cell::counted(widths@) =~= cell::counted(before).push(names[i as int]));
        }
        i = i + 1;
    }
    proof {
        assert(names.take(i as int) =~= names);
    }
    let beside = beside(width, &widths);
    let ghost blocks = offer_blocks(said, beside.stacked, beside.pad as nat);
    let mut rows: Vec<Line> = Vec::new();
    let mut i: usize = 0;
    proof {
        assert(blocks.take(0) =~= Seq::<Seq<paint::Row>>::empty());
    }
    while i < providers.len()
        invariant
            i <= providers.len(),
            said == offers(providers@),
            blocks == offer_blocks(said, beside.stacked, beside.pad as nat),
            !beside.stacked ==> beside.pad + GAP <= usize::MAX,
            beside.stacked ==> beside.pad == 0,
            paint::rows_of(rows@) == spaced(blocks.take(i as int)),
        decreases providers.len() - i,
    {
        let ghost before = paint::rows_of(rows@);
        if i > 0 {
            let empty = Line::blank();
            proof {
                assert(before.push(empty@) =~= before + paint::empty_rows(1));
            }
            rows.push(empty);
        }
        let (role, state) = state(&providers[i]);
        enter(
            &mut rows,
            Role::Accent,
            &providers[i].name,
            (role, state.as_str()),
            beside.stacked,
            beside.pad,
        );
        advertise(&mut rows, &providers[i].models);
        proof {
            let next = blocks.take(i + 1);
            assert(next.drop_last() =~= blocks.take(i as int));
            assert(next.last() == blocks[i as int]);
            let start = if i > 0 {
                before + paint::empty_rows(1)
            } else {
                before
            };
            assert(paint::rows_of(rows@) =~= start + blocks[i as int]);
        }
        i = i + 1;
    }
    proof {
        assert(blocks.take(i as int) =~= blocks);
    }
    Page { heading, at: None, rows }
}

/// An argument of a tool, read out of its schema.
#[derive(Clone, Debug)]
pub struct Argument {
    pub name: String,
    pub kind: String,
    pub required: bool,
}

/// An argument of a tool, by what it says.
pub struct Taken {
    pub name: Seq<char>,
    pub kind: Seq<char>,
    pub required: bool,
}

impl View for Argument {
    type V = Taken;

    open spec fn view(&self) -> Taken {
        Taken { name: self.name@, kind: self.kind@, required: self.required }
    }
}

/// The type a schema gives one argument. One it gives none takes anything.
pub open spec fn kind_of(properties: Seq<char>, name: Seq<char>) -> Seq<char> {
    match json::json_field(properties, name) {
        Some(schema) => match json::text_of(schema, "type"@) {
            Some(kind) => kind,
            None => "any"@,
        },
        None => "any"@,
    }
}

/// Whether a schema lists a name as required.
pub open spec fn required_in(parameters: Seq<char>, name: Seq<char>) -> bool {
    match json::json_field(parameters, "required"@) {
        Some(list) => match json::json_items(list) {
            Some(items) => exists|i: int|
                0 <= i < items.len() && json::json_text(#[trigger] items[i]) == Some(name),
            None => false,
        },
        None => false,
    }
}

/// The arguments a schema describes, in the schema's own order. A schema that
/// cannot be read describes none.
pub open spec fn arguments_of(parameters: Seq<char>) -> Seq<Taken> {
    match json::json_field(parameters, "properties"@) {
        Some(properties) => match json::json_names(properties) {
            Some(names) => Seq::new(
                names.len(),
                |i: int|
                    Taken {
                        name: names[i],
                        kind: kind_of(properties, names[i]),
                        required: required_in(parameters, names[i]),
                    },
            ),
            None => Seq::empty(),
        },
        None => Seq::empty(),
    }
}

fn kind(properties: &str, name: &str) -> (s: String)
    ensures
        s@ == kind_of(properties@, name@),
{
    match json::field(properties, name) {
        Some(schema) => match json::text_field(schema.as_str(), "type") {
            Some(kind) => kind,
            None => "any".to_owned(),
        },
        None => "any".to_owned(),
    }
}

fn requires_name(parameters: &str, name: &str) -> (r: bool)
    ensures
        r == required_in(parameters@, name@),
{
    let list = match json::field(parameters, "required") {
        Some(list) => list,
        None => {
            return false;
        },
    };
    let items = match json::items(list.as_str()) {
        Some(items) => items,
        None => {
            return false;
        },
    };
    let ghost all = text::views(items@);
    let mut i: usize = 0;
    while i < items.len()
        invariant
            i <= items.len(),
            all == text::views(items@),
            json::json_field(parameters@, "required"@) == Some(list@),
            json::json_items(list@) == Some(all),
            forall|j: int| 0 <= j < i ==> json::json_text(#[trigger] all[j]) != Some(name@),
        decreases items.len() - i,
    {
        if let Some(held) = json::text(items[i].as_str()) {
            if same(held.as_str(), name) {
                proof {
                    assert(json::json_text(all[i as int]) == Some(name@));
                }
                return true;
            }
        }
        i = i + 1;
    }
    false
}

/// What a list of arguments says.
pub open spec fn taken(arguments: Seq<Argument>) -> Seq<Taken> {
    arguments.map_values(|a: Argument| a@)
}

/// The arguments of one tool, read out of its schema.
pub fn arguments(parameters: &str) -> (r: Vec<Argument>)
    ensures
        taken(r@) == arguments_of(parameters@),
{
    let mut r: Vec<Argument> = Vec::new();
    proof {
        assert(taken(r@) =~= Seq::<Taken>::empty());
    }
    let properties = match json::field(parameters, "properties") {
        Some(properties) => properties,
        None => {
            return r;
        },
    };
    let names = match json::names(properties.as_str()) {
        Some(names) => names,
        None => {
            return r;
        },
    };
    let ghost all = arguments_of(parameters@);
    let mut i: usize = 0;
    proof {
        assert(all.take(0) =~= Seq::<Taken>::empty());
    }
    while i < names.len()
        invariant
            i <= names.len(),
            json::json_field(parameters@, "properties"@) == Some(properties@),
            json::json_names(properties@) == Some(text::views(names@)),
            all == arguments_of(parameters@),
            taken(r@) == all.take(i as int),
        decreases names.len() - i,
    {
        let ghost before = taken(r@);
        let argument = Argument {
            name: names[i].clone(),
            kind: kind(properties.as_str(), names[i].as_str()),
            required: requires_name(parameters, names[i].as_str()),
        };
        proof {
            assert(argument@ == all[i as int]);
        }
        r.push(argument);
        proof {
            assert(taken(r@) =~= before.push(argument@));
            assert(all.take(i + 1) =~= all.take(i as int).push(all[i as int]));
        }
        i = i + 1;
    }
    proof {
        assert(all.take(i as int) =~= all);
    }
    r
}

/// An argument's row: its name, its type and whether it is required.
pub open spec fn argument_of(taken: Taken) -> Seq<char> {
    if taken.required {
        taken.name + " ("@ + taken.kind + ", required)"@
    } else {
        taken.name + " ("@ + taken.kind + ")"@
    }
}

/// An argument's row, once the terminal has made its name and its type safe to
/// draw.
pub fn argument(drawn: &Argument) -> (s: String)
    ensures
        s@ == argument_of(drawn@),
{
    let mut s = text::cat(drawn.name.as_str(), " (");
    s.append(drawn.kind.as_str());
    if drawn.required {
        s.append(", required)");
    } else {
        s.append(")");
    }
    s
}

/// A tool, with every text on it as the terminal draws it and its description
/// cut to the room the page gives one.
#[derive(Clone, Debug)]
pub struct Tool {
    pub name: Cell,
    pub said: String,
    pub arguments: Vec<String>,
}

/// A tool, by what it says.
pub struct Use {
    pub name: cell::Drawn,
    pub said: Seq<char>,
    pub arguments: Seq<Seq<char>>,
}

impl View for Tool {
    type V = Use;

    open spec fn view(&self) -> Use {
        Use { name: self.name@, said: self.said@, arguments: text::views(self.arguments@) }
    }
}

/// What a list of tools says.
pub open spec fn uses(tools: Seq<Tool>) -> Seq<Use> {
    tools.map_values(|t: Tool| t@)
}

/// The rows of a tool's arguments, under its description rather than under its
/// name.
pub open spec fn argument_rows(arguments: Seq<Seq<char>>, pad: nat) -> Seq<paint::Row> {
    Seq::new(
        arguments.len(),
        |i: int| seq![rows::plain(text::blanks(pad + GAP as nat)), (Role::Muted, arguments[i])],
    )
}

/// A tool's block.
pub open spec fn use_rows(tool: Use, stacked: bool, pad: nat) -> Seq<paint::Row> {
    entry(Role::Tool, tool.name, rows::plain(tool.said), stacked, pad) + argument_rows(
        tool.arguments,
        pad,
    )
}

/// The blocks of a list of tools.
pub open spec fn use_blocks(tools: Seq<Use>, stacked: bool, pad: nat) -> Seq<Seq<paint::Row>> {
    Seq::new(tools.len(), |i: int| use_rows(tools[i], stacked, pad))
}

/// The columns the names of a list of tools take.
pub open spec fn use_widths(tools: Seq<Use>) -> Seq<nat> {
    tools.map_values(|t: Use| t.name.width)
}

/// The page of tools.
pub open spec fn tools_rows(width: nat, tools: Seq<Use>) -> Seq<paint::Row> {
    if tools.len() == 0 {
        seq![seq![(Role::Muted, "no tools are registered"@)]]
    } else {
        let names = use_widths(tools);
        spaced(use_blocks(tools, stacks(width, names), column_of(width, names)))
    }
}

fn explain(page: &mut Vec<Line>, arguments: &Vec<String>, pad: usize)
    requires
        pad + GAP <= usize::MAX,
    ensures
        paint::rows_of(final(page)@) == paint::rows_of(old(page)@) + argument_rows(
            text::views(arguments@),
            pad as nat,
        ),
{
    let ghost before = paint::rows_of(page@);
    let ghost all = argument_rows(text::views(arguments@), pad as nat);
    let mut i: usize = 0;
    proof {
        assert(before + all.take(0) =~= before);
    }
    while i < arguments.len()
        invariant
            i <= arguments.len(),
            pad + GAP <= usize::MAX,
            all == argument_rows(text::views(arguments@), pad as nat),
            paint::rows_of(page@) == before + all.take(i as int),
        decreases arguments.len() - i,
    {
        let mut l = Line::of(Role::Plain, spaces(pad + GAP).as_str());
        l.put(Role::Muted, arguments[i].as_str());
        proof {
            assert(l@ =~= all[i as int]);
            assert((before + all.take(i as int)).push(all[i as int]) =~= before + all.take(i + 1));
        }
        page.push(l);
        i = i + 1;
    }
    proof {
        assert(all.take(i as int) =~= all);
    }
}

/// Every tool, what it does, and the arguments it takes. The room a
/// description is cut to is what [`beside`] says.
pub fn tools(width: usize, listed: &Vec<Tool>) -> (p: Page)
    ensures
        p.heading@ == "tools"@,
        p.at is None,
        paint::rows_of(p.rows@) == tools_rows(width as nat, uses(listed@)),
{
    let heading = "tools".to_owned();
    if listed.len() == 0 {
        return Page {
            heading,
            at: None,
            rows: paint::only(Line::of(Role::Muted, "no tools are registered")),
        };
    }
    let ghost said = uses(listed@);
    let ghost names = use_widths(said);
    let mut widths: Vec<usize> = Vec::new();
    let mut i: usize = 0;
    while i < listed.len()
        invariant
            i <= listed.len(),
            said == uses(listed@),
            names == use_widths(said),
            cell::counted(widths@) =~= names.take(i as int),
        decreases listed.len() - i,
    {
        let ghost before = widths@;
        widths.push(listed[i].name.width);
        proof {
            assert(cell::counted(widths@) =~= cell::counted(before).push(names[i as int]));
        }
        i = i + 1;
    }
    proof {
        assert(names.take(i as int) =~= names);
    }
    let beside = beside(width, &widths);
    let ghost blocks = use_blocks(said, beside.stacked, beside.pad as nat);
    let mut rows: Vec<Line> = Vec::new();
    let mut i: usize = 0;
    proof {
        assert(blocks.take(0) =~= Seq::<Seq<paint::Row>>::empty());
    }
    while i < listed.len()
        invariant
            i <= listed.len(),
            said == uses(listed@),
            blocks == use_blocks(said, beside.stacked, beside.pad as nat),
            beside.pad + GAP <= usize::MAX,
            paint::rows_of(rows@) == spaced(blocks.take(i as int)),
        decreases listed.len() - i,
    {
        let ghost before = paint::rows_of(rows@);
        if i > 0 {
            let empty = Line::blank();
            proof {
                assert(before.push(empty@) =~= before + paint::empty_rows(1));
            }
            rows.push(empty);
        }
        enter(
            &mut rows,
            Role::Tool,
            &listed[i].name,
            (Role::Plain, listed[i].said.as_str()),
            beside.stacked,
            beside.pad,
        );
        explain(&mut rows, &listed[i].arguments, beside.pad);
        proof {
            let next = blocks.take(i + 1);
            assert(next.drop_last() =~= blocks.take(i as int));
            assert(next.last() == blocks[i as int]);
            let start = if i > 0 {
                before + paint::empty_rows(1)
            } else {
                before
            };
            assert(paint::rows_of(rows@) =~= start + blocks[i as int]);
        }
        i = i + 1;
    }
    proof {
        assert(blocks.take(i as int) =~= blocks);
    }
    Page { heading, at: None, rows }
}

// ---- laws ----

/// What stands beside a name starts in one column on every row: each name,
/// padded, is as wide as the widest and the gap.
pub proof fn lemma_one_column(width: nat, names: Seq<nat>, i: int)
    requires
        !stacks(width, names),
        0 <= i < names.len(),
    ensures
        names[i] + rows::left_of(column_of(width, names), names[i]) + GAP == cell::widest_of(names)
            + GAP,
{
    cell::lemma_none_is_wider(names, i);
}

/// A page that does not stack has room beside its names, and what it gives a
/// sentence ends where the terminal does.
pub proof fn lemma_room_ends_with_the_terminal(width: nat, names: Seq<nat>)
    requires
        !stacks(width, names),
    ensures
        room_of(width, names) >= LEAST,
        column_of(width, names) + GAP + room_of(width, names) == width,
{
}

/// A provider that can be used is ready, and one that cannot tells the variable to
/// set, where there is one.
pub proof fn lemma_a_provider_tells_what_it_needs(offer: Offer, env: Seq<char>)
    ensures
        offer.available <==> state_of(offer) == (Role::Good, "ready"@),
        !offer.available && offer.credential_env == Some(env) ==> state_of(offer) == (
            Role::Warn,
            "set "@ + env,
        ),
        !offer.available && offer.credential_env is None ==> state_of(offer) == (
            Role::Warn,
            "unavailable"@,
        ),
{
}

/// Every model is listed in the order it is advertised, the first as the default
/// and no other; and where none is, that is said.
pub proof fn lemma_the_first_model_is_the_default(models: Seq<Seq<char>>, i: int)
    ensures
        models.len() > 0 ==> model_rows(models).len() == models.len(),
        0 <= i < models.len() ==> model_rows(models)[i][0] == rows::plain("  "@ + models[i]),
        0 < i < models.len() ==> model_rows(models)[i].len() == 1,
        models.len() > 0 ==> model_rows(models)[0].len() == 3 && model_rows(models)[0][2] == (
            Role::Muted,
            "default"@,
        ),
        models.len() == 0 ==> model_rows(models).len() == 1 && model_rows(models)[0][1] == (
            Role::Muted,
            "no advertised models - name one with --model"@,
        ),
{
}

/// An entry is its name and what is said of it: beside each other in columns, or
/// the one under the other where it is stacked.
pub proof fn lemma_an_entry_is_its_name_and_what_is_said(
    role: Role,
    name: cell::Drawn,
    said: (Role, Seq<char>),
    pad: nat,
)
    requires
        name.width <= pad,
    ensures
        ({
            let beside = entry(role, name, said, false, pad);
            let under = entry(role, name, said, true, pad);
            &&& beside.len() == 1
            &&& beside[0][0] == (role, name.text) && beside[0][2] == said
            &&& name.width + beside[0][1].1.len() == pad + 2
            &&& under.len() == 2
            &&& under[0] == seq![(role, name.text)] && under[1][1] == said
        }),
{
}

/// Blocks stand under each other in order with one empty row between each two.
pub proof fn lemma_blocks_are_spaced_by_one_row(
    blocks: Seq<Seq<paint::Row>>,
    block: Seq<paint::Row>,
)
    ensures
        spaced(Seq::empty()).len() == 0,
        spaced(seq![block]) == block,
        blocks.len() > 0 ==> spaced(blocks.push(block)) == spaced(blocks) + seq![
            Seq::<(Role, Seq<char>)>::empty(),
        ] + block,
{
    assert(blocks.push(block).drop_last() =~= blocks);
    assert(paint::empty_rows(1) =~= seq![Seq::<(Role, Seq<char>)>::empty()]);
}

/// Every provider and every tool has its block, in the order it is listed in.
pub proof fn lemma_everything_listed_has_its_block(
    width: nat,
    providers: Seq<Offer>,
    tools: Seq<Use>,
    i: int,
)
    ensures
        ({
            let names = offer_widths(providers);
            let blocks = offer_blocks(providers, stacks(width, names), column_of(width, names));
            &&& providers.len() > 0 ==> models_rows(width, providers) == spaced(blocks)
            &&& blocks.len() == providers.len()
            &&& 0 <= i < providers.len() ==> blocks[i] == entry(
                Role::Accent,
                providers[i].name,
                state_of(providers[i]),
                stacks(width, names),
                column_of(width, names),
            ) + model_rows(providers[i].models)
        }),
        ({
            let names = use_widths(tools);
            let blocks = use_blocks(tools, stacks(width, names), column_of(width, names));
            &&& tools.len() > 0 ==> tools_rows(width, tools) == spaced(blocks)
            &&& blocks.len() == tools.len()
            &&& 0 <= i < tools.len() ==> blocks[i] == entry(
                Role::Tool,
                tools[i].name,
                rows::plain(tools[i].said),
                stacks(width, names),
                column_of(width, names),
            ) + argument_rows(tools[i].arguments, column_of(width, names))
        }),
        providers.len() == 0 ==> models_rows(width, providers) == seq![
            seq![(Role::Muted, "no providers are registered"@)],
        ],
        tools.len() == 0 ==> tools_rows(width, tools) == seq![
            seq![(Role::Muted, "no tools are registered"@)],
        ],
{
}

/// An argument is told by its name and its kind, and as required exactly where it
/// is.
pub proof fn lemma_an_argument_is_told_by_its_kind(taken: Taken)
    ensures
        taken.required ==> argument_of(taken) == taken.name + " ("@ + taken.kind
            + ", required)"@,
        !taken.required ==> argument_of(taken) == taken.name + " ("@ + taken.kind + ")"@,
{
}

/// The arguments of a tool are those its schema names, in that order: each of the
/// kind its own schema gives it, or of any, and required exactly where the list
/// of those that are has its name.
pub proof fn lemma_arguments_are_read_from_the_schema(
    parameters: Seq<char>,
    properties: Seq<char>,
    names: Seq<Seq<char>>,
    i: int,
    schema: Seq<char>,
    kind: Seq<char>,
)
    requires
        json::json_field(parameters, "properties"@) == Some(properties),
        json::json_names(properties) == Some(names),
        0 <= i < names.len(),
    ensures
        ({
            let read = arguments_of(parameters);
            &&& read.len() == names.len()
            &&& read[i].name == names[i]
            &&& json::json_field(properties, names[i]) == Some(schema) && json::spells(
                schema,
                "type"@,
                kind,
            ) ==> read[i].kind == kind
            &&& json::json_field(properties, names[i]) == Some(schema) && json::json_field(
                schema,
                "type"@,
            ) is None ==> read[i].kind == "any"@
            &&& json::json_field(parameters, "required"@) is None ==> !read[i].required
            &&& json::json_field(parameters, "required"@) matches Some(list)
                ==> json::json_items(list) matches Some(items) ==> (read[i].required <==> exists|
                j: int,
            |
                0 <= j < items.len() && json::json_text(#[trigger] items[j]) == Some(names[i]))
        }),
{
}

/// A list is stacked where what stands beside its names would have fewer than
/// sixteen columns.
pub proof fn lemma_a_narrow_list_is_stacked(width: nat, names: Seq<nat>)
    ensures
        stacks(width, names) <==> width < cell::widest_of(names) + 2 + 16,
        stacks(width, names) ==> column_of(width, names) == 0,
        !stacks(width, names) ==> column_of(width, names) == cell::widest_of(names),
{
}

} // verus!
