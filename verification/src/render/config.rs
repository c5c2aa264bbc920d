//! Resolved configuration, and who resolved it.
//!
//! The question behind this page is nearly always "why is it that, and where
//! do I change it", so the layer that settled a key sits on the same row as
//! the value it settled. A value is printed the way a person writes it into a
//! file: a string loses its quotes, and everything else keeps its spelling.
use vstd::prelude::*;
use vstd::string::*;

use crate::json;
use crate::paint;
use crate::paint::{Field, Line, Role, Sheet};
use crate::render::cell;
use crate::render::cell::Cell;
use crate::render::rows;
use crate::text;
use crate::text::spaces;

verus! {

broadcast use {crate::paint::group_fields, crate::paint::group_rows};

/// Space between the key, value and layer columns.
pub const GAP: usize = 2;

/// The layer that settled a key. One this build does not know is kept, as the
/// terminal draws it.
#[derive(Clone, Debug)]
pub enum ConfigLayer {
    Default,
    File,
    Env,
    Flag,
    Other(Cell),
}

impl ConfigLayer {
    /// The layer, in the words the documentation uses.
    pub open spec fn word(self) -> cell::Drawn {
        match self {
            ConfigLayer::Default => cell::Drawn { text: "default"@, width: 7 },
            ConfigLayer::File => cell::Drawn { text: "file"@, width: 4 },
            ConfigLayer::Env => cell::Drawn { text: "env"@, width: 3 },
            ConfigLayer::Flag => cell::Drawn { text: "flag"@, width: 4 },
            ConfigLayer::Other(other) => other@,
        }
    }

    fn named(&self) -> (s: &str)
        ensures
            s@ == self.word().text,
    {
        match self {
            ConfigLayer::Default => "default",
            ConfigLayer::File => "file",
            ConfigLayer::Env => "env",
            ConfigLayer::Flag => "flag",
            ConfigLayer::Other(other) => other.text.as_str(),
        }
    }

    /// The columns its word takes.
    pub fn width(&self) -> (n: usize)
        ensures
            n == self.word().width,
    {
        match self {
            ConfigLayer::Default => 7,
            ConfigLayer::File => 4,
            ConfigLayer::Env => 3,
            ConfigLayer::Flag => 4,
            ConfigLayer::Other(other) => other.width,
        }
    }
}

/// A JSON value as a person would have typed it.
pub open spec fn value_of(value: Seq<char>) -> Seq<char> {
    match json::json_text(value) {
        Some(said) => said,
        None => match json::json_compact(value) {
            Some(said) => said,
            None => value,
        },
    }
}

/// A JSON value as a person would have typed it.
pub fn value(spelled: &str) -> (s: String)
    ensures
        s@ == value_of(spelled@),
{
    match json::text(spelled) {
        Some(said) => said,
        None => match json::compact(spelled) {
            Some(said) => said,
            None => spelled.to_owned(),
        },
    }
}

/// One resolved key, with every text on it as the terminal draws it and the
/// value cut to the room the page gives one.
#[derive(Clone, Debug)]
pub struct Entry {
    pub key: Cell,
    pub value: Cell,
    pub layer: ConfigLayer,
}

/// One resolved key, by what it says.
pub struct Resolved {
    pub key: cell::Drawn,
    pub value: cell::Drawn,
    pub layer: cell::Drawn,
}

impl View for Entry {
    type V = Resolved;

    open spec fn view(&self) -> Resolved {
        Resolved { key: self.key@, value: self.value@, layer: self.layer.word() }
    }
}

/// What a list of resolved keys says.
pub open spec fn resolved(entries: Seq<Entry>) -> Seq<Resolved> {
    entries.map_values(|e: Entry| e@)
}

/// The columns the keys take.
pub open spec fn keys_of(entries: Seq<Resolved>) -> nat {
    cell::widest_of(entries.map_values(|e: Resolved| e.key.width))
}

/// The columns the values take.
pub open spec fn values_of(entries: Seq<Resolved>) -> nat {
    cell::widest_of(entries.map_values(|e: Resolved| e.value.width))
}

/// The columns a value is cut to: whatever the two outer columns leave over.
pub fn room(width: usize, keys: &Vec<usize>, layers: &Vec<usize>) -> (n: usize)
    ensures
        n == rows::left_of(
            width as nat,
            cell::widest_of(cell::counted(keys@)) + cell::widest_of(cell::counted(layers@)) + 2
                * GAP as nat,
        ),
{
    width.saturating_sub(cell::widest(keys)).saturating_sub(cell::widest(layers)).saturating_sub(
        2 * GAP,
    )
}

/// One row: the key, the value, and the layer that settled it.
pub open spec fn row_of(entry: Resolved, entries: Seq<Resolved>) -> paint::Labelled {
    paint::Labelled {
        label: entry.key.text,
        column: keys_of(entries),
        said: seq![
            rows::plain(entry.value.text),
            rows::plain(
                text::blanks(rows::left_of(values_of(entries), entry.value.width) + GAP as nat),
            ),
            (Role::Muted, entry.layer.text),
        ],
    }
}

/// Every resolved key on one aligned table.
pub open spec fn table(entries: Seq<Resolved>) -> Seq<paint::Labelled> {
    Seq::new(entries.len(), |i: int| row_of(entries[i], entries))
}

/// Every resolved key on one aligned table, headed by the document this page
/// read, where it read one.
pub fn render(entries: &Vec<Entry>, read: Option<&str>) -> (s: Sheet)
    requires
        values_of(resolved(entries@)) + GAP <= usize::MAX,
    ensures
        s.heading@ == seq![rows::plain("config"@)],
        json::held(s.at) == (match read {
            Some(document) => Some(document@),
            None => None,
        }),
        paint::fields_of(s.fields@) == table(resolved(entries@)),
        paint::rows_of(s.rows@) == if entries@.len() == 0 {
            seq![seq![(Role::Muted, "nothing is set"@)]]
        } else {
            Seq::empty()
        },
        s.note is None,
{
    let at = match read {
        Some(document) => Some(document.to_owned()),
        None => None,
    };
    let ghost said = resolved(entries@);
    let ghost all = table(said);
    let ghost names = said.map_values(|e: Resolved| e.key.width);
    let ghost sizes = said.map_values(|e: Resolved| e.value.width);
    let mut keys: Vec<usize> = Vec::new();
    let mut values: Vec<usize> = Vec::new();
    let mut i: usize = 0;
    while i < entries.len()
        invariant
            i <= entries.len(),
            said == resolved(entries@),
            names == said.map_values(|e: Resolved| e.key.width),
            sizes == said.map_values(|e: Resolved| e.value.width),
            cell::counted(keys@) =~= names.take(i as int),
            cell::counted(values@) =~= sizes.take(i as int),
        decreases entries.len() - i,
    {
        let ghost before = (keys@, values@);
        keys.push(entries[i].key.width);
        values.push(entries[i].value.width);
        proof {
            assert(said[i as int] == entries@[i as int]@);
            assert(cell::counted(keys@) =~= cell::counted(before.0).push(names[i as int]));
            assert(cell::counted(values@) =~= cell::counted(before.1).push(sizes[i as int]));
        }
        i = i + 1;
    }
    proof {
        assert(names.take(i as int) =~= names);
        assert(sizes.take(i as int) =~= sizes);
    }
    let column: usize = cell::widest(&keys);
    let width: usize = cell::widest(&values);
    let mut fields: Vec<Field> = Vec::new();
    let mut i: usize = 0;
    proof {
        assert(all.take(0) =~= Seq::<paint::Labelled>::empty());
    }
    while i < entries.len()
        invariant
            i <= entries.len(),
            said == resolved(entries@),
            all == table(said),
            column == keys_of(said),
            width == values_of(said),
            width + GAP <= usize::MAX,
            paint::fields_of(fields@) == all.take(i as int),
        decreases entries.len() - i,
    {
        let entry = &entries[i];
        let mut l = Line::of(Role::Plain, entry.value.text.as_str());
        l.put(
            Role::Plain,
            spaces(width.saturating_sub(entry.value.width) + GAP).as_str(),
        );
        l.put(Role::Muted, entry.layer.named());
        proof {
            assert(said[i as int] == entries@[i as int]@);
            assert(l@ =~= all[i as int].said);
        }
        let f = Field { label: entry.key.text.clone(), column, said: l };
        proof {
            assert(f@ == all[i as int]);
            assert(all.take(i + 1) =~= all.take(i as int).push(all[i as int]));
        }
        fields.push(f);
        i = i + 1;
    }
    proof {
        assert(all.take(i as int) =~= all);
    }
    let mut rows: Vec<Line> = Vec::new();
    if entries.len() == 0 {
        rows = paint::only(Line::of(Role::Muted, "nothing is set"));
    }
    Sheet { heading: Line::of(Role::Plain, "config"), at, fields, rows, note: None }
}

/// The layer starts in one column on every row: each value, padded, is as wide
/// as the widest and the gap.
pub proof fn lemma_one_column(entries: Seq<Resolved>, i: int)
    requires
        0 <= i < entries.len(),
    ensures
        entries[i].value.width + rows::left_of(values_of(entries), entries[i].value.width) + GAP
            == values_of(entries) + GAP,
{
    cell::lemma_none_is_wider(entries.map_values(|e: Resolved| e.value.width), i);
}

/// A row ends where the terminal does, at the most: the two outer columns, the
/// gaps and a value cut to the room it has come to the width.
pub proof fn lemma_a_row_fits(width: nat, keys: nat, layers: nat)
    requires
        keys + layers + 2 * GAP <= width,
    ensures
        keys + GAP + rows::left_of(width, keys + layers + 2 * GAP as nat) + GAP + layers == width,
{
}

/// A value that is a string is told by what it says, and any other as it is spelled
/// compactly.
pub proof fn lemma_a_value_is_told_plainly(value: Seq<char>, said: Seq<char>)
    ensures
        json::json_text(value) == Some(said) ==> value_of(value) == said,
        json::json_text(value) is None && json::json_compact(value) == Some(said) ==> value_of(
            value,
        ) == said,
        json::json_text(value) is None && json::json_compact(value) is None ==> value_of(value)
            == value,
{
}

/// Each entry is its own row: its key as the label, its value, and the layer that
/// set it; every key that is resolved has one, in order.
pub proof fn lemma_each_key_has_its_own_row(entries: Seq<Resolved>, i: int)
    requires
        0 <= i < entries.len(),
    ensures
        table(entries).len() == entries.len(),
        table(entries)[i].label == entries[i].key.text,
        table(entries)[i].column == keys_of(entries),
        table(entries)[i].said.len() == 3,
        table(entries)[i].said[0] == rows::plain(entries[i].value.text),
        table(entries)[i].said[2] == (Role::Muted, entries[i].layer.text),
        entries[i].value.width + table(entries)[i].said[1].1.len() == values_of(entries) + 2,
        entries[i].key.width <= keys_of(entries),
{
    let values = entries.map_values(|e: Resolved| e.value.width);
    let keys = entries.map_values(|e: Resolved| e.key.width);
    assert(values[i] == entries[i].value.width);
    assert(keys[i] == entries[i].key.width);
    cell::lemma_none_is_wider(values, i);
    cell::lemma_none_is_wider(keys, i);
}

/// Each layer has a word of its own, as wide as it is drawn.
pub proof fn lemma_each_layer_has_its_word(other: Cell)
    ensures
        ConfigLayer::Default.word() == (cell::Drawn { text: "default"@, width: "default"@.len() }),
        ConfigLayer::File.word() == (cell::Drawn { text: "file"@, width: "file"@.len() }),
        ConfigLayer::Env.word() == (cell::Drawn { text: "env"@, width: "env"@.len() }),
        ConfigLayer::Flag.word() == (cell::Drawn { text: "flag"@, width: "flag"@.len() }),
        ConfigLayer::Other(other).word() == (cell::Drawn {
            text: other.text@,
            width: other.width as nat,
        }),
{
    reveal_strlit("default");
    reveal_strlit("file");
    reveal_strlit("env");
    reveal_strlit("flag");
}

/// Whatever page is drawn names the document that was read, has a row for each key
/// that is set, and says so where none is.
pub proof fn lemma_a_page_names_its_document(
    entries: &Vec<Entry>,
    read: Option<&str>,
    sheet: Sheet,
)
    requires
        call_ensures(render, (entries, read), sheet),
    ensures
        sheet.fields@.len() == entries@.len(),
        read is None ==> sheet.at is None,
        read matches Some(document) ==> (sheet.at matches Some(at) && at@ == document@),
        entries@.len() == 0 ==> paint::rows_of(sheet.rows@) == seq![
            seq![(Role::Muted, "nothing is set"@)],
        ],
        entries@.len() > 0 ==> sheet.rows@.len() == 0,
{
    assert(paint::fields_of(sheet.fields@).len() == sheet.fields@.len());
    assert(paint::rows_of(sheet.rows@).len() == sheet.rows@.len());
}

} // verus!
