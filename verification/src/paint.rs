//! What a row is made of before a terminal draws it: text, and the part each
//! piece of it plays.
//!
//! A colour is the terminal's business. A row here names the role of every
//! piece and leaves the palette to whoever paints it, so a row reads the same
//! with colour and without.
use vstd::prelude::*;
use vstd::string::*;

verus! {

/// The part a piece of text plays on the page.
#[derive(Clone, Copy, PartialEq, Eq, Structural, Debug)]
pub enum Role {
    /// Text with no part of its own.
    Plain,
    Heading,
    Accent,
    Muted,
    Good,
    Warn,
    Error,
    Tool,
    Topic,
    Number,
}

/// The marks a terminal can draw.
#[derive(Clone, Copy, PartialEq, Eq, Structural, Debug)]
pub enum Charset {
    Unicode,
    Ascii,
}

/// The mark a charset draws, out of one for each.
pub open spec fn glyph_of(charset: Charset, unicode: Seq<char>, ascii: Seq<char>) -> Seq<char> {
    match charset {
        Charset::Unicode => unicode,
        Charset::Ascii => ascii,
    }
}

impl Charset {
    /// The mark this charset draws, out of one for each.
    pub fn glyph<'a>(self, unicode: &'a str, ascii: &'a str) -> (g: &'a str)
        ensures
            g@ == glyph_of(self, unicode@, ascii@),
    {
        match self {
            Charset::Unicode => unicode,
            Charset::Ascii => ascii,
        }
    }
}

/// A piece of a row.
#[derive(Clone, Debug)]
pub struct Span {
    pub role: Role,
    pub text: String,
}

impl View for Span {
    type V = (Role, Seq<char>);

    open spec fn view(&self) -> (Role, Seq<char>) {
        (self.role, self.text@)
    }
}

/// What a row reads as: its pieces, in order.
pub type Row = Seq<(Role, Seq<char>)>;

/// One row of a page.
#[derive(Clone, Debug)]
pub struct Line {
    pub spans: Vec<Span>,
}

impl View for Line {
    type V = Seq<(Role, Seq<char>)>;

    open spec fn view(&self) -> Seq<(Role, Seq<char>)> {
        self.spans@.map_values(|s: Span| s@)
    }
}

/// The characters of a row, without their roles.
pub open spec fn read(row: Row) -> Seq<char>
    decreases row.len(),
{
    if row.len() == 0 {
        Seq::empty()
    } else {
        read(row.drop_last()) + row.last().1
    }
}

impl Line {
    /// An empty row.
    pub fn blank() -> (l: Line)
        ensures
            l@ == Seq::<(Role, Seq<char>)>::empty(),
    {
        let l = Line { spans: Vec::new() };
        proof {
            assert(l@ =~= Seq::<(Role, Seq<char>)>::empty());
        }
        l
    }

    /// A row of one piece.
    pub fn of(role: Role, text: &str) -> (l: Line)
        ensures
            l@ == seq![(role, text@)],
    {
        let mut l = Line::blank();
        l.put(role, text);
        proof {
            assert(l@ =~= seq![(role, text@)]);
        }
        l
    }

    /// Add one piece at the end.
    pub fn put(&mut self, role: Role, text: &str)
        ensures
            final(self)@ == old(self)@.push((role, text@)),
    {
        let ghost before = self@;
        let span = Span { role, text: text.to_owned() };
        self.spans.push(span);
        proof {
            assert(self@ =~= before.push((role, text@)));
        }
    }

    /// Add another row's pieces at the end.
    pub fn join(&mut self, other: &Line)
        ensures
            final(self)@ == old(self)@ + other@,
    {
        let ghost before = self@;
        let mut i: usize = 0;
        proof {
            assert(before + other@.take(0) =~= before);
        }
        while i < other.spans.len()
            invariant
                i <= other.spans.len(),
                self@ == before + other@.take(i as int),
            decreases other.spans.len() - i,
        {
            self.put(other.spans[i].role, other.spans[i].text.as_str());
            proof {
                assert(other@[i as int] == other.spans@[i as int]@);
                assert((before + other@.take(i as int)).push(other@[i as int]) =~= before
                    + other@.take(i + 1));
            }
            i = i + 1;
        }
        proof {
            assert(other@.take(i as int) =~= other@);
        }
    }

    /// The row as plain text.
    pub fn text(&self) -> (s: String)
        ensures
            s@ == read(self@),
    {
        let mut s = String::new();
        let mut i: usize = 0;
        proof {
            assert(self@.take(0) =~= Seq::<(Role, Seq<char>)>::empty());
        }
        while i < self.spans.len()
            invariant
                i <= self.spans.len(),
                s@ == read(self@.take(i as int)),
            decreases self.spans.len() - i,
        {
            s.append(self.spans[i].text.as_str());
            proof {
                let next = self@.take(i + 1);
                assert(next.drop_last() =~= self@.take(i as int));
                assert(next.last() == self.spans@[i as int]@);
            }
            i = i + 1;
        }
        proof {
            assert(self@.take(i as int) =~= self@);
        }
        s
    }
}

/// What a page reads as, row by row.
pub open spec fn rows_of(lines: Seq<Line>) -> Seq<Row> {
    lines.map_values(|l: Line| l@)
}

/// A row added at the end of a page is the last row it reads as.
pub broadcast proof fn rows_push(lines: Seq<Line>, line: Line)
    ensures
        #[trigger] rows_of(lines.push(line)) == rows_of(lines).push(line@),
{
    assert(rows_of(lines.push(line)) =~= rows_of(lines).push(line@));
}

/// A page with no rows reads as none.
pub broadcast proof fn rows_empty()
    ensures
        #[trigger] rows_of(Seq::<Line>::empty()) == Seq::<Row>::empty(),
{
    assert(rows_of(Seq::<Line>::empty()) =~= Seq::<Row>::empty());
}

/// Two pages one after the other read as their rows one after the other.
pub broadcast proof fn rows_add(a: Seq<Line>, b: Seq<Line>)
    ensures
        #[trigger] rows_of(a + b) == rows_of(a) + rows_of(b),
{
    assert(rows_of(a + b) =~= rows_of(a) + rows_of(b));
}

pub broadcast group group_rows {
    rows_push,
    rows_empty,
    rows_add,
}

/// A page of one row.
pub fn only(line: Line) -> (v: Vec<Line>)
    ensures
        rows_of(v@) == seq![line@],
{
    let mut v: Vec<Line> = Vec::new();
    v.push(line);
    proof {
        assert(rows_of(v@) =~= seq![line@]);
    }
    v
}

/// A page under a heading: what heads it, where that was read from, and its
/// rows.
#[derive(Clone, Debug)]
pub struct Page {
    pub heading: String,
    pub at: Option<String>,
    pub rows: Vec<Line>,
}

/// A whole screen: a bar over it and one under it, each with a left and a
/// right end, and the rows between.
#[derive(Debug)]
pub struct Framed {
    pub head: (Line, Line),
    pub rows: Vec<Line>,
    pub foot: (Line, Line),
}

/// A number of empty rows.
pub open spec fn empty_rows(n: nat) -> Seq<Row> {
    Seq::new(n, |i: int| Seq::<(Role, Seq<char>)>::empty())
}

/// What stands between the bars of a screen `height` rows tall: an empty row,
/// the body, and empty rows down to the bar at the bottom.
pub open spec fn filled(body: Seq<Row>, height: nat) -> Seq<Row> {
    empty_rows(1) + body + empty_rows(
        if height > body.len() + 3 {
            (height - body.len() - 3) as nat
        } else {
            0
        },
    )
}

/// What stands between the bars of a screen `height` rows tall.
pub fn fill(body: Vec<Line>, height: usize) -> (r: Vec<Line>)
    ensures
        rows_of(r@) == filled(rows_of(body@), height as nat),
{
    let ghost said = rows_of(body@);
    let mut r: Vec<Line> = Vec::new();
    r.push(Line::blank());
    proof {
        assert(rows_of(r@) =~= empty_rows(1));
    }
    let mut body = body;
    let ghost whole = body@;
    let tall: usize = body.len();
    let ghost first = r@;
    r.append(&mut body);
    proof {
        assert(r@ =~= first + whole);
        rows_add(first, whole);
        assert(rows_of(r@) == empty_rows(1) + said);
    }
    let missing: usize = height.saturating_sub(3).saturating_sub(tall);
    let mut i: usize = 0;
    proof {
        assert(rows_of(r@) =~= empty_rows(1) + said + empty_rows(0));
    }
    while i < missing
        invariant
            i <= missing,
            rows_of(r@) == empty_rows(1) + said + empty_rows(i as nat),
        decreases missing - i,
    {
        let ghost before = r@;
        let empty = Line::blank();
        r.push(empty);
        proof {
            rows_push(before, empty);
            assert(empty_rows(i as nat).push(Seq::<(Role, Seq<char>)>::empty()) =~= empty_rows(
                (i + 1) as nat,
            ));
            assert(rows_of(r@) =~= empty_rows(1) + said + empty_rows((i + 1) as nat));
        }
        i = i + 1;
    }
    r
}

/// A labelled row: a label carried out to a column, and what stands after it.
#[derive(Clone, Debug)]
pub struct Field {
    pub label: String,
    /// The columns the label is carried out to.
    pub column: usize,
    pub said: Line,
}

/// A labelled row, by what it says.
pub struct Labelled {
    pub label: Seq<char>,
    pub column: nat,
    pub said: Row,
}

impl View for Field {
    type V = Labelled;

    open spec fn view(&self) -> Labelled {
        Labelled { label: self.label@, column: self.column as nat, said: self.said@ }
    }
}

/// What a list of labelled rows says.
pub open spec fn fields_of(fields: Seq<Field>) -> Seq<Labelled> {
    fields.map_values(|f: Field| f@)
}

/// A labelled row added at the end is the last the list says.
pub broadcast proof fn fields_push(fields: Seq<Field>, field: Field)
    ensures
        #[trigger] fields_of(fields.push(field)) == fields_of(fields).push(field@),
{
    assert(fields_of(fields.push(field)) =~= fields_of(fields).push(field@));
}

/// A list of no labelled rows says nothing.
pub broadcast proof fn fields_empty()
    ensures
        #[trigger] fields_of(Seq::<Field>::empty()) == Seq::<Labelled>::empty(),
{
    assert(fields_of(Seq::<Field>::empty()) =~= Seq::<Labelled>::empty());
}

pub broadcast group group_fields {
    fields_push,
    fields_empty,
}

/// A page of labelled rows under a heading.
#[derive(Clone, Debug)]
pub struct Sheet {
    pub heading: Line,
    pub at: Option<String>,
    pub fields: Vec<Field>,
    /// Rows that are not labelled.
    pub rows: Vec<Line>,
    /// An aside under the page.
    pub note: Option<String>,
}

/// A row reads as its spans do, one behind the other, whatever they are painted.
pub proof fn lemma_a_row_reads_span_by_span(row: Row, rest: Row, role: Role, said: Seq<char>)
    ensures
        read(Seq::empty()) == Seq::<char>::empty(),
        read(row.push((role, said))) == read(row) + said,
        read(row + rest) == read(row) + read(rest),
    decreases rest.len(),
{
    assert(row.push((role, said)).drop_last() =~= row);
    if rest.len() == 0 {
        assert(row + rest =~= row);
        assert(read(row + rest) =~= read(row) + read(rest));
    } else {
        lemma_a_row_reads_span_by_span(row, rest.drop_last(), role, said);
        assert((row + rest).drop_last() =~= row + rest.drop_last());
        assert((row + rest).last() == rest.last());
        assert(read(row + rest) =~= read(row) + read(rest));
    }
}

/// A terminal that has the glyph is given it, and one that has not its ASCII
/// stand-in.
pub proof fn lemma_a_glyph_suits_its_terminal(unicode: Seq<char>, ascii: Seq<char>)
    ensures
        glyph_of(Charset::Unicode, unicode, ascii) == unicode,
        glyph_of(Charset::Ascii, unicode, ascii) == ascii,
{
}

/// A page is filled to its height with empty rows, one above what it shows and
/// the rest below it, and what it shows is all there and in order.
pub proof fn lemma_a_page_is_filled_to_its_height(body: Seq<Row>, height: nat, i: int)
    ensures
        body.len() + 3 <= height ==> filled(body, height).len() + 2 == height,
        body.len() + 3 > height ==> filled(body, height).len() == body.len() + 1,
        filled(body, height)[0].len() == 0,
        0 <= i < body.len() ==> filled(body, height)[i + 1] == body[i],
        body.len() < i < filled(body, height).len() ==> filled(body, height)[i].len() == 0,
{
}

} // verus!
