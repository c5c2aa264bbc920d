//! Cells of a table: a text, and the columns a terminal draws it in.
//!
//! Measured in columns and padded in columns, both: counting characters would
//! put every row beside a wide name out of place.
use vstd::prelude::*;

use crate::render::rows;
use crate::text;
use crate::text::spaces;

verus! {

/// A text a terminal can draw, and the columns it takes.
#[derive(Clone, Debug)]
pub struct Cell {
    pub text: String,
    pub width: usize,
}

/// A cell, by what it says.
pub struct Drawn {
    pub text: Seq<char>,
    pub width: nat,
}

impl View for Cell {
    type V = Drawn;

    open spec fn view(&self) -> Drawn {
        Drawn { text: self.text@, width: self.width as nat }
    }
}

/// The widest of a set of widths. A set of none is no columns wide.
pub open spec fn widest_of(widths: Seq<nat>) -> nat
    decreases widths.len(),
{
    if widths.len() == 0 {
        0
    } else {
        let before = widest_of(widths.drop_last());
        if widths.last() > before {
            widths.last()
        } else {
            before
        }
    }
}

/// No cell is wider than the widest.
pub proof fn lemma_none_is_wider(widths: Seq<nat>, i: int)
    requires
        0 <= i < widths.len(),
    ensures
        widths[i] <= widest_of(widths),
    decreases widths.len(),
{
    if i < widths.len() - 1 {
        lemma_none_is_wider(widths.drop_last(), i);
    }
}

/// The widths of a set of numbers.
pub open spec fn counted(widths: Seq<usize>) -> Seq<nat> {
    widths.map_values(|w: usize| w as nat)
}

/// The widest of a set of widths.
pub fn widest(widths: &Vec<usize>) -> (r: usize)
    ensures
        r == widest_of(counted(widths@)),
{
    let ghost all = counted(widths@);
    let mut r: usize = 0;
    let mut i: usize = 0;
    proof {
        assert(all.take(0) =~= Seq::<nat>::empty());
    }
    while i < widths.len()
        invariant
            i <= widths.len(),
            all == counted(widths@),
            r == widest_of(all.take(i as int)),
        decreases widths.len() - i,
    {
        proof {
            assert(all.take(i + 1).drop_last() =~= all.take(i as int));
            assert(all.take(i + 1).last() == widths@[i as int] as nat);
        }
        if widths[i] > r {
            r = widths[i];
        }
        i = i + 1;
    }
    proof {
        assert(all.take(i as int) =~= all);
    }
    r
}

/// The spaces that carry a cell out to a width.
pub open spec fn pad_of(cell: nat, width: nat) -> Seq<char> {
    text::blanks(rows::left_of(width, cell))
}

/// The spaces that carry a cell out to a width.
pub fn pad(cell: usize, width: usize) -> (s: String)
    ensures
        s@ == pad_of(cell as nat, width as nat),
{
    spaces(width.saturating_sub(cell))
}

/// The widest is one of the widths, where there are any, and nothing otherwise.
pub proof fn lemma_the_widest_is_one_of_them(widths: Seq<nat>)
    ensures
        widths.len() > 0 ==> widths.contains(widest_of(widths)),
        widths.len() == 0 ==> widest_of(widths) == 0,
    decreases widths.len(),
{
    if widths.len() > 0 {
        let rest = widths.drop_last();
        lemma_the_widest_is_one_of_them(rest);
        if widths.last() > widest_of(rest) {
            assert(widths[widths.len() - 1] == widest_of(widths));
        } else if rest.len() > 0 {
            let i = rest.index_of(widest_of(rest));
            assert(widths[i] == widest_of(widths));
        } else {
            assert(widths[widths.len() - 1] == widest_of(widths));
        }
    }
}

/// A cell is padded with spaces out to its column, and not at all where it is as
/// wide or wider.
pub proof fn lemma_a_cell_is_padded_to_its_column(cell: nat, width: nat)
    ensures
        cell <= width ==> cell + pad_of(cell, width).len() == width,
        cell > width ==> pad_of(cell, width).len() == 0,
        forall|i: int| 0 <= i < pad_of(cell, width).len() ==> #[trigger] pad_of(cell, width)[i]
            == ' ',
{
}

} // verus!
