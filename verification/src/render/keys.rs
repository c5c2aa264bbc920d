//! The key map, on a screen of its own.
//!
//! Any key goes back, so nothing here acts on one. A reader who opened the
//! card by accident wants out of it.
use vstd::prelude::*;
use vstd::string::*;

use crate::paint;
use crate::paint::{Charset, Framed, Line, Role};
use crate::render::cell;
use crate::render::cell::Cell;
use crate::render::rows;
use crate::text;
use crate::text::{decimal, spaces};

verus! {

broadcast use crate::paint::group_rows;

/// What every screen is headed.
pub const NAME: &'static str = "tetanus";

/// Rows a card spends on furniture: the heading, a blank under it, a blank
/// over the footer, and the footer.
pub const CHROME: usize = 4;

/// Columns between the keys and what they do.
pub const GAP: usize = 2;

/// One row of a key map: which keys, and what they do.
pub type Row = (&'static str, &'static str);

/// How many keys a card has rows for. Where it has not one for each, a row is
/// spent saying how many are missing.
pub open spec fn shown_of(keys: nat, height: nat) -> nat {
    let room = rows::left_of(height, CHROME as nat);
    if keys > room {
        rows::left_of(room, 1)
    } else {
        keys
    }
}

/// One key and what it does, with every description in one column.
pub open spec fn key_row(key: Seq<char>, does: Seq<char>, width: nat, column: nat) -> paint::Row {
    seq![
        rows::plain("  "@),
        (Role::Accent, key),
        rows::plain(text::blanks((column - width + GAP) as nat)),
        (Role::Muted, does),
    ]
}

/// The row that counts the keys a card has no room for.
pub open spec fn missing_row(charset: Charset, left: nat) -> paint::Row {
    seq![
        rows::plain("  "@),
        (
            Role::Muted,
            paint::glyph_of(charset, "…"@, "..."@) + " and "@ + text::dec(left)
                + " more, on a taller screen"@,
        ),
    ]
}

/// The rows of a card: the keys there is room for, and how many there is not.
pub open spec fn card_rows(
    charset: Charset,
    height: nat,
    keys: Seq<Row>,
    widths: Seq<nat>,
) -> Seq<paint::Row> {
    let shown = shown_of(keys.len(), height);
    let listed = Seq::new(
        shown,
        |i: int| key_row(keys[i].0@, keys[i].1@, widths[i], cell::widest_of(widths)),
    );
    if shown < keys.len() {
        listed.push(missing_row(charset, (keys.len() - shown) as nat))
    } else {
        listed
    }
}

/// The keys of one view, spelled out on a whole screen. `widths` are the
/// columns the keys are drawn in.
///
/// `what` names the view in the heading, so a reader can see which of two
/// views they are looking at. Rows past the bottom of a short terminal are
/// counted rather than dropped in silence.
pub fn card(
    charset: Charset,
    height: usize,
    what: &str,
    keys: &Vec<Row>,
    widths: &Vec<usize>,
) -> (f: Framed)
    requires
        widths@.len() == keys@.len(),
        cell::widest_of(cell::counted(widths@)) + GAP <= usize::MAX,
    ensures
        f.head.0@ == seq![(Role::Heading, NAME@)],
        f.head.1@ == seq![(Role::Muted, what@ + " keys"@)],
        paint::rows_of(f.rows@) == paint::filled(
            card_rows(charset, height as nat, keys@, cell::counted(widths@)),
            height as nat,
        ),
        f.foot.0@ == seq![(Role::Muted, "any key goes back"@)],
        f.foot.1@ == Seq::<(Role, Seq<char>)>::empty(),
{
    let room: usize = height.saturating_sub(CHROME);
    let column: usize = cell::widest(widths);
    let shown: usize = if keys.len() > room {
        room.saturating_sub(1)
    } else {
        keys.len()
    };
    let ghost all = card_rows(charset, height as nat, keys@, cell::counted(widths@));
    let mut body: Vec<Line> = Vec::new();
    let mut i: usize = 0;
    proof {
        assert(all.take(0) =~= Seq::<paint::Row>::empty());
    }
    while i < shown
        invariant
            i <= shown <= keys@.len(),
            widths@.len() == keys@.len(),
            shown == shown_of(keys@.len(), height as nat),
            column == cell::widest_of(cell::counted(widths@)),
            column + GAP <= usize::MAX,
            all == card_rows(charset, height as nat, keys@, cell::counted(widths@)),
            paint::rows_of(body@) == all.take(i as int),
        decreases shown - i,
    {
        proof {
            cell::lemma_none_is_wider(cell::counted(widths@), i as int);
        }
        let mut l = Line::of(Role::Plain, "  ");
        l.put(Role::Accent, keys[i].0);
        l.put(Role::Plain, spaces(column - widths[i] + GAP).as_str());
        l.put(Role::Muted, keys[i].1);
        proof {
            assert(l@ =~= all[i as int]);
            assert(all.take(i + 1) =~= all.take(i as int).push(all[i as int]));
        }
        body.push(l);
        i = i + 1;
    }
    let left: usize = keys.len() - shown;
    if left > 0 {
        let mut more = text::cat(charset.glyph("…", "..."), " and ");
        more.append(decimal(left as u64).as_str());
        more.append(" more, on a taller screen");
        let mut l = Line::of(Role::Plain, "  ");
        l.put(Role::Muted, more.as_str());
        proof {
            assert(l@ =~= all[shown as int]);
            assert(all.take(shown as int).push(all[shown as int]) =~= all);
        }
        body.push(l);
    } else {
        proof {
            assert(all.take(shown as int) =~= all);
        }
    }
    let named = text::cat(what, " keys");
    Framed {
        head: (Line::of(Role::Heading, NAME), Line::of(Role::Muted, named.as_str())),
        rows: paint::fill(body, height),
        foot: (Line::of(Role::Muted, "any key goes back"), Line::blank()),
    }
}

/// The longest of two wordings a width has room for.
pub fn hint<'a>(cols: usize, full: &'a Cell, short: &'a str) -> (s: &'a str)
    ensures
        s@ == if full.width <= cols {
            full.text@
        } else {
            short@
        },
{
    if full.width <= cols {
        full.text.as_str()
    } else {
        short
    }
}

/// Every key is either on the card or counted on it: the rows it lists and the
/// number it says are missing come to the whole map, and nothing is counted
/// that is listed.
pub proof fn lemma_every_key_is_accounted_for(
    charset: Charset,
    height: nat,
    keys: Seq<Row>,
    widths: Seq<nat>,
)
    requires
        widths.len() == keys.len(),
    ensures
        shown_of(keys.len(), height) <= keys.len(),
        ({
            let shown = shown_of(keys.len(), height);
            let card = card_rows(charset, height, keys, widths);
            &&& forall|i: int|
                0 <= i < shown ==> #[trigger] card[i] == key_row(
                    keys[i].0@,
                    keys[i].1@,
                    widths[i],
                    cell::widest_of(widths),
                )
            &&& shown < keys.len() ==> card.last() == missing_row(
                charset,
                (keys.len() - shown) as nat,
            )
        }),
{
}

/// A card is as tall as the screen it is drawn on, whenever that screen has
/// room for the furniture and a row.
pub proof fn lemma_a_card_fits_its_screen(
    charset: Charset,
    height: nat,
    keys: Seq<Row>,
    widths: Seq<nat>,
)
    requires
        height > CHROME,
    ensures
        paint::filled(card_rows(charset, height, keys, widths), height).len() + 2 == height,
{
}

/// A card shows every key where there is room, and otherwise as many as leave a
/// row to count the rest in.
pub proof fn lemma_a_card_shows_what_it_has_room_for(keys: nat, height: nat)
    ensures
        keys + 4 <= height ==> shown_of(keys, height) == keys,
        keys + 4 > height && height > 4 ==> shown_of(keys, height) + 1 + 4 == height,
        height <= 4 && keys > 0 ==> shown_of(keys, height) == 0,
{
}

/// A row of a card is its key and what the key does, in columns, and the row under
/// them counts those there was no room for.
pub proof fn lemma_a_key_stands_beside_what_it_does(
    charset: Charset,
    key: Seq<char>,
    does: Seq<char>,
    width: nat,
    column: nat,
    left: nat,
)
    requires
        width <= column,
    ensures
        key_row(key, does, width, column)[1] == (Role::Accent, key),
        key_row(key, does, width, column)[3] == (Role::Muted, does),
        width + key_row(key, does, width, column)[2].1.len() == column + 2,
        charset is Unicode ==> missing_row(charset, left)[1].1 == "…"@ + " and "@ + text::dec(left)
            + " more, on a taller screen"@,
        charset is Ascii ==> missing_row(charset, left)[1].1 == "..."@ + " and "@ + text::dec(left)
            + " more, on a taller screen"@,
{
}

/// Whatever hint is given is the full one where it fits, and the short one where it
/// does not.
pub proof fn lemma_a_hint_fits(cols: usize, full: &Cell, short: &str, given: &str)
    requires
        call_ensures(hint, (cols, full, short), given),
    ensures
        full.width <= cols ==> given@ == full.text@,
        full.width > cols ==> given@ == short@,
{
}

} // verus!
