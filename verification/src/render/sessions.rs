//! The journals this build has written, as a page to pick one from.
//!
//! The id is something to retype, so it is never cut: the title, which is only
//! ever read, takes whatever the terminal has left. Where that is too little
//! the page stacks, the id on a row of its own and the rest under it. The
//! picker does not stack: its rows are a cursor's rows, one session each.
//!
//! The newest is first, because the session a person wants is almost always
//! the one they just wrote.
use vstd::prelude::*;
use vstd::string::*;

use crate::json;
use crate::paint;
use crate::paint::{Line, Page, Role};
use crate::render::cell;
use crate::render::cell::Cell;
use crate::render::fault;
use crate::render::rows;
use crate::text;
use crate::text::spaces;

verus! {

broadcast use {crate::paint::group_rows, crate::text::group_views};

/// Space between two columns of a row.
pub const GAP: usize = 2;

/// The narrowest title worth a column of its own. Under this the page stacks.
pub const LEAST: usize = 12;

/// How far the second line of a stacked row is indented.
pub const STACK: usize = 6;

/// What a session is doing. A word this build does not know is kept, as the
/// terminal draws it.
#[derive(Clone, Debug)]
pub enum AgentState {
    Idle,
    Running,
    Other(Cell),
}

/// One session of the list.
#[derive(Clone, Debug)]
pub struct SessionInfo {
    pub session_id: String,
    /// The file its journal is.
    pub path: String,
    /// The id as the terminal draws it.
    pub named: Cell,
    /// Milliseconds since the epoch.
    pub created_time: u64,
    /// The number of its last event, and `-1` for an empty journal.
    pub last_seq: i64,
    /// Its first prompt, when it has had one.
    pub title: Option<String>,
    pub state: AgentState,
}

/// One session of the list, by what it says.
pub struct Held {
    pub id: Seq<char>,
    pub path: Seq<char>,
    pub named: cell::Drawn,
    pub created: u64,
    pub last_seq: int,
    pub title: Option<Seq<char>>,
    pub state: cell::Drawn,
    pub role: Role,
}

impl AgentState {
    /// What the session is doing, in one word.
    pub open spec fn word(self) -> cell::Drawn {
        match self {
            AgentState::Idle => cell::Drawn { text: "idle"@, width: 4 },
            AgentState::Running => cell::Drawn { text: "running"@, width: 7 },
            AgentState::Other(other) => other@,
        }
    }

    /// The part the word plays: a running session is the one a reader is
    /// looking for, and an unknown state is a warning.
    pub open spec fn part(self) -> Role {
        match self {
            AgentState::Idle => Role::Muted,
            AgentState::Running => Role::Accent,
            AgentState::Other(_) => Role::Warn,
        }
    }

    fn role(&self) -> (r: Role)
        ensures
            r == self.part(),
    {
        match self {
            AgentState::Idle => Role::Muted,
            AgentState::Running => Role::Accent,
            AgentState::Other(_) => Role::Warn,
        }
    }

    fn named(&self) -> (s: &str)
        ensures
            s@ == self.word().text,
    {
        match self {
            AgentState::Idle => "idle",
            AgentState::Running => "running",
            AgentState::Other(other) => other.text.as_str(),
        }
    }

    fn width(&self) -> (n: usize)
        ensures
            n == self.word().width,
    {
        match self {
            AgentState::Idle => 4,
            AgentState::Running => 7,
            AgentState::Other(other) => other.width,
        }
    }
}

impl View for SessionInfo {
    type V = Held;

    open spec fn view(&self) -> Held {
        Held {
            id: self.session_id@,
            path: self.path@,
            named: self.named@,
            created: self.created_time,
            last_seq: self.last_seq as int,
            title: json::held(self.title),
            state: self.state.word(),
            role: self.state.part(),
        }
    }
}

/// What a list of sessions says.
pub open spec fn held(sessions: Seq<&SessionInfo>) -> Seq<Held> {
    sessions.map_values(|s: &SessionInfo| s@)
}

/// What a list of sessions says.
pub open spec fn listed(sessions: Seq<SessionInfo>) -> Seq<Held> {
    sessions.map_values(|s: SessionInfo| s@)
}

// ---- the order ----

/// Whether one session is read before another: the newer first, and by id
/// where both were made in the same millisecond.
pub open spec fn precedes(a: Held, b: Held) -> bool {
    a.created > b.created || (a.created == b.created && text::before(a.id, b.id))
}

/// Where a session goes in a list: before the first it precedes.
pub open spec fn place(sessions: Seq<Held>, one: Held) -> nat
    decreases sessions.len(),
{
    if sessions.len() == 0 {
        0
    } else {
        let before = place(sessions.drop_last(), one);
        if before < sessions.len() - 1 {
            before
        } else if precedes(one, sessions.last()) {
            (sessions.len() - 1) as nat
        } else {
            sessions.len()
        }
    }
}

/// The sessions in the order a person reads them: each put where it goes among
/// those before it, so two that nothing tells apart keep their order.
pub open spec fn ordered_of(sessions: Seq<Held>) -> Seq<Held>
    decreases sessions.len(),
{
    if sessions.len() == 0 {
        Seq::empty()
    } else {
        let before = ordered_of(sessions.drop_last());
        before.insert(place(before, sessions.last()) as int, sessions.last())
    }
}

proof fn lemma_place(sessions: Seq<Held>, one: Held, n: int)
    requires
        0 <= n <= sessions.len(),
        forall|i: int| 0 <= i < n ==> !precedes(one, #[trigger] sessions[i]),
        n < sessions.len() ==> precedes(one, sessions[n]),
    ensures
        place(sessions, one) == n,
    decreases sessions.len(),
{
    if sessions.len() > 0 {
        let rest = sessions.drop_last();
        if n < sessions.len() {
            lemma_place(rest, one, if n < rest.len() {
                n
            } else {
                rest.len() as int
            });
        } else {
            lemma_place(rest, one, rest.len() as int);
        }
    }
}

fn goes_before(a: &SessionInfo, b: &SessionInfo) -> (r: bool)
    ensures
        r == precedes(a@, b@),
{
    a.created_time > b.created_time || (a.created_time == b.created_time && text::comes_before(
        a.session_id.as_str(),
        b.session_id.as_str(),
    ))
}

/// The sessions in the order a person reads them, newest first.
///
/// Apart from the rows, because which session a row stands for is what a
/// picker opens.
pub fn ordered<'a>(sessions: &'a Vec<SessionInfo>) -> (r: Vec<&'a SessionInfo>)
    ensures
        held(r@) == ordered_of(listed(sessions@)),
{
    let ghost all = listed(sessions@);
    let mut r: Vec<&'a SessionInfo> = Vec::new();
    let mut i: usize = 0;
    proof {
        assert(held(r@) =~= Seq::<Held>::empty());
        assert(all.take(0) =~= Seq::<Held>::empty());
    }
    while i < sessions.len()
        invariant
            i <= sessions.len(),
            all == listed(sessions@),
            held(r@) == ordered_of(all.take(i as int)),
        decreases sessions.len() - i,
    {
        let ghost before = held(r@);
        let one = &sessions[i];
        let mut at: usize = 0;
        while at < r.len() && !goes_before(one, r[at])
            invariant
                at <= r.len(),
                before == held(r@),
                forall|j: int| 0 <= j < at ==> !precedes(one@, #[trigger] before[j]),
            decreases r.len() - at,
        {
            proof {
                assert(before[at as int] == r@[at as int]@);
            }
            at = at + 1;
        }
        proof {
            assert(at < r@.len() ==> before[at as int] == r@[at as int]@);
            lemma_place(before, one@, at as int);
        }
        let ghost kept = r@;
        r.insert(at, one);
        proof {
            assert(held(r@) =~= before.insert(at as int, one@));
            assert(all.take(i + 1).drop_last() =~= all.take(i as int));
            assert(all.take(i + 1).last() == one@);
        }
        i = i + 1;
    }
    proof {
        assert(all.take(i as int) =~= all);
    }
    r
}

/// Whether no session is read before one that it comes after.
pub open spec fn in_order(sessions: Seq<Held>) -> bool {
    forall|i: int, j: int|
        0 <= i < j < sessions.len() ==> !precedes(#[trigger] sessions[j], #[trigger] sessions[i])
}

proof fn lemma_precedes_carries(a: Held, b: Held, c: Held)
    requires
        precedes(a, b),
        !precedes(c, b),
    ensures
        precedes(a, c),
{
    if a.created == b.created && b.created == c.created {
        text::lemma_before_settles(c.id, b.id);
        if c.id != b.id {
            text::lemma_before_carries(a.id, b.id, c.id);
        }
    }
}

proof fn lemma_never_both(a: Held, b: Held)
    requires
        precedes(a, b),
    ensures
        !precedes(b, a),
{
    text::lemma_before_settles(a.id, b.id);
}

proof fn lemma_place_splits(sessions: Seq<Held>, one: Held)
    requires
        in_order(sessions),
    ensures
        0 <= place(sessions, one) <= sessions.len(),
        forall|i: int|
            0 <= i < place(sessions, one) ==> !precedes(one, #[trigger] sessions[i]),
        forall|i: int|
            place(sessions, one) <= i < sessions.len() ==> precedes(one, #[trigger] sessions[i]),
    decreases sessions.len(),
{
    if sessions.len() > 0 {
        let rest = sessions.drop_last();
        assert forall|i: int, j: int| 0 <= i < j < rest.len() implies !precedes(
            #[trigger] rest[j],
            #[trigger] rest[i],
        ) by {
            assert(rest[i] == sessions[i] && rest[j] == sessions[j]);
        }
        lemma_place_splits(rest, one);
        let n = place(rest, one);
        assert forall|i: int| 0 <= i < rest.len() implies rest[i] == sessions[i] by {}
        if n < rest.len() {
            lemma_precedes_carries(one, sessions[n as int], sessions.last());
        }
    }
}

/// The list is sorted: newest first, and by id where two were made in the same
/// millisecond. It holds the sessions it was given, each as often as it was.
pub proof fn lemma_ordered_sorts(sessions: Seq<Held>)
    ensures
        in_order(ordered_of(sessions)),
        ordered_of(sessions).len() == sessions.len(),
        ordered_of(sessions).to_multiset() == sessions.to_multiset(),
    decreases sessions.len(),
{
    if sessions.len() > 0 {
        let rest = sessions.drop_last();
        let one = sessions.last();
        lemma_ordered_sorts(rest);
        let before = ordered_of(rest);
        lemma_place_splits(before, one);
        let n = place(before, one) as int;
        let after = before.insert(n, one);
        assert forall|i: int, j: int| 0 <= i < j < after.len() implies !precedes(
            #[trigger] after[j],
            #[trigger] after[i],
        ) by {
            let a = if i < n {
                i
            } else {
                i - 1
            };
            let b = if j < n {
                j
            } else {
                j - 1
            };
            if i == n {
                assert(after[j] == before[b]);
                lemma_never_both(one, before[b]);
            } else if j == n {
                assert(after[i] == before[a]);
            } else {
                assert(after[i] == before[a] && after[j] == before[b]);
            }
        }
        broadcast use vstd::seq_lib::group_to_multiset_ensures;

        assert(after.to_multiset() =~= before.to_multiset().insert(one)) by {
            assert(after =~= before.take(n) + seq![one] + before.skip(n));
            assert(before =~= before.take(n) + before.skip(n));
            vstd::seq_lib::lemma_multiset_commutative(before.take(n), seq![one]);
            vstd::seq_lib::lemma_multiset_commutative(
                before.take(n) + seq![one],
                before.skip(n),
            );
            vstd::seq_lib::lemma_multiset_commutative(before.take(n), before.skip(n));
            assert(seq![one] =~= Seq::<Held>::empty().push(one));
        }
        assert(sessions =~= rest.push(one));
    } else {
        assert(sessions =~= Seq::<Held>::empty());
    }
}

// ---- the cells ----

/// How many events a journal holds. One that was never prompted holds none.
pub open spec fn count_of(session: Held) -> int {
    session.last_seq + 1
}

/// The characters of a count.
pub open spec fn count_text(session: Held) -> Seq<char> {
    fault::signed_dec(count_of(session))
}

/// The size cell: the number right-aligned, and the word beside it.
pub open spec fn measure_of(session: Held, digits: nat) -> Seq<char> {
    cell::pad_of(count_text(session).len(), digits) + count_text(session) + " "@ + (if count_of(
        session,
    ) == 1 {
        "event"@
    } else {
        "events"@
    })
}

/// The digits of the largest count.
pub open spec fn digits_of(sessions: Seq<Held>) -> nat {
    cell::widest_of(sessions.map_values(|s: Held| count_text(s).len()))
}

/// The columns the ids take.
pub open spec fn ids_of(sessions: Seq<Held>) -> nat {
    cell::widest_of(sessions.map_values(|s: Held| s.named.width))
}

/// The columns the sizes take.
pub open spec fn sizes_of(sessions: Seq<Held>) -> nat {
    cell::widest_of(sessions.map_values(|s: Held| measure_of(s, digits_of(sessions)).len()))
}

/// The columns the states take.
pub open spec fn states_of(sessions: Seq<Held>) -> nat {
    cell::widest_of(sessions.map_values(|s: Held| s.state.width))
}

/// The columns a title would have beside the fixed ones.
pub open spec fn beside_of(cols: nat, sessions: Seq<Held>) -> nat {
    rows::left_of(
        cols,
        ids_of(sessions) + sizes_of(sessions) + states_of(sessions) + 3 * GAP as nat,
    )
}

/// No fewer columns than one.
pub open spec fn at_least_one(n: nat) -> nat {
    if n < 1 {
        1
    } else {
        n
    }
}

/// The columns a title is cut to, in a row of its own.
pub open spec fn row_room(cols: nat, sessions: Seq<Held>) -> nat {
    at_least_one(beside_of(cols, sessions))
}

/// Whether a window is too narrow for the table.
pub open spec fn stacks(cols: nat, sessions: Seq<Held>) -> bool {
    beside_of(cols, sessions) < LEAST
}

/// The columns a title is cut to, on the page.
pub open spec fn page_room(cols: nat, sessions: Seq<Held>) -> nat {
    if stacks(cols, sessions) {
        at_least_one(rows::left_of(cols, STACK as nat))
    } else {
        row_room(cols, sessions)
    }
}

fn count(session: &SessionInfo) -> (s: String)
    requires
        session.last_seq < i64::MAX,
    ensures
        s@ == count_text(session@),
{
    fault::signed(session.last_seq + 1)
}

fn measure(session: &SessionInfo, digits: usize) -> (s: String)
    requires
        session.last_seq < i64::MAX,
    ensures
        s@ == measure_of(session@, digits as nat),
{
    let held = count(session);
    let mut s = cell::pad(held.as_str().unicode_len(), digits);
    s.append(held.as_str());
    s.append(" ");
    if session.last_seq + 1 == 1 {
        s.append("event");
    } else {
        s.append("events");
    }
    s
}

/// Whether every session's count can be held.
pub open spec fn countable(sessions: Seq<&SessionInfo>) -> bool {
    forall|i: int| 0 <= i < sessions.len() ==> (#[trigger] sessions[i]).last_seq < i64::MAX
}

/// The columns of a table of sessions.
struct Columns {
    digits: usize,
    ids: usize,
    sizes: usize,
    states: usize,
}

fn columns(sessions: &Vec<&SessionInfo>) -> (c: Columns)
    requires
        countable(sessions@),
    ensures
        c.digits == digits_of(held(sessions@)),
        c.ids == ids_of(held(sessions@)),
        c.sizes == sizes_of(held(sessions@)),
        c.states == states_of(held(sessions@)),
{
    let ghost all = held(sessions@);
    let ghost numbers = all.map_values(|s: Held| count_text(s).len());
    let ghost names = all.map_values(|s: Held| s.named.width);
    let ghost words = all.map_values(|s: Held| s.state.width);
    let mut counts: Vec<usize> = Vec::new();
    let mut ids: Vec<usize> = Vec::new();
    let mut states: Vec<usize> = Vec::new();
    let mut i: usize = 0;
    while i < sessions.len()
        invariant
            i <= sessions.len(),
            countable(sessions@),
            all == held(sessions@),
            numbers == all.map_values(|s: Held| count_text(s).len()),
            names == all.map_values(|s: Held| s.named.width),
            words == all.map_values(|s: Held| s.state.width),
            cell::counted(counts@) =~= numbers.take(i as int),
            cell::counted(ids@) =~= names.take(i as int),
            cell::counted(states@) =~= words.take(i as int),
        decreases sessions.len() - i,
    {
        let ghost b = (counts@, ids@, states@);
        let held = count(sessions[i]);
        counts.push(held.as_str().unicode_len());
        ids.push(sessions[i].named.width);
        states.push(sessions[i].state.width());
        proof {
            assert(all[i as int] == sessions@[i as int]@);
            assert(cell::counted(counts@) =~= cell::counted(b.0).push(numbers[i as int]));
            assert(cell::counted(ids@) =~= cell::counted(b.1).push(names[i as int]));
            assert(cell::counted(states@) =~= cell::counted(b.2).push(words[i as int]));
        }
        i = i + 1;
    }
    proof {
        assert(numbers.take(i as int) =~= numbers);
        assert(names.take(i as int) =~= names);
        assert(words.take(i as int) =~= words);
    }
    let digits: usize = cell::widest(&counts);
    let ghost measures = all.map_values(|s: Held| measure_of(s, digits as nat).len());
    let mut sizes: Vec<usize> = Vec::new();
    let mut i: usize = 0;
    while i < sessions.len()
        invariant
            i <= sessions.len(),
            countable(sessions@),
            all == held(sessions@),
            measures == all.map_values(|s: Held| measure_of(s, digits as nat).len()),
            cell::counted(sizes@) =~= measures.take(i as int),
        decreases sessions.len() - i,
    {
        let ghost b = sizes@;
        let taken = measure(sessions[i], digits);
        sizes.push(taken.as_str().unicode_len());
        proof {
            assert(all[i as int] == sessions@[i as int]@);
            assert(cell::counted(sizes@) =~= cell::counted(b).push(measures[i as int]));
        }
        i = i + 1;
    }
    proof {
        assert(measures.take(i as int) =~= measures);
        assert(measures =~= all.map_values(|s: Held| measure_of(s, digits_of(all)).len()));
    }
    Columns {
        digits,
        ids: cell::widest(&ids),
        sizes: cell::widest(&sizes),
        states: cell::widest(&states),
    }
}

fn left_beside(cols: usize, c: &Columns) -> (n: usize)
    ensures
        n == rows::left_of(
            cols as nat,
            (c.ids + c.sizes + c.states + 3 * GAP) as nat,
        ),
{
    cols.saturating_sub(c.ids).saturating_sub(c.sizes).saturating_sub(c.states).saturating_sub(
        3 * GAP,
    )
}

/// The columns a title is cut to, in a row of its own.
pub fn room_in_row(cols: usize, sessions: &Vec<&SessionInfo>) -> (n: usize)
    requires
        countable(sessions@),
    ensures
        n == row_room(cols as nat, held(sessions@)),
{
    let left: usize = left_beside(cols, &columns(sessions));
    if left < 1 {
        1
    } else {
        left
    }
}

/// The columns a title is cut to, on the page.
pub fn room_on_page(cols: usize, sessions: &Vec<&SessionInfo>) -> (n: usize)
    requires
        countable(sessions@),
    ensures
        n == page_room(cols as nat, held(sessions@)),
{
    let left: usize = left_beside(cols, &columns(sessions));
    let left: usize = if left < LEAST {
        cols.saturating_sub(STACK)
    } else {
        left
    };
    if left < 1 {
        1
    } else {
        left
    }
}

/// What a session is about, before it is cut: its first prompt, or that it has
/// had none.
pub open spec fn title_of(session: Held) -> Seq<char> {
    match session.title {
        Some(title) => title,
        None => "no prompt yet"@,
    }
}

/// What a session is about, before it is cut.
pub fn title<'a>(session: &'a SessionInfo) -> (s: &'a str)
    ensures
        s@ == title_of(session@),
{
    match &session.title {
        Some(title) => title.as_str(),
        None => "no prompt yet",
    }
}

/// The title cell, as the terminal cut it.
pub open spec fn title_span(session: Held, cut: Seq<char>) -> (Role, Seq<char>) {
    if session.title is Some {
        rows::plain(cut)
    } else {
        (Role::Muted, cut)
    }
}

// ---- the rows ----

/// One session as a row of the table.
pub open spec fn row_of(session: Held, sessions: Seq<Held>, cut: Seq<char>) -> paint::Row {
    let taken = measure_of(session, digits_of(sessions));
    let gap = text::blanks(GAP as nat);
    seq![
        (Role::Accent, session.named.text),
        rows::plain(cell::pad_of(session.named.width, ids_of(sessions)) + gap),
        (Role::Muted, taken),
        rows::plain(cell::pad_of(taken.len(), sizes_of(sessions)) + gap),
        (session.role, session.state.text),
        rows::plain(cell::pad_of(session.state.width, states_of(sessions)) + gap),
        title_span(session, cut),
    ]
}

/// One row per session.
pub open spec fn table(sessions: Seq<Held>, titles: Seq<Seq<char>>) -> Seq<paint::Row> {
    Seq::new(sessions.len(), |i: int| row_of(sessions[i], sessions, titles[i]))
}

/// The row under a session's id, where the page stacks.
pub open spec fn under_row(session: Held, sessions: Seq<Held>, cut: Seq<char>) -> paint::Row {
    let gap = text::blanks(GAP as nat);
    seq![
        rows::plain(text::blanks(STACK as nat)),
        (Role::Muted, measure_of(session, digits_of(sessions))),
        rows::plain(gap),
        (session.role, session.state.text),
        rows::plain(gap),
        title_span(session, cut),
    ]
}

/// Two rows per session: the id whole, and everything else under it.
pub open spec fn stack(sessions: Seq<Held>, titles: Seq<Seq<char>>) -> Seq<paint::Row> {
    Seq::new(
        2 * sessions.len(),
        |i: int|
            if i % 2 == 0 {
                seq![(Role::Accent, sessions[i / 2].named.text)]
            } else {
                under_row(sessions[i / 2], sessions, titles[i / 2])
            },
    )
}

/// The list as a page prints it.
pub open spec fn page_rows(cols: nat, sessions: Seq<Held>, titles: Seq<Seq<char>>) -> Seq<
    paint::Row,
> {
    if stacks(cols, sessions) {
        stack(sessions, titles)
    } else {
        table(sessions, titles)
    }
}

fn put_title(l: &mut Line, session: &SessionInfo, cut: &str)
    ensures
        final(l)@ == old(l)@.push(title_span(session@, cut@)),
{
    match &session.title {
        Some(_) => l.put(Role::Plain, cut),
        None => l.put(Role::Muted, cut),
    }
}

/// One row per session: the id to retype, its size, its state, and what it was
/// about. `titles` are the titles as the terminal cut them to
/// [`room_in_row`].
pub fn rows(sessions: &Vec<&SessionInfo>, titles: &Vec<String>) -> (r: Vec<Line>)
    requires
        countable(sessions@),
        titles@.len() == sessions@.len(),
    ensures
        paint::rows_of(r@) == table(held(sessions@), text::views(titles@)),
{
    let ghost all = table(held(sessions@), text::views(titles@));
    let c = columns(sessions);
    let gap = spaces(GAP);
    let mut r: Vec<Line> = Vec::new();
    let mut i: usize = 0;
    proof {
        assert(all.take(0) =~= Seq::<paint::Row>::empty());
    }
    while i < sessions.len()
        invariant
            i <= sessions.len(),
            countable(sessions@),
            titles@.len() == sessions@.len(),
            all == table(held(sessions@), text::views(titles@)),
            c.digits == digits_of(held(sessions@)),
            c.ids == ids_of(held(sessions@)),
            c.sizes == sizes_of(held(sessions@)),
            c.states == states_of(held(sessions@)),
            gap@ == text::blanks(GAP as nat),
            paint::rows_of(r@) == all.take(i as int),
        decreases sessions.len() - i,
    {
        let session = sessions[i];
        let taken = measure(session, c.digits);
        let mut l = Line::of(Role::Accent, session.named.text.as_str());
        let mut pad = cell::pad(session.named.width, c.ids);
        pad.append(gap.as_str());
        l.put(Role::Plain, pad.as_str());
        l.put(Role::Muted, taken.as_str());
        let mut pad = cell::pad(taken.as_str().unicode_len(), c.sizes);
        pad.append(gap.as_str());
        l.put(Role::Plain, pad.as_str());
        l.put(session.state.role(), session.state.named());
        let mut pad = cell::pad(session.state.width(), c.states);
        pad.append(gap.as_str());
        l.put(Role::Plain, pad.as_str());
        put_title(&mut l, session, titles[i].as_str());
        proof {
            assert(held(sessions@)[i as int] == session@);
            assert(l@ =~= all[i as int]);
            assert(all.take(i + 1) =~= all.take(i as int).push(all[i as int]));
        }
        r.push(l);
        i = i + 1;
    }
    proof {
        assert(all.take(i as int) =~= all);
    }
    r
}

fn stacked(sessions: &Vec<&SessionInfo>, titles: &Vec<String>) -> (r: Vec<Line>)
    requires
        countable(sessions@),
        titles@.len() == sessions@.len(),
    ensures
        paint::rows_of(r@) == stack(held(sessions@), text::views(titles@)),
{
    let ghost all = stack(held(sessions@), text::views(titles@));
    let c = columns(sessions);
    let gap = spaces(GAP);
    let mut r: Vec<Line> = Vec::new();
    let mut i: usize = 0;
    proof {
        assert(all.take(0) =~= Seq::<paint::Row>::empty());
    }
    while i < sessions.len()
        invariant
            i <= sessions.len(),
            countable(sessions@),
            titles@.len() == sessions@.len(),
            all == stack(held(sessions@), text::views(titles@)),
            c.digits == digits_of(held(sessions@)),
            gap@ == text::blanks(GAP as nat),
            paint::rows_of(r@) == all.take(2 * i),
        decreases sessions.len() - i,
    {
        let session = sessions[i];
        let head = Line::of(Role::Accent, session.named.text.as_str());
        let mut l = Line::of(Role::Plain, spaces(STACK).as_str());
        l.put(Role::Muted, measure(session, c.digits).as_str());
        l.put(Role::Plain, gap.as_str());
        l.put(session.state.role(), session.state.named());
        l.put(Role::Plain, gap.as_str());
        put_title(&mut l, session, titles[i].as_str());
        proof {
            assert(held(sessions@)[i as int] == session@);
            assert((2 * i) / 2 == i && (2 * i) % 2 == 0);
            assert((2 * i + 1) / 2 == i && (2 * i + 1) % 2 == 1);
            assert(head@ =~= all[2 * i]);
            assert(l@ =~= all[2 * i + 1]);
            assert(all.take(2 * i + 2) =~= all.take(2 * i).push(all[2 * i]).push(all[2 * i + 1]));
        }
        r.push(head);
        r.push(l);
        i = i + 1;
    }
    proof {
        assert(all.take(2 * i) =~= all);
    }
    r
}

/// The list as a page prints it: the table where the window holds it, and the
/// stacked form where it does not. `titles` are the titles as the terminal cut
/// them to [`room_on_page`].
pub fn page(cols: usize, sessions: &Vec<&SessionInfo>, titles: &Vec<String>) -> (r: Vec<Line>)
    requires
        countable(sessions@),
        titles@.len() == sessions@.len(),
    ensures
        paint::rows_of(r@) == page_rows(cols as nat, held(sessions@), text::views(titles@)),
{
    if left_beside(cols, &columns(sessions)) < LEAST {
        stacked(sessions, titles)
    } else {
        rows(sessions, titles)
    }
}

/// The list under a heading that names the root it was read from.
pub fn render(cols: usize, root: &str, sessions: &Vec<&SessionInfo>, titles: &Vec<String>) -> (p:
    Page)
    requires
        countable(sessions@),
        titles@.len() == sessions@.len(),
    ensures
        p.heading@ == "sessions"@,
        p.at matches Some(at) && at@ == root@,
        paint::rows_of(p.rows@) == if sessions@.len() == 0 {
            seq![seq![(Role::Muted, "no sessions yet - tetanus run writes one"@)]]
        } else {
            page_rows(cols as nat, held(sessions@), text::views(titles@))
        },
{
    let rows = if sessions.len() == 0 {
        paint::only(Line::of(Role::Muted, "no sessions yet - tetanus run writes one"))
    } else {
        page(cols, sessions, titles)
    };
    Page { heading: "sessions".to_owned(), at: Some(root.to_owned()), rows }
}

// ---- laws ----

/// A row of the table stands for one session, whatever the width: the row
/// under a cursor is the session under it.
pub proof fn lemma_one_row_per_session(sessions: Seq<Held>, titles: Seq<Seq<char>>)
    requires
        titles.len() == sessions.len(),
    ensures
        table(sessions, titles).len() == sessions.len(),
        forall|i: int|
            0 <= i < sessions.len() ==> (#[trigger] table(sessions, titles)[i])[0] == (
                Role::Accent,
                sessions[i].named.text,
            ),
{
}

/// The id is whole on every form of the page: in the table it starts the
/// session's row, and stacked it has a row to itself.
pub proof fn lemma_the_id_is_never_cut(
    cols: nat,
    sessions: Seq<Held>,
    titles: Seq<Seq<char>>,
    i: int,
)
    requires
        titles.len() == sessions.len(),
        0 <= i < sessions.len(),
    ensures
        exists|at: int|
            0 <= at < page_rows(cols, sessions, titles).len() && (#[trigger] page_rows(
                cols,
                sessions,
                titles,
            )[at])[0] == (Role::Accent, sessions[i].named.text),
{
    if stacks(cols, sessions) {
        assert((2 * i) / 2 == i && (2 * i) % 2 == 0);
        assert(page_rows(cols, sessions, titles)[2 * i][0] == (
            Role::Accent,
            sessions[i].named.text,
        ));
    } else {
        assert(page_rows(cols, sessions, titles)[i][0] == (Role::Accent, sessions[i].named.text));
    }
}

/// A table row ends where the terminal does: the fixed columns, their gaps and
/// a title cut to the room it has come to the width.
pub proof fn lemma_a_row_fits(cols: nat, sessions: Seq<Held>)
    requires
        !stacks(cols, sessions),
    ensures
        ids_of(sessions) + sizes_of(sessions) + states_of(sessions) + 3 * GAP + page_room(
            cols,
            sessions,
        ) == cols,
{
}

/// The newest session comes first, and of those of one moment the one whose id
/// comes first.
pub proof fn lemma_the_newest_comes_first(sessions: Seq<Held>, i: int, j: int)
    requires
        0 <= i < j < sessions.len(),
    ensures
        ordered_of(sessions).len() == sessions.len(),
        ordered_of(sessions)[i].created >= ordered_of(sessions)[j].created,
        ordered_of(sessions)[i].created == ordered_of(sessions)[j].created ==> !text::before(
            ordered_of(sessions)[j].id,
            ordered_of(sessions)[i].id,
        ),
{
    lemma_ordered_sorts(sessions);
    assert(!precedes(ordered_of(sessions)[j], ordered_of(sessions)[i]));
}

/// A session is measured by its events: one more than the number of its last, one
/// as one, right in its column.
pub proof fn lemma_a_session_is_measured_by_its_events(session: Held, digits: nat)
    ensures
        count_of(session) == session.last_seq + 1,
        session.last_seq == 0 ==> measure_of(session, digits) == cell::pad_of(1, digits)
            + text::dec(1) + " "@ + "event"@,
        session.last_seq > 0 ==> measure_of(session, digits) == cell::pad_of(
            text::dec((session.last_seq + 1) as nat).len(),
            digits,
        ) + text::dec((session.last_seq + 1) as nat) + " "@ + "events"@,
        session.last_seq == -1 ==> measure_of(session, digits) == cell::pad_of(1, digits)
            + text::dec(0) + " "@ + "events"@,
{
}

/// A session is titled with its first prompt, and one that has had none says so,
/// and is muted.
pub proof fn lemma_a_session_is_titled_with_its_prompt(
    session: Held,
    title: Seq<char>,
    cut: Seq<char>,
)
    ensures
        session.title == Some(title) ==> title_of(session) == title && title_span(session, cut)
            == rows::plain(cut),
        session.title is None ==> title_of(session) == "no prompt yet"@ && title_span(session, cut)
            == (Role::Muted, cut),
{
}

/// What a session is doing is told in a word and a colour of its own.
pub proof fn lemma_each_state_has_its_word(other: Cell)
    ensures
        AgentState::Idle.word().text == "idle"@ && AgentState::Idle.part() == Role::Muted,
        AgentState::Running.word().text == "running"@ && AgentState::Running.part()
            == Role::Accent,
        AgentState::Other(other).word().text == other.text@ && AgentState::Other(other).part()
            == Role::Warn,
        AgentState::Idle.word().width == AgentState::Idle.word().text.len(),
        AgentState::Running.word().width == AgentState::Running.word().text.len(),
{
    reveal_strlit("idle");
    reveal_strlit("running");
}

/// A row of the list is the session's own: its id, its events, its state and its
/// title, each behind the other, and each column as wide as its widest.
pub proof fn lemma_a_row_is_the_sessions_own(
    sessions: Seq<Held>,
    titles: Seq<Seq<char>>,
    i: int,
)
    requires
        titles.len() == sessions.len(),
        0 <= i < sessions.len(),
    ensures
        ({
            let row = table(sessions, titles)[i];
            let session = sessions[i];
            &&& row.len() == 7
            &&& row[0] == (Role::Accent, session.named.text)
            &&& row[2] == (Role::Muted, measure_of(session, digits_of(sessions)))
            &&& row[4] == (session.role, session.state.text)
            &&& row[6] == title_span(session, titles[i])
            &&& session.named.width + row[1].1.len() == ids_of(sessions) + 2
            &&& session.state.width + row[5].1.len() == states_of(sessions) + 2
        }),
{
    let ids = sessions.map_values(|s: Held| s.named.width);
    let states = sessions.map_values(|s: Held| s.state.width);
    assert(ids[i] == sessions[i].named.width);
    assert(states[i] == sessions[i].state.width);
    cell::lemma_none_is_wider(ids, i);
    cell::lemma_none_is_wider(states, i);
}

/// A list is stacked where its titles would have fewer than twelve columns: then
/// each session has two rows, its id and under it the rest. Otherwise it has one.
pub proof fn lemma_a_narrow_list_is_stacked(
    cols: nat,
    sessions: Seq<Held>,
    titles: Seq<Seq<char>>,
    i: int,
)
    requires
        titles.len() == sessions.len(),
        0 <= i < sessions.len(),
    ensures
        ({
            let taken = ids_of(sessions) + sizes_of(sessions) + states_of(sessions) + 6;
            let page = page_rows(cols, sessions, titles);
            &&& cols >= taken + 12 ==> page == table(sessions, titles) && page.len()
                == sessions.len()
            &&& cols < taken + 12 ==> {
                &&& page.len() == 2 * sessions.len()
                &&& page[2 * i] == seq![(Role::Accent, sessions[i].named.text)]
                &&& page[2 * i + 1][1] == (
                    Role::Muted,
                    measure_of(sessions[i], digits_of(sessions)),
                )
                &&& page[2 * i + 1][3] == (sessions[i].role, sessions[i].state.text)
                &&& page[2 * i + 1][5] == title_span(sessions[i], titles[i])
            }
        }),
{
}

/// Whatever list is drawn names the root it is of, and where there is no session
/// says how one comes about.
pub proof fn lemma_a_list_names_its_root(
    cols: usize,
    root: &str,
    sessions: &Vec<&SessionInfo>,
    titles: &Vec<String>,
    page: Page,
)
    requires
        call_ensures(render, (cols, root, sessions, titles), page),
    ensures
        page.heading@ == "sessions"@,
        page.at matches Some(at) && at@ == root@,
        sessions@.len() == 0 ==> paint::rows_of(page.rows@) == seq![
            seq![(Role::Muted, "no sessions yet - tetanus run writes one"@)],
        ],
        sessions@.len() > 0 ==> paint::rows_of(page.rows@) == page_rows(
            cols as nat,
            held(sessions@),
            text::views(titles@),
        ),
{
}

/// Whatever order sessions are put in, every one of them is there, and the newest
/// comes first.
pub proof fn lemma_what_is_ordered_is_all_there(
    sessions: &Vec<SessionInfo>,
    put: Vec<&SessionInfo>,
    i: int,
    j: int,
)
    requires
        call_ensures(ordered, (sessions,), put),
        0 <= i < j < put@.len(),
    ensures
        put@.len() == sessions@.len(),
        held(put@).to_multiset() == listed(sessions@).to_multiset(),
        put@[i].created_time >= put@[j].created_time,
{
    let all = listed(sessions@);
    lemma_ordered_sorts(all);
    assert(held(put@).len() == put@.len());
    lemma_the_newest_comes_first(all, i, j);
    assert(held(put@)[i] == put@[i]@ && held(put@)[j] == put@[j]@);
}

} // verus!
