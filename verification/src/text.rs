//! Text, as sequences of characters: numbers written out, blanks trimmed,
//! lines and words told apart, and pieces joined.
use vstd::prelude::*;
use vstd::string::*;

verus! {

/// `String::push` of the standard library: one character, at the end.
pub assume_specification[ String::push ](s: &mut String, c: char)
    ensures
        final(s)@ == old(s)@.push(c),
;

/// One decimal digit, as a character.
pub open spec fn digit(d: nat) -> char {
    ((('0' as u32) as nat + d) as u32) as char
}

/// A number in decimal, with no leading zero.
pub open spec fn dec(n: nat) -> Seq<char>
    decreases n,
{
    if n < 10 {
        seq![digit(n)]
    } else {
        dec(n / 10).push(digit(n % 10))
    }
}

fn digit_char(d: u64) -> (c: char)
    requires
        d < 10,
    ensures
        c == digit(d as nat),
{
    match d {
        0 => '0',
        1 => '1',
        2 => '2',
        3 => '3',
        4 => '4',
        5 => '5',
        6 => '6',
        7 => '7',
        8 => '8',
        _ => '9',
    }
}

/// A number, written out in decimal.
pub fn decimal(n: u64) -> (s: String)
    ensures
        s@ == dec(n as nat),
    decreases n,
{
    if n < 10 {
        let mut s = String::new();
        s.push(digit_char(n));
        proof {
            assert(s@ =~= seq![digit(n as nat)]);
        }
        s
    } else {
        let mut s = decimal(n / 10);
        s.push(digit_char(n % 10));
        s
    }
}

/// Two numbers written the same are the same number.
pub proof fn lemma_dec_injective(m: nat, n: nat)
    ensures
        dec(m) == dec(n) ==> m == n,
    decreases m,
{
    lemma_dec_len(m);
    lemma_dec_len(n);
    if dec(m) == dec(n) {
        if m < 10 || n < 10 {
            if m >= 10 {
                lemma_dec_len(m / 10);
                assert(dec(m).len() >= 2);
            }
            if n >= 10 {
                lemma_dec_len(n / 10);
                assert(dec(n).len() >= 2);
            }
            assert(dec(m)[0] == digit(m) && dec(n)[0] == digit(n));
        } else {
            assert(dec(m).drop_last() =~= dec(m / 10));
            assert(dec(n).drop_last() =~= dec(n / 10));
            lemma_dec_injective(m / 10, n / 10);
            assert(dec(m).last() == digit(m % 10));
            assert(dec(n).last() == digit(n % 10));
        }
    }
}

proof fn lemma_dec_len(n: nat)
    ensures
        dec(n).len() >= 1,
        n >= 10 ==> dec(n).len() >= 2,
    decreases n,
{
    if n >= 10 {
        lemma_dec_len(n / 10);
    }
}

/// The characters of a text.
pub fn chars(text: &str) -> (v: Vec<char>)
    ensures
        v@ == text@,
{
    let mut v: Vec<char> = Vec::new();
    for c in it: text.chars()
        invariant
            it.seq() == text@,
            v@ == text@.take(it.index() as int),
    {
        v.push(c);
        proof {
            assert(v@ =~= text@.take(it.index() + 1));
        }
    }
    proof {
        assert(text@.take(text@.len() as int) =~= text@);
    }
    v
}

/// Part of a text, from one character to another.
pub fn slice(text: &str, from: usize, to: usize) -> (s: String)
    requires
        from <= to <= text@.len(),
    ensures
        s@ == text@.subrange(from as int, to as int),
{
    text.substring_char(from, to).to_owned()
}

/// Two texts one after the other.
pub fn cat(a: &str, b: &str) -> (s: String)
    ensures
        s@ == a@ + b@,
{
    let mut s = a.to_owned();
    s.append(b);
    s
}

/// Whether two texts hold the same characters.
pub fn same(a: &str, b: &str) -> (r: bool)
    ensures
        r == (a@ == b@),
{
    a.to_owned() == b.to_owned()
}

/// A run of `n` blanks.
pub open spec fn blanks(n: nat) -> Seq<char> {
    Seq::new(n, |i: int| ' ')
}

/// A run of `n` blanks, to pad a column with.
pub fn spaces(n: usize) -> (s: String)
    ensures
        s@ == blanks(n as nat),
{
    let mut s = String::new();
    let mut i: usize = 0;
    proof {
        assert(s@ =~= blanks(0));
    }
    while i < n
        invariant
            i <= n,
            s@ == blanks(i as nat),
        decreases n - i,
    {
        s.push(' ');
        i = i + 1;
        proof {
            assert(s@ =~= blanks(i as nat));
        }
    }
    s
}

// ---- blanks at the ends of a text ----

/// The characters Unicode calls white space.
pub open spec fn is_space(c: char) -> bool {
    let n = c as u32;
    ||| 0x9 <= n <= 0xd
    ||| n == 0x20
    ||| n == 0x85
    ||| n == 0xa0
    ||| n == 0x1680
    ||| 0x2000 <= n <= 0x200a
    ||| n == 0x2028
    ||| n == 0x2029
    ||| n == 0x202f
    ||| n == 0x205f
    ||| n == 0x3000
}

/// Whether a character is white space.
pub fn space(c: char) -> (r: bool)
    ensures
        r == is_space(c),
{
    let n: u32 = c as u32;
    (0x9 <= n && n <= 0xd) || n == 0x20 || n == 0x85 || n == 0xa0 || n == 0x1680 || (0x2000 <= n
        && n <= 0x200a) || n == 0x2028 || n == 0x2029 || n == 0x202f || n == 0x205f || n == 0x3000
}

/// Where a text's leading blanks end.
pub open spec fn blank_start(s: Seq<char>) -> nat
    decreases s.len(),
{
    if s.len() == 0 || !is_space(s[0]) {
        0
    } else {
        1 + blank_start(s.skip(1))
    }
}

/// Where a text's first word, if it opens with one, ends.
pub open spec fn word_end(s: Seq<char>) -> nat
    decreases s.len(),
{
    if s.len() == 0 || is_space(s[0]) {
        0
    } else {
        1 + word_end(s.skip(1))
    }
}

/// A text without its trailing blanks.
pub open spec fn trimmed_end(s: Seq<char>) -> Seq<char>
    decreases s.len(),
{
    if s.len() == 0 || !is_space(s.last()) {
        s
    } else {
        trimmed_end(s.drop_last())
    }
}

/// A text without the blanks around it.
pub open spec fn trimmed(s: Seq<char>) -> Seq<char> {
    trimmed_end(s.skip(blank_start(s) as int))
}

proof fn lemma_blank_start(s: Seq<char>, n: nat)
    requires
        n <= s.len(),
        forall|i: int| 0 <= i < n ==> is_space(#[trigger] s[i]),
        n == s.len() || !is_space(s[n as int]),
    ensures
        blank_start(s) == n,
    decreases n,
{
    if n > 0 {
        let t = s.skip(1);
        assert forall|i: int| 0 <= i < n - 1 implies is_space(#[trigger] t[i]) by {
            assert(t[i] == s[i + 1]);
        }
        assert(n < s.len() ==> t[n - 1] == s[n as int]);
        lemma_blank_start(t, (n - 1) as nat);
        assert(is_space(s[0]));
    }
}

proof fn lemma_word_end(s: Seq<char>, n: nat)
    requires
        n <= s.len(),
        forall|i: int| 0 <= i < n ==> !is_space(#[trigger] s[i]),
        n == s.len() || is_space(s[n as int]),
    ensures
        word_end(s) == n,
    decreases n,
{
    if n > 0 {
        let t = s.skip(1);
        assert forall|i: int| 0 <= i < n - 1 implies !is_space(#[trigger] t[i]) by {
            assert(t[i] == s[i + 1]);
        }
        assert(n < s.len() ==> t[n - 1] == s[n as int]);
        lemma_word_end(t, (n - 1) as nat);
        assert(!is_space(s[0]));
    }
}

proof fn lemma_word_end_bound(s: Seq<char>)
    ensures
        word_end(s) <= s.len(),
    decreases s.len(),
{
    if s.len() > 0 && !is_space(s[0]) {
        lemma_word_end_bound(s.skip(1));
    }
}

/// Nothing but blanks trims to nothing, and only that does.
pub proof fn lemma_blank_trims_to_nothing(s: Seq<char>)
    ensures
        trimmed(s).len() == 0 <==> (forall|i: int| 0 <= i < s.len() ==> is_space(#[trigger] s[i])),
{
    let n = blank_start(s);
    lemma_blank_start_is(s);
    lemma_trimmed_end_is(s.skip(n as int));
    if n < s.len() {
        assert(s.skip(n as int)[0] == s[n as int]);
        assert(!is_space(s[n as int]));
        assert(trimmed(s).len() > 0);
    }
}

proof fn lemma_blank_start_is(s: Seq<char>)
    ensures
        blank_start(s) <= s.len(),
        forall|i: int| 0 <= i < blank_start(s) ==> is_space(#[trigger] s[i]),
        blank_start(s) == s.len() || !is_space(s[blank_start(s) as int]),
    decreases s.len(),
{
    if s.len() > 0 && is_space(s[0]) {
        let t = s.skip(1);
        lemma_blank_start_is(t);
        assert forall|i: int| 0 <= i < blank_start(s) implies is_space(#[trigger] s[i]) by {
            if i > 0 {
                assert(t[i - 1] == s[i]);
            }
        }
        assert(blank_start(t) < t.len() ==> t[blank_start(t) as int] == s[blank_start(s) as int]);
    }
}

proof fn lemma_trimmed_end_is(s: Seq<char>)
    ensures
        trimmed_end(s).len() <= s.len(),
        s.len() > 0 && !is_space(s[0]) ==> trimmed_end(s).len() > 0,
    decreases s.len(),
{
    if s.len() > 0 && is_space(s.last()) {
        lemma_trimmed_end_is(s.drop_last());
        if s.len() > 1 {
            assert(s.drop_last()[0] == s[0]);
        }
    }
}

/// A text without the blanks it ends in.
pub fn trim_end(text: &str) -> (s: String)
    ensures
        s@ == trimmed_end(text@),
{
    let v = chars(text);
    let mut to: usize = v.len();
    proof {
        assert(text@.take(to as int) =~= text@);
    }
    while to > 0 && space(v[to - 1])
        invariant
            v@ == text@,
            to <= v.len(),
            trimmed_end(text@) == trimmed_end(text@.take(to as int)),
        decreases to,
    {
        proof {
            assert(text@.take(to as int).last() == text@[to - 1]);
            assert(text@.take(to as int).drop_last() =~= text@.take(to - 1));
        }
        to = to - 1;
    }
    proof {
        if to > 0 {
            assert(text@.take(to as int).last() == text@[to - 1]);
        }
        assert(text@.take(to as int) =~= text@.subrange(0, to as int));
    }
    slice(text, 0, to)
}

/// A text without the blanks around it.
pub fn trim(text: &str) -> (s: String)
    ensures
        s@ == trimmed(text@),
{
    let v = chars(text);
    let mut from: usize = 0;
    while from < v.len() && space(v[from])
        invariant
            v@ == text@,
            from <= v.len(),
            forall|i: int| 0 <= i < from ==> is_space(#[trigger] text@[i]),
        decreases v.len() - from,
    {
        from = from + 1;
    }
    proof {
        lemma_blank_start(text@, from as nat);
        assert(text@.subrange(from as int, text@.len() as int) =~= text@.skip(from as int));
    }
    let rest = slice(text, from, v.len());
    trim_end(rest.as_str())
}

// ---- lines and words ----

/// Where the first line of a text ends.
pub open spec fn line_end(s: Seq<char>) -> nat
    decreases s.len(),
{
    if s.len() == 0 || s[0] == '\n' {
        0
    } else {
        1 + line_end(s.skip(1))
    }
}

/// A line as it reads once the line feed is gone: the return before it, if
/// there is one, goes with it.
pub open spec fn chomped(s: Seq<char>) -> Seq<char> {
    if s.len() > 0 && s.last() == '\r' {
        s.drop_last()
    } else {
        s
    }
}

/// The lines of a text. A line feed ends a line and starts none, so a text
/// that ends in one has no empty line after it.
pub open spec fn lines_of(s: Seq<char>) -> Seq<Seq<char>>
    decreases s.len(),
{
    let n = line_end(s) as int;
    if s.len() == 0 {
        Seq::empty()
    } else if n >= s.len() {
        seq![s]
    } else {
        seq![chomped(s.take(n))] + lines_of(s.skip(n + 1))
    }
}

/// The words of a text: the runs of anything but blanks, in order.
pub open spec fn words_of(s: Seq<char>) -> Seq<Seq<char>>
    decreases s.len(),
{
    let n = word_end(s) as int;
    if s.len() == 0 {
        Seq::empty()
    } else if n == 0 {
        words_of(s.skip(1))
    } else if n >= s.len() {
        seq![s]
    } else {
        seq![s.take(n)] + words_of(s.skip(n))
    }
}

/// What a list of texts holds.
pub open spec fn views(v: Seq<String>) -> Seq<Seq<char>> {
    v.map_values(|s: String| s@)
}

/// A text added at the end of a list is the last one it holds.
pub broadcast proof fn views_push(v: Seq<String>, s: String)
    ensures
        #[trigger] views(v.push(s)) == views(v).push(s@),
{
    assert(views(v.push(s)) =~= views(v).push(s@));
}

/// A list of no texts holds none.
pub broadcast proof fn views_empty()
    ensures
        #[trigger] views(Seq::<String>::empty()) == Seq::<Seq<char>>::empty(),
{
    assert(views(Seq::<String>::empty()) =~= Seq::<Seq<char>>::empty());
}

pub broadcast group group_views {
    views_push,
    views_empty,
}

/// Texts one after the other, with `sep` between each two.
pub open spec fn joined(parts: Seq<Seq<char>>, sep: Seq<char>) -> Seq<char>
    decreases parts.len(),
{
    if parts.len() == 0 {
        Seq::empty()
    } else if parts.len() == 1 {
        parts[0]
    } else {
        joined(parts.drop_last(), sep) + sep + parts.last()
    }
}

proof fn lemma_line_end(s: Seq<char>, n: nat)
    requires
        n <= s.len(),
        forall|i: int| 0 <= i < n ==> #[trigger] s[i] != '\n',
        n == s.len() || s[n as int] == '\n',
    ensures
        line_end(s) == n,
    decreases n,
{
    if n > 0 {
        let t = s.skip(1);
        assert forall|i: int| 0 <= i < n - 1 implies #[trigger] t[i] != '\n' by {
            assert(t[i] == s[i + 1]);
        }
        assert(n < s.len() ==> t[n - 1] == s[n as int]);
        lemma_line_end(t, (n - 1) as nat);
        assert(s[0] != '\n');
    }
}

/// The lines of a text.
pub fn lines(text: &str) -> (r: Vec<String>)
    ensures
        views(r@) == lines_of(text@),
{
    let v = chars(text);
    let ghost s = text@;
    let mut r: Vec<String> = Vec::new();
    let mut from: usize = 0;
    proof {
        assert(s.skip(0) =~= s);
        assert(views(r@) + lines_of(s) =~= lines_of(s));
    }
    while from < v.len()
        invariant
            v@ == text@,
            s == text@,
            from <= v.len(),
            views(r@) + lines_of(s.skip(from as int)) == lines_of(s),
        decreases v.len() - from,
    {
        let mut to: usize = from;
        while to < v.len() && v[to] != '\n'
            invariant
                v@ == text@,
                s == text@,
                from <= to <= v.len(),
                forall|i: int| from <= i < to ==> #[trigger] s[i] != '\n',
            decreases v.len() - to,
        {
            to = to + 1;
        }
        let ghost rest = s.skip(from as int);
        let ghost before = views(r@);
        let ghost n = (to - from) as nat;
        proof {
            assert forall|i: int| 0 <= i < n implies #[trigger] rest[i] != '\n' by {
                assert(rest[i] == s[from + i]);
            }
            assert(to < v.len() ==> rest[n as int] == s[to as int]);
            lemma_line_end(rest, n);
            assert(rest.take(n as int) =~= s.subrange(from as int, to as int));
        }
        if to == v.len() {
            let last = slice(text, from, to);
            proof {
                assert(last@ =~= rest);
            }
            r.push(last);
            proof {
                assert(views(r@) =~= before + seq![rest]);
                assert(s.skip(to as int) =~= Seq::empty());
                assert(views(r@) + lines_of(s.skip(to as int)) =~= lines_of(s));
            }
            from = to;
        } else {
            let end: usize = if to > from && v[to - 1] == '\r' {
                to - 1
            } else {
                to
            };
            let line = slice(text, from, end);
            proof {
                assert(line@ =~= chomped(rest.take(n as int)));
                assert(rest.skip(n as int + 1) =~= s.skip(to + 1));
            }
            r.push(line);
            proof {
                assert(views(r@) =~= before + seq![line@]);
                assert(views(r@) + lines_of(s.skip(to + 1)) =~= before + lines_of(rest));
            }
            from = to + 1;
        }
    }
    proof {
        assert(s.skip(from as int) =~= Seq::empty());
        assert(views(r@) =~= lines_of(s));
    }
    r
}

/// The words of a text.
pub fn words(text: &str) -> (r: Vec<String>)
    ensures
        views(r@) == words_of(text@),
{
    let v = chars(text);
    let ghost s = text@;
    let mut r: Vec<String> = Vec::new();
    let mut from: usize = 0;
    proof {
        assert(s.skip(0) =~= s);
        assert(views(r@) + words_of(s) =~= words_of(s));
    }
    while from < v.len()
        invariant
            v@ == text@,
            s == text@,
            from <= v.len(),
            views(r@) + words_of(s.skip(from as int)) == words_of(s),
        decreases v.len() - from,
    {
        let mut to: usize = from;
        while to < v.len() && !space(v[to])
            invariant
                v@ == text@,
                s == text@,
                from <= to <= v.len(),
                forall|i: int| from <= i < to ==> !is_space(#[trigger] s[i]),
            decreases v.len() - to,
        {
            to = to + 1;
        }
        let ghost rest = s.skip(from as int);
        let ghost before = views(r@);
        let ghost n = (to - from) as nat;
        proof {
            assert forall|i: int| 0 <= i < n implies !is_space(#[trigger] rest[i]) by {
                assert(rest[i] == s[from + i]);
            }
            assert(to < v.len() ==> rest[n as int] == s[to as int]);
            lemma_word_end(rest, n);
        }
        if to == from {
            proof {
                assert(rest.skip(1) =~= s.skip(from + 1));
            }
            from = from + 1;
        } else {
            let word = slice(text, from, to);
            proof {
                assert(word@ =~= rest.take(n as int));
                assert(rest.skip(n as int) =~= s.skip(to as int));
            }
            r.push(word);
            proof {
                assert(views(r@) =~= before + seq![word@]);
                if to == v.len() {
                    assert(word@ =~= rest);
                    assert(s.skip(to as int) =~= Seq::empty());
                }
                assert(views(r@) + words_of(s.skip(to as int)) =~= before + words_of(rest));
            }
            from = to;
        }
    }
    proof {
        assert(s.skip(from as int) =~= Seq::empty());
        assert(views(r@) =~= words_of(s));
    }
    r
}

/// Texts one after the other, with `sep` between each two.
pub fn join(parts: &Vec<String>, sep: &str) -> (s: String)
    ensures
        s@ == joined(views(parts@), sep@),
{
    let ghost all = views(parts@);
    let mut s = String::new();
    let mut i: usize = 0;
    proof {
        assert(s@ =~= joined(all.take(0), sep@));
    }
    while i < parts.len()
        invariant
            i <= parts.len(),
            all == views(parts@),
            s@ == joined(all.take(i as int), sep@),
        decreases parts.len() - i,
    {
        let ghost next = all.take(i + 1);
        if i > 0 {
            s.append(sep);
        }
        s.append(parts[i].as_str());
        proof {
            assert(next.drop_last() =~= all.take(i as int));
            assert(next.last() == parts@[i as int]@);
            assert(s@ =~= joined(next, sep@));
        }
        i = i + 1;
    }
    proof {
        assert(all.take(i as int) =~= all);
    }
    s
}

// ---- finding ----

/// Whether `part` stands in `s`, starting at `at`.
pub open spec fn stands_at(s: Seq<char>, part: Seq<char>, at: int) -> bool {
    &&& 0 <= at
    &&& at + part.len() <= s.len()
    &&& s.subrange(at, at + part.len()) == part
}

/// Whether `part` stands anywhere in `s`.
pub open spec fn holds(s: Seq<char>, part: Seq<char>) -> bool {
    exists|at: int| stands_at(s, part, at)
}

fn found_at(s: &Vec<char>, part: &Vec<char>, at: usize) -> (r: bool)
    requires
        at + part.len() <= s.len(),
    ensures
        r == stands_at(s@, part@, at as int),
{
    let mut i: usize = 0;
    let ghost here = s@.subrange(at as int, at + part@.len());
    while i < part.len()
        invariant
            at + part.len() <= s.len(),
            i <= part.len(),
            here == s@.subrange(at as int, at + part@.len()),
            forall|j: int| 0 <= j < i ==> here[j] == part@[j],
        decreases part.len() - i,
    {
        if s[at + i] != part[i] {
            proof {
                assert(here[i as int] != part@[i as int]);
            }
            return false;
        }
        i = i + 1;
    }
    proof {
        assert(here =~= part@);
    }
    true
}

/// Whether one text stands anywhere in another.
pub fn contains(text: &str, part: &str) -> (r: bool)
    ensures
        r == holds(text@, part@),
{
    let s = chars(text);
    let p = chars(part);
    if p.len() > s.len() {
        return false;
    }
    let last: usize = s.len() - p.len();
    let mut at: usize = 0;
    while at <= last
        invariant
            s@ == text@,
            p@ == part@,
            last + p.len() == s.len(),
            at <= last + 1,
            forall|j: int| 0 <= j < at ==> !stands_at(text@, part@, j),
        decreases last + 1 - at,
    {
        if found_at(&s, &p, at) {
            return true;
        }
        if at == last {
            proof {
                assert forall|j: int| !stands_at(text@, part@, j) by {}
            }
            return false;
        }
        at = at + 1;
    }
    false
}

/// Whether one text opens with another.
pub fn starts_with(text: &str, part: &str) -> (r: bool)
    ensures
        r == stands_at(text@, part@, 0),
{
    let s = chars(text);
    let p = chars(part);
    p.len() <= s.len() && found_at(&s, &p, 0)
}

/// `String::from_utf8` of the standard library: `Some` when the bytes are valid
/// UTF-8, holding the characters they encode.
#[verifier::external_body]
pub(crate) fn from_utf8(bytes: Vec<u8>) -> (r: Option<String>)
    ensures
        r is Some <==> vstd::utf8::valid_utf8(bytes@),
        r matches Some(s) ==> s@ == vstd::utf8::decode_utf8(bytes@),
{
    String::from_utf8(bytes).ok()
}

/// A text as the standard library's `Debug` spells it.
pub uninterp spec fn quoted_of(s: Seq<char>) -> Seq<char>;

/// The `Debug` form of a `str`, as `format!` writes it: between quotes, with
/// what cannot be shown escaped.
#[verifier::external_body]
pub(crate) fn quoted(text: &str) -> (s: String)
    ensures
        s@ == quoted_of(text@),
{
    format!("{text:?}")
}

/// A text without the blanks around it, as a part of the text it came from.
pub fn trim_str<'a>(text: &'a str) -> (s: &'a str)
    ensures
        s@ == trimmed(text@),
{
    let v = chars(text);
    let mut from: usize = 0;
    while from < v.len() && space(v[from])
        invariant
            v@ == text@,
            from <= v.len(),
            forall|i: int| 0 <= i < from ==> is_space(#[trigger] text@[i]),
        decreases v.len() - from,
    {
        from = from + 1;
    }
    let ghost rest = text@.skip(from as int);
    proof {
        lemma_blank_start(text@, from as nat);
    }
    let mut to: usize = v.len();
    proof {
        assert(rest.take(to - from) =~= rest);
    }
    while to > from && space(v[to - 1])
        invariant
            v@ == text@,
            from <= to <= v.len(),
            rest == text@.skip(from as int),
            trimmed_end(rest) == trimmed_end(rest.take(to - from)),
        decreases to,
    {
        proof {
            assert(rest.take(to - from).last() == text@[to - 1]);
            assert(rest.take(to - from).drop_last() =~= rest.take(to - 1 - from));
        }
        to = to - 1;
    }
    proof {
        if to > from {
            assert(rest.take(to - from).last() == text@[to - 1]);
        }
        assert(rest.take(to - from) =~= text@.subrange(from as int, to as int));
    }
    text.substring_char(from, to)
}

/// The first word of a text that opens with one, as a part of it.
pub fn first_word<'a>(text: &'a str) -> (s: &'a str)
    ensures
        s@ == text@.take(word_end(text@) as int),
{
    let v = chars(text);
    let mut to: usize = 0;
    while to < v.len() && !space(v[to])
        invariant
            v@ == text@,
            to <= v.len(),
            forall|i: int| 0 <= i < to ==> !is_space(#[trigger] text@[i]),
        decreases v.len() - to,
    {
        to = to + 1;
    }
    proof {
        lemma_word_end(text@, to as nat);
        assert(text@.subrange(0, to as int) =~= text@.take(to as int));
    }
    text.substring_char(0, to)
}

/// What is left of a text after another it opens with.
pub open spec fn after_prefix(s: Seq<char>, part: Seq<char>) -> Option<Seq<char>> {
    if stands_at(s, part, 0) {
        Some(s.skip(part.len() as int))
    } else {
        None
    }
}

/// What is left of a text after another it opens with.
pub fn strip_prefix(text: &str, part: &str) -> (r: Option<String>)
    ensures
        crate::json::held(r) == after_prefix(text@, part@),
{
    if starts_with(text, part) {
        let from: usize = part.unicode_len();
        let to: usize = text.unicode_len();
        proof {
            assert(text@.subrange(from as int, to as int) =~= text@.skip(from as int));
        }
        Some(slice(text, from, to))
    } else {
        None
    }
}

/// Where a character first stands in a text, or its length.
pub open spec fn char_at(s: Seq<char>, c: char) -> nat
    decreases s.len(),
{
    if s.len() == 0 || s[0] == c {
        0
    } else {
        1 + char_at(s.skip(1), c)
    }
}

proof fn lemma_char_at(s: Seq<char>, c: char, n: nat)
    requires
        n <= s.len(),
        forall|i: int| 0 <= i < n ==> #[trigger] s[i] != c,
        n == s.len() || s[n as int] == c,
    ensures
        char_at(s, c) == n,
    decreases n,
{
    if n > 0 {
        let t = s.skip(1);
        assert forall|i: int| 0 <= i < n - 1 implies #[trigger] t[i] != c by {
            assert(t[i] == s[i + 1]);
        }
        assert(n < s.len() ==> t[n - 1] == s[n as int]);
        lemma_char_at(t, c, (n - 1) as nat);
        assert(s[0] != c);
    }
}

/// A text up to the first `c` in it, or all of it.
pub fn up_to(text: &str, c: char) -> (s: String)
    ensures
        s@ == text@.take(char_at(text@, c) as int),
{
    let v = chars(text);
    let mut to: usize = 0;
    while to < v.len() && v[to] != c
        invariant
            v@ == text@,
            to <= v.len(),
            forall|i: int| 0 <= i < to ==> #[trigger] text@[i] != c,
        decreases v.len() - to,
    {
        to = to + 1;
    }
    proof {
        lemma_char_at(text@, c, to as nat);
        assert(text@.subrange(0, to as int) =~= text@.take(to as int));
    }
    slice(text, 0, to)
}

/// An ASCII letter in lower case; any other character as it is.
pub open spec fn lower(c: char) -> char {
    if 'A' <= c && c <= 'Z' {
        ((c as u32 + 32) as u32) as char
    } else {
        c
    }
}

/// Whether two texts are the same but for the case of ASCII letters.
pub open spec fn alike_of(a: Seq<char>, b: Seq<char>) -> bool {
    &&& a.len() == b.len()
    &&& forall|i: int| 0 <= i < a.len() ==> lower(#[trigger] a[i]) == lower(b[i])
}

fn lowered(c: char) -> (n: u32)
    ensures
        n == lower(c) as u32,
{
    if 'A' <= c && c <= 'Z' {
        c as u32 + 32
    } else {
        c as u32
    }
}

/// Whether two texts are the same but for the case of ASCII letters.
pub fn alike(a: &str, b: &str) -> (r: bool)
    ensures
        r == alike_of(a@, b@),
{
    let x = chars(a);
    let y = chars(b);
    if x.len() != y.len() {
        return false;
    }
    let mut i: usize = 0;
    while i < x.len()
        invariant
            x@ == a@,
            y@ == b@,
            x.len() == y.len(),
            i <= x.len(),
            forall|j: int| 0 <= j < i ==> lower(#[trigger] a@[j]) == lower(b@[j]),
        decreases x.len() - i,
    {
        if lowered(x[i]) != lowered(y[i]) {
            proof {
                assert(lower(a@[i as int]) != lower(b@[i as int]));
            }
            return false;
        }
        i = i + 1;
    }
    true
}

/// A text in lower case, as the standard library's Unicode tables have it.
pub uninterp spec fn lowercase_of(text: Seq<char>) -> Seq<char>;

/// `str::to_lowercase`: the text in lower case, by Unicode's own mapping and
/// no locale's.
#[verifier::external_body]
pub(crate) fn lowercase(text: &str) -> (s: String)
    ensures
        s@ == lowercase_of(text@),
{
    text.to_lowercase()
}

/// Whether one text comes before another: by the first character in which they
/// differ, and the shorter first where there is none.
pub open spec fn before(a: Seq<char>, b: Seq<char>) -> bool
    decreases a.len(),
{
    if b.len() == 0 {
        false
    } else if a.len() == 0 {
        true
    } else if a[0] != b[0] {
        a[0] < b[0]
    } else {
        before(a.skip(1), b.skip(1))
    }
}

/// Of two different texts one comes before the other, and not both.
pub proof fn lemma_before_settles(a: Seq<char>, b: Seq<char>)
    ensures
        a != b ==> before(a, b) != before(b, a),
        a == b ==> !before(a, b),
    decreases a.len(),
{
    if a.len() > 0 && b.len() > 0 && a[0] == b[0] {
        lemma_before_settles(a.skip(1), b.skip(1));
        if a != b {
            if a.skip(1) == b.skip(1) {
                assert(a =~= seq![a[0]] + a.skip(1));
                assert(b =~= seq![b[0]] + b.skip(1));
            }
        }
    } else if a.len() == 0 && b.len() == 0 {
        assert(a =~= b);
    }
}

/// What comes before a text comes before all that the text comes before.
pub proof fn lemma_before_carries(a: Seq<char>, b: Seq<char>, c: Seq<char>)
    requires
        before(a, b),
        before(b, c),
    ensures
        before(a, c),
    decreases a.len(),
{
    if a.len() > 0 && b.len() > 0 && c.len() > 0 && a[0] == b[0] && b[0] == c[0] {
        lemma_before_carries(a.skip(1), b.skip(1), c.skip(1));
    }
}

/// Whether one text comes before another.
pub fn comes_before(a: &str, b: &str) -> (r: bool)
    ensures
        r == before(a@, b@),
{
    let x = chars(a);
    let y = chars(b);
    let mut i: usize = 0;
    proof {
        assert(a@.skip(0) =~= a@);
        assert(b@.skip(0) =~= b@);
    }
    while i < x.len() && i < y.len()
        invariant
            x@ == a@,
            y@ == b@,
            i <= x.len(),
            i <= y.len(),
            before(a@, b@) == before(a@.skip(i as int), b@.skip(i as int)),
        decreases x.len() - i,
    {
        proof {
            assert(a@.skip(i as int).skip(1) =~= a@.skip(i + 1));
            assert(b@.skip(i as int).skip(1) =~= b@.skip(i + 1));
        }
        if x[i] != y[i] {
            return x[i] < y[i];
        }
        i = i + 1;
    }
    i < y.len()
}

/// The number that a run of digits spells.
pub open spec fn spelt(s: Seq<char>) -> int
    decreases s.len(),
{
    if s.len() == 0 {
        0
    } else {
        10 * spelt(s.drop_last()) + (s.last() as int - '0' as int)
    }
}

/// A number reads back from its decimals: they are digits every one, they spell
/// that number, and no nought leads but nought itself.
pub proof fn lemma_decimals_read_back(n: nat)
    ensures
        spelt(dec(n)) == n,
        dec(n).len() >= 1,
        forall|i: int| 0 <= i < dec(n).len() ==> '0' <= #[trigger] dec(n)[i] && dec(n)[i] <= '9',
        dec(n)[0] == '0' ==> n == 0,
    decreases n,
{
    if n < 10 {
        assert(seq![digit(n)].drop_last() =~= Seq::<char>::empty());
        assert(spelt(seq![digit(n)].drop_last()) == 0);
    } else {
        lemma_decimals_read_back(n / 10);
        let tens = dec(n / 10);
        assert(tens.push(digit(n % 10)).drop_last() =~= tens);
        assert(dec(n)[0] == tens[0]);
    }
}

/// The usual blanks are blank, and nothing that leaves ink in ASCII is.
pub proof fn lemma_ink_is_not_blank(c: char)
    ensures
        c == ' ' || c == '\t' || c == '\n' || c == '\r' ==> is_space(c),
        '!' <= c && c <= '~' ==> !is_space(c),
{
}

/// Whether `s` is blank all through before `from` and from `to` on.
pub open spec fn blank_around(s: Seq<char>, from: int, to: int) -> bool {
    &&& 0 <= from <= to <= s.len()
    &&& forall|i: int| 0 <= i < from ==> is_space(#[trigger] s[i])
    &&& forall|i: int| to <= i < s.len() ==> is_space(#[trigger] s[i])
}

/// Trimming the end of a text takes blanks off it and nothing else, and all that
/// stand there.
pub proof fn lemma_trimming_the_end_takes_blanks_alone(s: Seq<char>)
    ensures
        trimmed_end(s).len() <= s.len(),
        trimmed_end(s) == s.take(trimmed_end(s).len() as int),
        forall|i: int| trimmed_end(s).len() <= i < s.len() ==> is_space(#[trigger] s[i]),
        trimmed_end(s).len() > 0 ==> !is_space(trimmed_end(s).last()),
    decreases s.len(),
{
    if s.len() > 0 && is_space(s.last()) {
        lemma_trimming_the_end_takes_blanks_alone(s.drop_last());
        assert forall|i: int| trimmed_end(s).len() <= i < s.len() implies is_space(
            #[trigger] s[i],
        ) by {
            if i < s.len() - 1 {
                assert(s.drop_last()[i] == s[i]);
            }
        }
        assert(s.drop_last().take(trimmed_end(s).len() as int) =~= s.take(
            trimmed_end(s).len() as int,
        ));
    } else {
        assert(s.take(s.len() as int) =~= s);
    }
}

/// Trimming takes the blanks off both ends and nothing else: what is left is a
/// part of the text with only blanks around it, and neither end of it is blank.
pub proof fn lemma_trimming_takes_blanks_alone(s: Seq<char>)
    ensures
        exists|from: int, to: int| #[trigger]
            blank_around(s, from, to) && trimmed(s) == s.subrange(from, to),
        trimmed(s).len() > 0 ==> !is_space(trimmed(s)[0]) && !is_space(trimmed(s).last()),
{
    lemma_blank_start_is(s);
    let from = blank_start(s) as int;
    let rest = s.skip(from);
    lemma_trimming_the_end_takes_blanks_alone(rest);
    let to = from + trimmed(s).len();
    assert(trimmed(s) =~= s.subrange(from, to));
    assert forall|i: int| to <= i < s.len() implies is_space(#[trigger] s[i]) by {
        assert(rest[i - from] == s[i]);
    }
    assert(blank_around(s, from, to));
}

/// A text that neither opens nor closes with a blank is trimmed to itself.
pub proof fn lemma_trimming_leaves_a_bare_text(s: Seq<char>)
    requires
        s.len() == 0 || (!is_space(s[0]) && !is_space(s.last())),
    ensures
        trimmed(s) == s,
{
    assert(s.skip(0) =~= s);
}

/// The first word of a text is all of it up to its first blank.
pub proof fn lemma_a_word_stops_at_the_first_blank(s: Seq<char>)
    ensures
        word_end(s) <= s.len(),
        forall|i: int| 0 <= i < word_end(s) ==> !is_space(#[trigger] s[i]),
        word_end(s) < s.len() ==> is_space(s[word_end(s) as int]),
    decreases s.len(),
{
    if s.len() > 0 && !is_space(s[0]) {
        let rest = s.skip(1);
        lemma_a_word_stops_at_the_first_blank(rest);
        assert forall|i: int| 0 <= i < word_end(s) implies !is_space(#[trigger] s[i]) by {
            if i > 0 {
                assert(rest[i - 1] == s[i]);
            }
        }
        if word_end(s) < s.len() {
            assert(rest[word_end(rest) as int] == s[word_end(s) as int]);
        }
    }
}

/// A text without blanks is one word, and of nothing there are none.
pub proof fn lemma_a_word_is_one_word(word: Seq<char>)
    requires
        forall|i: int| 0 <= i < word.len() ==> !is_space(#[trigger] word[i]),
    ensures
        words_of(word) == if word.len() == 0 {
            Seq::empty()
        } else {
            seq![word]
        },
{
    if word.len() > 0 {
        lemma_word_end(word, word.len());
    }
}

/// A blank parts words: the words of two texts with a blank between them are the
/// words of the one and then the words of the other.
pub proof fn lemma_a_blank_parts_words(a: Seq<char>, blank: char, b: Seq<char>)
    requires
        is_space(blank),
    ensures
        words_of(a.push(blank) + b) == words_of(a) + words_of(b),
    decreases a.len(),
{
    let s = a.push(blank) + b;
    lemma_a_word_stops_at_the_first_blank(a);
    let n = word_end(a);
    if a.len() == 0 {
        assert(s.skip(1) =~= b);
        assert(word_end(s) == 0);
        assert(words_of(s) =~= words_of(b));
    } else if n == 0 {
        assert(s.skip(1) =~= a.skip(1).push(blank) + b);
        lemma_a_blank_parts_words(a.skip(1), blank, b);
        assert(word_end(s) == 0);
    } else {
        assert forall|i: int| 0 <= i < n implies !is_space(#[trigger] s[i]) by {
            assert(s[i] == a[i]);
        }
        lemma_word_end(s, n);
        assert(s.take(n as int) =~= a.take(n as int));
        assert(s.skip(n as int) =~= a.skip(n as int).push(blank) + b);
        lemma_a_blank_parts_words(a.skip(n as int), blank, b);
        if n == a.len() {
            assert(a.take(n as int) =~= a);
            assert(a.skip(n as int) =~= Seq::<char>::empty());
        }
        assert(words_of(a) =~= seq![a.take(n as int)] + words_of(a.skip(n as int)));
        assert(words_of(s) =~= words_of(a) + words_of(b));
    }
}

/// Text without a line break in it is one line, and of nothing there are none.
/// A break ends a line, and so does a carriage return with a break behind it:
/// the lines after it are those of what follows.
pub proof fn lemma_a_break_ends_a_line(line: Seq<char>, rest: Seq<char>)
    requires
        forall|i: int| 0 <= i < line.len() ==> #[trigger] line[i] != '\n',
    ensures
        lines_of(line) == if line.len() == 0 {
            Seq::empty()
        } else {
            seq![line]
        },
        line.len() == 0 || line.last() != '\r' ==> lines_of(line.push('\n') + rest) == seq![line]
            + lines_of(rest),
        lines_of(line.push('\r').push('\n') + rest) == seq![line] + lines_of(rest),
{
    let n = line.len();
    lemma_line_end(line, n);
    let ended = line.push('\n') + rest;
    lemma_line_end(ended, n);
    assert(ended.take(n as int) =~= line);
    assert(ended.skip((n + 1) as int) =~= rest);
    let returned = line.push('\r').push('\n') + rest;
    lemma_line_end(returned, n + 1);
    assert(returned.take((n + 1) as int) =~= line.push('\r'));
    assert(line.push('\r').drop_last() =~= line);
    assert(returned.skip((n + 2) as int) =~= rest);
}

/// What is joined is the parts in their order with the separator between each
/// two, and before and behind them nothing.
pub proof fn lemma_a_join_parts_with_the_separator(
    a: Seq<Seq<char>>,
    b: Seq<Seq<char>>,
    sep: Seq<char>,
    part: Seq<char>,
)
    ensures
        joined(Seq::empty(), sep) == Seq::<char>::empty(),
        joined(seq![part], sep) == part,
        a.len() > 0 && b.len() > 0 ==> joined(a + b, sep) == joined(a, sep) + sep + joined(b, sep),
    decreases b.len(),
{
    if a.len() > 0 && b.len() > 1 {
        lemma_a_join_parts_with_the_separator(a, b.drop_last(), sep, part);
        assert((a + b).drop_last() =~= a + b.drop_last());
        assert((a + b).last() == b.last());
        assert(joined(a + b, sep) =~= joined(a, sep) + sep + joined(b, sep));
    } else if a.len() > 0 && b.len() == 1 {
        assert((a + b).drop_last() =~= a);
        assert((a + b).last() == b[0]);
    }
}

/// A text opens with a part exactly when it is that part and a rest, and the rest
/// is what is left of it.
pub proof fn lemma_a_prefix_comes_off(part: Seq<char>, rest: Seq<char>, s: Seq<char>)
    ensures
        after_prefix(part + rest, part) == Some(rest),
        after_prefix(s, part) matches Some(left) ==> s == part + left,
        after_prefix(s, part) is None ==> s != part + rest,
{
    assert((part + rest).subrange(0, part.len() as int) =~= part);
    assert((part + rest).skip(part.len() as int) =~= rest);
    if stands_at(s, part, 0) {
        assert(s =~= part + s.skip(part.len() as int));
    }
}

/// A text holds a part exactly when it is that part with something before it and
/// something behind it, either of them possibly nothing.
pub proof fn lemma_a_part_is_held_wherever_it_stands(
    before: Seq<char>,
    part: Seq<char>,
    behind: Seq<char>,
    s: Seq<char>,
)
    ensures
        holds(before + part + behind, part),
        holds(s, part) ==> exists|at: int|
            0 <= at <= s.len() && s == #[trigger] s.take(at) + part + s.skip(at + part.len()),
{
    let whole = before + part + behind;
    let from = before.len() as int;
    assert(whole.subrange(from, from + part.len()) =~= part);
    assert(stands_at(whole, part, from));
    if holds(s, part) {
        let at = choose|at: int| stands_at(s, part, at);
        assert(s =~= s.take(at) + part + s.skip(at + part.len()));
    }
}

/// What stands before the first of a character holds none of it, and the
/// character itself comes next where the text has it at all.
pub proof fn lemma_up_to_the_first_of_it(s: Seq<char>, c: char)
    ensures
        char_at(s, c) <= s.len(),
        forall|i: int| 0 <= i < char_at(s, c) ==> #[trigger] s[i] != c,
        char_at(s, c) < s.len() ==> s[char_at(s, c) as int] == c,
    decreases s.len(),
{
    if s.len() > 0 && s[0] != c {
        let rest = s.skip(1);
        lemma_up_to_the_first_of_it(rest, c);
        assert forall|i: int| 0 <= i < char_at(s, c) implies #[trigger] s[i] != c by {
            if i > 0 {
                assert(rest[i - 1] == s[i]);
            }
        }
        if char_at(s, c) < s.len() {
            assert(rest[char_at(rest, c) as int] == s[char_at(s, c) as int]);
        }
    }
}

/// Two different characters are alike exactly where they are the two cases of one
/// ASCII letter.
pub proof fn lemma_alike_but_for_case(c: char, d: char)
    ensures
        alike_of(seq![c], seq![d]) <==> c == d || ('A' <= c && c <= 'Z' && d as int == c as int
            + 32) || ('A' <= d && d <= 'Z' && c as int == d as int + 32),
{
    let a = seq![c];
    let b = seq![d];
    assert(a[0] == c && b[0] == d);
    if lower(c) == lower(d) {
        assert(alike_of(a, b));
    }
}

/// Being alike is judged character by character.
pub proof fn lemma_alike_throughout(a: Seq<char>, b: Seq<char>, c: Seq<char>, d: Seq<char>)
    requires
        a.len() == b.len(),
    ensures
        alike_of(a + c, b + d) <==> alike_of(a, b) && alike_of(c, d),
{
    if alike_of(a + c, b + d) {
        assert forall|i: int| 0 <= i < a.len() implies lower(#[trigger] a[i]) == lower(b[i]) by {
            assert((a + c)[i] == a[i] && (b + d)[i] == b[i]);
        }
        assert forall|i: int| 0 <= i < c.len() implies lower(#[trigger] c[i]) == lower(d[i]) by {
            let j = a.len() + i;
            assert((a + c)[j] == c[i] && (b + d)[j] == d[i]);
        }
    }
}

/// The first character in which two texts differ decides which comes first, and
/// of a text and one that goes on from it the shorter comes first.
pub proof fn lemma_the_first_difference_decides(
    shared: Seq<char>,
    c: char,
    a: Seq<char>,
    d: char,
    b: Seq<char>,
)
    ensures
        c != d ==> (before(shared.push(c) + a, shared.push(d) + b) <==> c < d),
        before(shared, shared.push(c) + a),
    decreases shared.len(),
{
    let one = shared.push(c) + a;
    let other = shared.push(d) + b;
    if shared.len() > 0 {
        lemma_the_first_difference_decides(shared.skip(1), c, a, d, b);
        assert(one.skip(1) =~= shared.skip(1).push(c) + a);
        assert(other.skip(1) =~= shared.skip(1).push(d) + b);
    }
}

/// Text with blanks around it and none at either end of itself is what trimming
/// leaves.
pub proof fn lemma_trimmed_is_what_blanks_surround(
    before: Seq<char>,
    said: Seq<char>,
    behind: Seq<char>,
)
    requires
        forall|i: int| 0 <= i < before.len() ==> is_space(#[trigger] before[i]),
        forall|i: int| 0 <= i < behind.len() ==> is_space(#[trigger] behind[i]),
        said.len() > 0,
        !is_space(said[0]),
        !is_space(said.last()),
    ensures
        trimmed(before + said + behind) == said,
    decreases behind.len(),
{
    let s = before + said + behind;
    let n = before.len();
    assert forall|i: int| 0 <= i < n implies is_space(#[trigger] s[i]) by {
        assert(s[i] == before[i]);
    }
    assert(s[n as int] == said[0]);
    lemma_blank_start(s, n);
    assert(s.skip(n as int) =~= said + behind);
    lemma_trimming_the_end_takes_blanks_alone(said + behind);
    let kept = trimmed(s).len();
    if kept > said.len() {
        assert((said + behind)[kept - 1] == behind[kept - 1 - said.len()]);
    } else if kept < said.len() {
        assert((said + behind)[said.len() - 1] == said.last());
    }
    assert((said + behind).take(said.len() as int) =~= said);
}

} // verus!
