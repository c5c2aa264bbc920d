//! Figures as a person reads them: a wait, a cost, a speed.
use vstd::prelude::*;
use vstd::string::*;

use crate::text;
use crate::text::decimal;

verus! {

/// The shortest reading either half of a pace is worth reporting from: a
/// tenth of a second, which is the resolution [`duration`] writes at.
pub const FLOOR: u64 = 100;

/// A length of time.
#[derive(Clone, Copy, PartialEq, Eq, Structural, Debug)]
pub struct Elapsed {
    pub secs: u64,
    /// The part of a second left over, in nanoseconds.
    pub nanos: u32,
}

impl Elapsed {
    /// Whether the part left over is less than a second.
    pub open spec fn wf(self) -> bool {
        self.nanos < 1_000_000_000
    }

    /// A length of time in milliseconds.
    pub fn from_millis(millis: u64) -> (e: Elapsed)
        ensures
            e.wf(),
            e.secs == millis / 1000,
            e.nanos == (millis % 1000) * 1_000_000,
    {
        Elapsed { secs: millis / 1000, nanos: (millis % 1000) as u32 * 1_000_000 }
    }
}

/// A length of time as the standard library's `Debug` spells it.
pub uninterp spec fn spelled_of(secs: u64, nanos: u32) -> Seq<char>;

/// The `Debug` form of a `std::time::Duration`, as `format!` writes it.
#[verifier::external_body]
pub(crate) fn spelled(elapsed: Elapsed) -> (s: String)
    requires
        elapsed.wf(),
    ensures
        s@ == spelled_of(elapsed.secs, elapsed.nanos),
{
    format!("{:?}", std::time::Duration::new(elapsed.secs, elapsed.nanos))
}

/// The remainder modulo twenty of the power of two that scales `n / 20`
/// seconds to a whole number of the steps a double has there.
pub open spec fn grain(n: nat) -> nat {
    if n < 2 {
        12
    } else if n < 5 {
        8
    } else if n < 10 {
        4
    } else if n < 20 {
        12
    } else if n < 40 {
        16
    } else if n < 80 {
        8
    } else if n < 160 {
        4
    } else if n < 320 {
        12
    } else if n < 640 {
        16
    } else {
        8
    }
}

/// Which way a reading halfway between two tenths is written.
///
/// A reading is a binary fraction, and most decimal halfway points are not
/// one: the double nearest to it lies to one side, and that is the side it is
/// written on. The few that are one are written with an even digit.
pub open spec fn tie_goes_up(tenths: nat) -> bool {
    let n = 2 * tenths + 1;
    if n % 5 == 0 {
        tenths % 2 == 1
    } else {
        (n * grain(n)) % 20 > 10
    }
}

/// A length of time in tenths of a second, to the nearest.
pub open spec fn tenths(secs: nat, nanos: nat) -> nat {
    let whole = secs * 10 + nanos / 100_000_000;
    let rest = nanos % 100_000_000;
    if rest < 50_000_000 {
        whole
    } else if rest > 50_000_000 || tie_goes_up(whole) {
        whole + 1
    } else {
        whole
    }
}

/// Two digits, the first of them a zero when the number needs one.
pub open spec fn two_digits(n: nat) -> Seq<char> {
    if n < 10 {
        "0"@ + text::dec(n)
    } else {
        text::dec(n)
    }
}

/// A length of time as a person reads it: tenths under a minute, minutes and
/// two digits of seconds above.
pub open spec fn duration_of(secs: nat, nanos: nat) -> Seq<char> {
    if secs < 60 {
        let t = tenths(secs, nanos);
        text::dec(t / 10) + "."@ + text::dec(t % 10) + "s"@
    } else {
        text::dec(secs / 60) + "m"@ + two_digits(secs % 60) + "s"@
    }
}

/// A length of time in milliseconds, as a person reads it.
pub open spec fn millis_of(millis: u64) -> Seq<char> {
    duration_of((millis / 1000) as nat, ((millis % 1000) * 1_000_000) as nat)
}

fn scaled_by_grain(n: u64) -> (r: u64)
    requires
        n < 1300,
    ensures
        r == n * grain(n as nat),
{
    let by: u64 = if n < 2 {
        12
    } else if n < 5 {
        8
    } else if n < 10 {
        4
    } else if n < 20 {
        12
    } else if n < 40 {
        16
    } else if n < 80 {
        8
    } else if n < 160 {
        4
    } else if n < 320 {
        12
    } else if n < 640 {
        16
    } else {
        8
    };
    proof {
        assert(n * by <= 1300 * 16) by (nonlinear_arith)
            requires
                n < 1300,
                by <= 16,
        ;
    }
    n * by
}

/// Wall clock, as a person reads it: tenths under a minute, minutes above.
///
/// One wording for every page - the footer of a running turn and the closing
/// line of a finished one - because two would drift. Minutes carry a
/// zero-padded remainder, so that a figure repainted under a spinner does not
/// change its width.
pub fn duration(elapsed: Elapsed) -> (s: String)
    requires
        elapsed.wf(),
    ensures
        s@ == duration_of(elapsed.secs as nat, elapsed.nanos as nat),
{
    if elapsed.secs < 60 {
        let nanos: u64 = elapsed.nanos as u64;
        let whole: u64 = elapsed.secs * 10 + nanos / 100_000_000;
        let rest: u64 = nanos % 100_000_000;
        let n: u64 = 2 * whole + 1;
        let up: bool = if rest < 50_000_000 {
            false
        } else if rest > 50_000_000 {
            true
        } else if n % 5 == 0 {
            whole % 2 == 1
        } else {
            scaled_by_grain(n) % 20 > 10
        };
        let t: u64 = if up {
            whole + 1
        } else {
            whole
        };
        let mut s = decimal(t / 10);
        s.append(".");
        s.append(decimal(t % 10).as_str());
        s.append("s");
        s
    } else {
        let mut s = decimal(elapsed.secs / 60);
        s.append("m");
        let left: u64 = elapsed.secs % 60;
        if left < 10 {
            s.append(text::cat("0", decimal(left).as_str()).as_str());
        } else {
            s.append(decimal(left).as_str());
        }
        s.append("s");
        s
    }
}

/// A length of time in milliseconds, as a person reads it.
pub fn millis(ms: u64) -> (s: String)
    ensures
        s@ == millis_of(ms),
{
    duration(Elapsed::from_millis(ms))
}

/// A count in units of `unit`: one decimal until the figure reaches three
/// digits, then whole numbers. A half is rounded up, and a decimal of zero is
/// not written.
pub open spec fn scaled_of(count: nat, unit: nat) -> Seq<char> {
    if count >= 100 * unit {
        text::dec((count + unit / 2) / unit)
    } else {
        let tenths = (count * 10 + unit / 2) / unit;
        if tenths % 10 == 0 {
            text::dec(tenths / 10)
        } else {
            text::dec(tenths / 10) + "."@ + text::dec(tenths % 10)
        }
    }
}

/// A token count as a person reads it: `517`, `12.2K`, `1.2M`.
pub open spec fn tokens_of(count: nat) -> Seq<char> {
    if count < 1_000 {
        text::dec(count)
    } else if count < 1_000_000 {
        scaled_of(count, 1_000) + "K"@
    } else {
        scaled_of(count, 1_000_000) + "M"@
    }
}

fn scaled(count: u64, unit: u64) -> (s: String)
    requires
        unit == 1_000 || unit == 1_000_000,
    ensures
        s@ == scaled_of(count as nat, unit as nat),
{
    let half: u64 = unit / 2;
    if count >= 100 * unit {
        let rest: u64 = count % unit;
        let up: u64 = if rest >= half {
            1
        } else {
            0
        };
        decimal(count / unit + up)
    } else {
        let tenths: u64 = (count * 10 + half) / unit;
        let mut s = decimal(tenths / 10);
        if tenths % 10 != 0 {
            s.append(".");
            s.append(decimal(tenths % 10).as_str());
        }
        s
    }
}

/// A token count the way a conversation shows one. One decimal until the
/// figure reaches three digits, then whole numbers: a turn's cost is read at
/// a glance, not audited.
pub fn tokens(count: u64) -> (s: String)
    ensures
        s@ == tokens_of(count as nat),
{
    if count < 1_000 {
        decimal(count)
    } else if count < 1_000_000 {
        let mut s = scaled(count, 1_000);
        s.append("K");
        s
    } else {
        let mut s = scaled(count, 1_000_000);
        s.append("M");
        s
    }
}

/// Tokens a second, over a stretch long enough to divide by.
pub open spec fn rate_of(decoded: nat, decoding: nat) -> Option<nat> {
    if decoding >= FLOOR && decoded > 0 && decoded * 1_000 / decoding > 0 {
        Some(decoded * 1_000 / decoding)
    } else {
        None
    }
}

/// Whether a rate is no more than can be worked out: a stretch too short to
/// divide by has none to work out.
pub open spec fn ratable(decoded: u64, decoding: u64) -> bool {
    decoding >= FLOOR ==> decoded * 1_000 <= u64::MAX
}

/// Tokens a second, over a stretch long enough to divide by.
///
/// `None` when too little time passed: a rate over a millisecond is not a
/// fast model, it is an unmeasured one.
pub fn rate(decoded: u64, decoding: u64) -> (r: Option<u64>)
    requires
        ratable(decoded, decoding),
    ensures
        match r {
            Some(rate) => rate_of(decoded as nat, decoding as nat) == Some(rate as nat),
            None => rate_of(decoded as nat, decoding as nat) is None,
        },
{
    if decoding >= FLOOR && decoded > 0 {
        let rate: u64 = decoded * 1_000 / decoding;
        if rate > 0 {
            Some(rate)
        } else {
            None
        }
    } else {
        None
    }
}

/// A rate of a count that can be taken fits a number.
pub proof fn lemma_a_rate_fits(decoded: nat, decoding: nat)
    requires
        decoded <= u64::MAX,
        decoding >= FLOOR ==> decoded * 1_000 <= u64::MAX,
    ensures
        rate_of(decoded, decoding) matches Some(rate) ==> rate <= u64::MAX,
{
    if decoding >= FLOOR {
        let all = decoded * 1_000;
        assert(all / decoding <= all) by (nonlinear_arith)
            requires
                decoding >= 1,
        ;
    }
}

/// A rate is tokens to the second: in each second so many and a part of one more.
/// It is told exactly where there was decoding for a tenth of a second or more
/// and it came to a token a second.
pub proof fn lemma_a_rate_is_tokens_to_the_second(decoded: nat, decoding: nat)
    ensures
        rate_of(decoded, decoding) is Some <==> decoding >= 100 && decoded * 1_000 >= decoding,
        rate_of(decoded, decoding) matches Some(rate) ==> rate > 0 && rate * decoding <= decoded
            * 1_000 < (rate + 1) * decoding,
{
    if decoding >= 100 {
        let all = decoded * 1_000;
        let rate = all / decoding;
        assert(rate * decoding <= all < (rate + 1) * decoding) by (nonlinear_arith)
            requires
                decoding >= 1,
                rate == all / decoding,
        ;
        if rate == 0 {
            assert((rate + 1) * decoding == decoding) by (nonlinear_arith)
                requires
                    rate == 0,
            ;
        } else {
            assert(rate * decoding >= decoding) by (nonlinear_arith)
                requires
                    rate >= 1,
            ;
        }
    }
}

/// A time under a minute is told to the nearest tenth of a second: what is told
/// is never more than half a tenth off.
pub proof fn lemma_a_short_time_is_told_to_the_tenth(secs: nat, nanos: nat)
    requires
        secs < 60,
        nanos < 1_000_000_000,
    ensures
        ({
            let told = tenths(secs, nanos);
            let took = secs * 1_000_000_000 + nanos;
            &&& took <= told * 100_000_000 + 50_000_000
            &&& told * 100_000_000 <= took + 50_000_000
            &&& duration_of(secs, nanos) == text::dec(told / 10) + "."@ + text::dec(told % 10)
                + "s"@
        }),
{
}

/// A time of a minute or more is told in whole minutes and the seconds over them,
/// those in two digits.
pub proof fn lemma_a_long_time_is_told_in_minutes(secs: nat, nanos: nat)
    requires
        secs >= 60,
    ensures
        exists|minutes: nat, over: nat|
            minutes * 60 + over == secs && over < 60 && duration_of(secs, nanos)
                == #[trigger] text::dec(minutes) + "m"@ + #[trigger] two_digits(over) + "s"@,
        forall|n: nat|
            n < 60 ==> (#[trigger] two_digits(n)).len() == 2 && text::spelt(two_digits(n)) == n,
{
    let minutes = secs / 60;
    let over = secs % 60;
    assert(duration_of(secs, nanos) == text::dec(minutes) + "m"@ + two_digits(over) + "s"@);
    assert forall|n: nat| n < 60 implies (#[trigger] two_digits(n)).len() == 2 && text::spelt(
        two_digits(n),
    ) == n by {
        reveal_strlit("0");
        text::lemma_decimals_read_back(n);
        if n < 10 {
            let said = "0"@ + text::dec(n);
            assert(text::dec(n).len() == 1);
            assert(said.drop_last() =~= seq!['0']);
            assert(seq!['0'].drop_last() =~= Seq::<char>::empty());
            assert(text::spelt(seq!['0'].drop_last()) == 0);
            assert(text::spelt(seq!['0']) == 0);
            assert(said.last() == text::dec(n).last());
            assert(text::dec(n).drop_last() =~= Seq::<char>::empty());
            assert(text::spelt(text::dec(n).drop_last()) == 0);
        } else {
            assert(n / 10 < 10);
            assert(text::dec(n / 10).len() == 1);
            assert(text::dec(n).len() == 2);
        }
    }
}

/// A count of milliseconds is told as the time it is.
pub proof fn lemma_milliseconds_are_told_as_time(millis: u64)
    ensures
        millis_of(millis) == duration_of(
            (millis / 1000) as nat,
            ((millis % 1000) * 1_000_000) as nat,
        ),
        (millis / 1000) * 1_000_000_000 + (millis % 1000) * 1_000_000 == millis * 1_000_000,
{
}

/// Under a thousand a count is told exactly. From there on it is told in
/// thousands, and from a million on in millions: under a hundred of them to the
/// nearest tenth, a round one without it, and from a hundred on to the nearest
/// one.
pub proof fn lemma_a_count_is_told_to_its_scale(count: nat)
    ensures
        count < 1_000 ==> tokens_of(count) == text::dec(count),
        1_000 <= count < 100_000 ==> exists|t: nat| #[trigger]
            nearest_tenth(t, count, 1_000) && tokens_of(count) == in_tenths(t) + "K"@,
        100_000 <= count < 1_000_000 ==> exists|n: nat| #[trigger]
            nearest(n, count, 1_000) && tokens_of(count) == text::dec(n) + "K"@,
        1_000_000 <= count < 100_000_000 ==> exists|t: nat| #[trigger]
            nearest_tenth(t, count, 1_000_000) && tokens_of(count) == in_tenths(t) + "M"@,
        100_000_000 <= count ==> exists|n: nat| #[trigger]
            nearest(n, count, 1_000_000) && tokens_of(count) == text::dec(n) + "M"@,
{
    if 1_000 <= count < 100_000 {
        assert(nearest_tenth((count * 10 + 500) / 1_000, count, 1_000));
    } else if 100_000 <= count < 1_000_000 {
        assert(nearest((count + 500) / 1_000, count, 1_000));
    } else if 1_000_000 <= count < 100_000_000 {
        assert(nearest_tenth((count * 10 + 500_000) / 1_000_000, count, 1_000_000));
    } else if 100_000_000 <= count {
        assert(nearest((count + 500_000) / 1_000_000, count, 1_000_000));
    }
}

/// Whether `n` units are as near to a count as whole units get.
pub open spec fn nearest(n: nat, count: nat, unit: nat) -> bool {
    2 * n * unit <= 2 * count + unit && 2 * count <= 2 * n * unit + unit
}

/// Whether `t` tenths of a unit are as near to a count as whole tenths get.
pub open spec fn nearest_tenth(t: nat, count: nat, unit: nat) -> bool {
    nearest(t, count * 10, unit)
}

/// So many tenths as they are told: the whole of them, and the tenth over where
/// there is one.
pub open spec fn in_tenths(t: nat) -> Seq<char> {
    if t % 10 == 0 {
        text::dec(t / 10)
    } else {
        text::dec(t / 10) + "."@ + text::dec(t % 10)
    }
}

/// A time that stands just between two tenths, and that a binary fraction holds
/// exactly, is told by the even one.
pub proof fn lemma_an_exact_tie_is_told_by_the_even_tenth(secs: nat, nanos: nat)
    requires
        secs < 60,
        nanos == 250_000_000 || nanos == 750_000_000,
    ensures
        tenths(secs, nanos) % 2 == 0,
{
    assert((2 * (secs * 10 + nanos / 100_000_000) + 1) % 5 == 0);
}

} // verus!
