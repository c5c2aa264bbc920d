//! When the next event of a journal played back is allowed to arrive.
//!
//! A recorded gap is clamped and only then divided by the speed: the recording
//! sets the rhythm, the clamp keeps it watchable. An offline turn writes its
//! events inside one millisecond, and a slow model may have waited minutes;
//! neither is worth watching as it was.
use vstd::prelude::*;

use crate::render::figures::Elapsed;
use crate::render::timeline;

verus! {

/// The shortest a gap may become, in milliseconds.
pub const FLOOR: u64 = 140;

/// The longest a gap may become, in milliseconds.
pub const CEILING: u64 = 2000;

/// What one recorded gap becomes before the speed divides it.
pub open spec fn clamped(gap: u64) -> u64 {
    if gap < FLOOR {
        FLOOR
    } else if gap > CEILING {
        CEILING
    } else {
        gap
    }
}

/// What one recorded gap becomes before the speed divides it, in milliseconds.
pub fn pace(gap: u64) -> (ms: u64)
    ensures
        ms == clamped(gap),
{
    if gap < FLOOR {
        FLOOR
    } else if gap > CEILING {
        CEILING
    } else {
        gap
    }
}

/// How far into the turn a recorded moment is.
pub fn since(start: u64, time: u64) -> (e: Elapsed)
    ensures
        e.wf(),
        e.secs == timeline::late(start, time) / 1000,
        e.nanos == (timeline::late(start, time) % 1000) * 1_000_000,
{
    Elapsed::from_millis(time.saturating_sub(start))
}

/// How long the block is held before an event, and what its clock reads
/// meanwhile: the journal's own time, not the playback's.
#[derive(Clone, Copy, Debug, PartialEq, Eq, Structural)]
pub struct Hold {
    /// The gap before the speed divides it, in milliseconds.
    pub gap: u64,
    pub elapsed: Elapsed,
}

/// A journal being played back.
#[derive(Clone, Copy, Debug, PartialEq, Eq, Structural)]
pub struct Playback {
    pub start: Option<u64>,
    pub previous: Option<u64>,
}

impl Playback {
    /// A playback that has shown nothing yet.
    pub fn new() -> (p: Playback)
        ensures
            p == (Playback { start: None, previous: None }),
    {
        Playback { start: None, previous: None }
    }

    /// The playback once an event has been shown.
    pub open spec fn shown(self, time: u64) -> Playback {
        Playback {
            start: match self.start {
                Some(start) => Some(start),
                None => Some(time),
            },
            previous: Some(time),
        }
    }

    /// Whether to hold the block before the event at `time`. Nothing waits
    /// where nobody is watching, and nothing before the first event.
    pub fn next(&mut self, animated: bool, time: u64) -> (h: Option<Hold>)
        ensures
            *final(self) == old(self).shown(time),
            h is Some <==> animated && old(self).previous is Some,
            h matches Some(hold) ==> {
                let before = old(self).previous->0;
                let start = match old(self).start {
                    Some(start) => start,
                    None => 0,
                };
                &&& hold.gap == clamped(timeline::late(before, time))
                &&& hold.elapsed.wf()
                &&& hold.elapsed.secs == timeline::late(start, before) / 1000
                &&& hold.elapsed.nanos == (timeline::late(start, before) % 1000) * 1_000_000
            },
    {
        let hold = match self.previous {
            Some(before) => if animated {
                let start: u64 = match self.start {
                    Some(start) => start,
                    None => 0,
                };
                Some(
                    Hold { gap: pace(time.saturating_sub(before)), elapsed: since(start, before) },
                )
            } else {
                None
            },
            None => None,
        };
        if self.start.is_none() {
            self.start = Some(time);
        }
        self.previous = Some(time);
        hold
    }
}

/// Every gap is watchable: no shorter than the floor, no longer than the
/// ceiling, and the recording's own between them.
pub proof fn lemma_every_gap_is_watchable(gap: u64)
    ensures
        FLOOR <= clamped(gap) <= CEILING,
        FLOOR <= gap <= CEILING ==> clamped(gap) == gap,
{
}

/// A longer recorded gap is never played shorter.
pub proof fn lemma_the_recording_sets_the_rhythm(shorter: u64, longer: u64)
    requires
        shorter <= longer,
    ensures
        clamped(shorter) <= clamped(longer),
{
}

/// A gap is played no shorter than a seventh of a second or so and no longer than
/// two seconds, and between those as it was recorded.
pub proof fn lemma_a_gap_is_held_between_its_bounds(gap: u64)
    ensures
        gap <= 140 ==> clamped(gap) == 140,
        140 <= gap <= 2000 ==> clamped(gap) == gap,
        gap >= 2000 ==> clamped(gap) == 2000,
{
}

/// A playback keeps when it started and when it last showed something: the start
/// is set by the first thing shown and stands, and the last moves with each.
pub proof fn lemma_a_playback_keeps_its_start(playback: Playback, time: u64, next: u64)
    ensures
        playback.shown(time).previous == Some(time),
        playback.start is None ==> playback.shown(time).start == Some(time),
        playback.start is Some ==> playback.shown(time).start == playback.start,
        playback.shown(time).shown(next).start == playback.shown(time).start,
{
}

/// Whatever is held before the next thing is shown is the gap since the last one,
/// within its bounds, with the time since the start on the clock; nothing is held
/// before the first, nor where nothing moves.
pub proof fn lemma_a_playback_holds_the_recorded_gap(
    playback: &mut Playback,
    animated: bool,
    time: u64,
    held: Option<Hold>,
)
    requires
        call_ensures(Playback::next, (playback, animated, time), held),
    ensures
        held is Some <==> animated && old(playback).previous is Some,
        final(playback).previous == Some(time),
        held matches Some(hold) ==> {
            let gap = time - old(playback).previous->0;
            &&& 140 <= gap <= 2000 ==> hold.gap == gap
            &&& gap < 140 ==> hold.gap == 140
            &&& gap > 2000 ==> hold.gap == 2000
            &&& old(playback).start matches Some(start) ==> start <= old(playback).previous->0
                ==> hold.elapsed.secs * 1000 <= old(playback).previous->0 - start < (
            hold.elapsed.secs + 1) * 1000
        },
{
}

/// Whatever is told of the time since a start is that time, to the millisecond.
pub proof fn lemma_time_since_a_start_is_told_to_the_millisecond(
    start: u64,
    time: u64,
    since_start: Elapsed,
)
    requires
        call_ensures(since, (start, time), since_start),
        start <= time,
    ensures
        since_start.secs * 1000 + since_start.nanos / 1_000_000 == time - start,
{
}

} // verus!
