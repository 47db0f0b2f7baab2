//! The playback clock: a position on the merged timeline that advances,
//! pauses and seeks, and delivers each event exactly once as the position
//! crosses its timestamp.
//!
//! The position is the musical time in microseconds; a session starts at
//! `-lead_in` so the display can show notes approaching before audible
//! time zero. A monotonically advancing cursor into the sorted merged
//! events makes `update` cost proportional to the events crossed.

use vstd::prelude::*;

use crate::events::MidiEvent;
use crate::tempo::MAX_TIME_US;
use crate::track::{events_bounded, events_sorted, MidiTrack};

verus! {

/// The clock: lead-in, current musical position, delivery cursor, pause
/// flag.
#[derive(Clone, Copy, PartialEq, Eq, Structural, Debug)]
pub struct PlaybackState {
    pub lead_in_us: u64,
    pub position_us: i64,
    pub cursor: usize,
    pub paused: bool,
}

/// The delivery cursor that belongs to position `p`: the number of events
/// whose timestamp is at or before `p` (for a sorted sequence, the
/// partition point).
pub open spec fn cursor_for(events: Seq<MidiEvent>, p: int) -> int
    decreases events.len(),
{
    if events.len() == 0 {
        0
    } else if events.last().timestamp_us <= p {
        events.len() as int
    } else {
        cursor_for(events.drop_last(), p)
    }
}

/// The events with timestamps in the half-open window `(p0, p1]`, in order.
pub open spec fn events_in_window(events: Seq<MidiEvent>, p0: int, p1: int) -> Seq<MidiEvent>
    decreases events.len(),
{
    if events.len() == 0 {
        Seq::empty()
    } else {
        let init = events_in_window(events.drop_last(), p0, p1);
        if p0 < events.last().timestamp_us <= p1 {
            init.push(events.last())
        } else {
            init
        }
    }
}

/// For sorted events, [`cursor_for`] is the partition point: everything
/// before it is at or before `p`, everything from it on is after `p`.
pub proof fn lemma_cursor_for_props(events: Seq<MidiEvent>, p: int)
    requires
        events_sorted(events),
    ensures
        0 <= cursor_for(events, p) <= events.len(),
        forall|i: int|
            0 <= i < cursor_for(events, p) ==> (#[trigger] events[i]).timestamp_us <= p,
        forall|i: int|
            cursor_for(events, p) <= i < events.len() ==> (#[trigger] events[i]).timestamp_us > p,
    decreases events.len(),
{
    if events.len() == 0 {
    } else if events.last().timestamp_us <= p {
        assert forall|i: int| 0 <= i < events.len() implies (#[trigger] events[i]).timestamp_us
            <= p by {
            assert(events[i].timestamp_us <= events[events.len() - 1].timestamp_us);
        }
    } else {
        lemma_cursor_for_props(events.drop_last(), p);
        assert forall|i: int|
            cursor_for(events, p) <= i < events.len() implies (#[trigger] events[i]).timestamp_us
            > p by {
            if i < events.len() - 1 {
                assert(events.drop_last()[i] == events[i]);
            }
        }
        assert forall|i: int|
            0 <= i < cursor_for(events, p) implies (#[trigger] events[i]).timestamp_us <= p by {
            assert(events.drop_last()[i] == events[i]);
        }
    }
}

/// Any index with the partition properties is [`cursor_for`].
pub proof fn lemma_cursor_unique(events: Seq<MidiEvent>, p: int, c: int)
    requires
        events_sorted(events),
        0 <= c <= events.len(),
        forall|i: int| 0 <= i < c ==> (#[trigger] events[i]).timestamp_us <= p,
        forall|i: int| c <= i < events.len() ==> (#[trigger] events[i]).timestamp_us > p,
    ensures
        c == cursor_for(events, p),
{
    lemma_cursor_for_props(events, p);
    let c2 = cursor_for(events, p);
    if c < c2 {
        assert(events[c].timestamp_us <= p);
        assert(events[c].timestamp_us > p);
    } else if c2 < c {
        assert(events[c2].timestamp_us <= p);
        assert(events[c2].timestamp_us > p);
    }
}

/// The cursor always lies between 0 and the number of events.
pub proof fn lemma_cursor_for_bounds(events: Seq<MidiEvent>, p: int)
    ensures
        0 <= cursor_for(events, p) <= events.len(),
    decreases events.len(),
{
    if events.len() > 0 {
        lemma_cursor_for_bounds(events.drop_last(), p);
    }
}

/// A larger position never has a smaller cursor.
pub proof fn lemma_cursor_for_monotone(events: Seq<MidiEvent>, p: int, q: int)
    requires
        p <= q,
    ensures
        cursor_for(events, p) <= cursor_for(events, q),
    decreases events.len(),
{
    lemma_cursor_for_bounds(events, p);
    lemma_cursor_for_bounds(events, q);
    if events.len() > 0 {
        lemma_cursor_for_monotone(events.drop_last(), p, q);
        lemma_cursor_for_bounds(events.drop_last(), p);
    }
}

/// For sorted events, the window `(p0, p1]` is exactly the subrange between
/// the two partition points.
pub proof fn lemma_window_is_subrange(events: Seq<MidiEvent>, p0: int, p1: int)
    requires
        events_sorted(events),
        p0 <= p1,
    ensures
        events_in_window(events, p0, p1) == events.subrange(
            cursor_for(events, p0),
            cursor_for(events, p1),
        ),
    decreases events.len(),
{
    let c0 = cursor_for(events, p0);
    let c1 = cursor_for(events, p1);
    lemma_cursor_for_props(events, p0);
    lemma_cursor_for_props(events, p1);
    lemma_cursor_for_monotone(events, p0, p1);
    if events.len() == 0 {
        assert(events_in_window(events, p0, p1) =~= events.subrange(c0, c1));
    } else {
        assert(events_sorted(events.drop_last())) by {
            assert(forall|i: int, j: int|
                0 <= i <= j < events.drop_last().len() ==> (#[trigger] events.drop_last()[i]).timestamp_us
                    <= (#[trigger] events.drop_last()[j]).timestamp_us);
        }
        lemma_window_is_subrange(events.drop_last(), p0, p1);
        let e = events.last();
        if e.timestamp_us <= p0 {
            assert(c0 == events.len());
            assert(c1 == events.len());
            assert(events_in_window(events.drop_last(), p0, p1) =~= events.drop_last().subrange(
                cursor_for(events.drop_last(), p0),
                cursor_for(events.drop_last(), p1),
            ));
            assert(cursor_for(events.drop_last(), p0) == events.drop_last().len()) by {
                lemma_cursor_unique(events.drop_last(), p0, events.drop_last().len() as int);
            }
            assert(cursor_for(events.drop_last(), p1) == events.drop_last().len()) by {
                lemma_cursor_unique(events.drop_last(), p1, events.drop_last().len() as int);
            }
            assert(events_in_window(events, p0, p1) =~= events.subrange(c0, c1));
        } else if e.timestamp_us <= p1 {
            assert(c1 == events.len());
            assert(c0 == cursor_for(events.drop_last(), p0));
            assert(cursor_for(events.drop_last(), p1) == events.drop_last().len()) by {
                lemma_cursor_unique(events.drop_last(), p1, events.drop_last().len() as int);
            }
            assert(events_in_window(events, p0, p1) =~= events.subrange(c0, c1));
        } else {
            assert(c1 == cursor_for(events.drop_last(), p1));
            assert(c0 == cursor_for(events.drop_last(), p0));
            assert(events.subrange(c0, c1) =~= events.drop_last().subrange(c0, c1));
            assert(events_in_window(events, p0, p1) =~= events.subrange(c0, c1));
        }
    }
}

/// The position reached by advancing `elapsed` from `s` (saturating at the
/// top of `i64`); a paused clock does not move.
pub open spec fn advanced_position(s: PlaybackState, elapsed: int) -> int {
    if s.paused {
        s.position_us as int
    } else if s.position_us + elapsed > i64::MAX {
        i64::MAX as int
    } else {
        s.position_us + elapsed
    }
}

/// The clock state after advancing by `elapsed` over `events`.
pub open spec fn advance_state(s: PlaybackState, events: Seq<MidiEvent>, elapsed: int) -> PlaybackState {
    let p1 = advanced_position(s, elapsed);
    PlaybackState {
        position_us: p1 as i64,
        cursor: cursor_for(events, p1) as usize,
        ..s
    }
}

/// The events delivered by advancing `s` by `elapsed` over `events`.
pub open spec fn advance_delivery(s: PlaybackState, events: Seq<MidiEvent>, elapsed: int) -> Seq<
    MidiEvent,
> {
    if s.paused {
        Seq::empty()
    } else {
        events.subrange(s.cursor as int, cursor_for(events, advanced_position(s, elapsed)))
    }
}

/// The clock state after seeking `s` to `target` (clamped at `-lead_in`):
/// the position jumps and the cursor is recomputed; nothing is delivered.
pub open spec fn seek_state(s: PlaybackState, events: Seq<MidiEvent>, target: int) -> PlaybackState {
    let p = if target < -(s.lead_in_us as int) {
        -(s.lead_in_us as int)
    } else {
        target
    };
    PlaybackState { position_us: p as i64, cursor: cursor_for(events, p) as usize, ..s }
}

impl PlaybackState {
    /// The clock is consistent with `events`: the cursor splits them into
    /// the delivered prefix (at or before the position) and the pending
    /// suffix (after it).
    pub open spec fn wf(&self, events: Seq<MidiEvent>) -> bool {
        &&& self.lead_in_us <= MAX_TIME_US
        &&& self.position_us >= -(self.lead_in_us as int)
        &&& self.cursor <= events.len()
        &&& forall|i: int|
            0 <= i < self.cursor ==> (#[trigger] events[i]).timestamp_us <= self.position_us
        &&& forall|i: int|
            self.cursor <= i < events.len() ==> (#[trigger] events[i]).timestamp_us
                > self.position_us
    }

    /// A fresh clock for `track`: running, positioned at `-lead_in`, with
    /// nothing delivered yet.
    pub fn new(lead_in_us: u64, track: &MidiTrack) -> (r: PlaybackState)
        requires
            lead_in_us <= MAX_TIME_US,
            events_sorted(track.events@),
            events_bounded(track.events@),
        ensures
            r.wf(track.events@),
            r.lead_in_us == lead_in_us,
            r.position_us == -(lead_in_us as int),
            r.cursor == cursor_for(track.events@, -(lead_in_us as int)),
            !r.paused,
    {
        let position_us: i64 = -(lead_in_us as i64);
        let cursor = partition_idx(&track.events, position_us);
        proof {
            lemma_cursor_unique(track.events@, position_us as int, cursor as int);
        }
        PlaybackState { lead_in_us, position_us, cursor, paused: false }
    }

    /// Advance the clock by `elapsed_us` and deliver every event whose
    /// timestamp lies in `(previous position, new position]`, in order.
    /// A paused clock stays put and delivers nothing.
    pub fn update(&mut self, track: &MidiTrack, elapsed_us: u64) -> (r: Vec<MidiEvent>)
        requires
            events_sorted(track.events@),
            events_bounded(track.events@),
            old(self).wf(track.events@),
        ensures
            *final(self) == advance_state(*old(self), track.events@, elapsed_us as int),
            r@ == advance_delivery(*old(self), track.events@, elapsed_us as int),
            r@ == if old(self).paused {
                Seq::<MidiEvent>::empty()
            } else {
                events_in_window(
                    track.events@,
                    old(self).position_us as int,
                    final(self).position_us as int,
                )
            },
            final(self).wf(track.events@),
    {
        if self.paused {
            proof {
                lemma_cursor_unique(track.events@, self.position_us as int, self.cursor as int);
                assert(Seq::<MidiEvent>::empty() =~= track.events@.subrange(
                    self.cursor as int,
                    self.cursor as int,
                ));
            }
            return Vec::new();
        }
        let sum: i128 = (self.position_us as i128) + (elapsed_us as i128);
        let p1: i64 = if sum > (i64::MAX as i128) {
            i64::MAX
        } else {
            sum as i64
        };
        let ghost p0 = self.position_us as int;
        let mut out: Vec<MidiEvent> = Vec::new();
        proof {
            lemma_cursor_unique(track.events@, p0, self.cursor as int);
            lemma_cursor_for_monotone(track.events@, p0, p1 as int);
            lemma_cursor_for_props(track.events@, p1 as int);
            assert(out@ =~= track.events@.subrange(self.cursor as int, self.cursor as int));
        }
        let ghost c0 = self.cursor as int;
        while self.cursor < track.events.len() && (track.events[self.cursor].timestamp_us as i64)
            <= p1
            invariant
                events_sorted(track.events@),
                events_bounded(track.events@),
                p1 as int == advanced_position(*old(self), elapsed_us as int),
                c0 <= self.cursor <= track.events@.len(),
                c0 == old(self).cursor,
                self.lead_in_us == old(self).lead_in_us,
                self.position_us == old(self).position_us,
                self.paused == old(self).paused,
                !self.paused,
                out@ == track.events@.subrange(c0, self.cursor as int),
                forall|i: int|
                    c0 <= i < self.cursor ==> (#[trigger] track.events@[i]).timestamp_us <= p1,
                forall|i: int| 0 <= i < c0 ==> (#[trigger] track.events@[i]).timestamp_us <= p1,
            decreases track.events@.len() - self.cursor,
        {
            out.push(track.events[self.cursor]);
            proof {
                assert(out@ =~= track.events@.subrange(c0, self.cursor + 1));
            }
            self.cursor = self.cursor + 1;
        }
        self.position_us = p1;
        proof {
            lemma_cursor_unique(track.events@, p1 as int, self.cursor as int);
            lemma_window_is_subrange(track.events@, p0, p1 as int);
        }
        out
    }

    /// Jump to `target_us` (clamped to at least `-lead_in`) and recompute
    /// the cursor. Events between the old and new cursor are deliberately
    /// discarded; the caller re-derives output and instrument state.
    pub fn seek(&mut self, track: &MidiTrack, target_us: i64)
        requires
            events_sorted(track.events@),
            events_bounded(track.events@),
            old(self).lead_in_us <= MAX_TIME_US,
        ensures
            *final(self) == seek_state(*old(self), track.events@, target_us as int),
            final(self).wf(track.events@),
    {
        let floor: i64 = -(self.lead_in_us as i64);
        let p: i64 = if target_us < floor {
            floor
        } else {
            target_us
        };
        let cursor = partition_idx(&track.events, p);
        proof {
            lemma_cursor_unique(track.events@, p as int, cursor as int);
        }
        self.position_us = p;
        self.cursor = cursor;
    }

    /// Pause the clock. The caller must silence all sounding notes.
    pub fn pause(&mut self)
        ensures
            *final(self) == (PlaybackState { paused: true, ..*old(self) }),
    {
        self.paused = true;
    }

    /// Resume the clock from where it stands.
    pub fn resume(&mut self)
        ensures
            *final(self) == (PlaybackState { paused: false, ..*old(self) }),
    {
        self.paused = false;
    }

    pub fn is_paused(&self) -> (r: bool)
        ensures
            r == self.paused,
    {
        self.paused
    }

    /// The musical position, which already excludes the lead-in head start.
    pub fn time_us(&self) -> (r: i64)
        ensures
            r == self.position_us,
    {
        self.position_us
    }
}

/// First index whose event timestamp exceeds `p` (all of them, since the
/// events are sorted).
fn partition_idx(events: &Vec<MidiEvent>, p: i64) -> (r: usize)
    requires
        events_sorted(events@),
        events_bounded(events@),
    ensures
        r <= events@.len(),
        forall|i: int| 0 <= i < r ==> (#[trigger] events@[i]).timestamp_us <= p,
        forall|i: int| r <= i < events@.len() ==> (#[trigger] events@[i]).timestamp_us > p,
{
    let mut lo: usize = 0;
    let mut hi: usize = events.len();
    while lo < hi
        invariant
            events_sorted(events@),
            events_bounded(events@),
            lo <= hi <= events@.len(),
            forall|i: int| 0 <= i < lo ==> (#[trigger] events@[i]).timestamp_us <= p,
            forall|i: int| hi <= i < events@.len() ==> (#[trigger] events@[i]).timestamp_us > p,
        decreases hi - lo,
    {
        let mid: usize = lo + (hi - lo) / 2;
        if (events[mid].timestamp_us as i64) <= p {
            proof {
                assert forall|i: int| 0 <= i < mid + 1 implies (#[trigger] events@[i]).timestamp_us
                    <= p by {
                    assert(events@[i].timestamp_us <= events@[mid as int].timestamp_us);
                }
            }
            lo = mid + 1;
        } else {
            proof {
                assert forall|i: int|
                    mid <= i < events@.len() implies (#[trigger] events@[i]).timestamp_us > p by {
                    assert(events@[mid as int].timestamp_us <= events@[i].timestamp_us);
                }
            }
            hi = mid;
        }
    }
    lo
}

/// Seeking a consistent clock to its own position changes nothing: the
/// recomputed cursor is the one it already has, so no event is delivered
/// twice after an advance followed by a seek to the same position.
pub proof fn lemma_seek_to_current_is_identity(s: PlaybackState, events: Seq<MidiEvent>)
    requires
        events_sorted(events),
        s.wf(events),
    ensures
        seek_state(s, events, s.position_us as int) == s,
{
    lemma_cursor_unique(events, s.position_us as int, s.cursor as int);
}

/// Advancing in two chunks reaches the same state as advancing once by the
/// total, and the two delivered batches concatenate to the single batch:
/// chunking elapsed time across frames loses and duplicates nothing.
pub proof fn lemma_advance_chunked(
    s: PlaybackState,
    events: Seq<MidiEvent>,
    d1: int,
    d2: int,
)
    requires
        events_sorted(events),
        s.wf(events),
        events.len() <= usize::MAX,
        d1 >= 0,
        d2 >= 0,
    ensures
        advance_state(advance_state(s, events, d1), events, d2) == advance_state(
            s,
            events,
            d1 + d2,
        ),
        advance_delivery(s, events, d1) + advance_delivery(
            advance_state(s, events, d1),
            events,
            d2,
        ) == advance_delivery(s, events, d1 + d2),
{
    let s1 = advance_state(s, events, d1);
    let p0 = s.position_us as int;
    let p1 = advanced_position(s, d1);
    let p2 = advanced_position(s1, d2);
    let pt = advanced_position(s, d1 + d2);
    lemma_cursor_for_props(events, p1);
    lemma_cursor_for_props(events, pt);
    assert(p2 == pt);
    if s.paused {
        assert(advance_delivery(s, events, d1) + advance_delivery(s1, events, d2)
            =~= advance_delivery(s, events, d1 + d2));
    } else {
        assert(p0 <= p1);
        assert(p1 <= pt);
        lemma_cursor_unique(events, p0, s.cursor as int);
        lemma_cursor_for_monotone(events, p0, p1);
        lemma_cursor_for_monotone(events, p1, pt);
        let c0 = s.cursor as int;
        let c1 = cursor_for(events, p1);
        let ct = cursor_for(events, pt);
        assert(0 <= c0 <= c1 <= ct <= events.len());
        assert(s1.cursor as int == c1);
        assert(events.subrange(c0, c1) + events.subrange(c1, ct) =~= events.subrange(c0, ct));
        assert(advance_delivery(s, events, d1) + advance_delivery(s1, events, d2)
            =~= advance_delivery(s, events, d1 + d2));
    }
}

} // verus!
