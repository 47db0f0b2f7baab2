//! The tempo map: piecewise tempo segments that convert tick-based MIDI
//! timestamps into absolute time in microseconds.
//!
//! Tempo-change events from all tracks are merged into one sequence that
//! ascends by tick; for each resulting segment the absolute start time is
//! precomputed by integrating elapsed time across the preceding segments.
//! All times saturate at [`MAX_TIME_US`] instead of overflowing.

use vstd::prelude::*;

use crate::events::{tracks_view, RawEventKind, RawTrackEvent};

verus! {

/// Default tempo (120 beats per minute) used for the segment at tick 0 when
/// the file provides no earlier tempo event.
pub const DEFAULT_MICROS_PER_QUARTER: u32 = 500000;

/// Upper bound on every absolute time the engine computes; additions that
/// would pass it saturate here.
pub const MAX_TIME_US: u64 = 0x4000000000000000;

/// One tempo segment: from `start_tick` (at absolute time `start_time_us`)
/// onward, one quarter note lasts `micros_per_quarter` microseconds.
#[derive(Clone, Copy, PartialEq, Eq, Structural, Debug)]
pub struct TempoSegment {
    pub start_tick: u64,
    pub start_time_us: u64,
    pub micros_per_quarter: u32,
}

/// The tempo map of a file: its ticks-per-quarter-note constant and the
/// merged, ascending-by-tick tempo segments.
#[derive(Debug)]
pub struct TempoTrack {
    pub ticks_per_quarter: u16,
    pub segments: Vec<TempoSegment>,
}

/// Clamp a mathematical time value to the saturation bound.
pub open spec fn cap_time(t: int) -> int {
    if t > MAX_TIME_US { MAX_TIME_US as int } else { t }
}

/// Wall time spanned by `dtick` ticks at `uspq` microseconds per quarter,
/// with `tpq` ticks per quarter (integer division, as computed throughout).
pub open spec fn delta_time_us(dtick: int, uspq: int, tpq: int) -> int {
    dtick * uspq / tpq
}

/// The `(tick, micros_per_quarter)` pairs of one track's tempo events, with
/// delta ticks accumulated (saturating) starting from `start_tick`.
pub open spec fn spec_tempo_points(events: Seq<RawTrackEvent>, start_tick: u64) -> Seq<(u64, u32)>
    decreases events.len(),
{
    if events.len() == 0 {
        Seq::empty()
    } else {
        let t = start_tick.saturating_add(events[0].delta_ticks as u64);
        let rest = spec_tempo_points(events.drop_first(), t);
        match events[0].kind {
            RawEventKind::Tempo { micros_per_quarter } => seq![(t, micros_per_quarter)] + rest,
            _ => rest,
        }
    }
}

/// Stable insertion of `x` into `s` by tick: `x` lands after every element
/// whose tick is less than or equal to its own.
pub open spec fn insert_by_tick(s: Seq<(u64, u32)>, x: (u64, u32)) -> Seq<(u64, u32)>
    decreases s.len(),
{
    if s.len() == 0 {
        seq![x]
    } else if s.last().0 > x.0 {
        insert_by_tick(s.drop_last(), x).push(s.last())
    } else {
        s.push(x)
    }
}

/// Stable insertion sort of tempo points by tick.
pub open spec fn sort_by_tick(s: Seq<(u64, u32)>) -> Seq<(u64, u32)>
    decreases s.len(),
{
    if s.len() == 0 {
        Seq::empty()
    } else {
        insert_by_tick(sort_by_tick(s.drop_last()), s.last())
    }
}

pub open spec fn points_sorted(s: Seq<(u64, u32)>) -> bool {
    forall|i: int, j: int| 0 <= i <= j < s.len() ==> (#[trigger] s[i]).0 <= (#[trigger] s[j]).0
}

/// The segment that a tempo point opens, given the segment `prev` that
/// precedes it: its start time is `prev`'s start time plus the time the
/// intervening ticks span at `prev`'s tempo, saturated.
pub open spec fn seg_of_point(p: (u64, u32), prev: TempoSegment, tpq: int) -> TempoSegment {
    let st = cap_time(
        prev.start_time_us + delta_time_us(
            p.0 - prev.start_tick,
            prev.micros_per_quarter as int,
            tpq,
        ),
    );
    TempoSegment { start_tick: p.0, start_time_us: st as u64, micros_per_quarter: p.1 }
}

/// Segments derived from sorted tempo points, integrating start times from
/// the segment `base`.
pub open spec fn spec_integrate(points: Seq<(u64, u32)>, base: TempoSegment, tpq: int) -> Seq<
    TempoSegment,
>
    decreases points.len(),
{
    if points.len() == 0 {
        Seq::empty()
    } else {
        let init = spec_integrate(points.drop_last(), base, tpq);
        let prev = if init.len() == 0 {
            base
        } else {
            init.last()
        };
        init.push(seg_of_point(points.last(), prev, tpq))
    }
}

/// The default segment standing at tick 0.
pub open spec fn default_segment() -> TempoSegment {
    TempoSegment {
        start_tick: 0,
        start_time_us: 0,
        micros_per_quarter: DEFAULT_MICROS_PER_QUARTER,
    }
}

/// All segments of a tempo map built from sorted points.
pub open spec fn spec_segments(points: Seq<(u64, u32)>, tpq: int) -> Seq<TempoSegment> {
    seq![default_segment()] + spec_integrate(points, default_segment(), tpq)
}

/// Index of the last segment whose start tick does not exceed `tick`
/// (assuming the first segment starts at tick 0).
pub open spec fn seg_index(segs: Seq<TempoSegment>, tick: u64) -> int
    decreases segs.len(),
{
    if segs.len() <= 1 {
        0
    } else if segs.last().start_tick <= tick {
        segs.len() - 1
    } else {
        seg_index(segs.drop_last(), tick)
    }
}

pub open spec fn segments_sorted(segs: Seq<TempoSegment>) -> bool {
    forall|i: int, j: int|
        0 <= i <= j < segs.len() ==> (#[trigger] segs[i]).start_tick <= (
        #[trigger] segs[j]).start_tick
}

impl TempoTrack {
    /// Well-formedness: a positive tick division, a first segment at tick 0
    /// and time 0, ticks ascending, times below the saturation bound, and
    /// each start time integrated from its predecessor.
    pub open spec fn wf(&self) -> bool {
        &&& self.ticks_per_quarter >= 1
        &&& self.segments@.len() >= 1
        &&& self.segments@[0].start_tick == 0
        &&& self.segments@[0].start_time_us == 0
        &&& segments_sorted(self.segments@)
        &&& forall|i: int|
            0 <= i < self.segments@.len() ==> (#[trigger] self.segments@[i]).start_time_us
                <= MAX_TIME_US
        &&& forall|i: int|
            1 <= i < self.segments@.len() ==> (#[trigger] self.segments@[i]).start_time_us
                == cap_time(
                self.segments@[i - 1].start_time_us + delta_time_us(
                    self.segments@[i].start_tick - self.segments@[i - 1].start_tick,
                    self.segments@[i - 1].micros_per_quarter as int,
                    self.ticks_per_quarter as int,
                ),
            )
    }

    /// The absolute time of `tick`: locate the governing segment and
    /// extrapolate at its tempo, saturating at the time bound.
    pub open spec fn tick_to_time_spec(&self, tick: u64) -> int {
        let i = seg_index(self.segments@, tick);
        let seg = self.segments@[i];
        cap_time(
            seg.start_time_us + delta_time_us(
                tick - seg.start_tick,
                seg.micros_per_quarter as int,
                self.ticks_per_quarter as int,
            ),
        )
    }
}

/// Inserting by tick keeps the sequence sorted.
proof fn lemma_insert_by_tick_sorted(s: Seq<(u64, u32)>, x: (u64, u32))
    requires
        points_sorted(s),
    ensures
        points_sorted(insert_by_tick(s, x)),
        insert_by_tick(s, x).len() == s.len() + 1,
    decreases s.len(),
{
    if s.len() == 0 {
    } else if s.last().0 > x.0 {
        lemma_insert_by_tick_sorted(s.drop_last(), x);
        let r = insert_by_tick(s.drop_last(), x).push(s.last());
        assert(forall|i: int|
            0 <= i < insert_by_tick(s.drop_last(), x).len() ==> (#[trigger] insert_by_tick(
                s.drop_last(),
                x,
            )[i]).0 <= s.last().0) by {
            assert(forall|i: int|
                0 <= i < s.drop_last().len() ==> (#[trigger] s.drop_last()[i]).0 <= s.last().0);
            lemma_insert_by_tick_bound(s.drop_last(), x, s.last().0);
        }
        assert(points_sorted(r));
    } else {
        assert(forall|i: int| 0 <= i < s.len() ==> (#[trigger] s[i]).0 <= x.0);
    }
}

/// If every element of `s` has tick at most `b` and so does `x`, the same
/// holds after inserting `x`.
proof fn lemma_insert_by_tick_bound(s: Seq<(u64, u32)>, x: (u64, u32), b: u64)
    requires
        forall|i: int| 0 <= i < s.len() ==> (#[trigger] s[i]).0 <= b,
        x.0 <= b,
    ensures
        forall|i: int|
            0 <= i < insert_by_tick(s, x).len() ==> (#[trigger] insert_by_tick(s, x)[i]).0 <= b,
    decreases s.len(),
{
    if s.len() == 0 {
        assert(insert_by_tick(s, x) =~= seq![x]);
    } else if s.last().0 > x.0 {
        assert(s.last().0 <= b);
        lemma_insert_by_tick_bound(s.drop_last(), x, b);
        let r0 = insert_by_tick(s.drop_last(), x);
        assert forall|i: int| 0 <= i < r0.push(s.last()).len() implies (#[trigger] r0.push(
            s.last(),
        )[i]).0 <= b by {
            if i < r0.len() {
                assert(r0.push(s.last())[i] == r0[i]);
            } else {
                assert(r0.push(s.last())[i] == s.last());
            }
        }
    } else {
        assert(forall|i: int| 0 <= i < s.len() ==> (#[trigger] s.push(x)[i]).0 <= b);
        assert(s.push(x)[s.len() as int] == x);
    }
}

/// The sort of any point sequence is sorted.
proof fn lemma_sort_by_tick_sorted(s: Seq<(u64, u32)>)
    ensures
        points_sorted(sort_by_tick(s)),
    decreases s.len(),
{
    if s.len() == 0 {
    } else {
        lemma_sort_by_tick_sorted(s.drop_last());
        lemma_insert_by_tick_sorted(sort_by_tick(s.drop_last()), s.last());
    }
}

/// Collect one track's tempo events as absolute-tick points.
fn track_tempo_points(track: &Vec<RawTrackEvent>, out: &mut Vec<(u64, u32)>)
    ensures
        final(out)@ == old(out)@ + spec_tempo_points(track@, 0),
{
    let ghost orig = out@;
    let mut tick: u64 = 0;
    let mut i: usize = 0;
    proof {
        assert(track@.skip(0) =~= track@);
    }
    while i < track.len()
        invariant
            i <= track.len(),
            out@ + spec_tempo_points(track@.skip(i as int), tick) == orig + spec_tempo_points(
                track@,
                0,
            ),
        decreases track.len() - i,
    {
        let ghost pre = track@.skip(i as int);
        proof {
            assert(pre.drop_first() =~= track@.skip(i + 1));
        }
        let e = track[i];
        tick = tick.saturating_add(e.delta_ticks as u64);
        match e.kind {
            RawEventKind::Tempo { micros_per_quarter } => {
                out.push((tick, micros_per_quarter));
                proof {
                    assert(out@ + spec_tempo_points(track@.skip(i + 1), tick) =~= orig
                        + spec_tempo_points(track@, 0));
                }
            },
            _ => {},
        }
        i = i + 1;
    }
    proof {
        assert(track@.skip(track@.len() as int) =~= Seq::<RawTrackEvent>::empty());
        assert(out@ =~= orig + spec_tempo_points(track@, 0));
    }
}

/// Stable insertion of one point into a tick-sorted vector.
fn insert_point(points: &mut Vec<(u64, u32)>, x: (u64, u32))
    requires
        points_sorted(old(points)@),
    ensures
        final(points)@ == insert_by_tick(old(points)@, x),
        points_sorted(final(points)@),
{
    let mut j: usize = points.len();
    while j > 0 && points[j - 1].0 > x.0
        invariant
            j <= points@.len(),
            points@ == old(points)@,
            points_sorted(points@),
            forall|k: int| j <= k < points@.len() ==> (#[trigger] points@[k]).0 > x.0,
        decreases j,
    {
        j = j - 1;
    }
    points.insert(j, x);
    proof {
        lemma_insert_at_is_insert_by_tick(old(points)@, x, j as int);
        lemma_insert_by_tick_sorted(old(points)@, x);
    }
}

/// Placing `x` at a position `j` that splits `s` into a left part with ticks
/// at most `x.0` and a right part with ticks above it is exactly the stable
/// insertion.
proof fn lemma_insert_at_is_insert_by_tick(s: Seq<(u64, u32)>, x: (u64, u32), j: int)
    requires
        0 <= j <= s.len(),
        forall|k: int| j <= k < s.len() ==> (#[trigger] s[k]).0 > x.0,
        j > 0 ==> s[j - 1].0 <= x.0,
    ensures
        s.insert(j, x) == insert_by_tick(s, x),
    decreases s.len(),
{
    if s.len() == 0 {
        assert(s.insert(0, x) =~= seq![x]);
    } else if s.last().0 > x.0 {
        assert(j < s.len());
        lemma_insert_at_is_insert_by_tick(s.drop_last(), x, j);
        assert(s.insert(j, x) =~= insert_by_tick(s.drop_last(), x).push(s.last()));
    } else {
        assert(j == s.len());
        assert(s.insert(j, x) =~= s.push(x));
    }
}

impl TempoTrack {
    /// Build the tempo map of a file: gather every track's tempo events,
    /// sort them stably by tick, and integrate segment start times.
    #[verifier::rlimit(100)]
    pub fn build(tracks: &Vec<Vec<RawTrackEvent>>, ticks_per_quarter: u16) -> (r: TempoTrack)
        requires
            ticks_per_quarter >= 1,
        ensures
            r.wf(),
            r.ticks_per_quarter == ticks_per_quarter,
            r.segments@ == spec_segments(
                sort_by_tick(all_tempo_points(tracks_view(tracks@))),
                ticks_per_quarter as int,
            ),
    {
        let mut raw_points: Vec<(u64, u32)> = Vec::new();
        let mut t: usize = 0;
        while t < tracks.len()
            invariant
                t <= tracks.len(),
                raw_points@ == all_tempo_points(tracks_view(tracks@).take(t as int)),
            decreases tracks.len() - t,
        {
            track_tempo_points(&tracks[t], &mut raw_points);
            proof {
                assert(tracks_view(tracks@).take(t + 1).drop_last() =~= tracks_view(
                    tracks@,
                ).take(t as int));
                assert(tracks_view(tracks@).take(t + 1).last() == tracks@[t as int]@);
            }
            t = t + 1;
        }
        proof {
            assert(tracks_view(tracks@).take(tracks@.len() as int) =~= tracks_view(tracks@));
        }

        let mut points: Vec<(u64, u32)> = Vec::new();
        let mut i: usize = 0;
        while i < raw_points.len()
            invariant
                i <= raw_points.len(),
                points@ == sort_by_tick(raw_points@.take(i as int)),
                points_sorted(points@),
            decreases raw_points.len() - i,
        {
            proof {
                assert(raw_points@.take(i + 1).drop_last() =~= raw_points@.take(i as int));
                assert(raw_points@.take(i + 1).last() == raw_points@[i as int]);
            }
            insert_point(&mut points, raw_points[i]);
            i = i + 1;
        }
        proof {
            assert(raw_points@.take(raw_points@.len() as int) =~= raw_points@);
        }

        let default_seg = TempoSegment {
            start_tick: 0,
            start_time_us: 0,
            micros_per_quarter: DEFAULT_MICROS_PER_QUARTER,
        };
        let mut segments: Vec<TempoSegment> = Vec::new();
        segments.push(default_seg);
        let mut prev: TempoSegment = default_seg;
        let mut k: usize = 0;
        proof {
            assert(segments@ =~= seq![default_segment()] + spec_integrate(
                points@.take(0),
                default_segment(),
                ticks_per_quarter as int,
            ));
        }
        while k < points.len()
            invariant
                k <= points.len(),
                points_sorted(points@),
                ticks_per_quarter >= 1,
                segments@ == seq![default_segment()] + spec_integrate(
                    points@.take(k as int),
                    default_segment(),
                    ticks_per_quarter as int,
                ),
                segments@.len() == k + 1,
                segments@[0] == default_segment(),
                prev == segments@.last(),
                prev.start_tick == if k == 0 {
                    0u64
                } else {
                    points@[k - 1].0
                },
                segments_sorted(segments@),
                forall|i: int|
                    0 <= i < segments@.len() ==> (#[trigger] segments@[i]).start_time_us
                        <= MAX_TIME_US,
                forall|i: int|
                    1 <= i < segments@.len() ==> (#[trigger] segments@[i]).start_time_us
                        == cap_time(
                        segments@[i - 1].start_time_us + delta_time_us(
                            segments@[i].start_tick - segments@[i - 1].start_tick,
                            segments@[i - 1].micros_per_quarter as int,
                            ticks_per_quarter as int,
                        ),
                    ),
            decreases points.len() - k,
        {
            let (ptick, puspq) = points[k];
            assert(prev.start_tick <= ptick);
            let dtick: u64 = ptick - prev.start_tick;
            proof {
                vstd::arithmetic::mul::lemma_mul_upper_bound(
                    dtick as int,
                    u64::MAX as int,
                    prev.micros_per_quarter as int,
                    u32::MAX as int,
                );
            }
            let num: u128 = (dtick as u128) * (prev.micros_per_quarter as u128);
            let add: u128 = num / (ticks_per_quarter as u128);
            let tot: u128 = (prev.start_time_us as u128) + add;
            let st: u64 = if tot > (MAX_TIME_US as u128) {
                MAX_TIME_US
            } else {
                tot as u64
            };
            let seg = TempoSegment {
                start_tick: ptick,
                start_time_us: st,
                micros_per_quarter: puspq,
            };
            proof {
                vstd::arithmetic::mul::lemma_mul_nonnegative(
                    dtick as int,
                    prev.micros_per_quarter as int,
                );
                vstd::arithmetic::div_mod::lemma_div_pos_is_pos(
                    (dtick as int) * (prev.micros_per_quarter as int),
                    ticks_per_quarter as int,
                );
                assert(seg == seg_of_point(points@[k as int], prev, ticks_per_quarter as int));
                assert(points@.take(k + 1).drop_last() =~= points@.take(k as int));
                assert(points@.take(k + 1).last() == points@[k as int]);
                assert(spec_integrate(points@.take(k + 1), default_segment(), ticks_per_quarter as int)
                    == spec_integrate(
                    points@.take(k as int),
                    default_segment(),
                    ticks_per_quarter as int,
                ).push(seg));
                assert(forall|i: int|
                    0 <= i < segments@.len() ==> (#[trigger] segments@[i]).start_tick
                        <= prev.start_tick);
            }
            segments.push(seg);
            prev = seg;
            k = k + 1;
            proof {
                assert(segments@ =~= seq![default_segment()] + spec_integrate(
                    points@.take(k as int),
                    default_segment(),
                    ticks_per_quarter as int,
                ));
            }
        }
        proof {
            assert(points@.take(points@.len() as int) =~= points@);
            lemma_sort_by_tick_sorted(raw_points@);
        }
        TempoTrack { ticks_per_quarter, segments }
    }
}

/// All tracks' tempo points, in track order.
pub open spec fn all_tempo_points(tracks: Seq<Seq<RawTrackEvent>>) -> Seq<(u64, u32)>
    decreases tracks.len(),
{
    if tracks.len() == 0 {
        Seq::empty()
    } else {
        all_tempo_points(tracks.drop_last()) + spec_tempo_points(tracks.last(), 0)
    }
}

/// Properties of [`seg_index`]: it is in range, its segment's start tick
/// does not exceed the queried tick, and the next segment (if any) starts
/// strictly later.
proof fn lemma_seg_index_props(segs: Seq<TempoSegment>, tick: u64)
    requires
        segs.len() >= 1,
        segs[0].start_tick == 0,
        segments_sorted(segs),
    ensures
        0 <= seg_index(segs, tick) < segs.len(),
        segs[seg_index(segs, tick)].start_tick <= tick,
        seg_index(segs, tick) + 1 < segs.len() ==> segs[seg_index(segs, tick) + 1].start_tick
            > tick,
    decreases segs.len(),
{
    if segs.len() <= 1 {
    } else if segs.last().start_tick <= tick {
    } else {
        lemma_seg_index_props(segs.drop_last(), tick);
    }
}

/// Any index whose segment starts no later than `tick` while its successor
/// (if any) starts later is exactly [`seg_index`].
proof fn lemma_seg_index_char(segs: Seq<TempoSegment>, tick: u64, i: int)
    requires
        segments_sorted(segs),
        0 <= i < segs.len(),
        segs[i].start_tick <= tick,
        i + 1 == segs.len() || segs[i + 1].start_tick > tick,
    ensures
        seg_index(segs, tick) == i,
    decreases segs.len(),
{
    if segs.len() <= 1 {
    } else if segs.last().start_tick <= tick {
        if i + 1 < segs.len() {
            assert(segs[i + 1].start_tick <= segs.last().start_tick);
            assert(false);
        }
    } else {
        assert(i < segs.len() - 1) by {
            if i == segs.len() - 1 {
                assert(segs.last().start_tick <= tick);
            }
        }
        lemma_seg_index_char(segs.drop_last(), tick, i);
    }
}

/// With ascending segments, a larger query tick never selects an earlier
/// segment.
proof fn lemma_seg_index_monotone(segs: Seq<TempoSegment>, t1: u64, t2: u64)
    requires
        segs.len() >= 1,
        segs[0].start_tick == 0,
        segments_sorted(segs),
        t1 <= t2,
    ensures
        seg_index(segs, t1) <= seg_index(segs, t2),
{
    lemma_seg_index_props(segs, t1);
    lemma_seg_index_props(segs, t2);
    let i1 = seg_index(segs, t1);
    let i2 = seg_index(segs, t2);
    if i1 > i2 {
        assert(segs[i2 + 1].start_tick > t2);
        assert(segs[i2 + 1].start_tick <= segs[i1].start_tick);
        assert(segs[i1].start_tick <= t1);
        assert(false);
    }
}

/// Segment start times never decrease along the map.
proof fn lemma_start_time_monotone(tm: &TempoTrack, i: int, j: int)
    requires
        tm.wf(),
        0 <= i <= j < tm.segments@.len(),
    ensures
        tm.segments@[i].start_time_us <= tm.segments@[j].start_time_us,
    decreases j - i,
{
    if i < j {
        lemma_start_time_monotone(tm, i, j - 1);
        let dt = tm.segments@[j].start_tick - tm.segments@[j - 1].start_tick;
        vstd::arithmetic::mul::lemma_mul_nonnegative(
            dt,
            tm.segments@[j - 1].micros_per_quarter as int,
        );
        vstd::arithmetic::div_mod::lemma_div_pos_is_pos(
            dt * (tm.segments@[j - 1].micros_per_quarter as int),
            tm.ticks_per_quarter as int,
        );
    }
}

/// The time a tick maps to is monotonically non-decreasing in the tick, for
/// any well-formed tempo map.
pub proof fn lemma_tick_to_time_monotonic(tm: &TempoTrack, t1: u64, t2: u64)
    requires
        tm.wf(),
        t1 <= t2,
    ensures
        tm.tick_to_time_spec(t1) <= tm.tick_to_time_spec(t2),
{
    let segs = tm.segments@;
    let q = tm.ticks_per_quarter as int;
    lemma_seg_index_props(segs, t1);
    lemma_seg_index_props(segs, t2);
    lemma_seg_index_monotone(segs, t1, t2);
    let i1 = seg_index(segs, t1);
    let i2 = seg_index(segs, t2);
    let s1 = segs[i1];
    let s2 = segs[i2];
    if i1 == i2 {
        vstd::arithmetic::mul::lemma_mul_inequality(
            t1 - s1.start_tick,
            t2 - s1.start_tick,
            s1.micros_per_quarter as int,
        );
        vstd::arithmetic::div_mod::lemma_div_is_ordered(
            (t1 - s1.start_tick) * (s1.micros_per_quarter as int),
            (t2 - s1.start_tick) * (s1.micros_per_quarter as int),
            q,
        );
    } else {
        // Within segment i1, time at t1 is at most the next segment's start.
        let nxt = segs[i1 + 1];
        assert(t1 < nxt.start_tick);
        vstd::arithmetic::mul::lemma_mul_inequality(
            t1 - s1.start_tick,
            nxt.start_tick - s1.start_tick,
            s1.micros_per_quarter as int,
        );
        vstd::arithmetic::div_mod::lemma_div_is_ordered(
            (t1 - s1.start_tick) * (s1.micros_per_quarter as int),
            (nxt.start_tick - s1.start_tick) * (s1.micros_per_quarter as int),
            q,
        );
        assert(tm.tick_to_time_spec(t1) <= nxt.start_time_us);
        lemma_start_time_monotone(tm, i1 + 1, i2);
        // The time at t2 is at least segment i2's own start time.
        vstd::arithmetic::mul::lemma_mul_nonnegative(
            t2 - s2.start_tick,
            s2.micros_per_quarter as int,
        );
        vstd::arithmetic::div_mod::lemma_div_pos_is_pos(
            (t2 - s2.start_tick) * (s2.micros_per_quarter as int),
            q,
        );
    }
}

impl TempoTrack {
    /// Convert a tick to absolute microseconds: binary-search the governing
    /// segment, extrapolate at its tempo, and saturate at the time bound.
    pub fn tick_to_time(&self, tick: u64) -> (t: u64)
        requires
            self.wf(),
        ensures
            t == self.tick_to_time_spec(tick),
    {
        let mut lo: usize = 0;
        let mut hi: usize = self.segments.len();
        while lo + 1 < hi
            invariant
                self.wf(),
                0 <= lo < hi <= self.segments@.len(),
                self.segments@[lo as int].start_tick <= tick,
                hi < self.segments@.len() ==> self.segments@[hi as int].start_tick > tick,
            decreases hi - lo,
        {
            let mid: usize = lo + (hi - lo) / 2;
            if self.segments[mid].start_tick <= tick {
                lo = mid;
            } else {
                hi = mid;
            }
        }
        proof {
            lemma_seg_index_char(self.segments@, tick, lo as int);
        }
        let seg = self.segments[lo];
        let dtick: u64 = tick - seg.start_tick;
        proof {
            vstd::arithmetic::mul::lemma_mul_upper_bound(
                dtick as int,
                u64::MAX as int,
                seg.micros_per_quarter as int,
                u32::MAX as int,
            );
            vstd::arithmetic::mul::lemma_mul_nonnegative(
                dtick as int,
                seg.micros_per_quarter as int,
            );
            vstd::arithmetic::div_mod::lemma_div_pos_is_pos(
                (dtick as int) * (seg.micros_per_quarter as int),
                self.ticks_per_quarter as int,
            );
        }
        let num: u128 = (dtick as u128) * (seg.micros_per_quarter as u128);
        let add: u128 = num / (self.ticks_per_quarter as u128);
        let tot: u128 = (seg.start_time_us as u128) + add;
        if tot > (MAX_TIME_US as u128) {
            MAX_TIME_US
        } else {
            tot as u64
        }
    }
}

} // verus!
