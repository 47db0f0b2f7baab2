//! Per-track performance model: pairing NoteOn/NoteOff events into notes,
//! converting tick timestamps into absolute time, and the stable orderings
//! used to merge tracks into one timeline.
//!
//! Pairing policy: the first unmatched NoteOn on a channel/key opens a note;
//! the next NoteOff — or NoteOn with velocity zero, which is stored as a
//! NoteOff — on the same channel/key closes it. A NoteOn arriving while the
//! same channel/key is already open only emits its event; a NoteOff with no
//! open note only emits its event; a note still open at end of track is
//! discarded.

use vstd::prelude::*;

use crate::events::{MidiEvent, MidiMessage, MidiNote, RawEventKind, RawTrackEvent};
use crate::tempo::{TempoTrack, MAX_TIME_US};

verus! {

/// A note that has been opened by a NoteOn and not yet closed.
#[derive(Clone, Copy, PartialEq, Eq, Structural, Debug)]
pub struct OpenNote {
    pub channel: u8,
    pub key: u8,
    pub vel: u8,
    pub start_us: u64,
}

/// State of the pairing scan over one raw track.
#[verifier::ext_equal]
pub ghost struct PairScan {
    pub tick: u64,
    pub notes: Seq<MidiNote>,
    pub events: Seq<MidiEvent>,
    pub open: Seq<OpenNote>,
    pub next_id: u64,
}

/// Index of the first open note on `channel`/`key`, or -1 if none is open.
pub open spec fn find_open(open: Seq<OpenNote>, channel: u8, key: u8) -> int
    decreases open.len(),
{
    if open.len() == 0 {
        -1
    } else if open[0].channel == channel && open[0].key == key {
        0
    } else {
        let r = find_open(open.drop_first(), channel, key);
        if r < 0 {
            -1
        } else {
            r + 1
        }
    }
}

/// [`find_open`] returns -1 exactly when nothing matches, and otherwise the
/// first matching index.
proof fn lemma_find_open_char(open: Seq<OpenNote>, channel: u8, key: u8)
    ensures
        find_open(open, channel, key) == -1 ==> forall|j: int|
            0 <= j < open.len() ==> !((#[trigger] open[j]).channel == channel && open[j].key
                == key),
        find_open(open, channel, key) >= 0 ==> {
            let r = find_open(open, channel, key);
            &&& r < open.len()
            &&& open[r].channel == channel
            &&& open[r].key == key
            &&& forall|j: int|
                0 <= j < r ==> !((#[trigger] open[j]).channel == channel && open[j].key == key)
        },
    decreases open.len(),
{
    if open.len() == 0 {
    } else if open[0].channel == channel && open[0].key == key {
    } else {
        lemma_find_open_char(open.drop_first(), channel, key);
        let r0 = find_open(open.drop_first(), channel, key);
        if r0 < 0 {
            assert forall|j: int|
                0 <= j < open.len() implies !((#[trigger] open[j]).channel == channel
                && open[j].key == key) by {
                if j > 0 {
                    assert(open.drop_first()[j - 1] == open[j]);
                }
            }
        } else {
            assert(open[r0 + 1] == open.drop_first()[r0]);
            assert forall|j: int|
                0 <= j < r0 + 1 implies !((#[trigger] open[j]).channel == channel
                && open[j].key == key) by {
                if j > 0 {
                    assert(open.drop_first()[j - 1] == open[j]);
                }
            }
        }
    }
}

/// Handle a closing event (NoteOff, or NoteOn with velocity zero): emit a
/// NoteOff event and, if a matching note is open, close it into a note.
pub open spec fn close_step(
    st: PairScan,
    tick: u64,
    ts: u64,
    channel: u8,
    key: u8,
    vel: u8,
    track_id: usize,
) -> PairScan {
    let ev = MidiEvent {
        channel,
        timestamp_us: ts,
        message: MidiMessage::NoteOff { key, vel },
        track_id,
    };
    let j = find_open(st.open, channel, key);
    if j >= 0 {
        let o = st.open[j];
        let note = MidiNote {
            id: st.next_id,
            track_id,
            channel,
            note: key,
            vel: o.vel,
            start_us: o.start_us,
            duration_us: ts.saturating_sub(o.start_us),
        };
        PairScan {
            tick,
            notes: st.notes.push(note),
            events: st.events.push(ev),
            open: st.open.remove(j),
            next_id: st.next_id.saturating_add(1),
        }
    } else {
        PairScan { tick, events: st.events.push(ev), ..st }
    }
}

/// One step of the pairing scan: advance the tick, convert it to absolute
/// time, and dispatch on the event kind.
pub open spec fn pair_step(st: PairScan, e: RawTrackEvent, tm: TempoTrack, track_id: usize) -> PairScan {
    let tick = st.tick.saturating_add(e.delta_ticks as u64);
    let ts = tm.tick_to_time_spec(tick) as u64;
    match e.kind {
        RawEventKind::NoteOn { channel, key, vel } => {
            if vel > 0 {
                let ev = MidiEvent {
                    channel,
                    timestamp_us: ts,
                    message: MidiMessage::NoteOn { key, vel },
                    track_id,
                };
                if find_open(st.open, channel, key) >= 0 {
                    PairScan { tick, events: st.events.push(ev), ..st }
                } else {
                    PairScan {
                        tick,
                        events: st.events.push(ev),
                        open: st.open.push(OpenNote { channel, key, vel, start_us: ts }),
                        ..st
                    }
                }
            } else {
                close_step(st, tick, ts, channel, key, 0, track_id)
            }
        },
        RawEventKind::NoteOff { channel, key, vel } => close_step(
            st,
            tick,
            ts,
            channel,
            key,
            vel,
            track_id,
        ),
        RawEventKind::ProgramChange { channel, program } => PairScan {
            tick,
            events: st.events.push(
                MidiEvent {
                    channel,
                    timestamp_us: ts,
                    message: MidiMessage::ProgramChange { program },
                    track_id,
                },
            ),
            ..st
        },
        _ => PairScan { tick, ..st },
    }
}

/// The pairing scan over a whole raw track, starting note ids at `first_id`.
pub open spec fn pair_scan(raw: Seq<RawTrackEvent>, tm: TempoTrack, track_id: usize, first_id: u64) -> PairScan
    decreases raw.len(),
{
    if raw.len() == 0 {
        PairScan {
            tick: 0,
            notes: Seq::empty(),
            events: Seq::empty(),
            open: Seq::empty(),
            next_id: first_id,
        }
    } else {
        pair_step(pair_scan(raw.drop_last(), tm, track_id, first_id), raw.last(), tm, track_id)
    }
}

/// One track of the performance model: its reconstructed notes and its
/// time-stamped events, in scan order.
#[derive(Debug)]
pub struct MidiTrack {
    pub track_id: usize,
    pub notes: Vec<MidiNote>,
    pub events: Vec<MidiEvent>,
}

/// First open note on `channel`/`key` in the scan's worklist, if any.
fn find_open_idx(open: &Vec<OpenNote>, channel: u8, key: u8) -> (r: Option<usize>)
    ensures
        match r {
            Some(j) => find_open(open@, channel, key) == j as int && (j as int) < open@.len(),
            None => find_open(open@, channel, key) == -1,
        },
{
    let mut i: usize = 0;
    while i < open.len()
        invariant
            i <= open@.len(),
            forall|j: int|
                0 <= j < i ==> !((#[trigger] open@[j]).channel == channel && open@[j].key == key),
        decreases open@.len() - i,
    {
        if open[i].channel == channel && open[i].key == key {
            proof {
                lemma_find_open_char(open@, channel, key);
            }
            return Some(i);
        }
        i = i + 1;
    }
    proof {
        lemma_find_open_char(open@, channel, key);
    }
    None
}

impl MidiTrack {
    /// Scan one raw track into its notes and events, converting every tick
    /// to absolute time through the tempo map. Returns the track and the
    /// next unused note id.
    #[verifier::rlimit(100)]
    pub fn new(
        track_id: usize,
        tempo: &TempoTrack,
        raw: &Vec<RawTrackEvent>,
        first_note_id: u64,
    ) -> (r: (MidiTrack, u64))
        requires
            tempo.wf(),
        ensures
            ({
                let st = pair_scan(raw@, *tempo, track_id, first_note_id);
                &&& r.0.track_id == track_id
                &&& r.0.notes@ == st.notes
                &&& r.0.events@ == st.events
                &&& r.1 == st.next_id
            }),
            forall|i: int|
                0 <= i < r.0.events@.len() ==> (#[trigger] r.0.events@[i]).timestamp_us
                    <= MAX_TIME_US,
    {
        let mut notes: Vec<MidiNote> = Vec::new();
        let mut events: Vec<MidiEvent> = Vec::new();
        let mut open: Vec<OpenNote> = Vec::new();
        let mut next_id: u64 = first_note_id;
        let mut tick: u64 = 0;
        let mut k: usize = 0;
        proof {
            assert(raw@.take(0) =~= Seq::<RawTrackEvent>::empty());
        }
        while k < raw.len()
            invariant
                tempo.wf(),
                k <= raw@.len(),
                ({
                    let st = pair_scan(raw@.take(k as int), *tempo, track_id, first_note_id);
                    &&& tick == st.tick
                    &&& notes@ == st.notes
                    &&& events@ == st.events
                    &&& open@ == st.open
                    &&& next_id == st.next_id
                }),
                forall|i: int|
                    0 <= i < events@.len() ==> (#[trigger] events@[i]).timestamp_us <= MAX_TIME_US,
            decreases raw@.len() - k,
        {
            proof {
                assert(raw@.take(k + 1).drop_last() =~= raw@.take(k as int));
                assert(raw@.take(k + 1).last() == raw@[k as int]);
            }
            let e = raw[k];
            tick = tick.saturating_add(e.delta_ticks as u64);
            let ts = tempo.tick_to_time(tick);
            match e.kind {
                RawEventKind::NoteOn { channel, key, vel } => {
                    if vel > 0 {
                        events.push(
                            MidiEvent {
                                channel,
                                timestamp_us: ts,
                                message: MidiMessage::NoteOn { key, vel },
                                track_id,
                            },
                        );
                        match find_open_idx(&open, channel, key) {
                            Some(_) => {},
                            None => {
                                open.push(OpenNote { channel, key, vel, start_us: ts });
                            },
                        }
                    } else {
                        close_exec(&mut notes, &mut events, &mut open, &mut next_id, tick, ts, channel, key, 0, track_id);
                    }
                },
                RawEventKind::NoteOff { channel, key, vel } => {
                    close_exec(&mut notes, &mut events, &mut open, &mut next_id, tick, ts, channel, key, vel, track_id);
                },
                RawEventKind::ProgramChange { channel, program } => {
                    events.push(
                        MidiEvent {
                            channel,
                            timestamp_us: ts,
                            message: MidiMessage::ProgramChange { program },
                            track_id,
                        },
                    );
                },
                _ => {},
            }
            k = k + 1;
        }
        proof {
            assert(raw@.take(raw@.len() as int) =~= raw@);
        }
        (MidiTrack { track_id, notes, events }, next_id)
    }
}

/// Executable twin of [`close_step`], updating the scan's working state.
fn close_exec(
    notes: &mut Vec<MidiNote>,
    events: &mut Vec<MidiEvent>,
    open: &mut Vec<OpenNote>,
    next_id: &mut u64,
    tick: u64,
    ts: u64,
    channel: u8,
    key: u8,
    vel: u8,
    track_id: usize,
)
    ensures
        ({
            let st = PairScan {
                tick: 0,
                notes: old(notes)@,
                events: old(events)@,
                open: old(open)@,
                next_id: *old(next_id),
            };
            let st2 = close_step(st, tick, ts, channel, key, vel, track_id);
            &&& final(notes)@ == st2.notes
            &&& final(events)@ == st2.events
            &&& final(open)@ == st2.open
            &&& *final(next_id) == st2.next_id
        }),
{
    events.push(
        MidiEvent { channel, timestamp_us: ts, message: MidiMessage::NoteOff { key, vel }, track_id },
    );
    match find_open_idx(open, channel, key) {
        Some(j) => {
            let o = open[j];
            notes.push(
                MidiNote {
                    id: *next_id,
                    track_id,
                    channel,
                    note: key,
                    vel: o.vel,
                    start_us: o.start_us,
                    duration_us: ts.saturating_sub(o.start_us),
                },
            );
            open.remove(j);
            *next_id = next_id.saturating_add(1);
        },
        None => {},
    }
}

/// Events ascending by timestamp.
pub open spec fn events_sorted(s: Seq<MidiEvent>) -> bool {
    forall|i: int, j: int|
        0 <= i <= j < s.len() ==> (#[trigger] s[i]).timestamp_us <= (#[trigger] s[j]).timestamp_us
}

/// Notes ascending by start time.
pub open spec fn notes_sorted(s: Seq<MidiNote>) -> bool {
    forall|i: int, j: int|
        0 <= i <= j < s.len() ==> (#[trigger] s[i]).start_us <= (#[trigger] s[j]).start_us
}

/// Every event's timestamp lies below the saturation bound.
pub open spec fn events_bounded(s: Seq<MidiEvent>) -> bool {
    forall|i: int| 0 <= i < s.len() ==> (#[trigger] s[i]).timestamp_us <= MAX_TIME_US
}

/// Stable insertion of an event into a timestamp-sorted sequence: it lands
/// after every event whose timestamp is less than or equal to its own.
pub open spec fn insert_event(s: Seq<MidiEvent>, x: MidiEvent) -> Seq<MidiEvent>
    decreases s.len(),
{
    if s.len() == 0 {
        seq![x]
    } else if s.last().timestamp_us > x.timestamp_us {
        insert_event(s.drop_last(), x).push(s.last())
    } else {
        s.push(x)
    }
}

/// Stable insertion sort of events by timestamp.
pub open spec fn sort_events(s: Seq<MidiEvent>) -> Seq<MidiEvent>
    decreases s.len(),
{
    if s.len() == 0 {
        Seq::empty()
    } else {
        insert_event(sort_events(s.drop_last()), s.last())
    }
}

/// Stable insertion of a note into a start-sorted sequence.
pub open spec fn insert_note(s: Seq<MidiNote>, x: MidiNote) -> Seq<MidiNote>
    decreases s.len(),
{
    if s.len() == 0 {
        seq![x]
    } else if s.last().start_us > x.start_us {
        insert_note(s.drop_last(), x).push(s.last())
    } else {
        s.push(x)
    }
}

/// Stable insertion sort of notes by start time.
pub open spec fn sort_notes(s: Seq<MidiNote>) -> Seq<MidiNote>
    decreases s.len(),
{
    if s.len() == 0 {
        Seq::empty()
    } else {
        insert_note(sort_notes(s.drop_last()), s.last())
    }
}

/// Inserting an event keeps the sequence sorted and, when both sides obey
/// the time bound, bounded.
proof fn lemma_insert_event_sorted(s: Seq<MidiEvent>, x: MidiEvent)
    requires
        events_sorted(s),
    ensures
        events_sorted(insert_event(s, x)),
        events_bounded(s) && x.timestamp_us <= MAX_TIME_US ==> events_bounded(insert_event(s, x)),
        insert_event(s, x).len() == s.len() + 1,
    decreases s.len(),
{
    if s.len() == 0 {
        assert(insert_event(s, x) =~= seq![x]);
    } else if s.last().timestamp_us > x.timestamp_us {
        lemma_insert_event_sorted(s.drop_last(), x);
        let r0 = insert_event(s.drop_last(), x);
        assert forall|i: int| 0 <= i < r0.len() implies (#[trigger] r0[i]).timestamp_us
            <= s.last().timestamp_us by {
            lemma_insert_event_le(s.drop_last(), x, s.last().timestamp_us);
        }
        assert(events_sorted(r0.push(s.last())));
        if events_bounded(s) && x.timestamp_us <= MAX_TIME_US {
            assert(events_bounded(s.drop_last()));
            assert(events_bounded(r0.push(s.last())));
        }
    } else {
        assert(forall|i: int|
            0 <= i < s.len() ==> (#[trigger] s[i]).timestamp_us <= x.timestamp_us);
    }
}

/// If every element of `s` and `x` itself stay at or below timestamp `b`,
/// so does every element after insertion.
proof fn lemma_insert_event_le(s: Seq<MidiEvent>, x: MidiEvent, b: u64)
    requires
        forall|i: int| 0 <= i < s.len() ==> (#[trigger] s[i]).timestamp_us <= b,
        x.timestamp_us <= b,
    ensures
        forall|i: int|
            0 <= i < insert_event(s, x).len() ==> (#[trigger] insert_event(s, x)[i]).timestamp_us
                <= b,
    decreases s.len(),
{
    if s.len() == 0 {
        assert(insert_event(s, x) =~= seq![x]);
    } else if s.last().timestamp_us > x.timestamp_us {
        assert(s.last().timestamp_us <= b);
        lemma_insert_event_le(s.drop_last(), x, b);
        let r0 = insert_event(s.drop_last(), x);
        assert forall|i: int| 0 <= i < r0.push(s.last()).len() implies (#[trigger] r0.push(
            s.last(),
        )[i]).timestamp_us <= b by {
            if i < r0.len() {
                assert(r0.push(s.last())[i] == r0[i]);
            } else {
                assert(r0.push(s.last())[i] == s.last());
            }
        }
    } else {
        assert(forall|i: int| 0 <= i < s.len() ==> (#[trigger] s.push(x)[i]).timestamp_us <= b);
        assert(s.push(x)[s.len() as int] == x);
    }
}

/// Inserting a note keeps the sequence sorted.
proof fn lemma_insert_note_sorted(s: Seq<MidiNote>, x: MidiNote)
    requires
        notes_sorted(s),
    ensures
        notes_sorted(insert_note(s, x)),
        insert_note(s, x).len() == s.len() + 1,
    decreases s.len(),
{
    if s.len() == 0 {
        assert(insert_note(s, x) =~= seq![x]);
    } else if s.last().start_us > x.start_us {
        lemma_insert_note_sorted(s.drop_last(), x);
        let r0 = insert_note(s.drop_last(), x);
        assert forall|i: int| 0 <= i < r0.len() implies (#[trigger] r0[i]).start_us
            <= s.last().start_us by {
            lemma_insert_note_le(s.drop_last(), x, s.last().start_us);
        }
        assert(notes_sorted(r0.push(s.last())));
    } else {
        assert(forall|i: int| 0 <= i < s.len() ==> (#[trigger] s[i]).start_us <= x.start_us);
    }
}

/// If every element of `s` and `x` itself start at or before `b`, so does
/// every element after insertion.
proof fn lemma_insert_note_le(s: Seq<MidiNote>, x: MidiNote, b: u64)
    requires
        forall|i: int| 0 <= i < s.len() ==> (#[trigger] s[i]).start_us <= b,
        x.start_us <= b,
    ensures
        forall|i: int|
            0 <= i < insert_note(s, x).len() ==> (#[trigger] insert_note(s, x)[i]).start_us <= b,
    decreases s.len(),
{
    if s.len() == 0 {
        assert(insert_note(s, x) =~= seq![x]);
    } else if s.last().start_us > x.start_us {
        assert(s.last().start_us <= b);
        lemma_insert_note_le(s.drop_last(), x, b);
        let r0 = insert_note(s.drop_last(), x);
        assert forall|i: int| 0 <= i < r0.push(s.last()).len() implies (#[trigger] r0.push(
            s.last(),
        )[i]).start_us <= b by {
            if i < r0.len() {
                assert(r0.push(s.last())[i] == r0[i]);
            } else {
                assert(r0.push(s.last())[i] == s.last());
            }
        }
    } else {
        assert(forall|i: int| 0 <= i < s.len() ==> (#[trigger] s.push(x)[i]).start_us <= b);
        assert(s.push(x)[s.len() as int] == x);
    }
}

/// Stable insertion of one event into a timestamp-sorted vector.
fn insert_event_exec(events: &mut Vec<MidiEvent>, x: MidiEvent)
    requires
        events_sorted(old(events)@),
    ensures
        final(events)@ == insert_event(old(events)@, x),
        events_sorted(final(events)@),
{
    let mut j: usize = events.len();
    while j > 0 && events[j - 1].timestamp_us > x.timestamp_us
        invariant
            j <= events@.len(),
            events@ == old(events)@,
            events_sorted(events@),
            forall|k: int|
                j <= k < events@.len() ==> (#[trigger] events@[k]).timestamp_us > x.timestamp_us,
        decreases j,
    {
        j = j - 1;
    }
    events.insert(j, x);
    proof {
        lemma_insert_event_at(old(events)@, x, j as int);
        lemma_insert_event_sorted(old(events)@, x);
    }
}

/// Placing an event at the position found by scanning from the right is
/// exactly the stable insertion.
proof fn lemma_insert_event_at(s: Seq<MidiEvent>, x: MidiEvent, j: int)
    requires
        0 <= j <= s.len(),
        forall|k: int| j <= k < s.len() ==> (#[trigger] s[k]).timestamp_us > x.timestamp_us,
        j > 0 ==> s[j - 1].timestamp_us <= x.timestamp_us,
    ensures
        s.insert(j, x) == insert_event(s, x),
    decreases s.len(),
{
    if s.len() == 0 {
        assert(s.insert(0, x) =~= seq![x]);
    } else if s.last().timestamp_us > x.timestamp_us {
        assert(j < s.len());
        lemma_insert_event_at(s.drop_last(), x, j);
        assert(s.insert(j, x) =~= insert_event(s.drop_last(), x).push(s.last()));
    } else {
        assert(j == s.len());
        assert(s.insert(j, x) =~= s.push(x));
    }
}

/// Stable insertion of one note into a start-sorted vector.
fn insert_note_exec(notes: &mut Vec<MidiNote>, x: MidiNote)
    requires
        notes_sorted(old(notes)@),
    ensures
        final(notes)@ == insert_note(old(notes)@, x),
        notes_sorted(final(notes)@),
{
    let mut j: usize = notes.len();
    while j > 0 && notes[j - 1].start_us > x.start_us
        invariant
            j <= notes@.len(),
            notes@ == old(notes)@,
            notes_sorted(notes@),
            forall|k: int| j <= k < notes@.len() ==> (#[trigger] notes@[k]).start_us > x.start_us,
        decreases j,
    {
        j = j - 1;
    }
    notes.insert(j, x);
    proof {
        lemma_insert_note_at(old(notes)@, x, j as int);
        lemma_insert_note_sorted(old(notes)@, x);
    }
}

/// Placing a note at the position found by scanning from the right is
/// exactly the stable insertion.
proof fn lemma_insert_note_at(s: Seq<MidiNote>, x: MidiNote, j: int)
    requires
        0 <= j <= s.len(),
        forall|k: int| j <= k < s.len() ==> (#[trigger] s[k]).start_us > x.start_us,
        j > 0 ==> s[j - 1].start_us <= x.start_us,
    ensures
        s.insert(j, x) == insert_note(s, x),
    decreases s.len(),
{
    if s.len() == 0 {
        assert(s.insert(0, x) =~= seq![x]);
    } else if s.last().start_us > x.start_us {
        assert(j < s.len());
        lemma_insert_note_at(s.drop_last(), x, j);
        assert(s.insert(j, x) =~= insert_note(s.drop_last(), x).push(s.last()));
    } else {
        assert(j == s.len());
        assert(s.insert(j, x) =~= s.push(x));
    }
}

/// Sort a vector of events stably by timestamp.
pub fn sort_events_exec(events: Vec<MidiEvent>) -> (r: Vec<MidiEvent>)
    ensures
        r@ == sort_events(events@),
        events_sorted(r@),
        events_bounded(events@) ==> events_bounded(r@),
{
    let mut out: Vec<MidiEvent> = Vec::new();
    let mut i: usize = 0;
    proof {
        assert(events@.take(0) =~= Seq::<MidiEvent>::empty());
    }
    while i < events.len()
        invariant
            i <= events@.len(),
            out@ == sort_events(events@.take(i as int)),
            events_sorted(out@),
            events_bounded(events@) ==> events_bounded(out@),
        decreases events@.len() - i,
    {
        proof {
            assert(events@.take(i + 1).drop_last() =~= events@.take(i as int));
            assert(events@.take(i + 1).last() == events@[i as int]);
            if events_bounded(events@) {
                lemma_insert_event_sorted(out@, events@[i as int]);
            }
        }
        insert_event_exec(&mut out, events[i]);
        i = i + 1;
    }
    proof {
        assert(events@.take(events@.len() as int) =~= events@);
    }
    out
}

/// Sort a vector of notes stably by start time.
pub fn sort_notes_exec(notes: Vec<MidiNote>) -> (r: Vec<MidiNote>)
    ensures
        r@ == sort_notes(notes@),
        notes_sorted(r@),
{
    let mut out: Vec<MidiNote> = Vec::new();
    let mut i: usize = 0;
    proof {
        assert(notes@.take(0) =~= Seq::<MidiNote>::empty());
    }
    while i < notes.len()
        invariant
            i <= notes@.len(),
            out@ == sort_notes(notes@.take(i as int)),
            notes_sorted(out@),
        decreases notes@.len() - i,
    {
        proof {
            assert(notes@.take(i + 1).drop_last() =~= notes@.take(i as int));
            assert(notes@.take(i + 1).last() == notes@[i as int]);
        }
        insert_note_exec(&mut out, notes[i]);
        i = i + 1;
    }
    proof {
        assert(notes@.take(notes@.len() as int) =~= notes@);
    }
    out
}

/// Total playable length of a note list: the last note's start plus its
/// duration (saturating), or zero when there are no notes.
pub open spec fn track_length_spec(notes: Seq<MidiNote>) -> int {
    if notes.len() == 0 {
        0
    } else {
        notes.last().start_us.saturating_add(notes.last().duration_us) as int
    }
}

impl MidiTrack {
    /// The track's total length: its last note's start plus duration.
    pub fn length_us(&self) -> (r: u64)
        ensures
            r == track_length_spec(self.notes@),
    {
        if self.notes.len() == 0 {
            0
        } else {
            let n = self.notes[self.notes.len() - 1];
            n.start_us.saturating_add(n.duration_us)
        }
    }
}

} // verus!
