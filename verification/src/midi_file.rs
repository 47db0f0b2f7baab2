//! Loading a MIDI container into the performance model.
//!
//! The container bytes are parsed by the `midly` crate behind a small
//! trusted boundary ([`parse_container`] and [`convert_track_event`]); what
//! that parse yields for given bytes is named by the uninterpreted function
//! [`midi_container`]. Everything from the raw events onward — tempo map,
//! note pairing, merging, program timeline — is verified ([`MidiFile::build`]).

use vstd::prelude::*;

use midly::{MetaMessage, MidiMessage as MlMessage, TrackEvent, TrackEventKind};

use crate::events::{
    all_raw_events_wf, raw_event_wf, tracks_view, MidiEvent, MidiLoadError, MidiNote,
    RawEventKind, RawTrackEvent,
};
use crate::program::{channel_programs, ProgramTrack, CHANNEL_COUNT};
use crate::tempo::{all_tempo_points, sort_by_tick, spec_segments, TempoTrack};
use crate::track::{
    events_bounded, events_sorted, notes_sorted, pair_scan, sort_events, sort_events_exec,
    sort_notes, sort_notes_exec, MidiTrack,
};

verus! {

/// What `midly` yields for a byte sequence: the ticks-per-quarter constant
/// and the per-track raw events, or the load error (a parse failure, or
/// timecode timing). A function of the bytes alone.
pub uninterp spec fn midi_container(data: Seq<u8>) -> Result<
    (u16, Seq<Seq<RawTrackEvent>>),
    MidiLoadError,
>;

/// The raw outcome of parsing a container: ticks per quarter note and each
/// track's events, before any time conversion.
pub struct RawSmf {
    pub ticks_per_quarter: u16,
    pub tracks: Vec<Vec<RawTrackEvent>>,
}

#[verifier::external_type_specification]
#[verifier::external_body]
pub struct ExTrackEvent<'a>(TrackEvent<'a>);

/// Relies on midly's event model: `delta` is a 28-bit tick delta; channel
/// messages carry a 4-bit channel and 7-bit keys, velocities and programs;
/// a tempo meta-event carries a 24-bit microseconds-per-quarter value.
/// NoteOn/NoteOff/ProgramChange and Tempo are kept, every other kind maps
/// to `Other`.
#[verifier::external_body]
fn convert_track_event(e: &TrackEvent<'_>) -> (r: RawTrackEvent)
    ensures
        raw_event_wf(r),
{
    let kind = match e.kind {
        TrackEventKind::Midi { channel, message } => match message {
            MlMessage::NoteOn { key, vel } => RawEventKind::NoteOn { channel: channel.as_int(), key: key.as_int(), vel: vel.as_int() },
            MlMessage::NoteOff { key, vel } => RawEventKind::NoteOff { channel: channel.as_int(), key: key.as_int(), vel: vel.as_int() },
            MlMessage::ProgramChange { program } => RawEventKind::ProgramChange { channel: channel.as_int(), program: program.as_int() },
            _ => RawEventKind::Other,
        },
        TrackEventKind::Meta(MetaMessage::Tempo(t)) => RawEventKind::Tempo { micros_per_quarter: t.as_int() },
        _ => RawEventKind::Other,
    };
    RawTrackEvent { delta_ticks: e.delta.as_int(), kind }
}

/// Relies on midly::Smf::parse: the bytes either parse into a header and a
/// list of event tracks, or fail. Metrical timing yields the 15-bit
/// ticks-per-quarter constant; timecode timing is unsupported here. The
/// outcome is a function of the bytes alone, named by [`midi_container`].
#[verifier::external_body]
fn parse_container(data: &[u8]) -> (r: Result<RawSmf, MidiLoadError>)
    ensures
        (match r {
            Ok(s) => midi_container(data@) == Ok::<_, MidiLoadError>(
                (s.ticks_per_quarter, tracks_view(s.tracks@)),
            ),
            Err(e) => midi_container(data@) == Err::<(u16, Seq<Seq<RawTrackEvent>>), _>(e),
        }),
        r matches Ok(s) ==> all_raw_events_wf(tracks_view(s.tracks@)) && s.ticks_per_quarter
            < 0x8000,
        r matches Err(e) ==> e == MidiLoadError::ParseError || e
            == MidiLoadError::UnsupportedTiming,
{
    let smf = match midly::Smf::parse(data) {
        Ok(s) => s,
        Err(_) => return Err(MidiLoadError::ParseError),
    };
    let ticks_per_quarter: u16 = match smf.header.timing {
        midly::Timing::Metrical(t) => t.as_int(),
        midly::Timing::Timecode(_, _) => return Err(MidiLoadError::UnsupportedTiming),
    };
    let tracks: Vec<Vec<RawTrackEvent>> = smf
        .tracks
        .iter()
        .map(|t| t.iter().map(convert_track_event).collect())
        .collect();
    Ok(RawSmf { ticks_per_quarter, tracks })
}

/// The first note id handed to track `k`: ids are threaded through the
/// tracks in order, starting at 0.
pub open spec fn first_id_of(tracks: Seq<Seq<RawTrackEvent>>, tm: TempoTrack, k: int) -> u64
    decreases k,
{
    if k <= 0 {
        0
    } else {
        pair_scan(tracks[k - 1], tm, (k - 1) as usize, first_id_of(tracks, tm, k - 1)).next_id
    }
}

/// The pairing scan of track `k` under the file's tempo map.
pub open spec fn track_scan(tracks: Seq<Seq<RawTrackEvent>>, tm: TempoTrack, k: int) -> crate::track::PairScan {
    pair_scan(tracks[k], tm, k as usize, first_id_of(tracks, tm, k))
}

/// All notes of the tracks below `k`, in track order.
pub open spec fn all_notes(tracks: Seq<Seq<RawTrackEvent>>, tm: TempoTrack, k: int) -> Seq<
    MidiNote,
>
    decreases k,
{
    if k <= 0 {
        Seq::empty()
    } else {
        all_notes(tracks, tm, k - 1) + track_scan(tracks, tm, k - 1).notes
    }
}

/// All events of the tracks below `k`, in track order.
pub open spec fn all_events(tracks: Seq<Seq<RawTrackEvent>>, tm: TempoTrack, k: int) -> Seq<
    MidiEvent,
>
    decreases k,
{
    if k <= 0 {
        Seq::empty()
    } else {
        all_events(tracks, tm, k - 1) + track_scan(tracks, tm, k - 1).events
    }
}

/// One per-track entry of the built file corresponds to the pairing scan of
/// its raw track.
pub open spec fn track_matches(t: MidiTrack, tracks: Seq<Seq<RawTrackEvent>>, tm: TempoTrack, k: int) -> bool {
    let sc = track_scan(tracks, tm, k);
    &&& t.track_id == k
    &&& t.notes@ == sc.notes
    &&& t.events@ == sc.events
}

/// The loaded performance model: the per-track views, the merged timeline
/// the clock advances over, the program timeline, and the tempo map they
/// were built with.
#[derive(Debug)]
pub struct MidiFile {
    pub tempo_track: TempoTrack,
    pub tracks: Vec<MidiTrack>,
    pub merged_track: MidiTrack,
    pub program_map: ProgramTrack,
}

impl MidiFile {
    /// What playback relies on: a merged timeline sorted by time and below
    /// the time bound, and a program timeline with one list per channel.
    pub open spec fn wf(&self) -> bool {
        &&& events_sorted(self.merged_track.events@)
        &&& events_bounded(self.merged_track.events@)
        &&& notes_sorted(self.merged_track.notes@)
        &&& self.program_map.wf()
    }

    /// The built file is exactly the model that the raw container
    /// determines.
    pub open spec fn matches(&self, tpq: u16, tracks: Seq<Seq<RawTrackEvent>>) -> bool {
        let tm = self.tempo_track;
        &&& self.wf()
        &&& tm.wf()
        &&& tm.ticks_per_quarter == tpq
        &&& tm.segments@ == spec_segments(sort_by_tick(all_tempo_points(tracks)), tpq as int)
        &&& self.tracks@.len() == tracks.len()
        &&& forall|k: int|
            0 <= k < tracks.len() ==> track_matches(#[trigger] self.tracks@[k], tracks, tm, k)
        &&& self.merged_track.track_id == 0
        &&& self.merged_track.notes@ == sort_notes(all_notes(tracks, tm, tracks.len() as int))
        &&& self.merged_track.events@ == sort_events(all_events(tracks, tm, tracks.len() as int))
        &&& forall|ch: int|
            0 <= ch < CHANNEL_COUNT ==> (#[trigger] self.program_map.channels@[ch])@
                == channel_programs(self.merged_track.events@, ch)
    }

    /// Build the performance model from parsed raw tracks: build the tempo
    /// map, scan each track into notes and events, merge everything into
    /// one stably time-sorted timeline, and derive the program timeline.
    ///
    /// Fails on a zero ticks-per-quarter value (the tempo formula would
    /// divide by zero) and on a container without tracks.
    pub fn build(raw: RawSmf) -> (r: Result<MidiFile, MidiLoadError>)
        ensures
            raw.ticks_per_quarter == 0 ==> r == Err::<MidiFile, _>(
                MidiLoadError::UnsupportedTiming,
            ),
            raw.ticks_per_quarter != 0 && raw.tracks@.len() == 0 ==> r == Err::<MidiFile, _>(
                MidiLoadError::NoTracks,
            ),
            raw.ticks_per_quarter != 0 && raw.tracks@.len() > 0 ==> (r matches Ok(f)
                && f.matches(raw.ticks_per_quarter, tracks_view(raw.tracks@))),
    {
        if raw.ticks_per_quarter == 0 {
            return Err(MidiLoadError::UnsupportedTiming);
        }
        if raw.tracks.len() == 0 {
            return Err(MidiLoadError::NoTracks);
        }
        let ghost deep = tracks_view(raw.tracks@);
        let tempo_track = TempoTrack::build(&raw.tracks, raw.ticks_per_quarter);
        let mut tracks: Vec<MidiTrack> = Vec::new();
        let mut next_id: u64 = 0;
        let mut k: usize = 0;
        while k < raw.tracks.len()
            invariant
                tempo_track.wf(),
                deep == tracks_view(raw.tracks@),
                deep.len() == raw.tracks@.len(),
                k <= raw.tracks@.len(),
                tracks@.len() == k,
                next_id == first_id_of(deep, tempo_track, k as int),
                forall|j: int|
                    0 <= j < k ==> track_matches(#[trigger] tracks@[j], deep, tempo_track, j),
                forall|j: int| 0 <= j < k ==> events_bounded((#[trigger] tracks@[j]).events@),
            decreases raw.tracks@.len() - k,
        {
            let (t, nid) = MidiTrack::new(k, &tempo_track, &raw.tracks[k], next_id);
            proof {
                assert(deep[k as int] == raw.tracks@[k as int]@);
            }
            tracks.push(t);
            next_id = nid;
            k = k + 1;
        }

        let mut notes_all: Vec<MidiNote> = Vec::new();
        let mut events_all: Vec<MidiEvent> = Vec::new();
        let mut m: usize = 0;
        while m < tracks.len()
            invariant
                tempo_track.wf(),
                deep == tracks_view(raw.tracks@),
                tracks@.len() == deep.len(),
                m <= tracks@.len(),
                forall|j: int|
                    0 <= j < tracks@.len() ==> track_matches(
                        #[trigger] tracks@[j],
                        deep,
                        tempo_track,
                        j,
                    ),
                forall|j: int|
                    0 <= j < tracks@.len() ==> events_bounded((#[trigger] tracks@[j]).events@),
                notes_all@ == all_notes(deep, tempo_track, m as int),
                events_all@ == all_events(deep, tempo_track, m as int),
                events_bounded(events_all@),
            decreases tracks@.len() - m,
        {
            notes_all.extend_from_slice(tracks[m].notes.as_slice());
            events_all.extend_from_slice(tracks[m].events.as_slice());
            m = m + 1;
        }

        let merged_notes = sort_notes_exec(notes_all);
        let merged_events = sort_events_exec(events_all);
        let program_map = ProgramTrack::new(&merged_events);
        let merged_track = MidiTrack { track_id: 0, notes: merged_notes, events: merged_events };
        Ok(MidiFile { tempo_track, tracks, merged_track, program_map })
    }

    /// Load a MIDI container from its bytes: parse it through `midly`, then
    /// build the verified performance model from the raw events.
    pub fn new(data: &[u8]) -> (r: Result<MidiFile, MidiLoadError>)
        ensures
            (match midi_container(data@) {
                Err(e) => r == Err::<MidiFile, _>(e),
                Ok(v) => {
                    if v.0 == 0 {
                        r == Err::<MidiFile, _>(MidiLoadError::UnsupportedTiming)
                    } else if v.1.len() == 0 {
                        r == Err::<MidiFile, _>(MidiLoadError::NoTracks)
                    } else {
                        r matches Ok(f) && f.matches(v.0, v.1)
                    }
                },
            }),
    {
        match parse_container(data) {
            Ok(raw) => MidiFile::build(raw),
            Err(e) => Err(e),
        }
    }
}

} // verus!
