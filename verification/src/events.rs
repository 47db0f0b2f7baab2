//! Core value types of the engine: messages, timed events, notes, and the
//! raw (tick-stamped) track events handed over by the container parser.

use vstd::prelude::*;

verus! {

/// A MIDI channel message, reduced to what the playback engine acts on.
#[derive(Clone, Copy, PartialEq, Eq, Structural, Debug)]
pub enum MidiMessage {
    NoteOn { key: u8, vel: u8 },
    NoteOff { key: u8, vel: u8 },
    ProgramChange { program: u8 },
    Other,
}

/// A channel message stamped with an absolute time in microseconds.
#[derive(Clone, Copy, PartialEq, Eq, Structural, Debug)]
pub struct MidiEvent {
    pub channel: u8,
    pub timestamp_us: u64,
    pub message: MidiMessage,
    pub track_id: usize,
}

/// A note reconstructed from a NoteOn/NoteOff pair, with absolute start time
/// and duration in microseconds.
#[derive(Clone, Copy, PartialEq, Eq, Structural, Debug)]
pub struct MidiNote {
    pub id: u64,
    pub track_id: usize,
    pub channel: u8,
    pub note: u8,
    pub vel: u8,
    pub start_us: u64,
    pub duration_us: u64,
}

/// What a raw track event does, before any time conversion.
#[derive(Clone, Copy, PartialEq, Eq, Structural, Debug)]
pub enum RawEventKind {
    NoteOn { channel: u8, key: u8, vel: u8 },
    NoteOff { channel: u8, key: u8, vel: u8 },
    ProgramChange { channel: u8, program: u8 },
    Tempo { micros_per_quarter: u32 },
    Other,
}

/// A raw track event: a tick delta relative to the previous event of the
/// same track, and what happens at that tick.
#[derive(Clone, Copy, PartialEq, Eq, Structural, Debug)]
pub struct RawTrackEvent {
    pub delta_ticks: u32,
    pub kind: RawEventKind,
}

/// Why loading a MIDI container failed. Terminal for the load attempt.
#[derive(Clone, Copy, PartialEq, Eq, Structural, Debug)]
pub enum MidiLoadError {
    /// The container bytes could not be parsed.
    ParseError,
    /// The container uses frame/timecode timing (or a zero ticks-per-quarter
    /// value), which this engine does not support.
    UnsupportedTiming,
    /// The container holds no tracks.
    NoTracks,
}

impl MidiLoadError {
    /// A human-readable description of the failure.
    pub fn message(&self) -> (r: &'static str)
        ensures
            r@ == self.message_spec(),
    {
        proof {
            reveal_strlit("Midi Parsing Error");
            reveal_strlit("Midi With Timecode Timing, Not Supported!");
            reveal_strlit("Midi File Has No Tracks");
        }
        match self {
            MidiLoadError::ParseError => "Midi Parsing Error",
            MidiLoadError::UnsupportedTiming => "Midi With Timecode Timing, Not Supported!",
            MidiLoadError::NoTracks => "Midi File Has No Tracks",
        }
    }

    pub open spec fn message_spec(&self) -> Seq<char> {
        match self {
            MidiLoadError::ParseError => "Midi Parsing Error"@,
            MidiLoadError::UnsupportedTiming => "Midi With Timecode Timing, Not Supported!"@,
            MidiLoadError::NoTracks => "Midi File Has No Tracks"@,
        }
    }
}

/// Field bounds guaranteed for every raw event produced by the container
/// parser: channels are 4-bit, keys/velocities/programs 7-bit and tempo
/// values 24-bit on the wire.
pub open spec fn raw_kind_wf(k: RawEventKind) -> bool {
    match k {
        RawEventKind::NoteOn { channel, key, vel } => channel < 16 && key < 128 && vel < 128,
        RawEventKind::NoteOff { channel, key, vel } => channel < 16 && key < 128 && vel < 128,
        RawEventKind::ProgramChange { channel, program } => channel < 16 && program < 128,
        RawEventKind::Tempo { micros_per_quarter } => micros_per_quarter < 0x1000000,
        RawEventKind::Other => true,
    }
}

/// Bounds for a whole raw event: a 28-bit tick delta and a well-formed kind.
pub open spec fn raw_event_wf(e: RawTrackEvent) -> bool {
    e.delta_ticks < 0x10000000 && raw_kind_wf(e.kind)
}

/// The mathematical view of a list of raw tracks: each track as a sequence.
pub open spec fn tracks_view(tracks: Seq<Vec<RawTrackEvent>>) -> Seq<Seq<RawTrackEvent>> {
    Seq::new(tracks.len(), |i: int| tracks[i]@)
}

/// Every event of every track is well-formed.
pub open spec fn all_raw_events_wf(tracks: Seq<Seq<RawTrackEvent>>) -> bool {
    forall|t: int, i: int|
        0 <= t < tracks.len() && 0 <= i < tracks[t].len() ==> raw_event_wf(
            #[trigger] tracks[t][i],
        )
}

} // verus!
