//! Tests for the performance model: tempo conversion, container loading,
//! note pairing, merging, and the program timeline.

use midi_playback::events::{MidiLoadError, MidiMessage, RawEventKind, RawTrackEvent};
use midi_playback::midi_file::{MidiFile, RawSmf};
use midi_playback::tempo::TempoTrack;

fn tempo_event(delta_ticks: u32, micros_per_quarter: u32) -> RawTrackEvent {
    RawTrackEvent { delta_ticks, kind: RawEventKind::Tempo { micros_per_quarter } }
}

fn note_on(delta_ticks: u32, channel: u8, key: u8, vel: u8) -> RawTrackEvent {
    RawTrackEvent { delta_ticks, kind: RawEventKind::NoteOn { channel, key, vel } }
}

fn note_off(delta_ticks: u32, channel: u8, key: u8) -> RawTrackEvent {
    RawTrackEvent { delta_ticks, kind: RawEventKind::NoteOff { channel, key, vel: 0 } }
}

fn program_change(delta_ticks: u32, channel: u8, program: u8) -> RawTrackEvent {
    RawTrackEvent { delta_ticks, kind: RawEventKind::ProgramChange { channel, program } }
}

#[test]
fn default_tempo_is_120_bpm() {
    // With no tempo events, 480 ticks at 480 ticks per quarter is one
    // quarter note at 120 BPM: half a second.
    let tracks: Vec<Vec<RawTrackEvent>> = vec![vec![]];
    let tm = TempoTrack::build(&tracks, 480);
    assert_eq!(tm.tick_to_time(0), 0);
    assert_eq!(tm.tick_to_time(480), 500_000);
    assert_eq!(tm.tick_to_time(960), 1_000_000);
}

#[test]
fn tempo_change_integrates_elapsed_time() {
    // 120 BPM until tick 480, then 60 BPM: tick 960 is 0.5 s + 1.0 s.
    let tracks: Vec<Vec<RawTrackEvent>> = vec![vec![tempo_event(480, 1_000_000)]];
    let tm = TempoTrack::build(&tracks, 480);
    assert_eq!(tm.tick_to_time(480), 500_000);
    assert_eq!(tm.tick_to_time(960), 1_500_000);
}

#[test]
fn tempo_at_tick_zero_overrides_default() {
    let tracks: Vec<Vec<RawTrackEvent>> = vec![vec![tempo_event(0, 250_000)]];
    let tm = TempoTrack::build(&tracks, 500);
    // 250 ms per quarter of 500 ticks: one tick is 500 us.
    assert_eq!(tm.tick_to_time(500), 250_000);
}

#[test]
fn tempo_events_merge_across_tracks() {
    let tracks: Vec<Vec<RawTrackEvent>> = vec![
        vec![tempo_event(960, 250_000)],
        vec![tempo_event(480, 1_000_000)],
    ];
    let tm = TempoTrack::build(&tracks, 480);
    assert_eq!(tm.tick_to_time(480), 500_000);
    assert_eq!(tm.tick_to_time(960), 1_500_000);
    // After tick 960 the faster tempo applies.
    assert_eq!(tm.tick_to_time(1440), 1_750_000);
}

#[test]
fn tick_to_time_monotone_on_samples() {
    let tracks: Vec<Vec<RawTrackEvent>> = vec![vec![
        tempo_event(100, 300_000),
        tempo_event(100, 700_000),
        tempo_event(1000, 100_000),
    ]];
    let tm = TempoTrack::build(&tracks, 96);
    let mut last: u64 = 0;
    let mut tick: u64 = 0;
    while tick < 3000 {
        let t = tm.tick_to_time(tick);
        assert!(t >= last);
        last = t;
        tick += 37;
    }
}

#[test]
fn pairing_builds_notes_with_durations() {
    // 500 ticks per quarter at the default tempo: one tick is 1000 us.
    let raw = RawSmf {
        ticks_per_quarter: 500,
        tracks: vec![vec![
            note_on(0, 0, 60, 80),
            note_off(1000, 0, 60),
        ]],
    };
    let file = MidiFile::build(raw).unwrap();
    assert_eq!(file.tracks.len(), 1);
    let notes = &file.merged_track.notes;
    assert_eq!(notes.len(), 1);
    assert_eq!(notes[0].note, 60);
    assert_eq!(notes[0].vel, 80);
    assert_eq!(notes[0].start_us, 0);
    assert_eq!(notes[0].duration_us, 1_000_000);
}

#[test]
fn merged_track_orders_notes_from_two_tracks() {
    // One track holds key 60 starting at 0 lasting 1 s; the other key 64
    // starting at 0.5 s lasting 1 s. The merged track orders them by start.
    let raw = RawSmf {
        ticks_per_quarter: 500,
        tracks: vec![
            vec![note_on(0, 0, 60, 90), note_off(1000, 0, 60)],
            vec![note_on(500, 0, 64, 90), note_off(1000, 0, 64)],
        ],
    };
    let file = MidiFile::build(raw).unwrap();
    let notes = &file.merged_track.notes;
    assert_eq!(notes.len(), 2);
    assert_eq!(notes[0].note, 60);
    assert_eq!(notes[0].start_us, 0);
    assert_eq!(notes[0].duration_us, 1_000_000);
    assert_eq!(notes[1].note, 64);
    assert_eq!(notes[1].start_us, 500_000);
    assert_eq!(notes[1].duration_us, 1_000_000);
    // The merged events are time-ordered as well.
    let events = &file.merged_track.events;
    for w in 1..events.len() {
        assert!(events[w - 1].timestamp_us <= events[w].timestamp_us);
    }
}

#[test]
fn zero_velocity_note_on_closes_and_becomes_note_off() {
    let raw = RawSmf {
        ticks_per_quarter: 500,
        tracks: vec![vec![
            note_on(0, 0, 72, 100),
            RawTrackEvent {
                delta_ticks: 250,
                kind: RawEventKind::NoteOn { channel: 0, key: 72, vel: 0 },
            },
        ]],
    };
    let file = MidiFile::build(raw).unwrap();
    let notes = &file.merged_track.notes;
    assert_eq!(notes.len(), 1);
    assert_eq!(notes[0].duration_us, 250_000);
    let events = &file.merged_track.events;
    assert_eq!(events.len(), 2);
    assert!(matches!(events[1].message, MidiMessage::NoteOff { key: 72, .. }));
}

#[test]
fn unterminated_note_is_discarded() {
    let raw = RawSmf {
        ticks_per_quarter: 500,
        tracks: vec![vec![note_on(0, 0, 60, 80), note_on(100, 0, 61, 80), note_off(100, 0, 61)]],
    };
    let file = MidiFile::build(raw).unwrap();
    let notes = &file.merged_track.notes;
    assert_eq!(notes.len(), 1);
    assert_eq!(notes[0].note, 61);
}

#[test]
fn note_ids_are_unique_across_tracks() {
    let raw = RawSmf {
        ticks_per_quarter: 500,
        tracks: vec![
            vec![note_on(0, 0, 60, 80), note_off(100, 0, 60)],
            vec![note_on(0, 1, 62, 80), note_off(100, 1, 62), note_on(0, 1, 64, 80), note_off(
                100,
                1,
                64,
            )],
        ],
    };
    let file = MidiFile::build(raw).unwrap();
    let mut ids: Vec<u64> = file.merged_track.notes.iter().map(|n| n.id).collect();
    ids.sort();
    assert_eq!(ids, vec![0, 1, 2]);
}

#[test]
fn program_timeline_returns_last_program_at_or_before() {
    let raw = RawSmf {
        ticks_per_quarter: 500,
        tracks: vec![vec![
            program_change(0, 0, 5),
            program_change(0, 3, 40),
            program_change(1000, 0, 9),
        ]],
    };
    let file = MidiFile::build(raw).unwrap();
    let at_start = file.program_map.program_for_timestamp(0);
    assert_eq!(at_start, vec![(0, 5), (3, 40)]);
    let later = file.program_map.program_for_timestamp(2_000_000);
    assert_eq!(later, vec![(0, 9), (3, 40)]);
}

#[test]
fn program_timeline_empty_before_first_change() {
    let raw = RawSmf {
        ticks_per_quarter: 500,
        tracks: vec![vec![program_change(1000, 2, 7)]],
    };
    let file = MidiFile::build(raw).unwrap();
    assert_eq!(file.program_map.program_for_timestamp(999_999), vec![]);
    assert_eq!(file.program_map.program_for_timestamp(1_000_000), vec![(2, 7)]);
}

#[test]
fn build_rejects_empty_track_list() {
    let raw = RawSmf { ticks_per_quarter: 480, tracks: vec![] };
    assert_eq!(MidiFile::build(raw).unwrap_err(), MidiLoadError::NoTracks);
}

#[test]
fn build_rejects_zero_ticks_per_quarter() {
    let raw = RawSmf { ticks_per_quarter: 0, tracks: vec![vec![]] };
    assert_eq!(MidiFile::build(raw).unwrap_err(), MidiLoadError::UnsupportedTiming);
}

#[test]
fn load_error_messages() {
    assert_eq!(MidiLoadError::ParseError.message(), "Midi Parsing Error");
    assert_eq!(
        MidiLoadError::UnsupportedTiming.message(),
        "Midi With Timecode Timing, Not Supported!"
    );
    assert_eq!(MidiLoadError::NoTracks.message(), "Midi File Has No Tracks");
}

/// A minimal standard MIDI file: format 0, one track, 480 ticks per
/// quarter, one note (key 60, velocity 64) lasting 480 ticks.
fn tiny_smf_bytes() -> Vec<u8> {
    vec![
        0x4d, 0x54, 0x68, 0x64, // MThd
        0x00, 0x00, 0x00, 0x06, // header length
        0x00, 0x00, // format 0
        0x00, 0x01, // one track
        0x01, 0xe0, // 480 ticks per quarter
        0x4d, 0x54, 0x72, 0x6b, // MTrk
        0x00, 0x00, 0x00, 0x0d, // track length: 13 bytes
        0x00, 0x90, 0x3c, 0x40, // delta 0, NoteOn ch 0 key 60 vel 64
        0x83, 0x60, 0x80, 0x3c, 0x40, // delta 480, NoteOff ch 0 key 60
        0x00, 0xff, 0x2f, 0x00, // delta 0, end of track
    ]
}

#[test]
fn parses_container_bytes_into_model() {
    let data = tiny_smf_bytes();
    let file = MidiFile::new(&data).unwrap();
    assert_eq!(file.tempo_track.ticks_per_quarter, 480);
    assert_eq!(file.tracks.len(), 1);
    let notes = &file.merged_track.notes;
    assert_eq!(notes.len(), 1);
    assert_eq!(notes[0].note, 60);
    assert_eq!(notes[0].vel, 64);
    assert_eq!(notes[0].start_us, 0);
    // 480 ticks at the default 120 BPM: half a second.
    assert_eq!(notes[0].duration_us, 500_000);
    assert_eq!(notes[0].channel, 0);
}

#[test]
fn rejects_unparseable_container() {
    let data: Vec<u8> = vec![1, 2, 3];
    assert_eq!(MidiFile::new(&data).unwrap_err(), MidiLoadError::ParseError);
}

#[test]
fn rejects_timecode_timing() {
    let data: Vec<u8> = vec![
        0x4d, 0x54, 0x68, 0x64, 0x00, 0x00, 0x00, 0x06, // MThd
        0x00, 0x00, // format 0
        0x00, 0x00, // zero tracks
        0xe7, 0x28, // SMPTE timecode division
    ];
    assert_eq!(MidiFile::new(&data).unwrap_err(), MidiLoadError::UnsupportedTiming);
}

#[test]
fn rejects_container_without_tracks() {
    let data: Vec<u8> = vec![
        0x4d, 0x54, 0x68, 0x64, 0x00, 0x00, 0x00, 0x06, // MThd
        0x00, 0x01, // format 1
        0x00, 0x00, // zero tracks
        0x01, 0xe0, // 480 ticks per quarter
    ];
    assert_eq!(MidiFile::new(&data).unwrap_err(), MidiLoadError::NoTracks);
}
