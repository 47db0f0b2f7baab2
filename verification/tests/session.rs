//! Tests for the playback clock, the play-along matcher, the player, the
//! scrub controller, and the timing utilities.

use midi_playback::events::{MidiEvent, MidiMessage, RawEventKind, RawTrackEvent};
use midi_playback::keyboard::{KeyKind, KeyboardRange};
use midi_playback::midi_file::{MidiFile, RawSmf};
use midi_playback::play_along::{MidiEventSource, PlayAlong};
use midi_playback::settings::{PlayerSettings, SettingsKey};
use midi_playback::playback::PlaybackState;
use midi_playback::player::{MidiPlayer, OutputCommand};
use midi_playback::rewind::{session_tick, RewindController};
use midi_playback::time_menager::{Fps, TimeMenager, Timer};
use midi_playback::track::MidiTrack;

fn ev(timestamp_us: u64, channel: u8, message: MidiMessage) -> MidiEvent {
    MidiEvent { channel, timestamp_us, message, track_id: 0 }
}

fn three_event_track() -> MidiTrack {
    MidiTrack {
        track_id: 0,
        notes: vec![],
        events: vec![
            ev(1_000, 0, MidiMessage::NoteOn { key: 60, vel: 80 }),
            ev(2_000, 0, MidiMessage::NoteOff { key: 60, vel: 0 }),
            ev(5_000, 0, MidiMessage::NoteOn { key: 64, vel: 80 }),
        ],
    }
}

#[test]
fn advance_delivers_events_in_window() {
    let track = three_event_track();
    let mut clock = PlaybackState::new(0, &track);
    let batch = clock.update(&track, 2_000);
    assert_eq!(batch.len(), 2);
    assert_eq!(batch[0].timestamp_us, 1_000);
    assert_eq!(batch[1].timestamp_us, 2_000);
    let batch2 = clock.update(&track, 3_000);
    assert_eq!(batch2.len(), 1);
    assert_eq!(batch2[0].timestamp_us, 5_000);
}

#[test]
fn chunked_advance_equals_single_advance() {
    let track = three_event_track();
    let mut a = PlaybackState::new(0, &track);
    let mut b = PlaybackState::new(0, &track);
    let mut chunked: Vec<MidiEvent> = vec![];
    chunked.extend(a.update(&track, 900));
    chunked.extend(a.update(&track, 700));
    chunked.extend(a.update(&track, 2_400));
    chunked.extend(a.update(&track, 2_000));
    let whole = b.update(&track, 6_000);
    assert_eq!(chunked, whole);
    assert_eq!(a, b);
}

#[test]
fn paused_clock_does_not_move() {
    let track = three_event_track();
    let mut clock = PlaybackState::new(0, &track);
    clock.pause();
    let batch = clock.update(&track, 10_000);
    assert!(batch.is_empty());
    assert_eq!(clock.time_us(), 0);
    clock.resume();
    let batch2 = clock.update(&track, 1_500);
    assert_eq!(batch2.len(), 1);
}

#[test]
fn seek_to_current_position_redelivers_nothing() {
    let track = three_event_track();
    let mut clock = PlaybackState::new(0, &track);
    let first = clock.update(&track, 2_500);
    assert_eq!(first.len(), 2);
    let pos = clock.time_us();
    clock.seek(&track, pos);
    let after = clock.update(&track, 0);
    assert!(after.is_empty());
    let rest = clock.update(&track, 10_000);
    assert_eq!(rest.len(), 1);
    assert_eq!(rest[0].timestamp_us, 5_000);
}

#[test]
fn seek_backward_redelivers_crossed_events() {
    let track = three_event_track();
    let mut clock = PlaybackState::new(0, &track);
    let first = clock.update(&track, 6_000);
    assert_eq!(first.len(), 3);
    clock.seek(&track, 0);
    let again = clock.update(&track, 6_000);
    assert_eq!(again, first);
}

#[test]
fn seek_clamps_at_lead_in() {
    let track = three_event_track();
    let mut clock = PlaybackState::new(2_000, &track);
    assert_eq!(clock.time_us(), -2_000);
    clock.seek(&track, -1_000_000);
    assert_eq!(clock.time_us(), -2_000);
}

#[test]
fn early_press_within_leeway_is_consumed() {
    let mut pa = PlayAlong::new(KeyboardRange::standard_88_keys());
    pa.press_key(MidiEventSource::User, 60, true, 1_000);
    pa.update(1_400);
    pa.press_key(MidiEventSource::File, 60, true, 1_400);
    assert!(pa.are_required_keys_pressed());
}

#[test]
fn press_exactly_at_leeway_boundary_still_matches() {
    let mut pa = PlayAlong::new(KeyboardRange::standard_88_keys());
    pa.press_key(MidiEventSource::User, 60, true, 1_000);
    pa.update(1_500);
    pa.press_key(MidiEventSource::File, 60, true, 1_500);
    assert!(pa.are_required_keys_pressed());
}

#[test]
fn stale_press_outside_leeway_does_not_match() {
    let mut pa = PlayAlong::new(KeyboardRange::standard_88_keys());
    pa.press_key(MidiEventSource::User, 60, true, 1_000);
    pa.update(1_501);
    pa.press_key(MidiEventSource::File, 60, true, 1_501);
    assert!(!pa.are_required_keys_pressed());
}

#[test]
fn late_user_press_clears_requirement() {
    let mut pa = PlayAlong::new(KeyboardRange::standard_88_keys());
    pa.press_key(MidiEventSource::File, 72, true, 0);
    assert!(!pa.are_required_keys_pressed());
    pa.press_key(MidiEventSource::User, 72, true, 200);
    assert!(pa.are_required_keys_pressed());
}

#[test]
fn file_note_off_force_clears_requirement() {
    let mut pa = PlayAlong::new(KeyboardRange::standard_88_keys());
    pa.press_key(MidiEventSource::File, 72, true, 0);
    assert!(!pa.are_required_keys_pressed());
    pa.press_key(MidiEventSource::File, 72, false, 100);
    assert!(pa.are_required_keys_pressed());
}

#[test]
fn keys_outside_range_never_gate() {
    let mut pa = PlayAlong::new(KeyboardRange::standard_88_keys());
    // Key 10 lies below the 88-key range and must be ignored entirely.
    pa.press_key(MidiEventSource::File, 10, true, 0);
    assert!(pa.are_required_keys_pressed());
    pa.press_key(MidiEventSource::User, 10, true, 0);
    pa.press_key(MidiEventSource::File, 10, true, 0);
    assert!(pa.are_required_keys_pressed());
}

#[test]
fn one_press_matches_only_one_file_note() {
    let mut pa = PlayAlong::new(KeyboardRange::standard_88_keys());
    pa.press_key(MidiEventSource::User, 60, true, 0);
    pa.press_key(MidiEventSource::File, 60, true, 100);
    assert!(pa.are_required_keys_pressed());
    // The single press was consumed; a second file note requires again.
    pa.press_key(MidiEventSource::File, 60, true, 200);
    assert!(!pa.are_required_keys_pressed());
}

#[test]
fn midi_event_routes_note_messages() {
    let mut pa = PlayAlong::new(KeyboardRange::standard_88_keys());
    pa.midi_event(MidiEventSource::File, &MidiMessage::NoteOn { key: 60, vel: 90 }, 0);
    assert!(!pa.are_required_keys_pressed());
    pa.midi_event(MidiEventSource::File, &MidiMessage::NoteOff { key: 60, vel: 0 }, 0);
    assert!(pa.are_required_keys_pressed());
    pa.midi_event(MidiEventSource::File, &MidiMessage::Other, 0);
    assert!(pa.are_required_keys_pressed());
}

/// A file whose merged track holds one note: key 60, musical time 0,
/// lasting one second (500 ticks per quarter at the default tempo).
fn one_note_file() -> MidiFile {
    let raw = RawSmf {
        ticks_per_quarter: 500,
        tracks: vec![vec![
            RawTrackEvent { delta_ticks: 0, kind: RawEventKind::NoteOn { channel: 0, key: 60, vel: 80 } },
            RawTrackEvent { delta_ticks: 1000, kind: RawEventKind::NoteOff { channel: 0, key: 60, vel: 0 } },
        ]],
    };
    MidiFile::build(raw).unwrap()
}

/// Like [`one_note_file`] but on the percussion channel.
fn percussion_file() -> MidiFile {
    let raw = RawSmf {
        ticks_per_quarter: 500,
        tracks: vec![vec![
            RawTrackEvent { delta_ticks: 0, kind: RawEventKind::NoteOn { channel: 9, key: 60, vel: 80 } },
            RawTrackEvent { delta_ticks: 1000, kind: RawEventKind::NoteOff { channel: 9, key: 60, vel: 0 } },
        ]],
    };
    MidiFile::build(raw).unwrap()
}

#[test]
fn player_crosses_note_and_requires_it() {
    let (mut player, _) = MidiPlayer::new(one_note_file(), KeyboardRange::standard_88_keys());
    // The session starts 3 s before musical time zero.
    assert_eq!(player.time_without_lead_in(), -3_000_000);
    let events = player.update(3_000_010, 10, 0);
    assert_eq!(events.len(), 1);
    assert!(matches!(events[0].message, MidiMessage::NoteOn { key: 60, .. }));
    // The crossed NoteOn was fed to the matcher: key 60 is now required.
    assert!(!player.play_along().are_required_keys_pressed());
}

#[test]
fn percussion_channel_never_affects_matcher() {
    let (mut player, _) = MidiPlayer::new(percussion_file(), KeyboardRange::standard_88_keys());
    let events = player.update(3_000_010, 10, 0);
    assert_eq!(events.len(), 1);
    assert_eq!(events[0].channel, 9);
    // The percussion NoteOn is delivered to the sink but bypasses gating.
    assert!(player.play_along().are_required_keys_pressed());
}

#[test]
fn pause_stops_all_exactly_once_and_resume_does_not_retrigger() {
    let (mut player, _) = MidiPlayer::new(one_note_file(), KeyboardRange::standard_88_keys());
    // Cross the NoteOn so the note is sounding.
    let events = player.update(3_000_010, 10, 0);
    assert_eq!(events.len(), 1);
    let pause_cmds = player.pause();
    assert_eq!(pause_cmds, vec![OutputCommand::StopAll]);
    assert!(player.is_paused());
    // While paused nothing is delivered.
    assert!(player.update(1_000_000, 10, 0).is_empty());
    player.resume();
    assert!(!player.is_paused());
    // Resuming re-triggers nothing: the NoteOn already delivered does not
    // come again, only the later NoteOff crosses.
    let after = player.update(1_000_000, 10, 0);
    assert_eq!(after.len(), 1);
    assert!(matches!(after[0].message, MidiMessage::NoteOff { key: 60, .. }));
}

#[test]
fn pause_resume_toggles() {
    let (mut player, _) = MidiPlayer::new(one_note_file(), KeyboardRange::standard_88_keys());
    let cmds = player.pause_resume();
    assert_eq!(cmds, vec![OutputCommand::StopAll]);
    assert!(player.is_paused());
    let cmds2 = player.pause_resume();
    assert!(cmds2.is_empty());
    assert!(!player.is_paused());
}

#[test]
fn seek_before_notes_leaves_no_stale_requirements() {
    let (mut player, _) = MidiPlayer::new(one_note_file(), KeyboardRange::standard_88_keys());
    // Cross the NoteOn; its key becomes required.
    player.update(3_000_010, 10, 0);
    assert!(!player.play_along().are_required_keys_pressed());
    // Seek back before any note: stale requirements are dropped and a
    // small advance that crosses nothing keeps playback unblocked.
    let cmds = player.set_time(-1_000_000);
    assert_eq!(cmds[0], OutputCommand::StopAll);
    assert!(player.play_along().are_required_keys_pressed());
    let events = player.update(100, 10, 0);
    assert!(events.is_empty());
    assert!(player.play_along().are_required_keys_pressed());
}

#[test]
fn seek_resends_program_state() {
    let raw = RawSmf {
        ticks_per_quarter: 500,
        tracks: vec![vec![
            RawTrackEvent { delta_ticks: 0, kind: RawEventKind::ProgramChange { channel: 0, program: 12 } },
            RawTrackEvent { delta_ticks: 0, kind: RawEventKind::NoteOn { channel: 0, key: 60, vel: 80 } },
            RawTrackEvent { delta_ticks: 1000, kind: RawEventKind::NoteOff { channel: 0, key: 60, vel: 0 } },
        ]],
    };
    let file = MidiFile::build(raw).unwrap();
    let (mut player, init_cmds) = MidiPlayer::new(file, KeyboardRange::standard_88_keys());
    // At session start the program at raw time 0 is already announced.
    assert_eq!(
        init_cmds,
        vec![OutputCommand::Midi { channel: 0, message: MidiMessage::ProgramChange { program: 12 } }]
    );
    let cmds = player.set_time(500_000);
    assert_eq!(cmds.len(), 2);
    assert_eq!(cmds[0], OutputCommand::StopAll);
    assert_eq!(
        cmds[1],
        OutputCommand::Midi { channel: 0, message: MidiMessage::ProgramChange { program: 12 } }
    );
}

#[test]
fn rewind_moves_position_by_milliseconds() {
    let (mut player, _) = MidiPlayer::new(one_note_file(), KeyboardRange::standard_88_keys());
    player.set_time(500_000);
    assert_eq!(player.time_without_lead_in(), 500_000);
    player.rewind(-100);
    assert_eq!(player.time_without_lead_in(), 400_000);
    player.rewind(250);
    assert_eq!(player.time_without_lead_in(), 650_000);
}

#[test]
fn set_percentage_time_seeks_to_fraction_of_length() {
    let (mut player, _) = MidiPlayer::new(one_note_file(), KeyboardRange::standard_88_keys());
    assert_eq!(player.length_us(), 1_000_000);
    player.set_percentage_time(1, 2);
    assert_eq!(player.time_without_lead_in(), 500_000);
    player.set_percentage_time(0, 7);
    assert_eq!(player.time_without_lead_in(), 0);
}

#[test]
fn keyboard_scrub_starts_pauses_and_stop_restores() {
    let (mut player, _) = MidiPlayer::new(one_note_file(), KeyboardRange::standard_88_keys());
    let mut ctl = RewindController::new();
    assert!(!ctl.is_rewinding());
    let cmds = ctl.handle_keyboard_input(&mut player, false, true);
    assert_eq!(cmds, vec![OutputCommand::StopAll]);
    assert!(ctl.is_rewinding());
    assert!(player.is_paused());
    // Releasing the key ends the scrub and resumes, because the clock was
    // running when the scrub began.
    ctl.handle_keyboard_input(&mut player, false, false);
    assert!(!ctl.is_rewinding());
    assert!(!player.is_paused());
}

#[test]
fn keyboard_scrub_on_paused_clock_stays_paused() {
    let (mut player, _) = MidiPlayer::new(one_note_file(), KeyboardRange::standard_88_keys());
    player.pause();
    let mut ctl = RewindController::new();
    ctl.handle_keyboard_input(&mut player, true, true);
    ctl.handle_keyboard_input(&mut player, true, false);
    assert!(player.is_paused());
}

#[test]
fn keyboard_scrub_seeks_with_modifiers() {
    let (mut player, _) = MidiPlayer::new(one_note_file(), KeyboardRange::standard_88_keys());
    player.set_time(500_000);
    let mut ctl = RewindController::new();
    ctl.handle_keyboard_input(&mut player, false, true);
    // Base speed: -100 ms per tick.
    ctl.update(&mut player, false, false);
    assert_eq!(player.time_without_lead_in(), 400_000);
    // Fast modifier doubles it.
    ctl.update(&mut player, true, false);
    assert_eq!(player.time_without_lead_in(), 200_000);
    // Slow modifier halves it.
    ctl.update(&mut player, false, true);
    assert_eq!(player.time_without_lead_in(), 150_000);
}

#[test]
fn mouse_scrub_seeks_to_pointer_fraction() {
    let (mut player, _) = MidiPlayer::new(one_note_file(), KeyboardRange::standard_88_keys());
    let mut ctl = RewindController::new();
    // Press in the progress bar at 30% of the window width.
    ctl.handle_mouse_input(&mut player, true, true, 30, 100);
    assert!(ctl.is_rewinding());
    assert!(player.is_paused());
    assert_eq!(player.time_without_lead_in(), 300_000);
    // Dragging updates the position.
    ctl.handle_cursor_moved(&mut player, 90, 100);
    assert_eq!(player.time_without_lead_in(), 900_000);
    // Release ends the scrub and resumes.
    ctl.handle_mouse_input(&mut player, false, false, 0, 100);
    assert!(!ctl.is_rewinding());
    assert!(!player.is_paused());
}

#[test]
fn mouse_press_outside_progress_bar_is_ignored() {
    let (mut player, _) = MidiPlayer::new(one_note_file(), KeyboardRange::standard_88_keys());
    let mut ctl = RewindController::new();
    ctl.handle_mouse_input(&mut player, true, false, 50, 100);
    assert!(!ctl.is_rewinding());
    assert!(!player.is_paused());
    // Cursor moves without an active mouse scrub do not seek.
    ctl.handle_cursor_moved(&mut player, 50, 100);
    assert_eq!(player.time_without_lead_in(), -3_000_000);
}

#[test]
fn session_tick_blocks_while_key_required() {
    let (mut player, _) = MidiPlayer::new(one_note_file(), KeyboardRange::standard_88_keys());
    let ctl = RewindController::new();
    // Cross the NoteOn: key 60 becomes required and blocks playback.
    let (events, _) = session_tick(&mut player, &ctl, 3_000_010, 10, 0, false, false);
    assert_eq!(events.len(), 1);
    let pos = player.time_without_lead_in();
    // Blocked: the clock must not move and nothing is delivered.
    let (blocked, cmds) = session_tick(&mut player, &ctl, 1_000_000, 10, 100, false, false);
    assert!(blocked.is_empty());
    assert!(cmds.is_empty());
    assert_eq!(player.time_without_lead_in(), pos);
    // The user plays the key: the block lifts and time flows again.
    player.play_along_mut().midi_event(MidiEventSource::User, &MidiMessage::NoteOn { key: 60, vel: 70 }, 200);
    let (after, _) = session_tick(&mut player, &ctl, 1_000_000, 10, 200, false, false);
    assert_eq!(after.len(), 1);
    assert!(player.time_without_lead_in() > pos);
}

#[test]
fn session_tick_applies_speed_multiplier() {
    let (mut player, _) = MidiPlayer::new(one_note_file(), KeyboardRange::standard_88_keys());
    let ctl = RewindController::new();
    // 2.0x speed: 1 s of wall time moves the position by 2 s.
    session_tick(&mut player, &ctl, 1_000_000, 20, 0, false, false);
    assert_eq!(player.time_without_lead_in(), -1_000_000);
}

#[test]
fn timer_accumulates_only_while_running() {
    let mut t = Timer::new(1_000);
    t.update(4_000);
    assert_eq!(t.time_elapsed, 3_000);
    t.pause();
    t.update(10_000);
    assert_eq!(t.time_elapsed, 3_000);
    t.resume();
    t.update(12_000);
    assert_eq!(t.time_elapsed, 5_000);
    t.pause_resume();
    assert!(t.paused);
    t.pause_resume();
    assert!(!t.paused);
    assert_eq!(t.get_elapsed(), 5_000 / 1_000);
}

#[test]
fn fps_reports_frames_per_second() {
    let mut f = Fps::new(0);
    let mut now: u128 = 0;
    for _ in 0..59 {
        now += 16_000_000;
        f.update(now);
    }
    assert_eq!(f.fps, 0);
    f.update(1_000_000_000);
    assert_eq!(f.fps, 60);
}

#[test]
fn time_menager_tracks_last_tick_and_fps() {
    let mut tm = TimeMenager::new(0);
    tm.update(500_000_000);
    assert_eq!(tm.last_time, 500_000_000);
    assert_eq!(tm.fps(), 0);
    tm.update(1_500_000_000);
    assert_eq!(tm.fps(), 2);
}

#[test]
fn key_kind_predicates() {
    assert!(KeyKind::Neutral.is_neutral());
    assert!(!KeyKind::Neutral.is_sharp());
    assert!(KeyKind::Sharp.is_sharp());
    assert!(!KeyKind::Sharp.is_neutral());
}

#[test]
fn keyboard_range_contains_and_clamps() {
    let r = KeyboardRange::standard_88_keys();
    assert!(r.contains(21));
    assert!(r.contains(108));
    assert!(!r.contains(109));
    assert!(!r.contains(20));
    assert_eq!(r.count(), 88);
    let clamped = KeyboardRange::new(10, 200);
    assert!(clamped.contains(127));
    assert!(!clamped.contains(128));
}

#[test]
fn settings_step_speed_and_clamp_at_zero() {
    let mut s = PlayerSettings::new();
    assert_eq!(s.speed_multiplier_decis, 10);
    s.settings_keyboard_input(SettingsKey::SpeedUp, false);
    assert_eq!(s.speed_multiplier_decis, 11);
    s.settings_keyboard_input(SettingsKey::SpeedUp, true);
    assert_eq!(s.speed_multiplier_decis, 16);
    for _ in 0..4 {
        s.settings_keyboard_input(SettingsKey::SpeedDown, true);
    }
    assert_eq!(s.speed_multiplier_decis, 0);
    s.settings_keyboard_input(SettingsKey::SpeedDown, false);
    assert_eq!(s.speed_multiplier_decis, 0);
}

#[test]
fn settings_step_animation_and_offset() {
    let mut s = PlayerSettings::new();
    s.settings_keyboard_input(SettingsKey::AnimationUp, true);
    assert_eq!(s.animation_speed, 900);
    for _ in 0..2 {
        s.settings_keyboard_input(SettingsKey::AnimationDown, true);
    }
    assert_eq!(s.animation_speed, 100);
    s.settings_keyboard_input(SettingsKey::OffsetUp, true);
    s.settings_keyboard_input(SettingsKey::OffsetDown, false);
    assert_eq!(s.playback_offset_centis, 9);
}
