//! The player: a playback clock over a loaded file, coupled to the
//! play-along matcher. Methods that in a running program would talk to the
//! MIDI output sink instead return the commands to send, so every decision
//! stays verified and the caller performs the I/O.

use vstd::prelude::*;

use crate::events::{MidiEvent, MidiMessage};
use crate::keyboard::KeyboardRange;
use crate::midi_file::MidiFile;
use crate::play_along::{
    evict, midi_event_spec, MidiEventSource, PlayAlong, UserPress,
};
use crate::playback::{advance_delivery, advance_state, seek_state, PlaybackState};
use crate::program::{programs_at, CHANNEL_COUNT};
use crate::track::track_length_spec;

verus! {

/// Fixed lead-in: the session starts this long before audible time zero so
/// the display can show approaching notes.
pub const LEAD_IN_US: u64 = 3000000;

/// A command for the external output sink.
#[derive(Clone, Copy, PartialEq, Eq, Structural, Debug)]
pub enum OutputCommand {
    /// Forward one channel message.
    Midi { channel: u8, message: MidiMessage },
    /// Silence every currently-sounding note.
    StopAll,
}

/// The `(channel, ProgramChange)` commands for the programs active at `t`.
pub open spec fn program_commands(channels: Seq<Vec<(u64, u8)>>, t: u64) -> Seq<OutputCommand> {
    programs_at(channels, CHANNEL_COUNT as int, t).map_values(
        |p: (u8, u8)| OutputCommand::Midi {
            channel: p.0,
            message: MidiMessage::ProgramChange { program: p.1 },
        },
    )
}

/// The matcher state after a batch of file events: events on the
/// percussion channel (9) are bypassed, the rest are fed in order.
pub open spec fn feed_file_events(
    range: KeyboardRange,
    required: Seq<bool>,
    q: Seq<UserPress>,
    events: Seq<MidiEvent>,
    now: u64,
) -> (Seq<bool>, Seq<UserPress>)
    decreases events.len(),
{
    if events.len() == 0 {
        (required, q)
    } else {
        let prev = feed_file_events(range, required, q, events.drop_last(), now);
        if events.last().channel != 9 {
            midi_event_spec(range, prev.0, prev.1, MidiEventSource::File, events.last().message, now)
        } else {
            prev
        }
    }
}

/// Elapsed wall time scaled by the speed multiplier (in tenths), as the
/// clock consumes it; saturates at the top of `i64`.
pub open spec fn scaled_elapsed(delta_us: u64, speed_decis: u32) -> int {
    let v = (delta_us / 10) * speed_decis;
    if v > i64::MAX {
        i64::MAX as int
    } else {
        v
    }
}

/// Playback position plus lead-in: the raw session time used to query the
/// program timeline, clamped to `u64`.
pub open spec fn raw_time_of(position_us: int, lead_in_us: u64) -> u64 {
    let v = position_us + lead_in_us;
    if v < 0 {
        0u64
    } else if v > u64::MAX {
        u64::MAX
    } else {
        v as u64
    }
}

/// The player: the clock, the loaded file, and the play-along matcher.
pub struct MidiPlayer {
    pub playback: PlaybackState,
    pub midi_file: MidiFile,
    pub play_along: PlayAlong,
}

impl MidiPlayer {
    /// The file is well-formed and the clock and matcher are consistent
    /// with it.
    pub open spec fn wf(&self) -> bool {
        &&& self.midi_file.wf()
        &&& self.playback.wf(self.midi_file.merged_track.events@)
        &&& self.play_along.wf()
    }

    /// A new playback session over `midi_file`, gating on keys within
    /// `user_keyboard_range`. Returns the player and the program-reset
    /// commands for session time zero, which the caller sends to the sink
    /// to clean any leftovers from a previous song.
    pub fn new(midi_file: MidiFile, user_keyboard_range: KeyboardRange) -> (r: (
        MidiPlayer,
        Vec<OutputCommand>,
    ))
        requires
            midi_file.wf(),
            user_keyboard_range.wf(),
        ensures
            r.0.wf(),
            r.0.midi_file == midi_file,
            r.0.playback.lead_in_us == LEAD_IN_US,
            r.0.playback.position_us == -(LEAD_IN_US as int),
            r.0.playback.cursor == crate::playback::cursor_for(
                midi_file.merged_track.events@,
                -(LEAD_IN_US as int),
            ),
            !r.0.playback.paused,
            r.0.play_along.user_keyboard_range == user_keyboard_range,
            forall|k: int| 0 <= k < 128 ==> !(#[trigger] r.0.play_along.required_notes@[k]),
            r.0.play_along.user_pressed_recently@.len() == 0,
            r.1@ == program_commands(
                midi_file.program_map.channels@,
                raw_time_of(-(LEAD_IN_US as int), LEAD_IN_US),
            ),
    {
        let playback = PlaybackState::new(LEAD_IN_US, &midi_file.merged_track);
        let play_along = PlayAlong::new(user_keyboard_range);
        let player = MidiPlayer { playback, midi_file, play_along };
        let commands = player.send_midi_programs_for_timestamp(0);
        proof {
            assert(raw_time_of(-(LEAD_IN_US as int), LEAD_IN_US) == 0);
        }
        (player, commands)
    }

    /// One playing step: evict expired user presses, advance the clock by
    /// `delta_us` scaled by the speed multiplier (in tenths), and return
    /// the crossed events in order. Each returned event must also be
    /// forwarded to the output sink by the caller; events not on the
    /// percussion channel have already been fed to the matcher as
    /// file-side events. A paused clock returns no events.
    pub fn update(&mut self, delta_us: u64, speed_decis: u32, now_ms: u64) -> (r: Vec<MidiEvent>)
        requires
            old(self).wf(),
        ensures
            final(self).wf(),
            final(self).midi_file == old(self).midi_file,
            final(self).playback == advance_state(
                old(self).playback,
                old(self).midi_file.merged_track.events@,
                scaled_elapsed(delta_us, speed_decis),
            ),
            r@ == advance_delivery(
                old(self).playback,
                old(self).midi_file.merged_track.events@,
                scaled_elapsed(delta_us, speed_decis),
            ),
            final(self).play_along.user_keyboard_range == old(self).play_along.user_keyboard_range,
            (final(self).play_along.required_notes@,
            final(self).play_along.user_pressed_recently@) == feed_file_events(
                old(self).play_along.user_keyboard_range,
                old(self).play_along.required_notes@,
                evict(old(self).play_along.user_pressed_recently@, now_ms),
                r@,
                now_ms,
            ),
    {
        self.play_along.update(now_ms);
        let step: u64 = delta_us / 10;
        proof {
            vstd::arithmetic::mul::lemma_mul_upper_bound(
                step as int,
                u64::MAX as int,
                speed_decis as int,
                u32::MAX as int,
            );
        }
        let scaled128: u128 = (step as u128) * (speed_decis as u128);
        let scaled: u64 = if scaled128 > (i64::MAX as u128) {
            i64::MAX as u64
        } else {
            scaled128 as u64
        };
        proof {
            assert(scaled as int == scaled_elapsed(delta_us, speed_decis));
        }
        let events = self.playback.update(&self.midi_file.merged_track, scaled);
        let ghost pb = self.playback;
        let ghost mf = self.midi_file;
        let ghost range = self.play_along.user_keyboard_range;
        let ghost req0 = self.play_along.required_notes@;
        let ghost q0 = self.play_along.user_pressed_recently@;
        let mut i: usize = 0;
        proof {
            assert(events@.take(0) =~= Seq::<MidiEvent>::empty());
        }
        while i < events.len()
            invariant
                i <= events@.len(),
                self.playback == pb,
                self.midi_file == mf,
                mf.wf(),
                pb.wf(mf.merged_track.events@),
                self.play_along.wf(),
                self.play_along.user_keyboard_range == range,
                (self.play_along.required_notes@, self.play_along.user_pressed_recently@)
                    == feed_file_events(range, req0, q0, events@.take(i as int), now_ms),
            decreases events@.len() - i,
        {
            proof {
                assert(events@.take(i + 1).drop_last() =~= events@.take(i as int));
                assert(events@.take(i + 1).last() == events@[i as int]);
            }
            let e = events[i];
            if e.channel != 9 {
                self.play_along.midi_event(MidiEventSource::File, &e.message, now_ms);
            }
            i = i + 1;
        }
        proof {
            assert(events@.take(events@.len() as int) =~= events@);
        }
        events
    }

    /// The stop-everything command, sent whenever playback is interrupted
    /// so no note keeps sounding indefinitely.
    pub fn clear(&self) -> (r: Vec<OutputCommand>)
        ensures
            r@ == seq![OutputCommand::StopAll],
    {
        let mut cmds: Vec<OutputCommand> = Vec::new();
        cmds.push(OutputCommand::StopAll);
        proof {
            assert(cmds@ =~= seq![OutputCommand::StopAll]);
        }
        cmds
    }

    /// Pause the clock. Exactly one stop-all command is issued at the
    /// transition, so nothing keeps sounding while paused.
    pub fn pause(&mut self) -> (r: Vec<OutputCommand>)
        requires
            old(self).wf(),
        ensures
            final(self).wf(),
            *final(self) == (MidiPlayer {
                playback: PlaybackState { paused: true, ..old(self).playback },
                ..*old(self)
            }),
            r@ == seq![OutputCommand::StopAll],
    {
        let cmds = self.clear();
        self.playback.pause();
        cmds
    }

    /// Resume the clock from where it stands; nothing is re-sent, the next
    /// update picks up exactly where the clock left off.
    pub fn resume(&mut self)
        requires
            old(self).wf(),
        ensures
            final(self).wf(),
            *final(self) == (MidiPlayer {
                playback: PlaybackState { paused: false, ..old(self).playback },
                ..*old(self)
            }),
    {
        self.playback.resume();
    }

    /// Toggle the pause state: pausing issues the stop-all command,
    /// resuming issues nothing.
    pub fn pause_resume(&mut self) -> (r: Vec<OutputCommand>)
        requires
            old(self).wf(),
        ensures
            final(self).wf(),
            *final(self) == (MidiPlayer {
                playback: PlaybackState {
                    paused: !old(self).playback.paused,
                    ..old(self).playback
                },
                ..*old(self)
            }),
            r@ == if old(self).playback.paused {
                Seq::<OutputCommand>::empty()
            } else {
                seq![OutputCommand::StopAll]
            },
    {
        if self.playback.is_paused() {
            self.resume();
            Vec::new()
        } else {
            self.pause()
        }
    }

    /// The program-change commands re-deriving instrument state for the
    /// given raw session time, one per channel that has a program by then.
    pub fn send_midi_programs_for_timestamp(&self, time_us: u64) -> (r: Vec<OutputCommand>)
        requires
            self.midi_file.wf(),
        ensures
            r@ == program_commands(self.midi_file.program_map.channels@, time_us),
    {
        let programs = self.midi_file.program_map.program_for_timestamp(time_us);
        let mut cmds: Vec<OutputCommand> = Vec::new();
        let mut i: usize = 0;
        proof {
            assert(programs@.take(0) =~= Seq::<(u8, u8)>::empty());
            assert(cmds@ =~= programs@.take(0).map_values(
                |p: (u8, u8)| OutputCommand::Midi {
                    channel: p.0,
                    message: MidiMessage::ProgramChange { program: p.1 },
                },
            ));
        }
        while i < programs.len()
            invariant
                i <= programs@.len(),
                cmds@ == programs@.take(i as int).map_values(
                    |p: (u8, u8)| OutputCommand::Midi {
                        channel: p.0,
                        message: MidiMessage::ProgramChange { program: p.1 },
                    },
                ),
            decreases programs@.len() - i,
        {
            let (channel, program) = programs[i];
            cmds.push(OutputCommand::Midi { channel, message: MidiMessage::ProgramChange { program } });
            proof {
                assert(cmds@ =~= programs@.take(i + 1).map_values(
                    |p: (u8, u8)| OutputCommand::Midi {
                        channel: p.0,
                        message: MidiMessage::ProgramChange { program: p.1 },
                    },
                ));
            }
            i = i + 1;
        }
        proof {
            assert(programs@.take(programs@.len() as int) =~= programs@);
        }
        cmds
    }

    /// Jump to `time_us` (musical time, clamped at `-lead_in`). The events
    /// between the old and new cursor are deliberately discarded; instead
    /// the caller receives a stop-all command followed by the program state
    /// for the target time, and any stale required keys from before the
    /// jump are forgotten.
    pub fn set_time(&mut self, time_us: i64) -> (r: Vec<OutputCommand>)
        requires
            old(self).wf(),
        ensures
            final(self).wf(),
            final(self).midi_file == old(self).midi_file,
            final(self).playback == seek_state(
                old(self).playback,
                old(self).midi_file.merged_track.events@,
                time_us as int,
            ),
            final(self).play_along.user_keyboard_range == old(self).play_along.user_keyboard_range,
            final(self).play_along.user_pressed_recently == old(self).play_along.user_pressed_recently,
            forall|k: int| 0 <= k < 128 ==> !(#[trigger] final(self).play_along.required_notes@[k]),
            r@ == seek_commands(old(self).midi_file, old(self).playback, time_us as int),
    {
        self.playback.seek(&self.midi_file.merged_track, time_us);
        self.play_along.clear_required();
        let mut cmds = self.clear();
        let raw128: i128 = (self.playback.position_us as i128) + (self.playback.lead_in_us
            as i128);
        let raw: u64 = if raw128 < 0 {
            0
        } else if raw128 > (u64::MAX as i128) {
            u64::MAX
        } else {
            raw128 as u64
        };
        let mut programs = self.send_midi_programs_for_timestamp(raw);
        cmds.append(&mut programs);
        proof {
            assert(cmds@ =~= seq![OutputCommand::StopAll] + program_commands(
                self.midi_file.program_map.channels@,
                raw,
            ));
        }
        cmds
    }

    /// Shift the position by `delta_ms` milliseconds (negative rewinds),
    /// with the same discard-and-resend behavior as `set_time`.
    pub fn rewind(&mut self, delta_ms: i64) -> (r: Vec<OutputCommand>)
        requires
            old(self).wf(),
        ensures
            final(self).wf(),
            final(self).midi_file == old(self).midi_file,
            final(self).playback == seek_state(
                old(self).playback,
                old(self).midi_file.merged_track.events@,
                rewind_target(old(self).playback.position_us, delta_ms),
            ),
            final(self).play_along.user_keyboard_range == old(self).play_along.user_keyboard_range,
            final(self).play_along.user_pressed_recently == old(self).play_along.user_pressed_recently,
            forall|k: int| 0 <= k < 128 ==> !(#[trigger] final(self).play_along.required_notes@[k]),
            r@ == seek_commands(
                old(self).midi_file,
                old(self).playback,
                rewind_target(old(self).playback.position_us, delta_ms),
            ),
    {
        let sum: i128 = (self.playback.position_us as i128) + (delta_ms as i128) * 1000;
        let target: i64 = if sum > (i64::MAX as i128) {
            i64::MAX
        } else if sum < (i64::MIN as i128) {
            i64::MIN
        } else {
            sum as i64
        };
        let cmds = self.set_time(target);
        cmds
    }

    /// Jump to the fraction `numer / denom` of the merged track's length.
    pub fn set_percentage_time(&mut self, numer: u64, denom: u64) -> (r: Vec<OutputCommand>)
        requires
            old(self).wf(),
            denom > 0,
        ensures
            final(self).wf(),
            final(self).midi_file == old(self).midi_file,
            final(self).playback == seek_state(
                old(self).playback,
                old(self).midi_file.merged_track.events@,
                percentage_target(
                    numer,
                    denom,
                    track_length_spec(old(self).midi_file.merged_track.notes@),
                ),
            ),
            final(self).play_along.user_keyboard_range == old(self).play_along.user_keyboard_range,
            final(self).play_along.user_pressed_recently == old(self).play_along.user_pressed_recently,
            forall|k: int| 0 <= k < 128 ==> !(#[trigger] final(self).play_along.required_notes@[k]),
            r@ == seek_commands(
                old(self).midi_file,
                old(self).playback,
                percentage_target(
                    numer,
                    denom,
                    track_length_spec(old(self).midi_file.merged_track.notes@),
                ),
            ),
    {
        let length = self.midi_file.merged_track.length_us();
        proof {
            vstd::arithmetic::mul::lemma_mul_upper_bound(
                numer as int,
                u64::MAX as int,
                length as int,
                u64::MAX as int,
            );
        }
        let t128: u128 = (numer as u128) * (length as u128) / (denom as u128);
        let target: i64 = if t128 > (i64::MAX as u128) {
            i64::MAX
        } else {
            t128 as i64
        };
        let cmds = self.set_time(target);
        cmds
    }

    /// The merged track's total length in microseconds.
    pub fn length_us(&self) -> (r: u64)
        ensures
            r == track_length_spec(self.midi_file.merged_track.notes@),
    {
        self.midi_file.merged_track.length_us()
    }

    /// The musical position: session time with the lead-in already
    /// removed, the time the falling-notes display synchronizes to.
    pub fn time_without_lead_in(&self) -> (r: i64)
        ensures
            r == self.playback.position_us,
    {
        self.playback.time_us()
    }

    pub fn is_paused(&self) -> (r: bool)
        ensures
            r == self.playback.paused,
    {
        self.playback.is_paused()
    }

    /// The play-along matcher, for gate checks.
    pub fn play_along(&self) -> (r: &PlayAlong)
        ensures
            r == &self.play_along,
    {
        &self.play_along
    }

    /// The play-along matcher, for feeding user key events.
    pub fn play_along_mut(&mut self) -> (r: &mut PlayAlong)
        ensures
            *r == old(self).play_along,
            final(self).play_along == *final(r),
            final(self).playback == old(self).playback,
            final(self).midi_file == old(self).midi_file,
    {
        &mut self.play_along
    }
}

/// The sink commands a seek produces: stop everything so no note sounds
/// indefinitely, then re-send the programs active at the target's raw
/// session time.
pub open spec fn seek_commands(mf: MidiFile, pb: PlaybackState, target: int) -> Seq<OutputCommand> {
    seq![OutputCommand::StopAll] + program_commands(
        mf.program_map.channels@,
        raw_time_of(
            seek_state(pb, mf.merged_track.events@, target).position_us as int,
            pb.lead_in_us,
        ),
    )
}

/// The seek target of a rewind: the position shifted by the delta in
/// milliseconds, clamped to the range of `i64`.
pub open spec fn rewind_target(position_us: i64, delta_ms: i64) -> int {
    let sum = position_us + delta_ms * 1000;
    if sum > i64::MAX {
        i64::MAX as int
    } else if sum < i64::MIN {
        i64::MIN as int
    } else {
        sum
    }
}

/// The seek target of a percentage jump: that fraction of the length,
/// clamped to the top of `i64`.
pub open spec fn percentage_target(numer: u64, denom: u64, length: int) -> int {
    let v = (numer as int) * length / (denom as int);
    if v > i64::MAX {
        i64::MAX as int
    } else {
        v
    }
}

/// Percussion never gates: feeding a batch in which every event is on
/// channel 9 leaves both the required set and the recent-press queue
/// exactly as they were.
pub proof fn lemma_percussion_never_affects_matcher(
    range: KeyboardRange,
    required: Seq<bool>,
    q: Seq<UserPress>,
    events: Seq<MidiEvent>,
    now: u64,
)
    requires
        forall|i: int| 0 <= i < events.len() ==> (#[trigger] events[i]).channel == 9,
    ensures
        feed_file_events(range, required, q, events, now) == (required, q),
    decreases events.len(),
{
    if events.len() > 0 {
        assert(forall|i: int|
            0 <= i < events.drop_last().len() ==> (#[trigger] events.drop_last()[i]).channel
                == 9);
        lemma_percussion_never_affects_matcher(range, required, q, events.drop_last(), now);
    }
}

} // verus!
