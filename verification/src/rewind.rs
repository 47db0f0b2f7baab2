//! The scrub controller: a small state machine that turns held keys and
//! mouse drags on the progress bar into continuous seeks against the
//! player, pausing while the scrub lasts and restoring the previous pause
//! state when it ends. The per-tick scheduler [`session_tick`] resolves
//! any active scrub first, then checks the play-along gate, and only then
//! lets the clock advance.

use vstd::prelude::*;

use crate::events::MidiEvent;
use crate::play_along::{count_true, evict, lemma_evict_idempotent, no_required};
use crate::playback::{advance_delivery, advance_state, seek_state, PlaybackState};
use crate::player::{
    feed_file_events, percentage_target, rewind_target, scaled_elapsed, seek_commands,
    MidiPlayer, OutputCommand,
};
use crate::track::track_length_spec;
use crate::play_along::lemma_count_true_zero;

verus! {

/// The scrub state: a held rewind key with its signed speed, a mouse drag
/// on the progress bar, or nothing. Both active states remember whether
/// the clock was already paused when the scrub began.
#[derive(Clone, Copy, PartialEq, Eq, Structural, Debug)]
pub enum RewindController {
    Keyboard { speed: i64, was_paused: bool },
    Mouse { was_paused: bool },
    Idle,
}

/// The per-tick seek distance of a keyboard scrub, in milliseconds: the
/// speed doubled under the fast modifier, halved (toward zero) under the
/// slow one, clamped to `i64`.
pub open spec fn scrub_delta(speed: i64, shift: bool, ctrl: bool) -> int {
    if shift {
        let d = speed * 2;
        if d > i64::MAX {
            i64::MAX as int
        } else if d < i64::MIN {
            i64::MIN as int
        } else {
            d
        }
    } else if ctrl {
        if speed >= 0 {
            speed / 2
        } else {
            -((-speed) / 2)
        }
    } else {
        speed as int
    }
}

/// Whether ending this scrub resumes the clock: only when the clock was
/// running before the scrub began.
pub open spec fn stop_resumes(c: RewindController) -> bool {
    match c {
        RewindController::Keyboard { was_paused, .. } => !was_paused,
        RewindController::Mouse { was_paused } => !was_paused,
        RewindController::Idle => false,
    }
}

impl RewindController {
    pub fn new() -> (r: RewindController)
        ensures
            r == RewindController::Idle,
    {
        RewindController::Idle
    }

    pub fn is_rewinding(&self) -> (r: bool)
        ensures
            r == !(*self == RewindController::Idle),
    {
        !matches!(self, RewindController::Idle)
    }

    /// Enter the given scrub state: pauses the player (issuing its
    /// stop-all command) and records the new state.
    pub fn start_rewind(&mut self, player: &mut MidiPlayer, controller: RewindController) -> (r:
        Vec<OutputCommand>)
        requires
            old(player).wf(),
        ensures
            final(player).wf(),
            *final(self) == controller,
            *final(player) == (MidiPlayer {
                playback: PlaybackState { paused: true, ..old(player).playback },
                ..*old(player)
            }),
            r@ == seq![OutputCommand::StopAll],
    {
        let cmds = player.pause();
        *self = controller;
        cmds
    }

    /// Begin a mouse scrub, remembering whether the clock was paused.
    pub fn start_mouse_rewind(&mut self, player: &mut MidiPlayer) -> (r: Vec<OutputCommand>)
        requires
            old(player).wf(),
        ensures
            final(player).wf(),
            *final(self) == (RewindController::Mouse {
                was_paused: old(player).playback.paused,
            }),
            *final(player) == (MidiPlayer {
                playback: PlaybackState { paused: true, ..old(player).playback },
                ..*old(player)
            }),
            r@ == seq![OutputCommand::StopAll],
    {
        let was_paused = player.is_paused();
        self.start_rewind(player, RewindController::Mouse { was_paused })
    }

    /// Begin a keyboard scrub at the given signed speed.
    pub fn start_keyboard_rewind(&mut self, player: &mut MidiPlayer, speed: i64) -> (r: Vec<
        OutputCommand,
    >)
        requires
            old(player).wf(),
        ensures
            final(player).wf(),
            *final(self) == (RewindController::Keyboard {
                speed,
                was_paused: old(player).playback.paused,
            }),
            *final(player) == (MidiPlayer {
                playback: PlaybackState { paused: true, ..old(player).playback },
                ..*old(player)
            }),
            r@ == seq![OutputCommand::StopAll],
    {
        let was_paused = player.is_paused();
        self.start_rewind(player, RewindController::Keyboard { speed, was_paused })
    }

    /// End the scrub: return to idle and resume the clock only if it was
    /// running before the scrub began.
    pub fn stop_rewind(&mut self, player: &mut MidiPlayer)
        requires
            old(player).wf(),
        ensures
            final(player).wf(),
            *final(self) == RewindController::Idle,
            *final(player) == if stop_resumes(*old(self)) {
                (MidiPlayer {
                    playback: PlaybackState { paused: false, ..old(player).playback },
                    ..*old(player)
                })
            } else {
                *old(player)
            },
    {
        let resume = match self {
            RewindController::Keyboard { was_paused, .. } => !*was_paused,
            RewindController::Mouse { was_paused } => !*was_paused,
            RewindController::Idle => false,
        };
        *self = RewindController::Idle;
        if resume {
            player.resume();
        }
    }

    /// One tick of an active keyboard scrub: seek by the speed, doubled or
    /// halved by the modifier keys; anything else is a no-op.
    pub fn update(&self, player: &mut MidiPlayer, shift: bool, ctrl: bool) -> (r: Vec<
        OutputCommand,
    >)
        requires
            old(player).wf(),
        ensures
            final(player).wf(),
            (match *self {
                RewindController::Keyboard { speed, .. } => {
                    let target = rewind_target(
                        old(player).playback.position_us,
                        scrub_delta(speed, shift, ctrl) as i64,
                    );
                    &&& final(player).midi_file == old(player).midi_file
                    &&& final(player).playback == seek_state(
                        old(player).playback,
                        old(player).midi_file.merged_track.events@,
                        target,
                    )
                    &&& final(player).play_along.required_notes@ =~= no_required()
                    &&& final(player).play_along.user_pressed_recently == old(player).play_along.user_pressed_recently
                    &&& final(player).play_along.user_keyboard_range == old(player).play_along.user_keyboard_range
                    &&& r@ == seek_commands(old(player).midi_file, old(player).playback, target)
                },
                _ => {
                    &&& *final(player) == *old(player)
                    &&& r@ == Seq::<OutputCommand>::empty()
                },
            }),
    {
        match self {
            RewindController::Keyboard { speed, .. } => {
                let s: i64 = *speed;
                let delta: i64 = if shift {
                    if s > 0x3fffffffffffffffi64 {
                        i64::MAX
                    } else if s < -0x4000000000000000i64 {
                        i64::MIN
                    } else {
                        s * 2
                    }
                } else if ctrl {
                    if s >= 0 {
                        ((s as u64) / 2) as i64
                    } else {
                        let mag: u64 = (((-(s as i128)) as u128) / 2) as u64;
                        -(mag as i64)
                    }
                } else {
                    s
                };
                assert(delta as int == scrub_delta(s, shift, ctrl));
                player.rewind(delta)
            },
            _ => {
                Vec::new()
            },
        }
    }

    /// Route a rewind key (left = backward, right = forward): pressing it
    /// while idle starts a keyboard scrub at ±100 ms per tick; releasing
    /// it ends a keyboard scrub. Presses during an active scrub and
    /// releases outside one do nothing.
    pub fn handle_keyboard_input(&mut self, player: &mut MidiPlayer, right: bool, pressed: bool) -> (r: Vec<OutputCommand>)
        requires
            old(player).wf(),
        ensures
            final(player).wf(),
            pressed && *old(self) == RewindController::Idle ==> {
                &&& *final(self) == (RewindController::Keyboard {
                    speed: if right {
                        100i64
                    } else {
                        -100i64
                    },
                    was_paused: old(player).playback.paused,
                })
                &&& *final(player) == (MidiPlayer {
                    playback: PlaybackState { paused: true, ..old(player).playback },
                    ..*old(player)
                })
                &&& r@ == seq![OutputCommand::StopAll]
            },
            pressed && *old(self) != RewindController::Idle ==> {
                &&& *final(self) == *old(self)
                &&& *final(player) == *old(player)
                &&& r@ == Seq::<OutputCommand>::empty()
            },
            !pressed && (*old(self) matches RewindController::Keyboard { .. }) ==> {
                &&& *final(self) == RewindController::Idle
                &&& *final(player) == if stop_resumes(*old(self)) {
                    (MidiPlayer {
                        playback: PlaybackState { paused: false, ..old(player).playback },
                        ..*old(player)
                    })
                } else {
                    *old(player)
                }
                &&& r@ == Seq::<OutputCommand>::empty()
            },
            !pressed && !(*old(self) matches RewindController::Keyboard { .. }) ==> {
                &&& *final(self) == *old(self)
                &&& *final(player) == *old(player)
                &&& r@ == Seq::<OutputCommand>::empty()
            },
    {
        if pressed {
            if !self.is_rewinding() {
                let speed: i64 = if right {
                    100
                } else {
                    -100
                };
                return self.start_keyboard_rewind(player, speed);
            }
            Vec::new()
        } else {
            match self {
                RewindController::Keyboard { .. } => {
                    self.stop_rewind(player);
                },
                _ => {},
            }
            Vec::new()
        }
    }

    /// Route a primary-button event: a press inside the progress-bar
    /// region while idle starts a mouse scrub and immediately seeks to the
    /// fraction `x_num / w_den` of the song; a release ends a mouse
    /// scrub.
    pub fn handle_mouse_input(
        &mut self,
        player: &mut MidiPlayer,
        pressed: bool,
        in_progress_bar: bool,
        x_num: u64,
        w_den: u64,
    ) -> (r: Vec<OutputCommand>)
        requires
            old(player).wf(),
            w_den > 0,
        ensures
            final(player).wf(),
            pressed && in_progress_bar && *old(self) == RewindController::Idle ==> {
                let paused_pb = PlaybackState { paused: true, ..old(player).playback };
                let target = percentage_target(
                    x_num,
                    w_den,
                    track_length_spec(old(player).midi_file.merged_track.notes@),
                );
                &&& *final(self) == (RewindController::Mouse {
                    was_paused: old(player).playback.paused,
                })
                &&& final(player).midi_file == old(player).midi_file
                &&& final(player).playback == seek_state(
                    paused_pb,
                    old(player).midi_file.merged_track.events@,
                    target,
                )
                &&& final(player).playback.paused
                &&& r@ == seq![OutputCommand::StopAll] + seek_commands(
                    old(player).midi_file,
                    paused_pb,
                    target,
                )
            },
            !pressed && (*old(self) matches RewindController::Mouse { .. }) ==> {
                &&& *final(self) == RewindController::Idle
                &&& *final(player) == if stop_resumes(*old(self)) {
                    (MidiPlayer {
                        playback: PlaybackState { paused: false, ..old(player).playback },
                        ..*old(player)
                    })
                } else {
                    *old(player)
                }
            },
            !pressed && !(*old(self) matches RewindController::Mouse { .. }) ==> {
                &&& *final(self) == *old(self)
                &&& *final(player) == *old(player)
            },
            pressed && !(in_progress_bar && *old(self) == RewindController::Idle) ==> {
                &&& *final(self) == *old(self)
                &&& *final(player) == *old(player)
            },
    {
        if pressed {
            if in_progress_bar && !self.is_rewinding() {
                let mut cmds = self.start_mouse_rewind(player);
                let mut more = player.set_percentage_time(x_num, w_den);
                cmds.append(&mut more);
                return cmds;
            }
            Vec::new()
        } else {
            match self {
                RewindController::Mouse { .. } => {
                    self.stop_rewind(player);
                },
                _ => {},
            }
            Vec::new()
        }
    }

    /// Route a pointer move: during a mouse scrub every move seeks to the
    /// fraction `x_num / w_den` of the song; otherwise it does nothing.
    pub fn handle_cursor_moved(&self, player: &mut MidiPlayer, x_num: u64, w_den: u64) -> (r: Vec<
        OutputCommand,
    >)
        requires
            old(player).wf(),
            w_den > 0,
        ensures
            final(player).wf(),
            (*self matches RewindController::Mouse { .. }) ==> {
                let target = percentage_target(
                    x_num,
                    w_den,
                    track_length_spec(old(player).midi_file.merged_track.notes@),
                );
                &&& final(player).midi_file == old(player).midi_file
                &&& final(player).playback == seek_state(
                    old(player).playback,
                    old(player).midi_file.merged_track.events@,
                    target,
                )
                &&& r@ == seek_commands(old(player).midi_file, old(player).playback, target)
            },
            !(*self matches RewindController::Mouse { .. }) ==> *final(player) == *old(player)
                && r@ == Seq::<OutputCommand>::empty(),
    {
        match self {
            RewindController::Mouse { .. } => player.set_percentage_time(x_num, w_den),
            _ => Vec::new(),
        }
    }
}

/// One simulation step of a playback session, in the order the design
/// fixes: resolve any active keyboard scrub (which seeks the player),
/// evict expired user presses, then advance the clock only if no
/// required key is outstanding. Returns the crossed
/// events (to forward to the sink and the display) and the sink commands
/// the scrub produced.
pub fn session_tick(
    player: &mut MidiPlayer,
    controller: &RewindController,
    delta_us: u64,
    speed_decis: u32,
    now_ms: u64,
    shift: bool,
    ctrl: bool,
) -> (r: (Vec<MidiEvent>, Vec<OutputCommand>))
    requires
        old(player).wf(),
    ensures
        final(player).wf(),
        (match *controller {
            RewindController::Keyboard { speed, .. } => {
                // A scrub seeks and clears stale requirements, so nothing
                // blocks the paused-or-running clock from taking its
                // (possibly empty) step from the seek target.
                let target = rewind_target(
                    old(player).playback.position_us,
                    scrub_delta(speed, shift, ctrl) as i64,
                );
                let pb1 = seek_state(
                    old(player).playback,
                    old(player).midi_file.merged_track.events@,
                    target,
                );
                &&& r.1@ == seek_commands(old(player).midi_file, old(player).playback, target)
                &&& final(player).playback == advance_state(
                    pb1,
                    old(player).midi_file.merged_track.events@,
                    scaled_elapsed(delta_us, speed_decis),
                )
                &&& r.0@ == advance_delivery(
                    pb1,
                    old(player).midi_file.merged_track.events@,
                    scaled_elapsed(delta_us, speed_decis),
                )
                &&& (final(player).play_along.required_notes@, final(player).play_along.user_pressed_recently@) == feed_file_events(
                    old(player).play_along.user_keyboard_range,
                    no_required(),
                    evict(old(player).play_along.user_pressed_recently@, now_ms),
                    r.0@,
                    now_ms,
                )
            },
            _ => {
                let gate_open = count_true(old(player).play_along.required_notes@) == 0;
                &&& r.1@ == Seq::<OutputCommand>::empty()
                &&& (if gate_open {
                    &&& final(player).playback == advance_state(
                        old(player).playback,
                        old(player).midi_file.merged_track.events@,
                        scaled_elapsed(delta_us, speed_decis),
                    )
                    &&& r.0@ == advance_delivery(
                        old(player).playback,
                        old(player).midi_file.merged_track.events@,
                        scaled_elapsed(delta_us, speed_decis),
                    )
                    &&& (final(player).play_along.required_notes@, final(player).play_along.user_pressed_recently@) == feed_file_events(
                        old(player).play_along.user_keyboard_range,
                        old(player).play_along.required_notes@,
                        evict(old(player).play_along.user_pressed_recently@, now_ms),
                        r.0@,
                        now_ms,
                    )
                } else {
                    // A required key blocks the step: the clock does not
                    // move, no event is delivered, only the eviction has
                    // happened.
                    &&& final(player).playback == old(player).playback
                    &&& r.0@ == Seq::<MidiEvent>::empty()
                    &&& final(player).play_along.required_notes@ == old(player).play_along.required_notes@
                    &&& final(player).play_along.user_pressed_recently@ == evict(
                        old(player).play_along.user_pressed_recently@,
                        now_ms,
                    )
                })
            },
        }),
        final(player).midi_file == old(player).midi_file,
{
    let scrub_cmds = controller.update(player, shift, ctrl);
    let pa = player.play_along_mut();
    pa.update(now_ms);
    proof {
        lemma_evict_idempotent(old(player).play_along.user_pressed_recently@, now_ms);
    }
    proof {
        assert(player.wf());
    }
    if player.play_along().are_required_keys_pressed() {
        proof {
            lemma_count_true_zero(player.play_along.required_notes@);
        }
        let events = player.update(delta_us, speed_decis, now_ms);
        (events, scrub_cmds)
    } else {
        proof {
            lemma_count_true_zero(player.play_along.required_notes@);
        }
        (Vec::new(), scrub_cmds)
    }
}

} // verus!
