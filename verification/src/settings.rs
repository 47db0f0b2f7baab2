//! Playback settings adjusted from the keyboard during a session: the
//! speed multiplier, the falling-notes animation speed, and the audio
//! offset of the display. The values are kept in fixed-point integer
//! units (tenths, whole units and hundredths); the renderer converts them
//! to whatever scale it draws with.

use vstd::prelude::*;

verus! {

/// Adjustable playback settings, in fixed-point units:
/// the clock's speed multiplier in tenths (10 is normal speed), the
/// animation speed in pixels per second, and the playback offset of the
/// display in hundredths of a second.
#[derive(Clone, Copy, PartialEq, Eq, Structural, Debug)]
pub struct PlayerSettings {
    pub speed_multiplier_decis: u32,
    pub animation_speed: u32,
    pub playback_offset_centis: i64,
}

/// A settings key the session reacts to when released.
#[derive(Clone, Copy, PartialEq, Eq, Structural, Debug)]
pub enum SettingsKey {
    /// Raise or lower the speed multiplier by 0.1 (0.5 with the shift
    /// modifier); it never drops below zero.
    SpeedUp,
    SpeedDown,
    /// Raise or lower the animation speed by 100 (500 with shift); it
    /// never drops below 100.
    AnimationUp,
    AnimationDown,
    /// Shift the playback offset by 0.01 s (0.1 s with shift) either way.
    OffsetUp,
    OffsetDown,
}

/// The settings after one key release, with `shift` selecting the coarse
/// step.
pub open spec fn settings_step(s: PlayerSettings, key: SettingsKey, shift: bool) -> PlayerSettings {
    let speed_step: u32 = if shift {
        5u32
    } else {
        1u32
    };
    let anim_step: u32 = if shift {
        500u32
    } else {
        100u32
    };
    let offset_step: i64 = if shift {
        10i64
    } else {
        1i64
    };
    match key {
        SettingsKey::SpeedUp => PlayerSettings {
            speed_multiplier_decis: s.speed_multiplier_decis.saturating_add(speed_step),
            ..s
        },
        SettingsKey::SpeedDown => PlayerSettings {
            speed_multiplier_decis: s.speed_multiplier_decis.saturating_sub(speed_step),
            ..s
        },
        SettingsKey::AnimationUp => PlayerSettings {
            animation_speed: s.animation_speed.saturating_add(anim_step),
            ..s
        },
        SettingsKey::AnimationDown => PlayerSettings {
            animation_speed: if s.animation_speed - anim_step < 100 {
                100u32
            } else {
                (s.animation_speed - anim_step) as u32
            },
            ..s
        },
        SettingsKey::OffsetUp => PlayerSettings {
            playback_offset_centis: if s.playback_offset_centis + offset_step > i64::MAX {
                i64::MAX
            } else {
                (s.playback_offset_centis + offset_step) as i64
            },
            ..s
        },
        SettingsKey::OffsetDown => PlayerSettings {
            playback_offset_centis: if s.playback_offset_centis - offset_step < i64::MIN {
                i64::MIN
            } else {
                (s.playback_offset_centis - offset_step) as i64
            },
            ..s
        },
    }
}

impl PlayerSettings {
    /// The defaults of a fresh session: normal speed, the standard
    /// animation speed, no offset.
    pub fn new() -> (r: PlayerSettings)
        ensures
            r == (PlayerSettings {
                speed_multiplier_decis: 10u32,
                animation_speed: 400u32,
                playback_offset_centis: 0i64,
            }),
    {
        PlayerSettings {
            speed_multiplier_decis: 10,
            animation_speed: 400,
            playback_offset_centis: 0,
        }
    }

    /// Apply one released settings key, with `shift` selecting the coarse
    /// step. Speed stops at zero, the animation speed at 100, the offset
    /// at the ends of its integer range.
    pub fn settings_keyboard_input(&mut self, key: SettingsKey, shift: bool)
        ensures
            *final(self) == settings_step(*old(self), key, shift),
    {
        let speed_step: u32 = if shift {
            5
        } else {
            1
        };
        let anim_step: u32 = if shift {
            500
        } else {
            100
        };
        let offset_step: i64 = if shift {
            10
        } else {
            1
        };
        match key {
            SettingsKey::SpeedUp => {
                self.speed_multiplier_decis = self.speed_multiplier_decis.saturating_add(
                    speed_step,
                );
            },
            SettingsKey::SpeedDown => {
                self.speed_multiplier_decis = self.speed_multiplier_decis.saturating_sub(
                    speed_step,
                );
            },
            SettingsKey::AnimationUp => {
                self.animation_speed = self.animation_speed.saturating_add(anim_step);
            },
            SettingsKey::AnimationDown => {
                self.animation_speed = if self.animation_speed < 100 + anim_step {
                    100
                } else {
                    self.animation_speed - anim_step
                };
            },
            SettingsKey::OffsetUp => {
                if self.playback_offset_centis > i64::MAX - offset_step {
                    self.playback_offset_centis = i64::MAX;
                } else {
                    self.playback_offset_centis = self.playback_offset_centis + offset_step;
                }
            },
            SettingsKey::OffsetDown => {
                if self.playback_offset_centis < i64::MIN + offset_step {
                    self.playback_offset_centis = i64::MIN;
                } else {
                    self.playback_offset_centis = self.playback_offset_centis - offset_step;
                }
            },
        }
    }
}

} // verus!
