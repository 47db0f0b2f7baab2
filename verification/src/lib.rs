//! A verified MIDI playback engine: tempo mapping, performance-model
//! construction, a playback clock with pause/seek/advance, a play-along
//! matcher that gates playback on live key presses, and a scrub controller.
//!
//! Layout: [`events`] holds the value types; [`tempo`] converts ticks to
//! absolute time; [`track`] pairs NoteOn/NoteOff events into notes and
//! orders the merged timeline; [`program`] derives the instrument
//! timeline; [`midi_file`] loads a container through `midly` behind a
//! small trusted boundary and builds the model; [`playback`] is the
//! clock; [`play_along`] the matcher; [`player`] couples them and turns
//! side effects into output-sink commands; [`rewind`] holds the scrub
//! state machine and the per-tick scheduler; [`settings`] and
//! [`time_menager`] carry the session's adjustable values and frame
//! timing.

pub mod events;
pub mod keyboard;
pub mod midi_file;
pub mod play_along;
pub mod playback;
pub mod player;
pub mod program;
pub mod rewind;
pub mod settings;
pub mod tempo;
pub mod time_menager;
pub mod track;
