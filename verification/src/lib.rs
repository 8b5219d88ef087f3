//! Verified core of a 64-pad MIDI sampler: pad and MIDI routing state,
//! the MIDI-learn state machine, Launchpad MK2 grid and LED messages,
//! quantised trigger scheduling, pad transport, ring buffers for the
//! effect delay lines, channel layout helpers, command parsing and preset
//! naming rules.

pub mod state;
pub mod text;
pub mod learn;
pub mod launchpad;
pub mod midi;
pub mod transport;
pub mod engine;
pub mod ring;
pub mod channels;
pub mod commands;
pub mod preset;
pub mod ports;
