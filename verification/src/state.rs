use vstd::prelude::*;

verus! {

/// Number of pads on the grid.
pub const NUM_PADS: usize = 64;

/// What a trigger asks of a pad.
#[derive(Debug, Clone, Copy, PartialEq, Eq, Structural)]
pub enum PadAction {
    Start,
    Stop,
    Toggle,
}

/// How a pad plays its sample.
#[derive(Debug, Clone, Copy, PartialEq, Eq, Structural)]
pub enum PadMode {
    Oneshot,
    Loop,
    Hold,
}

/// MIDI learn: idle, or waiting for the next note to assign to a pad.
#[derive(Debug, Clone, Copy, PartialEq, Eq, Structural)]
pub enum MidiLearnState {
    Idle,
    WaitingForNote { pad_id: usize },
}

} // verus!
