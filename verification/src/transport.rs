use vstd::prelude::*;
use crate::state::{PadAction, PadMode};

verus! {

/// What the audio side must do to a pad's playback position after a
/// transport change.
#[derive(Debug, Clone, Copy, PartialEq, Eq, Structural)]
pub struct TriggerEffect {
    /// The pad held a sample, so its playback speed is recomputed from the tempo.
    pub recompute_ratio: bool,
    /// Playback restarts from the first frame.
    pub reset_pos: bool,
    /// The progress shown for the pad drops to zero.
    pub reset_progress: bool,
}

/// What happens when playback runs past the last frame of the sample.
#[derive(Debug, Clone, Copy, PartialEq, Eq, Structural)]
pub enum EndOfSample {
    /// Loop and hold pads start over from the first frame.
    Wrap,
    /// One-shot pads stop.
    Stop,
}

/// The playback state of one pad, without its audio data.
#[derive(Debug, Clone, Copy, PartialEq, Eq, Structural)]
pub struct PadTransport {
    pub has_sample: bool,
    pub is_playing: bool,
    pub mode: PadMode,
    pub loop_pending_stop: bool,
}

pub open spec fn no_effect() -> TriggerEffect {
    TriggerEffect { recompute_ratio: false, reset_pos: false, reset_progress: false }
}

/// The transport after `action`, and the effect on playback position.
pub open spec fn spec_trigger(t: PadTransport, action: PadAction) -> (PadTransport, TriggerEffect) {
    if !t.has_sample {
        (t, no_effect())
    } else {
        match action {
            PadAction::Start => (
                PadTransport { is_playing: true, loop_pending_stop: false, ..t },
                TriggerEffect { recompute_ratio: true, reset_pos: true, reset_progress: false },
            ),
            PadAction::Stop => (
                PadTransport { is_playing: false, ..t },
                TriggerEffect { recompute_ratio: true, reset_pos: true, reset_progress: true },
            ),
            PadAction::Toggle => if t.is_playing {
                (
                    PadTransport { is_playing: false, ..t },
                    TriggerEffect { recompute_ratio: true, reset_pos: true, reset_progress: true },
                )
            } else {
                (
                    PadTransport { is_playing: true, ..t },
                    TriggerEffect { recompute_ratio: true, reset_pos: true, reset_progress: false },
                )
            },
        }
    }
}

impl PadTransport {
    /// A pad only plays when it holds a sample.
    pub open spec fn inv(self) -> bool {
        self.is_playing ==> self.has_sample
    }

    /// An empty, stopped one-shot pad.
    pub fn new() -> (t: Self)
        ensures
            t == (PadTransport { has_sample: false, is_playing: false, mode: PadMode::Oneshot, loop_pending_stop: false }),
            t.inv(),
    {
        PadTransport { has_sample: false, is_playing: false, mode: PadMode::Oneshot, loop_pending_stop: false }
    }

    /// Starts, stops or toggles the pad; a pad without a sample ignores every action.
    pub fn trigger(&mut self, action: PadAction) -> (eff: TriggerEffect)
        ensures
            (*final(self), eff) == spec_trigger(*old(self), action),
            old(self).inv() ==> final(self).inv(),
    {
        if !self.has_sample {
            return TriggerEffect { recompute_ratio: false, reset_pos: false, reset_progress: false };
        }
        match action {
            PadAction::Start => {
                self.is_playing = true;
                self.loop_pending_stop = false;
                TriggerEffect { recompute_ratio: true, reset_pos: true, reset_progress: false }
            },
            PadAction::Stop => {
                self.is_playing = false;
                TriggerEffect { recompute_ratio: true, reset_pos: true, reset_progress: true }
            },
            PadAction::Toggle => {
                if self.is_playing {
                    self.is_playing = false;
                    TriggerEffect { recompute_ratio: true, reset_pos: true, reset_progress: true }
                } else {
                    self.is_playing = true;
                    TriggerEffect { recompute_ratio: true, reset_pos: true, reset_progress: false }
                }
            },
        }
    }

    /// A sample was loaded: the pad holds it and is stopped.
    pub fn load(&mut self)
        ensures
            *final(self) == (PadTransport { has_sample: true, is_playing: false, ..*old(self) }),
            final(self).inv(),
    {
        self.has_sample = true;
        self.is_playing = false;
    }

    /// The sample was removed: the pad is empty and stopped.
    pub fn remove(&mut self)
        ensures
            *final(self) == (PadTransport { has_sample: false, is_playing: false, ..*old(self) }),
            final(self).inv(),
    {
        self.has_sample = false;
        self.is_playing = false;
    }

    /// Stop-all: the pad stops and keeps its sample.
    pub fn stop(&mut self)
        ensures
            *final(self) == (PadTransport { is_playing: false, ..*old(self) }),
            old(self).inv() ==> final(self).inv(),
    {
        self.is_playing = false;
    }

    /// New kit: the pad stops and drops its sample.
    pub fn reset(&mut self)
        ensures
            *final(self) == (PadTransport { has_sample: false, is_playing: false, ..*old(self) }),
            final(self).inv(),
    {
        self.has_sample = false;
        self.is_playing = false;
    }

    pub fn set_mode(&mut self, mode: PadMode)
        ensures
            *final(self) == (PadTransport { mode, ..*old(self) }),
            old(self).inv() ==> final(self).inv(),
    {
        self.mode = mode;
    }

    /// Playback reached the end of the sample: loop and hold pads wrap, a
    /// one-shot pad stops.
    pub fn end_of_sample(&mut self) -> (end: EndOfSample)
        ensures
            end == (if old(self).mode == PadMode::Oneshot { EndOfSample::Stop } else { EndOfSample::Wrap }),
            *final(self) == if old(self).mode == PadMode::Oneshot {
                PadTransport { is_playing: false, ..*old(self) }
            } else {
                *old(self)
            },
            old(self).inv() ==> final(self).inv(),
    {
        match self.mode {
            PadMode::Oneshot => {
                self.is_playing = false;
                EndOfSample::Stop
            },
            _ => EndOfSample::Wrap,
        }
    }
}

/// Toggling a loaded pad twice brings it back to where it was, and a pad
/// without a sample ignores every action.
pub proof fn lemma_toggle_twice(t: PadTransport)
    ensures
        spec_trigger(spec_trigger(t, PadAction::Toggle).0, PadAction::Toggle).0.is_playing == t.is_playing,
        !t.has_sample ==> forall|a: PadAction| #[trigger] spec_trigger(t, a).0 == t,
{
}

/// After a stop the pad is silent; after a start it plays exactly when it
/// holds a sample.
pub proof fn lemma_start_stop(t: PadTransport)
    requires
        t.inv(),
    ensures
        !spec_trigger(t, PadAction::Stop).0.is_playing,
        spec_trigger(t, PadAction::Start).0.is_playing == t.has_sample,
{
}

/// What each action does to a loaded pad, whatever state it is in: every
/// action recomputes the playback speed and restarts from the first frame;
/// start always leaves the pad playing, stop always leaves it stopped, and
/// toggle flips it; the progress drops to zero exactly when the pad ends up
/// stopped; the sample and the mode are never touched.
pub proof fn lemma_trigger_on_loaded_pad(t: PadTransport, action: PadAction)
    requires
        t.has_sample,
    ensures
        spec_trigger(t, action).1.recompute_ratio,
        spec_trigger(t, action).1.reset_pos,
        spec_trigger(t, action).1.reset_progress == !spec_trigger(t, action).0.is_playing,
        action == PadAction::Start ==> spec_trigger(t, action).0.is_playing,
        action == PadAction::Stop ==> !spec_trigger(t, action).0.is_playing,
        action == PadAction::Toggle ==> spec_trigger(t, action).0.is_playing == !t.is_playing,
        spec_trigger(t, action).0.has_sample,
        spec_trigger(t, action).0.mode == t.mode,
{
}

/// A pad without a sample ignores every action: it stays as it is and its
/// playback position is left alone.
pub proof fn lemma_trigger_on_empty_pad(t: PadTransport, action: PadAction)
    requires
        !t.has_sample,
    ensures
        spec_trigger(t, action).0 == t,
        !spec_trigger(t, action).1.recompute_ratio,
        !spec_trigger(t, action).1.reset_pos,
        !spec_trigger(t, action).1.reset_progress,
{
}

} // verus!
