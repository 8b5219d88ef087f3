use vstd::prelude::*;
use crate::state::{PadAction, PadMode};
use crate::text::str_equal;

verus! {

/// The effect parameters that can be set from the interface.
#[derive(Debug, Clone, Copy, PartialEq, Eq, Structural)]
pub enum FxParamKind {
    FilterFreq,
    FilterResonance,
    DelayTime,
    DelayFeedback,
    DelayMix,
    ReverbMix,
    DistortionDrive,
    GateRate,
    FlangerDepth,
    FlangerRate,
    MasterVolume,
}

/// Sample rate every sample is converted to when it is loaded.
pub const TARGET_SAMPLE_RATE: u32 = 48000;

/// The pad action a trigger command names: "start", "stop" or "toggle".
pub open spec fn spec_pad_action(name: Seq<char>) -> Option<PadAction> {
    if name == "start"@ {
        Some(PadAction::Start)
    } else if name == "stop"@ {
        Some(PadAction::Stop)
    } else if name == "toggle"@ {
        Some(PadAction::Toggle)
    } else {
        None
    }
}

/// The pad mode a configuration names: "loop", "hold", anything else one-shot.
pub open spec fn spec_pad_mode(name: Seq<char>) -> PadMode {
    if name == "loop"@ {
        PadMode::Loop
    } else if name == "hold"@ {
        PadMode::Hold
    } else {
        PadMode::Oneshot
    }
}

/// The effect parameter a name designates.
pub open spec fn spec_fx_param(name: Seq<char>) -> Option<FxParamKind> {
    if name == "filterFreq"@ {
        Some(FxParamKind::FilterFreq)
    } else if name == "filterResonance"@ {
        Some(FxParamKind::FilterResonance)
    } else if name == "delayTime"@ {
        Some(FxParamKind::DelayTime)
    } else if name == "delayFeedback"@ {
        Some(FxParamKind::DelayFeedback)
    } else if name == "delayMix"@ {
        Some(FxParamKind::DelayMix)
    } else if name == "reverbMix"@ {
        Some(FxParamKind::ReverbMix)
    } else if name == "distortion"@ {
        Some(FxParamKind::DistortionDrive)
    } else if name == "gateRate"@ {
        Some(FxParamKind::GateRate)
    } else if name == "flangerDepth"@ {
        Some(FxParamKind::FlangerDepth)
    } else if name == "flangerRate"@ {
        Some(FxParamKind::FlangerRate)
    } else if name == "masterVolume"@ {
        Some(FxParamKind::MasterVolume)
    } else {
        None
    }
}

/// Reads the action of a trigger command; `None` for an unknown action.
pub fn parse_pad_action(name: &str) -> (action: Option<PadAction>)
    ensures
        action == spec_pad_action(name@),
{
    if str_equal(name, "start") {
        Some(PadAction::Start)
    } else if str_equal(name, "stop") {
        Some(PadAction::Stop)
    } else if str_equal(name, "toggle") {
        Some(PadAction::Toggle)
    } else {
        None
    }
}

/// Reads a pad mode; an unknown name means one-shot.
pub fn parse_pad_mode(name: &str) -> (mode: PadMode)
    ensures
        mode == spec_pad_mode(name@),
{
    if str_equal(name, "loop") {
        PadMode::Loop
    } else if str_equal(name, "hold") {
        PadMode::Hold
    } else {
        PadMode::Oneshot
    }
}

/// Reads an effect parameter name; `None` for an unknown parameter.
pub fn parse_fx_param(name: &str) -> (kind: Option<FxParamKind>)
    ensures
        kind == spec_fx_param(name@),
{
    if str_equal(name, "filterFreq") {
        Some(FxParamKind::FilterFreq)
    } else if str_equal(name, "filterResonance") {
        Some(FxParamKind::FilterResonance)
    } else if str_equal(name, "delayTime") {
        Some(FxParamKind::DelayTime)
    } else if str_equal(name, "delayFeedback") {
        Some(FxParamKind::DelayFeedback)
    } else if str_equal(name, "delayMix") {
        Some(FxParamKind::DelayMix)
    } else if str_equal(name, "reverbMix") {
        Some(FxParamKind::ReverbMix)
    } else if str_equal(name, "distortion") {
        Some(FxParamKind::DistortionDrive)
    } else if str_equal(name, "gateRate") {
        Some(FxParamKind::GateRate)
    } else if str_equal(name, "flangerDepth") {
        Some(FxParamKind::FlangerDepth)
    } else if str_equal(name, "flangerRate") {
        Some(FxParamKind::FlangerRate)
    } else if str_equal(name, "masterVolume") {
        Some(FxParamKind::MasterVolume)
    } else {
        None
    }
}

/// Whether a decoded sample must be resampled to the engine rate.
pub fn needs_resample(sample_rate: u32) -> (b: bool)
    ensures
        b == (sample_rate != TARGET_SAMPLE_RATE),
{
    sample_rate != TARGET_SAMPLE_RATE
}

} // verus!
