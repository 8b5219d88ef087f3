use sampleur::commands::{needs_resample, parse_fx_param, parse_pad_action, parse_pad_mode, FxParamKind, TARGET_SAMPLE_RATE};
use sampleur::ports::{pick_default_port, pick_filtered_port, select_input_port, select_output_port, str_contains};
use sampleur::preset::{
    is_preset_extension, parse_kit_mode, resolved_path_hint, sample_relative_path, samples_dir_name, ColorDef, KitMode,
};
use sampleur::state::{PadAction, PadMode};

#[test]
fn pad_actions() {
    assert_eq!(parse_pad_action("start"), Some(PadAction::Start));
    assert_eq!(parse_pad_action("stop"), Some(PadAction::Stop));
    assert_eq!(parse_pad_action("toggle"), Some(PadAction::Toggle));
    assert_eq!(parse_pad_action("Start"), None);
    assert_eq!(parse_pad_action(""), None);
}

#[test]
fn pad_modes() {
    assert_eq!(parse_pad_mode("loop"), PadMode::Loop);
    assert_eq!(parse_pad_mode("hold"), PadMode::Hold);
    assert_eq!(parse_pad_mode("oneshot"), PadMode::Oneshot);
    assert_eq!(parse_pad_mode("whatever"), PadMode::Oneshot);
}

#[test]
fn fx_params() {
    assert_eq!(parse_fx_param("filterFreq"), Some(FxParamKind::FilterFreq));
    assert_eq!(parse_fx_param("filterResonance"), Some(FxParamKind::FilterResonance));
    assert_eq!(parse_fx_param("delayTime"), Some(FxParamKind::DelayTime));
    assert_eq!(parse_fx_param("delayFeedback"), Some(FxParamKind::DelayFeedback));
    assert_eq!(parse_fx_param("delayMix"), Some(FxParamKind::DelayMix));
    assert_eq!(parse_fx_param("reverbMix"), Some(FxParamKind::ReverbMix));
    assert_eq!(parse_fx_param("distortion"), Some(FxParamKind::DistortionDrive));
    assert_eq!(parse_fx_param("gateRate"), Some(FxParamKind::GateRate));
    assert_eq!(parse_fx_param("flangerDepth"), Some(FxParamKind::FlangerDepth));
    assert_eq!(parse_fx_param("flangerRate"), Some(FxParamKind::FlangerRate));
    assert_eq!(parse_fx_param("masterVolume"), Some(FxParamKind::MasterVolume));
    assert_eq!(parse_fx_param("volume"), None);
}

#[test]
fn resample_decision() {
    assert_eq!(TARGET_SAMPLE_RATE, 48000);
    assert!(needs_resample(44100));
    assert!(!needs_resample(48000));
}

#[test]
fn kit_modes_and_extension() {
    assert_eq!(parse_kit_mode("portable"), KitMode::Portable);
    assert_eq!(parse_kit_mode("lightweight"), KitMode::Lightweight);
    assert_eq!(parse_kit_mode(""), KitMode::Lightweight);
    assert!(is_preset_extension(Some("sampleur2")));
    assert!(!is_preset_extension(Some("json")));
    assert!(!is_preset_extension(None));
}

#[test]
fn portable_paths() {
    assert_eq!(samples_dir_name(Some("My Kit")), "My Kit_samples");
    assert_eq!(samples_dir_name(None), "preset_samples");
    assert_eq!(sample_relative_path("My Kit_samples", "kick.wav"), "My Kit_samples/kick.wav");
    assert_eq!(resolved_path_hint("/a/k.wav".to_string(), true, "/b/k.wav".to_string()), "/a/k.wav");
    assert_eq!(resolved_path_hint("/a/k.wav".to_string(), false, "/b/k.wav".to_string()), "/b/k.wav");
}

#[test]
fn color_def_holds_values() {
    let c = ColorDef { name: "Rouge".to_string(), hex: "#FF4444".to_string(), midi_velocity: 5 };
    let d = c.clone();
    assert_eq!(d.name, "Rouge");
    assert_eq!(d.hex, "#FF4444");
    assert_eq!(d.midi_velocity, 5);
}

#[test]
fn substring_search() {
    assert!(str_contains("novation launchpad mk2", "launchpad"));
    assert!(str_contains("abc", ""));
    assert!(str_contains("abc", "abc"));
    assert!(!str_contains("ab", "abc"));
    assert!(!str_contains("launchpa", "launchpad"));
}

fn names(v: &[Option<&str>]) -> Vec<Option<String>> {
    v.iter().map(|o| o.map(|s| s.to_string())).collect()
}

#[test]
fn default_input_port_prefers_launchpad() {
    let n = names(&[Some("Midi Through"), Some("Launchpad MK2 MIDI 1"), None]);
    assert_eq!(select_input_port(&n, None), Some(1));
    let n2 = names(&[Some("Midi Through"), Some("Keystation")]);
    assert_eq!(select_input_port(&n2, None), Some(0));
    assert_eq!(select_input_port(&Vec::new(), None), None);
}

#[test]
fn filtered_input_port() {
    let n = names(&[Some("Keystation 49"), Some("LAUNCHPAD MK2"), Some("Launchpad MK2")]);
    assert_eq!(select_input_port(&n, Some("Launchpad MK2")), Some(2));
    assert_eq!(select_input_port(&n, Some("keystation")), Some(0));
    assert_eq!(select_input_port(&n, Some("mk2")), Some(1));
    assert_eq!(select_input_port(&n, Some("nano")), None);
}

#[test]
fn picking_with_lowered_names() {
    let n = names(&[Some("A"), Some("B")]);
    let l = names(&[Some("xx"), Some("launchpad")]);
    assert_eq!(pick_default_port(&l), Some(1));
    assert_eq!(pick_filtered_port(&n, &l, "B", "zz"), Some(1));
    assert_eq!(pick_filtered_port(&n, &l, "C", "xx"), Some(0));
    assert_eq!(pick_filtered_port(&n, &l, "C", "zz"), None);
}

#[test]
fn output_port_exact_name() {
    let n = names(&[Some("Launchpad MK2"), None, Some("Synth")]);
    assert_eq!(select_output_port(&n, "Synth"), Some(2));
    assert_eq!(select_output_port(&n, "synth"), None);
}

#[test]
fn first_matching_port_wins() {
    let n = names(&[Some("Synth"), Some("Synth"), Some("synth")]);
    assert_eq!(select_output_port(&n, "Synth"), Some(0));
    assert_eq!(select_input_port(&n, Some("synth")), Some(2));
    assert_eq!(select_input_port(&n, Some("SYNTH")), Some(0));
}
