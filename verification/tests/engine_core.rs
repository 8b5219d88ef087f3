use sampleur::engine::{EngineCore, TriggerOutcome};
use sampleur::state::{PadAction, PadMode};
use sampleur::transport::{EndOfSample, PadTransport, TriggerEffect};

const START_EFFECT: TriggerEffect = TriggerEffect { recompute_ratio: true, reset_pos: true, reset_progress: false };
const STOP_EFFECT: TriggerEffect = TriggerEffect { recompute_ratio: true, reset_pos: true, reset_progress: true };
const NO_EFFECT: TriggerEffect = TriggerEffect { recompute_ratio: false, reset_pos: false, reset_progress: false };

#[test]
fn transport_ignores_empty_pad() {
    let mut t = PadTransport::new();
    assert_eq!(t.trigger(PadAction::Start), NO_EFFECT);
    assert!(!t.is_playing);
    assert_eq!(t.trigger(PadAction::Toggle), NO_EFFECT);
    assert!(!t.is_playing);
}

#[test]
fn transport_start_stop_toggle() {
    let mut t = PadTransport::new();
    t.load();
    assert_eq!(t.trigger(PadAction::Start), START_EFFECT);
    assert!(t.is_playing);
    assert_eq!(t.trigger(PadAction::Stop), STOP_EFFECT);
    assert!(!t.is_playing);
    assert_eq!(t.trigger(PadAction::Toggle), START_EFFECT);
    assert!(t.is_playing);
    assert_eq!(t.trigger(PadAction::Toggle), STOP_EFFECT);
    assert!(!t.is_playing);
}

#[test]
fn transport_end_of_sample_by_mode() {
    let mut t = PadTransport::new();
    t.load();
    t.trigger(PadAction::Start);
    assert_eq!(t.end_of_sample(), EndOfSample::Stop);
    assert!(!t.is_playing);
    t.set_mode(PadMode::Loop);
    t.trigger(PadAction::Start);
    assert_eq!(t.end_of_sample(), EndOfSample::Wrap);
    assert!(t.is_playing);
    t.set_mode(PadMode::Hold);
    assert_eq!(t.end_of_sample(), EndOfSample::Wrap);
    assert!(t.is_playing);
}

#[test]
fn transport_remove_and_reset_stop() {
    let mut t = PadTransport::new();
    t.load();
    t.trigger(PadAction::Start);
    t.remove();
    assert!(!t.is_playing && !t.has_sample);
    t.load();
    t.trigger(PadAction::Start);
    t.stop();
    assert!(!t.is_playing && t.has_sample);
    t.reset();
    assert!(!t.has_sample);
}

#[test]
fn beat_boundary_distance() {
    let mut e = EngineCore::new(1600);
    assert_eq!(e.samples_to_next_beat(24000), 24000);
    e.advance_clock(1000);
    assert_eq!(e.samples_to_next_beat(24000), 23000);
    e.advance_clock(23000);
    assert_eq!(e.samples_to_next_beat(24000), 24000);
    assert_eq!(e.samples_to_next_beat(0), 0);
}

#[test]
fn clock_wraps() {
    let mut e = EngineCore::new(10);
    e.advance_clock(u64::MAX);
    e.advance_clock(3);
    assert_eq!(e.clock(), 2);
}

#[test]
fn immediate_trigger_without_quantize() {
    let mut e = EngineCore::new(10);
    e.load(3);
    assert_eq!(e.trigger(3, PadAction::Start, 500), TriggerOutcome::Fired(START_EFFECT));
    assert!(e.pad(3).is_playing);
    assert_eq!(e.trigger(64, PadAction::Start, 500), TriggerOutcome::Ignored);
    assert_eq!(e.active_voice_count(), 1);
}

#[test]
fn quantized_trigger_waits_for_the_beat() {
    let mut e = EngineCore::new(10);
    e.load(2);
    e.set_quantize(true);
    assert_eq!(e.trigger(2, PadAction::Start, 1000), TriggerOutcome::Deferred);
    assert!(!e.pad(2).is_playing);
    assert_eq!(e.fire_due(512), vec![]);
    assert_eq!(e.pending_count(), 1);
    assert_eq!(e.fire_due(512), vec![(2, START_EFFECT)]);
    assert_eq!(e.pending_count(), 0);
    assert!(e.pad(2).is_playing);
}

#[test]
fn quantize_with_zero_distance_fires_now() {
    let mut e = EngineCore::new(10);
    e.load(2);
    e.set_quantize(true);
    assert_eq!(e.trigger(2, PadAction::Start, 0), TriggerOutcome::Fired(START_EFFECT));
}

#[test]
fn pending_triggers_fire_in_order() {
    let mut e = EngineCore::new(10);
    e.load(1);
    e.set_quantize(true);
    e.trigger(1, PadAction::Start, 100);
    e.trigger(1, PadAction::Stop, 100);
    e.trigger(1, PadAction::Start, 300);
    let f = e.fire_due(256);
    assert_eq!(f, vec![(1, START_EFFECT), (1, STOP_EFFECT)]);
    assert!(!e.pad(1).is_playing);
    assert_eq!(e.pending_count(), 1);
    assert_eq!(e.fire_due(44), vec![(1, START_EFFECT)]);
}

#[test]
fn stop_all_and_reset_kit() {
    let mut e = EngineCore::new(10);
    e.load(1);
    e.load(2);
    e.trigger(1, PadAction::Start, 0);
    e.trigger(2, PadAction::Start, 0);
    assert_eq!(e.active_voice_count(), 2);
    e.set_quantize(true);
    e.trigger(1, PadAction::Stop, 10);
    e.stop_all();
    assert_eq!(e.pending_count(), 0);
    assert!(!e.pad(1).is_playing && e.pad(1).has_sample);
    assert_eq!(e.active_voice_count(), 1);
    e.reset_kit();
    assert!(!e.pad(1).has_sample && !e.pad(2).has_sample);
    assert_eq!(e.trigger(1, PadAction::Start, 0), TriggerOutcome::Fired(NO_EFFECT));
}

#[test]
fn engine_modes_and_end_of_sample() {
    let mut e = EngineCore::new(10);
    e.load(0);
    e.set_mode(0, PadMode::Loop);
    e.trigger(0, PadAction::Toggle, 0);
    assert_eq!(e.end_of_sample(0), EndOfSample::Wrap);
    assert!(e.pad(0).is_playing);
    e.set_mode(0, PadMode::Oneshot);
    assert_eq!(e.end_of_sample(0), EndOfSample::Stop);
    assert!(!e.pad(0).is_playing);
    e.remove(0);
    assert!(!e.pad(0).has_sample);
}

#[test]
fn progress_reports_every_interval() {
    let mut e = EngineCore::new(1600);
    assert!(!e.tick_progress(512));
    assert!(!e.tick_progress(512));
    assert!(!e.tick_progress(512));
    assert!(e.tick_progress(512));
    assert!(!e.tick_progress(512));
}

#[test]
fn due_triggers_fire_in_queue_order_and_the_rest_wait() {
    let mut e = EngineCore::new(10);
    for p in 0..4 {
        e.load(p);
    }
    e.set_quantize(true);
    e.trigger(0, PadAction::Start, 300);
    e.trigger(1, PadAction::Start, 100);
    e.trigger(2, PadAction::Start, 200);
    e.trigger(3, PadAction::Start, 50);
    assert_eq!(e.fire_due(150), vec![(1, START_EFFECT), (3, START_EFFECT)]);
    assert_eq!(e.pending_count(), 2);
    assert!(e.pad(1).is_playing && e.pad(3).is_playing);
    assert!(!e.pad(0).is_playing && !e.pad(2).is_playing);
    // 2 waited 200 - 150 = 50 frames, 0 waited 300 - 150 = 150 frames
    assert_eq!(e.fire_due(50), vec![(2, START_EFFECT)]);
    assert_eq!(e.fire_due(99), vec![]);
    assert_eq!(e.fire_due(1), vec![(0, START_EFFECT)]);
    assert_eq!(e.pending_count(), 0);
}
