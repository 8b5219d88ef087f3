use std::collections::HashMap;

use sampleur::launchpad::{pad_id_to_note, COLOR_GREEN, COLOR_WHITE, COLOR_OFF, COLOR_RED, COLOR_ORANGE, COLOR_PINK};
use sampleur::learn::{handle_learn, unmap_pad};
use sampleur::midi::{parse_midi_message, MidiEvent, MidiShared, NoteOnOutcome};
use sampleur::state::{MidiLearnState, PadAction, PadMode};
use sampleur::transport::PadTransport;

#[test]
fn handle_learn_assigns_note_and_returns_to_idle() {
    let mut state = MidiLearnState::WaitingForNote { pad_id: 5 };
    let mut map: HashMap<u8, usize> = HashMap::new();
    map.insert(40, 5);
    map.insert(41, 6);
    let res = handle_learn(&mut state, &mut map, 60);
    assert_eq!(res, Some((5, 60)));
    assert_eq!(state, MidiLearnState::Idle);
    assert_eq!(map.get(&60), Some(&5));
    assert_eq!(map.get(&40), None);
    assert_eq!(map.get(&41), Some(&6));
    assert_eq!(map.len(), 2);
}

#[test]
fn handle_learn_idle_changes_nothing() {
    let mut state = MidiLearnState::Idle;
    let mut map: HashMap<u8, usize> = HashMap::new();
    map.insert(40, 5);
    let res = handle_learn(&mut state, &mut map, 60);
    assert_eq!(res, None);
    assert_eq!(state, MidiLearnState::Idle);
    assert_eq!(map.len(), 1);
    assert_eq!(map.get(&40), Some(&5));
}

#[test]
fn unmap_pad_removes_every_note_of_the_pad() {
    let mut map: HashMap<u8, usize> = HashMap::new();
    map.insert(1, 3);
    map.insert(200, 3);
    map.insert(255, 4);
    map.insert(0, 3);
    unmap_pad(&mut map, 3);
    assert_eq!(map.len(), 1);
    assert_eq!(map.get(&255), Some(&4));
}

#[test]
fn parse_note_on_off_and_other() {
    assert_eq!(parse_midi_message(&[0x90, 60, 100]), MidiEvent::NoteOn { note: 60, velocity: 100 });
    assert_eq!(parse_midi_message(&[0x93, 61, 1]), MidiEvent::NoteOn { note: 61, velocity: 1 });
    assert_eq!(parse_midi_message(&[0x90, 60, 0]), MidiEvent::NoteOff { note: 60 });
    assert_eq!(parse_midi_message(&[0x90, 62]), MidiEvent::NoteOff { note: 62 });
    assert_eq!(parse_midi_message(&[0x85, 63, 64]), MidiEvent::NoteOff { note: 63 });
    assert_eq!(parse_midi_message(&[0xB0, 64, 127]), MidiEvent::Other);
    assert_eq!(parse_midi_message(&[0x90]), MidiEvent::Other);
    assert_eq!(parse_midi_message(&[]), MidiEvent::Other);
}

#[test]
fn new_state_is_empty() {
    let m = MidiShared::new();
    assert_eq!(m.mapped_note_count(), 0);
    for p in 0..64 {
        assert_eq!(m.pad_mode(p), PadMode::Oneshot);
        assert_eq!(m.pad_color(p), 0);
        assert!(!m.pad_has_sample(p));
    }
    assert_eq!(m.learn_state(), MidiLearnState::Idle);
}

#[test]
fn learn_then_play() {
    let mut m = MidiShared::new();
    m.assign_midi_note(5, 40);
    m.start_midi_learn(5);
    assert_eq!(m.learn_state(), MidiLearnState::WaitingForNote { pad_id: 5 });
    let out = m.on_note_on(60);
    assert_eq!(out, NoteOnOutcome::Learned { pad_id: 5, note: 60 });
    assert_eq!(m.learn_state(), MidiLearnState::Idle);
    assert_eq!(m.pad_for_note(60), Some(5));
    assert_eq!(m.pad_for_note(40), None);
    let out2 = m.on_note_on(60);
    assert_eq!(out2, NoteOnOutcome::Trigger { pad_id: 5, action: PadAction::Start });
}

#[test]
fn cancel_learn_leaves_map() {
    let mut m = MidiShared::new();
    m.start_midi_learn(9);
    m.cancel_midi_learn();
    assert_eq!(m.learn_state(), MidiLearnState::Idle);
    assert_eq!(m.on_note_on(70), NoteOnOutcome::Unmapped);
    assert_eq!(m.mapped_note_count(), 0);
}

#[test]
fn assign_moves_note_and_keeps_one_note_per_pad() {
    let mut m = MidiShared::new();
    m.assign_midi_note(1, 36);
    m.assign_midi_note(2, 37);
    m.assign_midi_note(1, 38);
    assert_eq!(m.pad_for_note(36), None);
    assert_eq!(m.pad_for_note(38), Some(1));
    assert_eq!(m.pad_for_note(37), Some(2));
    m.assign_midi_note(3, 37);
    assert_eq!(m.pad_for_note(37), Some(3));
    assert_eq!(m.mapped_note_count(), 2);
}

#[test]
fn modes_decide_note_actions() {
    let mut m = MidiShared::new();
    m.apply_pad_config(0, Some(PadMode::Hold), Some(Some(10)), None);
    m.apply_pad_config(1, Some(PadMode::Loop), Some(Some(11)), None);
    m.apply_pad_config(2, None, Some(Some(12)), None);
    assert_eq!(m.on_note_on(10), NoteOnOutcome::Trigger { pad_id: 0, action: PadAction::Start });
    assert_eq!(m.on_note_off(10), Some(0));
    assert_eq!(m.on_note_on(11), NoteOnOutcome::Trigger { pad_id: 1, action: PadAction::Toggle });
    assert_eq!(m.on_note_off(11), None);
    assert_eq!(m.on_note_on(12), NoteOnOutcome::Trigger { pad_id: 2, action: PadAction::Start });
    assert_eq!(m.on_note_off(12), None);
    assert_eq!(m.on_note_off(99), None);
}

#[test]
fn pad_config_unmaps_and_sets_color() {
    let mut m = MidiShared::new();
    m.apply_pad_config(4, None, Some(Some(50)), Some(45));
    assert_eq!(m.pad_for_note(50), Some(4));
    assert_eq!(m.pad_color(4), 45);
    m.apply_pad_config(4, None, Some(None), None);
    assert_eq!(m.pad_for_note(50), None);
    assert_eq!(m.pad_color(4), 45);
    m.apply_pad_config(4, Some(PadMode::Loop), None, None);
    assert_eq!(m.pad_mode(4), PadMode::Loop);
}

#[test]
fn samples_flags_and_reset_kit() {
    let mut m = MidiShared::new();
    m.set_has_sample(3, true);
    m.set_has_sample(63, true);
    assert!(m.pad_has_sample(3));
    m.set_has_sample(3, false);
    assert!(!m.pad_has_sample(3));
    assert!(m.pad_has_sample(63));
    m.reset_kit();
    assert!(!m.pad_has_sample(63));
}

#[test]
fn default_launchpad_mapping() {
    let mut m = MidiShared::new();
    m.apply_pad_config(1, None, None, Some(53));
    m.apply_default_launchpad_mapping();
    assert_eq!(m.mapped_note_count(), 64);
    assert_eq!(m.pad_for_note(81), Some(0));
    assert_eq!(m.pad_for_note(88), Some(7));
    assert_eq!(m.pad_for_note(11), Some(56));
    assert_eq!(m.pad_for_note(18), Some(63));
    assert_eq!(m.pad_for_note(19), None);
    assert_eq!(m.pad_color(0), COLOR_RED);
    assert_eq!(m.pad_color(1), 53);
    assert_eq!(m.pad_color(7), COLOR_PINK);
    assert_eq!(m.pad_color(9), COLOR_ORANGE);
    for p in 0..64 {
        assert_eq!(m.pad_for_note(pad_id_to_note(p)), Some(p));
    }
}

#[test]
fn default_mapping_keeps_existing_map() {
    let mut m = MidiShared::new();
    m.assign_midi_note(0, 36);
    m.apply_default_launchpad_mapping();
    assert_eq!(m.mapped_note_count(), 1);
    assert_eq!(m.pad_for_note(81), None);
    assert_eq!(m.pad_color(0), 0);
}

#[test]
fn led_frame_and_pad_led() {
    let mut m = MidiShared::new();
    m.apply_pad_config(0, None, None, Some(45));
    m.apply_pad_config(1, None, None, Some(49));
    m.set_has_sample(0, true);
    let leds = m.led_frame();
    assert_eq!(leds.len(), 64);
    assert_eq!(leds[0], (81, 45));
    assert_eq!(leds[1], (82, COLOR_OFF));
    assert_eq!(leds[63], (18, COLOR_OFF));
    assert_eq!(m.pad_led(0, false), (81, 45));
    assert_eq!(m.pad_led(0, true), (81, COLOR_WHITE));
    assert_eq!(COLOR_WHITE, 3);
    assert_eq!(m.pad_led(1, false), (82, COLOR_OFF));
    assert_eq!(m.pad_led(1, true), (82, COLOR_WHITE));
    m.apply_pad_config(2, None, None, Some(COLOR_GREEN));
    m.set_has_sample(2, true);
    assert_eq!(m.pad_led(2, false), (83, COLOR_GREEN));
    assert_ne!(m.pad_led(2, true), m.pad_led(2, false));
}

#[test]
fn mapping_pairs_by_note() {
    let mut m = MidiShared::new();
    m.assign_midi_note(7, 90);
    m.assign_midi_note(2, 12);
    m.assign_midi_note(5, 200);
    assert_eq!(m.mapping_pairs(), vec![(2, 12), (7, 90), (5, 200)]);
}

#[test]
fn loop_pad_presses_toggle_playback() {
    let mut m = MidiShared::new();
    m.apply_pad_config(8, Some(PadMode::Loop), Some(Some(71)), None);
    let mut t = PadTransport::new();
    t.load();
    t.set_mode(PadMode::Loop);
    for expected in [true, false, true, false] {
        match m.on_note_on(71) {
            NoteOnOutcome::Trigger { pad_id, action } => {
                assert_eq!(pad_id, 8);
                assert_eq!(action, PadAction::Toggle);
                t.trigger(action);
            }
            other => panic!("unexpected outcome {:?}", other),
        }
        assert_eq!(t.is_playing, expected);
        assert_eq!(m.on_note_off(71), None);
    }
}
