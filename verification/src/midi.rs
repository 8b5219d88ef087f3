use vstd::prelude::*;
use std::collections::HashMap;
use crate::state::{MidiLearnState, PadAction, PadMode, NUM_PADS};
use crate::learn::{handle_learn, unmap_pad, without_pad};
use crate::transport::{spec_trigger, PadTransport};
use crate::launchpad::{
    pad_color_by_index, pad_id_to_note, spec_color_by_index, spec_pad_note, COLOR_OFF, COLOR_WHITE,
};

verus! {

/// A MIDI message as the router reads it.
#[derive(Debug, Clone, Copy, PartialEq, Eq, Structural)]
pub enum MidiEvent {
    NoteOn { note: u8, velocity: u8 },
    NoteOff { note: u8 },
    Other,
}

/// What a note-on leads to.
#[derive(Debug, Clone, Copy, PartialEq, Eq, Structural)]
pub enum NoteOnOutcome {
    /// A pending MIDI learn took the note for this pad.
    Learned { pad_id: usize, note: u8 },
    /// The note is mapped to a pad, which gets this trigger.
    Trigger { pad_id: usize, action: PadAction },
    /// The note is not mapped to any pad.
    Unmapped,
}

/// The abstract content of the MIDI routing state.
pub ghost struct MidiModel {
    /// midi note -> pad
    pub notes: Map<u8, usize>,
    pub modes: Seq<PadMode>,
    /// Launchpad colour velocity of each pad
    pub colors: Seq<u8>,
    pub has_sample: Seq<bool>,
    pub learn: MidiLearnState,
}

/// No two notes lead to the same pad.
pub open spec fn notes_injective(m: Map<u8, usize>) -> bool {
    forall|a: u8, b: u8|
        #![trigger m[a], m[b]]
        m.contains_key(a) && m.contains_key(b) && a != b ==> m[a] != m[b]
}

/// Every mapped pad is a pad of the grid.
pub open spec fn notes_in_range(m: Map<u8, usize>) -> bool {
    forall|a: u8| #[trigger] m.contains_key(a) ==> m[a] < NUM_PADS
}

pub open spec fn model_wf(m: MidiModel) -> bool {
    &&& m.modes.len() == NUM_PADS
    &&& m.colors.len() == NUM_PADS
    &&& m.has_sample.len() == NUM_PADS
    &&& notes_in_range(m.notes)
    &&& notes_injective(m.notes)
    &&& match m.learn {
        MidiLearnState::WaitingForNote { pad_id } => pad_id < NUM_PADS,
        MidiLearnState::Idle => true,
    }
}

/// The note map after `pad` has been given `note`: the pad's old notes are
/// unmapped and the note now leads to the pad.
pub open spec fn assign_note(m: Map<u8, usize>, pad: usize, note: u8) -> Map<u8, usize> {
    without_pad(m, pad).insert(note, pad)
}

/// The action that a note-on sends to a pad in the given mode:
/// loop pads toggle, the others start.
pub open spec fn note_on_action(mode: PadMode) -> PadAction {
    match mode {
        PadMode::Loop => PadAction::Toggle,
        _ => PadAction::Start,
    }
}

/// The routing state and outcome after a note-on: a pending learn takes the
/// note for its pad; otherwise a mapped note triggers its pad.
pub open spec fn spec_note_on(m: MidiModel, note: u8) -> (MidiModel, NoteOnOutcome) {
    match m.learn {
        MidiLearnState::WaitingForNote { pad_id } => (
            MidiModel { notes: assign_note(m.notes, pad_id, note), learn: MidiLearnState::Idle, ..m },
            NoteOnOutcome::Learned { pad_id, note },
        ),
        MidiLearnState::Idle => (
            m,
            if m.notes.contains_key(note) {
                NoteOnOutcome::Trigger { pad_id: m.notes[note], action: note_on_action(m.modes[m.notes[note] as int]) }
            } else {
                NoteOnOutcome::Unmapped
            },
        ),
    }
}

/// The pad a note-off stops: the note's pad when it is a hold pad.
pub open spec fn spec_note_off(m: MidiModel, note: u8) -> Option<usize> {
    if m.notes.contains_key(note) && m.modes[m.notes[note] as int] == PadMode::Hold {
        Some(m.notes[note])
    } else {
        None
    }
}

/// The default Launchpad layout: each pad's grid note leads to the pad.
pub open spec fn default_layout() -> Map<u8, usize> {
    Map::new(
        |n: u8| exists|p: int| 0 <= p < 64 && #[trigger] spec_pad_note(p) == n,
        |n: u8| crate::launchpad::spec_note_pad(n as int) as usize,
    )
}

/// The LED colour of a pad that is not playing.
pub open spec fn idle_led_color(m: MidiModel, pad: int) -> u8 {
    if m.has_sample[pad] { m.colors[pad] } else { COLOR_OFF }
}

/// Status nibble of a MIDI status byte.
pub open spec fn status_of(b: u8) -> u8 {
    b & 0xF0
}

/// How the router reads a raw MIDI message: at least two bytes, status from
/// the high nibble of the first, note from the second, velocity from the
/// third (0 when absent). Note-on with velocity 0 counts as note-off.
pub open spec fn spec_parse_midi(msg: Seq<u8>) -> MidiEvent {
    if msg.len() < 2 {
        MidiEvent::Other
    } else {
        let status = status_of(msg[0]);
        let note = msg[1];
        let velocity: u8 = if msg.len() > 2 { msg[2] } else { 0 };
        if status == 0x90 && velocity > 0 {
            MidiEvent::NoteOn { note, velocity }
        } else if status == 0x80 || (status == 0x90 && velocity == 0) {
            MidiEvent::NoteOff { note }
        } else {
            MidiEvent::Other
        }
    }
}

/// Reads a raw MIDI message.
pub fn parse_midi_message(msg: &[u8]) -> (ev: MidiEvent)
    ensures
        ev == spec_parse_midi(msg@),
{
    if msg.len() < 2 {
        return MidiEvent::Other;
    }
    let status = msg[0] & 0xF0;
    let note = msg[1];
    let velocity: u8 = if msg.len() > 2 { msg[2] } else { 0 };
    if status == 0x90 && velocity > 0 {
        MidiEvent::NoteOn { note, velocity }
    } else if status == 0x80 || (status == 0x90 && velocity == 0) {
        MidiEvent::NoteOff { note }
    } else {
        MidiEvent::Other
    }
}

/// MIDI routing state shared by the MIDI input callback and the commands:
/// note map, pad modes, pad colours, which pads hold a sample, and MIDI learn.
pub struct MidiShared {
    note_map: HashMap<u8, usize>,
    pad_modes: Vec<PadMode>,
    pad_colors: Vec<u8>,
    pad_has_sample: Vec<bool>,
    learn_state: MidiLearnState,
}

impl View for MidiShared {
    type V = MidiModel;

    closed spec fn view(&self) -> MidiModel {
        MidiModel {
            notes: self.note_map@,
            modes: self.pad_modes@,
            colors: self.pad_colors@,
            has_sample: self.pad_has_sample@,
            learn: self.learn_state,
        }
    }
}

impl MidiShared {
    pub open spec fn wf(&self) -> bool {
        model_wf(self@)
    }

    /// Empty note map, every pad one-shot, colour 0, no sample, learn idle.
    pub fn new() -> (s: Self)
        ensures
            s.wf(),
            s@.notes == Map::<u8, usize>::empty(),
            forall|p: int| 0 <= p < 64 ==> #[trigger] s@.modes[p] == PadMode::Oneshot,
            forall|p: int| 0 <= p < 64 ==> #[trigger] s@.colors[p] == 0,
            forall|p: int| 0 <= p < 64 ==> !#[trigger] s@.has_sample[p],
            s@.learn == MidiLearnState::Idle,
    {
        let mut pad_modes: Vec<PadMode> = Vec::new();
        let mut pad_colors: Vec<u8> = Vec::new();
        let mut pad_has_sample: Vec<bool> = Vec::new();
        let mut i: usize = 0;
        while i < NUM_PADS
            invariant
                i <= NUM_PADS,
                pad_modes@.len() == i,
                pad_colors@.len() == i,
                pad_has_sample@.len() == i,
                forall|p: int| 0 <= p < i ==> #[trigger] pad_modes@[p] == PadMode::Oneshot,
                forall|p: int| 0 <= p < i ==> #[trigger] pad_colors@[p] == 0,
                forall|p: int| 0 <= p < i ==> !#[trigger] pad_has_sample@[p],
            decreases NUM_PADS - i,
        {
            pad_modes.push(PadMode::Oneshot);
            pad_colors.push(0);
            pad_has_sample.push(false);
            i = i + 1;
        }
        let s = MidiShared {
            note_map: HashMap::new(),
            pad_modes,
            pad_colors,
            pad_has_sample,
            learn_state: MidiLearnState::Idle,
        };
        s
    }

    /// The pad a note leads to.
    pub fn pad_for_note(&self, note: u8) -> (pad: Option<usize>)
        ensures
            match pad {
                Some(p) => self@.notes.contains_key(note) && self@.notes[note] == p,
                None => !self@.notes.contains_key(note),
            },
    {
        match self.note_map.get(&note) {
            Some(p) => Some(*p),
            None => None,
        }
    }

    /// Number of mapped notes.
    pub fn mapped_note_count(&self) -> (n: usize)
        ensures
            n == self@.notes.len(),
    {
        self.note_map.len()
    }

    pub fn pad_mode(&self, pad_id: usize) -> (mode: PadMode)
        requires
            self.wf(),
            pad_id < NUM_PADS,
        ensures
            mode == self@.modes[pad_id as int],
    {
        self.pad_modes[pad_id]
    }

    pub fn pad_color(&self, pad_id: usize) -> (color: u8)
        requires
            self.wf(),
            pad_id < NUM_PADS,
        ensures
            color == self@.colors[pad_id as int],
    {
        self.pad_colors[pad_id]
    }

    pub fn pad_has_sample(&self, pad_id: usize) -> (b: bool)
        requires
            self.wf(),
            pad_id < NUM_PADS,
        ensures
            b == self@.has_sample[pad_id as int],
    {
        self.pad_has_sample[pad_id]
    }

    pub fn learn_state(&self) -> (st: MidiLearnState)
        ensures
            st == self@.learn,
    {
        self.learn_state
    }

    /// Maps `note` to `pad_id`; the pad's previous notes are unmapped.
    pub fn assign_midi_note(&mut self, pad_id: usize, note: u8)
        requires
            old(self).wf(),
            pad_id < NUM_PADS,
        ensures
            final(self).wf(),
            final(self)@ == (MidiModel { notes: assign_note(old(self)@.notes, pad_id, note), ..old(self)@ }),
    {
        unmap_pad(&mut self.note_map, pad_id);
        self.note_map.insert(note, pad_id);
        proof {
            lemma_assign_keeps_wf(old(self)@.notes, pad_id, note);
        }
    }

    /// Waits for the next note-on to assign it to `pad_id`.
    pub fn start_midi_learn(&mut self, pad_id: usize)
        requires
            old(self).wf(),
            pad_id < NUM_PADS,
        ensures
            final(self).wf(),
            final(self)@ == (MidiModel { learn: MidiLearnState::WaitingForNote { pad_id }, ..old(self)@ }),
    {
        self.learn_state = MidiLearnState::WaitingForNote { pad_id };
    }

    /// Leaves MIDI learn.
    pub fn cancel_midi_learn(&mut self)
        requires
            old(self).wf(),
        ensures
            final(self).wf(),
            final(self)@ == (MidiModel { learn: MidiLearnState::Idle, ..old(self)@ }),
    {
        self.learn_state = MidiLearnState::Idle;
    }

    /// Records whether a pad holds a sample.
    pub fn set_has_sample(&mut self, pad_id: usize, loaded: bool)
        requires
            old(self).wf(),
            pad_id < NUM_PADS,
        ensures
            final(self).wf(),
            final(self)@ == (MidiModel { has_sample: old(self)@.has_sample.update(pad_id as int, loaded), ..old(self)@ }),
    {
        self.pad_has_sample[pad_id] = loaded;
    }

    /// New kit: no pad holds a sample any more.
    pub fn reset_kit(&mut self)
        requires
            old(self).wf(),
        ensures
            final(self).wf(),
            final(self)@ == (MidiModel { has_sample: Seq::new(64, |p: int| false), ..old(self)@ }),
    {
        let mut i: usize = 0;
        while i < NUM_PADS
            invariant
                i <= NUM_PADS,
                self.wf(),
                self@ == (MidiModel { has_sample: self@.has_sample, ..old(self)@ }),
                forall|p: int| 0 <= p < i ==> !#[trigger] self@.has_sample[p],
            decreases NUM_PADS - i,
        {
            self.pad_has_sample[i] = false;
            i = i + 1;
        }
        assert(self@.has_sample =~= Seq::new(64, |p: int| false));
    }

    /// The MIDI part of a pad configuration: mode, note (`Some(None)` unmaps
    /// the pad, `Some(Some(n))` maps `n` to it) and LED colour; `None` leaves
    /// a setting as it is.
    pub fn apply_pad_config(
        &mut self,
        pad_id: usize,
        mode: Option<PadMode>,
        midi_note: Option<Option<u8>>,
        color: Option<u8>,
    )
        requires
            old(self).wf(),
            pad_id < NUM_PADS,
        ensures
            final(self).wf(),
            final(self)@.modes == match mode {
                Some(m) => old(self)@.modes.update(pad_id as int, m),
                None => old(self)@.modes,
            },
            final(self)@.notes == match midi_note {
                Some(Some(n)) => assign_note(old(self)@.notes, pad_id, n),
                Some(None) => without_pad(old(self)@.notes, pad_id),
                None => old(self)@.notes,
            },
            final(self)@.colors == match color {
                Some(c) => old(self)@.colors.update(pad_id as int, c),
                None => old(self)@.colors,
            },
            final(self)@.has_sample == old(self)@.has_sample,
            final(self)@.learn == old(self)@.learn,
    {
        if let Some(m) = mode {
            self.pad_modes[pad_id] = m;
        }
        if let Some(note_opt) = midi_note {
            unmap_pad(&mut self.note_map, pad_id);
            proof {
                lemma_without_pad_keeps_wf(old(self)@.notes, pad_id);
            }
            if let Some(note) = note_opt {
                self.note_map.insert(note, pad_id);
                proof {
                    lemma_assign_keeps_wf(old(self)@.notes, pad_id, note);
                }
            }
        }
        if let Some(c) = color {
            self.pad_colors[pad_id] = c;
        }
    }

    /// A note-on: completes a pending MIDI learn, or else triggers the pad
    /// the note leads to (toggle for loop pads, start for the others).
    pub fn on_note_on(&mut self, note: u8) -> (out: NoteOnOutcome)
        requires
            old(self).wf(),
        ensures
            final(self).wf(),
            (final(self)@, out) == spec_note_on(old(self)@, note),
    {
        let learned = handle_learn(&mut self.learn_state, &mut self.note_map, note);
        match learned {
            Some((pad_id, n)) => {
                proof {
                    lemma_assign_keeps_wf(old(self)@.notes, pad_id, note);
                }
                NoteOnOutcome::Learned { pad_id, note: n }
            },
            None => {
                match self.note_map.get(&note) {
                    Some(p) => {
                        let pad_id = *p;
                        let action = match self.pad_modes[pad_id] {
                            PadMode::Loop => PadAction::Toggle,
                            _ => PadAction::Start,
                        };
                        NoteOnOutcome::Trigger { pad_id, action }
                    },
                    None => NoteOnOutcome::Unmapped,
                }
            },
        }
    }

    /// A note-off: the pad to stop, if the note leads to a hold pad.
    pub fn on_note_off(&self, note: u8) -> (stop: Option<usize>)
        requires
            self.wf(),
        ensures
            stop == spec_note_off(self@, note),
    {
        match self.note_map.get(&note) {
            Some(p) => {
                let pad_id = *p;
                if self.pad_modes[pad_id] == PadMode::Hold {
                    Some(pad_id)
                } else {
                    None
                }
            },
            None => None,
        }
    }

    /// The LED of every pad, in pad order: the pad's grid note, and its colour
    /// when it holds a sample, off otherwise.
    pub fn led_frame(&self) -> (leds: Vec<(u8, u8)>)
        requires
            self.wf(),
        ensures
            leds@.len() == 64,
            forall|p: int| 0 <= p < 64 ==> #[trigger] leds@[p] == (spec_pad_note(p) as u8, idle_led_color(self@, p)),
    {
        let mut leds: Vec<(u8, u8)> = Vec::new();
        let mut pad_id: usize = 0;
        while pad_id < NUM_PADS
            invariant
                self.wf(),
                pad_id <= NUM_PADS,
                leds@.len() == pad_id,
                forall|p: int| 0 <= p < pad_id ==> #[trigger] leds@[p] == (spec_pad_note(p) as u8, idle_led_color(self@, p)),
            decreases NUM_PADS - pad_id,
        {
            let note = pad_id_to_note(pad_id);
            let color = if self.pad_has_sample[pad_id] { self.pad_colors[pad_id] } else { COLOR_OFF };
            leds.push((note, color));
            pad_id = pad_id + 1;
        }
        leds
    }

    /// The LED of one pad: white while it plays, else its idle colour.
    pub fn pad_led(&self, pad_id: usize, playing: bool) -> (led: (u8, u8))
        requires
            self.wf(),
            pad_id < NUM_PADS,
        ensures
            led == (spec_pad_note(pad_id as int) as u8, if playing { COLOR_WHITE } else { idle_led_color(self@, pad_id as int) }),
    {
        let note = pad_id_to_note(pad_id);
        let color = if playing {
            COLOR_WHITE
        } else if self.pad_has_sample[pad_id] {
            self.pad_colors[pad_id]
        } else {
            COLOR_OFF
        };
        (note, color)
    }

    /// Every mapping of the note map as `(pad, note)`, by ascending note.
    pub fn mapping_pairs(&self) -> (pairs: Vec<(usize, u8)>)
        ensures
            forall|i: int| 0 <= i < pairs@.len() ==> {
                let (p, n) = #[trigger] pairs@[i];
                self@.notes.contains_key(n) && self@.notes[n] == p
            },
            forall|i: int, j: int| 0 <= i < j < pairs@.len() ==> (#[trigger] pairs@[i]).1 < (#[trigger] pairs@[j]).1,
            forall|n: u8| #[trigger] self@.notes.contains_key(n) ==> exists|i: int| 0 <= i < pairs@.len() && (#[trigger] pairs@[i]).1 == n,
    {
        let mut pairs: Vec<(usize, u8)> = Vec::new();
        let mut n: u16 = 0;
        while n < 256
            invariant
                n <= 256,
                forall|i: int| 0 <= i < pairs@.len() ==> {
                    let (p, m) = #[trigger] pairs@[i];
                    self@.notes.contains_key(m) && self@.notes[m] == p && m < n
                },
                forall|i: int, j: int| 0 <= i < j < pairs@.len() ==> (#[trigger] pairs@[i]).1 < (#[trigger] pairs@[j]).1,
                forall|m: u8| #[trigger] self@.notes.contains_key(m) && m < n ==> exists|i: int| 0 <= i < pairs@.len() && (#[trigger] pairs@[i]).1 == m,
            decreases 256 - n,
        {
            let note = n as u8;
            let ghost prev = pairs@;
            match self.note_map.get(&note) {
                Some(p) => {
                    pairs.push((*p, note));
                    assert(pairs@[pairs@.len() - 1].1 == note);
                },
                None => {},
            }
            n = n + 1;
            assert forall|m: u8| #[trigger] self@.notes.contains_key(m) && m < n implies exists|i: int| 0 <= i < pairs@.len() && (#[trigger] pairs@[i]).1 == m by {
                if m < note {
                    let i = choose|i: int| 0 <= i < prev.len() && (#[trigger] prev[i]).1 == m;
                    assert(pairs@[i] == prev[i]);
                } else {
                    assert(m == note);
                    assert(pairs@[pairs@.len() - 1].1 == m);
                }
            }
        }
        pairs
    }

    /// Applies the default Launchpad MK2 layout when no note is mapped yet:
    /// each pad gets its grid note, and pads without a colour get the default
    /// colour of their column. A non-empty note map is left as it is.
    pub fn apply_default_launchpad_mapping(&mut self)
        requires
            old(self).wf(),
        ensures
            final(self).wf(),
            old(self)@.notes.dom().is_empty() ==> {
                &&& final(self)@.notes == default_layout()
                &&& final(self)@.colors == Seq::new(64, |p: int|
                    if old(self)@.colors[p] == 0 { spec_color_by_index(p % 8) } else { old(self)@.colors[p] })
                &&& final(self)@.modes == old(self)@.modes
                &&& final(self)@.has_sample == old(self)@.has_sample
                &&& final(self)@.learn == old(self)@.learn
            },
            !old(self)@.notes.dom().is_empty() ==> final(self)@ == old(self)@,
    {
        if !self.note_map.is_empty() {
            return;
        }
        proof {
            crate::launchpad::lemma_pad_layout_bijective();
        }
        let mut pad_id: usize = 0;
        while pad_id < NUM_PADS
            invariant
                pad_id <= NUM_PADS,
                old(self)@.notes.dom().is_empty(),
                self@.modes == old(self)@.modes,
                self@.has_sample == old(self)@.has_sample,
                self@.learn == old(self)@.learn,
                self@.colors.len() == 64,
                forall|p: int| 0 <= p < 64 ==> #[trigger] self@.colors[p] == if p < pad_id && old(self)@.colors[p] == 0 {
                    spec_color_by_index(p % 8)
                } else {
                    old(self)@.colors[p]
                },
                forall|n: u8| #[trigger] self@.notes.contains_key(n) <==> exists|p: int| 0 <= p < pad_id && #[trigger] spec_pad_note(p) == n,
                forall|p: int| 0 <= p < pad_id ==> self@.notes[#[trigger] spec_pad_note(p) as u8] == p,
                forall|p: int| 0 <= p < 64 ==> is_grid(#[trigger] spec_pad_note(p)),
                model_wf(old(self)@),
            decreases NUM_PADS - pad_id,
        {
            let note = pad_id_to_note(pad_id);
            let ghost prev = self@.notes;
            self.note_map.insert(note, pad_id);
            assert(self@.notes == prev.insert(note, pad_id));
            if self.pad_colors[pad_id] == 0 {
                let c = pad_color_by_index(pad_id % 8);
                self.pad_colors[pad_id] = c;
            }
            pad_id = pad_id + 1;
            assert forall|n: u8| #[trigger] self@.notes.contains_key(n) <==> exists|p: int| 0 <= p < pad_id && #[trigger] spec_pad_note(p) == n by {
                if self@.notes.contains_key(n) && n != note {
                    assert(prev.contains_key(n));
                    let p = choose|p: int| 0 <= p < pad_id - 1 && #[trigger] spec_pad_note(p) == n;
                    assert(0 <= p < pad_id && spec_pad_note(p) == n);
                }
                if n == note {
                    assert(spec_pad_note(pad_id - 1) == n);
                }
                if exists|p: int| 0 <= p < pad_id && #[trigger] spec_pad_note(p) == n {
                    let p = choose|p: int| 0 <= p < pad_id && #[trigger] spec_pad_note(p) == n;
                    if p < pad_id - 1 {
                        assert(exists|q: int| 0 <= q < pad_id - 1 && #[trigger] spec_pad_note(q) == n);
                    }
                }
            }
        }
        proof {
            assert(self@.notes =~= default_layout()) by {
                assert forall|n: u8| #[trigger] self@.notes.contains_key(n) implies self@.notes[n] == crate::launchpad::spec_note_pad(n as int) as usize by {
                    let p = choose|p: int| 0 <= p < 64 && #[trigger] spec_pad_note(p) == n;
                    assert(self@.notes[spec_pad_note(p) as u8] == p);
                }
            }
            assert(self@.colors =~= Seq::new(64, |p: int|
                if old(self)@.colors[p] == 0 { spec_color_by_index(p % 8) } else { old(self)@.colors[p] }));
            lemma_default_layout_wf();
        }
    }
}

spec fn is_grid(n: int) -> bool {
    crate::launchpad::is_grid_note(n) && 0 <= n <= 255
}

proof fn lemma_without_pad_keeps_wf(m: Map<u8, usize>, pad: usize)
    requires
        notes_in_range(m),
        notes_injective(m),
    ensures
        notes_in_range(without_pad(m, pad)),
        notes_injective(without_pad(m, pad)),
        forall|a: u8| #[trigger] without_pad(m, pad).contains_key(a) ==> without_pad(m, pad)[a] != pad,
{
}

/// Giving a pad a note keeps the map injective and in range.
proof fn lemma_assign_keeps_wf(m: Map<u8, usize>, pad: usize, note: u8)
    requires
        notes_in_range(m),
        notes_injective(m),
        pad < NUM_PADS,
    ensures
        notes_in_range(assign_note(m, pad, note)),
        notes_injective(assign_note(m, pad, note)),
{
    lemma_without_pad_keeps_wf(m, pad);
}

proof fn lemma_default_layout_wf()
    ensures
        notes_in_range(default_layout()),
        notes_injective(default_layout()),
{
    crate::launchpad::lemma_pad_layout_bijective();
    let d = default_layout();
    assert forall|a: u8| #[trigger] d.contains_key(a) implies d[a] < NUM_PADS by {
        let p = choose|p: int| 0 <= p < 64 && #[trigger] spec_pad_note(p) == a;
    }
    assert forall|a: u8, b: u8|
        #![trigger d[a], d[b]]
        d.contains_key(a) && d.contains_key(b) && a != b implies d[a] != d[b] by {
        let p = choose|p: int| 0 <= p < 64 && #[trigger] spec_pad_note(p) == a;
        let q = choose|q: int| 0 <= q < 64 && #[trigger] spec_pad_note(q) == b;
    }
}

/// MIDI learn: once learning for a pad, the next note-on is taken for that
/// pad (it is reported, nothing is triggered, learning ends), the note is
/// then the pad's only note, and from then on the same note triggers the pad.
pub proof fn lemma_learn_then_play(m: MidiModel, pad: usize, note: u8)
    requires
        model_wf(m),
        pad < NUM_PADS,
    ensures
        ({
            let learning = MidiModel { learn: MidiLearnState::WaitingForNote { pad_id: pad }, ..m };
            let (m2, out) = spec_note_on(learning, note);
            &&& out == NoteOnOutcome::Learned { pad_id: pad, note }
            &&& m2.learn == MidiLearnState::Idle
            &&& m2.notes.contains_key(note) && m2.notes[note] == pad
            &&& forall|k: u8| #[trigger] m2.notes.contains_key(k) && m2.notes[k] == pad ==> k == note
            &&& model_wf(m2)
            &&& spec_note_on(m2, note) == (m2, NoteOnOutcome::Trigger { pad_id: pad, action: note_on_action(m.modes[pad as int]) })
        }),
{
    lemma_assign_keeps_wf(m.notes, pad, note);
}

/// Assigning a note to a pad leaves the pad with exactly that note, takes
/// the note away from the pad it led to before, and leaves every other
/// mapping as it was.
pub proof fn lemma_assign_note(m: Map<u8, usize>, pad: usize, note: u8)
    requires
        notes_in_range(m),
        notes_injective(m),
        pad < NUM_PADS,
    ensures
        assign_note(m, pad, note).contains_key(note),
        assign_note(m, pad, note)[note] == pad,
        forall|k: u8| #[trigger] assign_note(m, pad, note).contains_key(k) && assign_note(m, pad, note)[k] == pad ==> k == note,
        forall|k: u8| k != note && m.contains_key(k) && m[k] != pad ==> #[trigger] assign_note(m, pad, note).contains_key(k) && assign_note(m, pad, note)[k] == m[k],
        notes_in_range(assign_note(m, pad, note)),
        notes_injective(assign_note(m, pad, note)),
{
    lemma_assign_keeps_wf(m, pad, note);
}

/// Trigger modes from MIDI: a held note plays a hold pad and its release
/// stops it; a loop pad toggles on each press and ignores the release; a
/// one-shot pad starts on each press and ignores the release.
pub proof fn lemma_note_modes(m: MidiModel, note: u8)
    requires
        model_wf(m),
        m.learn == MidiLearnState::Idle,
        m.notes.contains_key(note),
    ensures
        ({
            let p = m.notes[note];
            let out = spec_note_on(m, note).1;
            &&& spec_note_on(m, note).0 == m
            &&& m.modes[p as int] == PadMode::Hold ==> out == NoteOnOutcome::Trigger { pad_id: p, action: PadAction::Start } && spec_note_off(m, note) == Some(p)
            &&& m.modes[p as int] == PadMode::Loop ==> out == NoteOnOutcome::Trigger { pad_id: p, action: PadAction::Toggle } && spec_note_off(m, note).is_none()
            &&& m.modes[p as int] == PadMode::Oneshot ==> out == NoteOnOutcome::Trigger { pad_id: p, action: PadAction::Start } && spec_note_off(m, note).is_none()
        }),
{
}

/// With the default Launchpad layout, the key of each pad triggers that pad.
pub proof fn lemma_default_layout_routes(p: usize)
    requires
        p < NUM_PADS,
    ensures
        default_layout().contains_key(spec_pad_note(p as int) as u8),
        default_layout()[spec_pad_note(p as int) as u8] == p,
        notes_injective(default_layout()),
        notes_in_range(default_layout()),
{
    crate::launchpad::lemma_pad_layout_bijective();
    assert(spec_pad_note(p as int) as u8 as int == spec_pad_note(p as int));
    lemma_default_layout_wf();
}

/// Pressing the key of a loaded loop pad starts it when it is stopped and
/// stops it when it plays, so two presses bring it back to where it was.
pub proof fn lemma_loop_pad_presses(m: MidiModel, note: u8, t: PadTransport)
    requires
        model_wf(m),
        m.learn == MidiLearnState::Idle,
        m.notes.contains_key(note),
        m.modes[m.notes[note] as int] == PadMode::Loop,
        t.has_sample,
    ensures
        ({
            let action = note_on_action(m.modes[m.notes[note] as int]);
            &&& spec_note_on(m, note).1 == NoteOnOutcome::Trigger { pad_id: m.notes[note], action }
            &&& spec_trigger(t, action).0.is_playing == !t.is_playing
            &&& spec_trigger(spec_trigger(t, action).0, action).0.is_playing == t.is_playing
        }),
{
}

/// The default Launchpad layout has exactly 64 keys, the grid notes of the
/// 64 pads, and every pad is the value of exactly one key.
pub proof fn lemma_default_layout_shape()
    ensures
        default_layout().dom() == vstd::set_lib::set_int_range(0, 64).map(|p: int| spec_pad_note(p) as u8),
        default_layout().dom().finite(),
        default_layout().dom().len() == 64,
        forall|p: int| 0 <= p < 64 ==> #[trigger] default_layout()[spec_pad_note(p) as u8] == p,
        forall|k: u8, p: int| 0 <= p < 64 && #[trigger] default_layout().contains_key(k) && default_layout()[k] == p
            ==> k == #[trigger] spec_pad_note(p) as u8,
{
    crate::launchpad::lemma_pad_layout_bijective();
    let d = default_layout();
    let r = vstd::set_lib::set_int_range(0, 64);
    let f = |p: int| spec_pad_note(p) as u8;
    assert forall|p: int| 0 <= p < 64 implies #[trigger] spec_pad_note(p) as u8 as int == spec_pad_note(p) by {
        assert(crate::launchpad::is_grid_note(spec_pad_note(p)));
    }
    assert(d.dom() =~= r.map(f)) by {
        assert forall|n: u8| d.dom().contains(n) implies r.map(f).contains(n) by {
            let p = choose|p: int| 0 <= p < 64 && #[trigger] spec_pad_note(p) == n;
            assert(r.contains(p) && f(p) == n);
        }
        assert forall|n: u8| r.map(f).contains(n) implies d.dom().contains(n) by {
            let p = choose|p: int| r.contains(p) && f(p) == n;
            assert(spec_pad_note(p) == n);
        }
    }
    assert(vstd::relations::injective_on(f, r)) by {
        assert forall|x1: int, x2: int| r.contains(x1) && r.contains(x2) && #[trigger] f(x1) == #[trigger] f(x2) implies x1 == x2 by {
            assert(spec_pad_note(x1) as u8 as int == spec_pad_note(x1));
            assert(spec_pad_note(x2) as u8 as int == spec_pad_note(x2));
        }
    }
    vstd::set_lib::lemma_int_range(0, 64);
    vstd::set_lib::lemma_map_size(r, d.dom(), f);
    assert forall|p: int| 0 <= p < 64 implies #[trigger] d[spec_pad_note(p) as u8] == p by {
        assert(spec_pad_note(p) as u8 as int == spec_pad_note(p));
        assert(d.contains_key(spec_pad_note(p) as u8));
    }
    assert forall|k: u8, p: int| 0 <= p < 64 && #[trigger] d.contains_key(k) && d[k] == p
        implies k == #[trigger] spec_pad_note(p) as u8 by {
        let q = choose|q: int| 0 <= q < 64 && #[trigger] spec_pad_note(q) == k;
        assert(spec_pad_note(p) as u8 as int == spec_pad_note(p));
    }
}

/// The high nibble of a status byte, read as a byte range.
proof fn lemma_status_ranges(b: u8)
    ensures
        (status_of(b) == 0x90u8) <==> (0x90u8 <= b && b <= 0x9Fu8),
        (status_of(b) == 0x80u8) <==> (0x80u8 <= b && b <= 0x8Fu8),
{
    assert((b & 0xF0u8 == 0x90u8) <==> (0x90u8 <= b && b <= 0x9Fu8)) by (bit_vector);
    assert((b & 0xF0u8 == 0x80u8) <==> (0x80u8 <= b && b <= 0x8Fu8)) by (bit_vector);
}

/// What a raw MIDI message means to the router. A note-on is exactly a
/// message of at least three bytes with a status in 0x90..=0x9F (note-on on
/// any channel) and a velocity above zero; a note-off is exactly a message
/// of at least two bytes with a status in 0x80..=0x8F, or in 0x90..=0x9F
/// with no velocity byte or velocity zero; everything else (aftertouch,
/// control change, program change, pitch bend, short messages) is ignored.
/// The note is the second byte and the velocity the third.
pub proof fn lemma_parse_midi_meaning(msg: Seq<u8>)
    ensures
        (spec_parse_midi(msg) is NoteOn) <==> (msg.len() >= 3 && 0x90u8 <= msg[0] && msg[0] <= 0x9Fu8 && msg[2] > 0),
        (spec_parse_midi(msg) is NoteOff) <==> (msg.len() >= 2 && (
            (0x80u8 <= msg[0] && msg[0] <= 0x8Fu8)
            || (0x90u8 <= msg[0] && msg[0] <= 0x9Fu8 && (msg.len() == 2 || msg[2] == 0)))),
        (spec_parse_midi(msg) is Other) <==> !(spec_parse_midi(msg) is NoteOn) && !(spec_parse_midi(msg) is NoteOff),
        spec_parse_midi(msg) matches MidiEvent::NoteOn { note, velocity } ==> note == msg[1] && velocity == msg[2],
        spec_parse_midi(msg) matches MidiEvent::NoteOff { note } ==> note == msg[1],
{
    if msg.len() >= 1 {
        lemma_status_ranges(msg[0]);
    }
}

/// A note-on while no learn is pending never changes the routing state, and
/// triggers a pad only through the note map: a mapped note triggers exactly
/// the pad it is mapped to, and a note that is not mapped triggers nothing.
pub proof fn lemma_note_on_routes_through_map(m: MidiModel, note: u8)
    requires
        model_wf(m),
        m.learn == MidiLearnState::Idle,
    ensures
        spec_note_on(m, note).0 == m,
        !m.notes.contains_key(note) ==> spec_note_on(m, note).1 == NoteOnOutcome::Unmapped,
        spec_note_on(m, note).1 matches NoteOnOutcome::Trigger { pad_id, action } ==>
            m.notes.contains_key(note) && m.notes[note] == pad_id && pad_id < NUM_PADS
            && (action == PadAction::Toggle <==> m.modes[pad_id as int] == PadMode::Loop)
            && (action == PadAction::Start <==> m.modes[pad_id as int] != PadMode::Loop),
        m.notes.contains_key(note) ==> spec_note_on(m, note).1 is Trigger,
        !(spec_note_on(m, note).1 is Learned),
{
}

/// A note-off stops a pad only through the note map: it stops the pad the
/// note is mapped to when that pad is a hold pad, and nothing otherwise; in
/// particular releasing a note that is not mapped stops nothing.
pub proof fn lemma_note_off_routes_through_map(m: MidiModel, note: u8)
    requires
        model_wf(m),
    ensures
        !m.notes.contains_key(note) ==> spec_note_off(m, note).is_none(),
        spec_note_off(m, note) matches Some(p) ==>
            m.notes.contains_key(note) && m.notes[note] == p && p < NUM_PADS && m.modes[p as int] == PadMode::Hold,
        m.notes.contains_key(note) && m.modes[m.notes[note] as int] == PadMode::Hold ==> spec_note_off(m, note) == Some(m.notes[note]),
        m.notes.contains_key(note) && m.modes[m.notes[note] as int] != PadMode::Hold ==> spec_note_off(m, note).is_none(),
{
}

} // verus!
