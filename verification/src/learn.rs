use vstd::prelude::*;
use std::collections::HashMap;
use crate::state::MidiLearnState;

verus! {

/// The note map with every note that pointed at `pad` taken out.
pub open spec fn without_pad(m: Map<u8, usize>, pad: usize) -> Map<u8, usize> {
    Map::new(|k: u8| m.contains_key(k) && m[k] != pad, |k: u8| m[k])
}

/// Removes every note that maps to `pad_id` from `note_map`.
pub fn unmap_pad(note_map: &mut HashMap<u8, usize>, pad_id: usize)
    ensures
        final(note_map)@ == without_pad(old(note_map)@, pad_id),
{
    let ghost orig = note_map@;
    let mut n: u16 = 0;
    while n < 256
        invariant
            n <= 256,
            note_map@ == Map::new(
                |k: u8| orig.contains_key(k) && (k < n ==> orig[k] != pad_id),
                |k: u8| orig[k],
            ),
        decreases 256 - n,
    {
        let note = n as u8;
        let found = match note_map.get(&note) {
            Some(p) => *p == pad_id,
            None => false,
        };
        if found {
            note_map.remove(&note);
        }
        n = n + 1;
        assert(note_map@ =~= Map::new(
            |k: u8| orig.contains_key(k) && (k < n ==> orig[k] != pad_id),
            |k: u8| orig[k],
        ));
    }
    assert(note_map@ =~= without_pad(orig, pad_id));
}

/// Completes a pending MIDI learn with the note just received.
///
/// When the learn state waits for a note on behalf of a pad, every note that
/// pointed at that pad is unmapped, the received note is mapped to the pad,
/// the learn state returns to idle and `(pad_id, note)` is returned.
/// Otherwise nothing changes and `None` is returned.
pub fn handle_learn(
    learn_state: &mut MidiLearnState,
    note_map: &mut HashMap<u8, usize>,
    received_note: u8,
) -> (res: Option<(usize, u8)>)
    ensures
        match *old(learn_state) {
            MidiLearnState::WaitingForNote { pad_id } => {
                &&& res == Some((pad_id, received_note))
                &&& *final(learn_state) == MidiLearnState::Idle
                &&& final(note_map)@ == without_pad(old(note_map)@, pad_id).insert(received_note, pad_id)
            },
            MidiLearnState::Idle => {
                &&& res.is_none()
                &&& *final(learn_state) == MidiLearnState::Idle
                &&& final(note_map)@ == old(note_map)@
            },
        },
{
    match *learn_state {
        MidiLearnState::WaitingForNote { pad_id } => {
            unmap_pad(note_map, pad_id);
            note_map.insert(received_note, pad_id);
            *learn_state = MidiLearnState::Idle;
            Some((pad_id, received_note))
        },
        MidiLearnState::Idle => None,
    }
}

} // verus!
