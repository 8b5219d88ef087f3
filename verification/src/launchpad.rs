use vstd::prelude::*;

verus! {

// Colour velocity values of the Launchpad MK2 palette.
pub const COLOR_RED: u8 = 5;
pub const COLOR_ORANGE: u8 = 9;
pub const COLOR_YELLOW: u8 = 13;
pub const COLOR_GREEN: u8 = 21;
pub const COLOR_CYAN: u8 = 29;
pub const COLOR_BLUE: u8 = 45;
pub const COLOR_PURPLE: u8 = 49;
pub const COLOR_PINK: u8 = 53;
pub const COLOR_GRAY: u8 = 71;
/// Bright green of the palette.
pub const COLOR_BRIGHT: u8 = 21;
/// White of the palette: the LED of a pad while it plays.
pub const COLOR_WHITE: u8 = 3;
pub const COLOR_OFF: u8 = 0;

/// First byte of a SysEx message.
pub const SYSEX_START: u8 = 0xF0;
/// Last byte of a SysEx message.
pub const SYSEX_END: u8 = 0xF7;
/// Command byte of the single-LED SysEx message.
pub const SET_LED_COMMAND: u8 = 0x03;

/// The programmer-mode note of a pad: pad 0 is the top-left key (81),
/// pads run left to right along a row, rows run top to bottom. The last pad,
/// 63, is the bottom-right key, whose programmer-mode note is 18 (note 11 is
/// the bottom-left key, pad 56).
pub open spec fn spec_pad_note(pad: int) -> int {
    (8 - pad / 8) * 10 + pad % 8 + 1
}

/// The `i`-th note of the grid scanned bottom row first, left to right:
/// 11..18, 21..28, ..., 81..88.
pub open spec fn spec_grid_note(i: int) -> int {
    (i / 8 + 1) * 10 + i % 8 + 1
}

/// The position of a pad's note in the bottom-first grid scan.
pub open spec fn spec_grid_index(pad: int) -> int {
    (7 - pad / 8) * 8 + pad % 8
}

/// A note of the 8x8 grid in programmer mode: tens and units both in 1..=8.
pub open spec fn is_grid_note(n: int) -> bool {
    1 <= n / 10 <= 8 && 1 <= n % 10 <= 8
}

/// The pad that a grid note belongs to.
pub open spec fn spec_note_pad(n: int) -> int {
    (8 - n / 10) * 8 + (n % 10 - 1)
}

/// The default LED colour of the pads in column `i` (0..8).
pub open spec fn spec_color_by_index(i: int) -> u8 {
    if i == 0 { COLOR_RED }
    else if i == 1 { COLOR_ORANGE }
    else if i == 2 { COLOR_YELLOW }
    else if i == 3 { COLOR_GREEN }
    else if i == 4 { COLOR_CYAN }
    else if i == 5 { COLOR_BLUE }
    else if i == 6 { COLOR_PURPLE }
    else { COLOR_PINK }
}

/// The SysEx header of Novation devices: F0 00 20 29 02.
pub open spec fn spec_sysex_header() -> Seq<u8> {
    seq![0xF0u8, 0x00u8, 0x20u8, 0x29u8, 0x02u8]
}

/// The programmer-mode command for a device model byte: header, model, 0E 01, F7.
pub open spec fn spec_programmer_mode_message(model: u8) -> Seq<u8> {
    spec_sysex_header() + seq![model, 0x0Eu8, 0x01u8, SYSEX_END]
}

/// The single-LED SysEx message that sets the LED of `note` to `color`:
/// header, 0D 03, channel 0, note, colour velocity, F7.
pub open spec fn spec_led_message(note: u8, color: u8) -> Seq<u8> {
    spec_sysex_header() + seq![0x0Du8, SET_LED_COMMAND, 0x00u8, note, color, SYSEX_END]
}

/// The programmer-mode note of a pad.
pub fn pad_id_to_note(pad_id: usize) -> (note: u8)
    requires
        pad_id < 64,
    ensures
        note == spec_pad_note(pad_id as int),
        is_grid_note(note as int),
        spec_note_pad(note as int) == pad_id,
{
    let row = pad_id / 8;
    let col = pad_id % 8;
    ((8 - row) * 10 + col + 1) as u8
}

/// The pad of a grid note, `None` for a note outside the 8x8 grid.
pub fn note_to_pad_id(note: u8) -> (pad: Option<usize>)
    ensures
        match pad {
            Some(p) => {
                &&& is_grid_note(note as int)
                &&& p < 64
                &&& p == spec_note_pad(note as int)
                &&& spec_pad_note(p as int) == note
            },
            None => !is_grid_note(note as int),
        },
{
    let tens = note / 10;
    let units = note % 10;
    if 1 <= tens && tens <= 8 && 1 <= units && units <= 8 {
        let p = ((8 - tens) as usize) * 8 + (units - 1) as usize;
        Some(p)
    } else {
        None
    }
}

/// The default colour of the pads in column `index`: the eight pad colours
/// red, orange, yellow, green, cyan, blue, purple, pink from left to right.
pub fn pad_color_by_index(index: usize) -> (color: u8)
    requires
        index < 8,
    ensures
        color == spec_color_by_index(index as int),
{
    if index == 0 { COLOR_RED }
    else if index == 1 { COLOR_ORANGE }
    else if index == 2 { COLOR_YELLOW }
    else if index == 3 { COLOR_GREEN }
    else if index == 4 { COLOR_CYAN }
    else if index == 5 { COLOR_BLUE }
    else if index == 6 { COLOR_PURPLE }
    else { COLOR_PINK }
}

/// The two SysEx commands that switch a Launchpad MK2 (model 0x0D, then
/// 0x0C) into programmer mode.
pub fn programmer_mode_messages() -> (msgs: Vec<Vec<u8>>)
    ensures
        msgs@.len() == 2,
        msgs@[0]@ == spec_programmer_mode_message(0x0D),
        msgs@[1]@ == spec_programmer_mode_message(0x0C),
{
    let m1: Vec<u8> = vec![SYSEX_START, 0x00, 0x20, 0x29, 0x02, 0x0D, 0x0E, 0x01, SYSEX_END];
    let m2: Vec<u8> = vec![SYSEX_START, 0x00, 0x20, 0x29, 0x02, 0x0C, 0x0E, 0x01, SYSEX_END];
    assert(m1@ =~= spec_programmer_mode_message(0x0D));
    assert(m2@ =~= spec_programmer_mode_message(0x0C));
    vec![m1, m2]
}

/// The SysEx message that sets one LED:
/// `F0 00 20 29 02 0D 03 00 <note> <color> F7`.
pub fn led_message(note: u8, color: u8) -> (msg: Vec<u8>)
    ensures
        msg@ == spec_led_message(note, color),
        msg@ == seq![0xF0u8, 0x00u8, 0x20u8, 0x29u8, 0x02u8, 0x0Du8, 0x03u8, 0x00u8, note, color, 0xF7u8],
{
    let m: Vec<u8> = vec![SYSEX_START, 0x00, 0x20, 0x29, 0x02, 0x0D, SET_LED_COMMAND, 0x00, note, color, SYSEX_END];
    assert(m@ =~= seq![0xF0u8, 0x00u8, 0x20u8, 0x29u8, 0x02u8, 0x0Du8, 0x03u8, 0x00u8, note, color, 0xF7u8]);
    assert(m@ =~= spec_led_message(note, color));
    m
}

/// All 64 grid notes, bottom row first, left to right.
pub fn all_grid_notes() -> (notes: Vec<u8>)
    ensures
        notes@.len() == 64,
        forall|i: int| 0 <= i < 64 ==> #[trigger] notes@[i] as int == spec_grid_note(i),
{
    let mut notes: Vec<u8> = Vec::new();
    let mut row: u8 = 0;
    while row < 8
        invariant
            row <= 8,
            notes@.len() == row as int * 8,
            forall|i: int| 0 <= i < notes@.len() ==> #[trigger] notes@[i] as int == spec_grid_note(i),
        decreases 8 - row,
    {
        let mut col: u8 = 0;
        while col < 8
            invariant
                row < 8,
                col <= 8,
                notes@.len() == row as int * 8 + col as int,
                forall|i: int| 0 <= i < notes@.len() ==> #[trigger] notes@[i] as int == spec_grid_note(i),
            decreases 8 - col,
        {
            let note = (row + 1) * 10 + (col + 1);
            let ghost i = notes@.len() as int;
            assert(i / 8 == row as int && i % 8 == col as int);
            notes.push(note);
            col = col + 1;
        }
        row = row + 1;
    }
    notes
}

/// The 64 messages that turn every LED of the grid off, bottom row first.
pub fn clear_all_leds_messages() -> (msgs: Vec<Vec<u8>>)
    ensures
        msgs@.len() == 64,
        forall|i: int| 0 <= i < 64 ==> #[trigger] msgs@[i]@ == spec_led_message(spec_grid_note(i) as u8, COLOR_OFF),
{
    let notes = all_grid_notes();
    let mut msgs: Vec<Vec<u8>> = Vec::new();
    let mut i: usize = 0;
    while i < notes.len()
        invariant
            notes@.len() == 64,
            forall|j: int| 0 <= j < 64 ==> #[trigger] notes@[j] as int == spec_grid_note(j),
            i <= 64,
            msgs@.len() == i,
            forall|j: int| 0 <= j < i ==> #[trigger] msgs@[j]@ == spec_led_message(spec_grid_note(j) as u8, COLOR_OFF),
        decreases 64 - i,
    {
        let m = led_message(notes[i], COLOR_OFF);
        msgs.push(m);
        i = i + 1;
    }
    msgs
}

/// Every pad has its own grid note, and every grid note belongs to a pad:
/// the pad layout is a bijection between pads 0..64 and the 64 grid notes.
pub proof fn lemma_pad_layout_bijective()
    ensures
        forall|p: int| 0 <= p < 64 ==> is_grid_note(#[trigger] spec_pad_note(p)),
        forall|p: int| 0 <= p < 64 ==> spec_note_pad(#[trigger] spec_pad_note(p)) == p,
        forall|n: int| is_grid_note(n) && 0 <= n ==> {
            let p = #[trigger] spec_note_pad(n);
            0 <= p < 64 && spec_pad_note(p) == n
        },
        forall|p: int, q: int| 0 <= p < 64 && 0 <= q < 64 && #[trigger] spec_pad_note(p) == #[trigger] spec_pad_note(q) ==> p == q,
{
    assert forall|p: int| 0 <= p < 64 implies is_grid_note(#[trigger] spec_pad_note(p)) && spec_note_pad(spec_pad_note(p)) == p by {
        let r = p / 8;
        let c = p % 8;
        assert(spec_pad_note(p) == (8 - r) * 10 + c + 1);
        assert(((8 - r) * 10 + c + 1) / 10 == 8 - r);
        assert(((8 - r) * 10 + c + 1) % 10 == c + 1);
    }
    assert forall|n: int| is_grid_note(n) && 0 <= n implies {
        let p = #[trigger] spec_note_pad(n);
        0 <= p < 64 && spec_pad_note(p) == n
    } by {
        let t = n / 10;
        let u = n % 10;
        let p = (8 - t) * 8 + (u - 1);
        assert(p / 8 == 8 - t);
        assert(p % 8 == u - 1);
    }
    assert forall|p: int, q: int| 0 <= p < 64 && 0 <= q < 64 && #[trigger] spec_pad_note(p) == #[trigger] spec_pad_note(q) implies p == q by {
        assert(spec_note_pad(spec_pad_note(p)) == p);
        assert(spec_note_pad(spec_pad_note(q)) == q);
    }
}

/// The LEDs cleared by `clear_all_leds_messages` are exactly the LEDs of the
/// 64 pads: each cleared note is a pad's note, and each pad's note is cleared.
pub proof fn lemma_clear_covers_every_pad()
    ensures
        forall|i: int| 0 <= i < 64 ==> {
            let p = #[trigger] spec_note_pad(spec_grid_note(i));
            0 <= p < 64 && spec_pad_note(p) == spec_grid_note(i)
        },
        forall|p: int| 0 <= p < 64 ==> {
            let i = #[trigger] spec_grid_index(p);
            0 <= i < 64 && spec_grid_note(i) == spec_pad_note(p)
        },
{
    lemma_pad_layout_bijective();
    assert forall|i: int| 0 <= i < 64 implies is_grid_note(#[trigger] spec_grid_note(i)) by {
        let n = spec_grid_note(i);
        assert(n == (i / 8 + 1) * 10 + i % 8 + 1);
        assert(n / 10 == i / 8 + 1);
        assert(n % 10 == i % 8 + 1);
    }
    assert forall|i: int| 0 <= i < 64 implies {
        let p = #[trigger] spec_note_pad(spec_grid_note(i));
        0 <= p < 64 && spec_pad_note(p) == spec_grid_note(i)
    } by {
        assert(is_grid_note(spec_grid_note(i)));
    }
    assert forall|p: int| 0 <= p < 64 implies {
        let i = #[trigger] spec_grid_index(p);
        0 <= i < 64 && spec_grid_note(i) == spec_pad_note(p)
    } by {
        let i = spec_grid_index(p);
        assert(i / 8 == 7 - p / 8);
        assert(i % 8 == p % 8);
        assert(spec_grid_note(i) == spec_pad_note(p));
    }
}

} // verus!
