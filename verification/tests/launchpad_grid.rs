use sampleur::launchpad::{
    all_grid_notes, clear_all_leds_messages, led_message, note_to_pad_id, pad_color_by_index, pad_id_to_note,
    programmer_mode_messages, COLOR_BLUE, COLOR_CYAN, COLOR_OFF, COLOR_PINK, COLOR_RED,
};

#[test]
fn pad_notes_follow_the_grid() {
    assert_eq!(pad_id_to_note(0), 81);
    assert_eq!(pad_id_to_note(7), 88);
    assert_eq!(pad_id_to_note(8), 71);
    assert_eq!(pad_id_to_note(56), 11);
    assert_eq!(pad_id_to_note(63), 18);
}

#[test]
fn notes_back_to_pads() {
    assert_eq!(note_to_pad_id(81), Some(0));
    assert_eq!(note_to_pad_id(18), Some(63));
    assert_eq!(note_to_pad_id(11), Some(56));
    assert_eq!(note_to_pad_id(10), None);
    assert_eq!(note_to_pad_id(19), None);
    assert_eq!(note_to_pad_id(90), None);
    assert_eq!(note_to_pad_id(5), None);
    for p in 0..64usize {
        assert_eq!(note_to_pad_id(pad_id_to_note(p)), Some(p));
    }
}

#[test]
fn pad_layout_is_a_bijection() {
    let mut seen = Vec::new();
    for p in 0..64usize {
        let n = pad_id_to_note(p);
        assert!(!seen.contains(&n));
        seen.push(n);
    }
    let mut grid = all_grid_notes();
    grid.sort();
    seen.sort();
    assert_eq!(grid, seen);
}

#[test]
fn grid_notes_bottom_row_first() {
    let g = all_grid_notes();
    assert_eq!(g.len(), 64);
    assert_eq!(&g[0..9], &[11, 12, 13, 14, 15, 16, 17, 18, 21]);
    assert_eq!(g[63], 88);
}

#[test]
fn default_colors_by_column() {
    assert_eq!(pad_color_by_index(0), COLOR_RED);
    assert_eq!(pad_color_by_index(4), COLOR_CYAN);
    assert_eq!(pad_color_by_index(5), COLOR_BLUE);
    assert_eq!(pad_color_by_index(7), COLOR_PINK);
    assert_eq!(COLOR_CYAN, 29);
}

#[test]
fn programmer_mode_sysex() {
    let m = programmer_mode_messages();
    assert_eq!(m.len(), 2);
    assert_eq!(m[0], vec![0xF0, 0x00, 0x20, 0x29, 0x02, 0x0D, 0x0E, 0x01, 0xF7]);
    assert_eq!(m[1], vec![0xF0, 0x00, 0x20, 0x29, 0x02, 0x0C, 0x0E, 0x01, 0xF7]);
}

#[test]
fn led_messages() {
    assert_eq!(led_message(81, 5), vec![0xF0, 0x00, 0x20, 0x29, 0x02, 0x0D, 0x03, 0x00, 81, 5, 0xF7]);
    let c = clear_all_leds_messages();
    assert_eq!(c.len(), 64);
    assert_eq!(c[0], vec![0xF0, 0x00, 0x20, 0x29, 0x02, 0x0D, 0x03, 0x00, 11, COLOR_OFF, 0xF7]);
    assert_eq!(c[63], vec![0xF0, 0x00, 0x20, 0x29, 0x02, 0x0D, 0x03, 0x00, 88, COLOR_OFF, 0xF7]);
}
