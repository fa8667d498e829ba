use ergodox::keymap::{KeyMatrix, COLS, ROWS};
use ergodox::report::{build_report, KeyboardReport};

fn no_keys() -> KeyMatrix {
    [[false; COLS]; ROWS]
}

fn slot_ok(b: u8) -> bool {
    b == 0 || (b > 1 && b < 0xE0) || (b > 0xE7 && b < 0xF0)
}

#[test]
fn empty_report_is_all_zero() {
    let r = KeyboardReport::empty();
    assert_eq!(r.to_bytes(), [0u8; 8]);
    assert_eq!(build_report(&no_keys(), 0), r);
}

#[test]
fn modifier_sets_bit_and_key_takes_slot() {
    let mut keys = no_keys();
    keys[2][0] = true; // LCtrl
    keys[2][1] = true; // A
    let r = build_report(&keys, 0);
    assert_eq!(r.modifiers, 0x01);
    assert_eq!(r.reserved, 0);
    assert_eq!(r.keys, [0x04, 0, 0, 0, 0, 0]);
    assert_eq!(r.to_bytes(), [0x01, 0, 0x04, 0, 0, 0, 0, 0]);
}

#[test]
fn keys_fill_slots_in_row_major_order_and_seventh_is_dropped() {
    let mut keys = no_keys();
    for col in 1..6 {
        keys[1][col] = true; // Q W E R T
    }
    keys[2][1] = true; // A
    keys[2][2] = true; // S (seventh: dropped)
    let r = build_report(&keys, 0);
    assert_eq!(r.keys, [0x14, 0x1A, 0x08, 0x15, 0x17, 0x04]);
}

#[test]
fn layer_and_transparent_keys_stay_out_of_slots() {
    let mut keys = no_keys();
    keys[2][6] = true; // Layer1
    keys[0][6] = true; // transparent on both layers
    let r = build_report(&keys, 0);
    assert_eq!(r, KeyboardReport::empty());
}

#[test]
fn higher_layer_resolves_keys() {
    let mut keys = no_keys();
    keys[2][8] = true;
    keys[1][1] = true; // transparent on layer 1: falls to Q
    let r = build_report(&keys, 1);
    assert_eq!(r.keys, [0x14, 0x50, 0, 0, 0, 0]);
}

#[test]
fn many_modifiers_combine() {
    let mut keys = no_keys();
    keys[2][0] = true; // LCtrl
    keys[4][1] = true; // LAlt
    keys[4][2] = true; // LGui
    keys[5][10] = true; // RShift
    let r = build_report(&keys, 0);
    assert_eq!(r.modifiers, 0x01 | 0x04 | 0x08 | 0x20);
    assert_eq!(r.keys, [0; 6]);
}

#[test]
fn no_slot_ever_holds_a_modifier_layer_or_rollover_code() {
    let mut keys = no_keys();
    for row in 0..ROWS {
        for col in 0..COLS {
            keys[row][col] = true;
            for layer in 0..2 {
                let r = build_report(&keys, layer);
                assert!(r.keys.iter().all(|&b| slot_ok(b)));
            }
        }
    }
}
